//! What the kernel says about this process.

use crate::text::{
    a_prefix_and_the_rest_make_the_text, after_prefix, bounded_value, from_chars, parse_unsigned,
    split_lines, split_words, strip_prefix, text_lines, to_chars, unsigned_value, views, words,
};
use vstd::prelude::*;

verus! {

/// How many clock ticks the kernel counts in a second.
pub const USER_HZ: u64 = 100;

/// The place of the last closing parenthesis, counted from the front.
pub open spec fn last_parenthesis(text: Seq<char>) -> Option<int>
    decreases text.len(),
{
    if text.len() == 0 {
        None
    } else if text.last() == ')' {
        Some(text.len() - 1)
    } else {
        last_parenthesis(text.drop_last())
    }
}

/// The words behind the command name of a process status line.
///
/// The name stands in parentheses and may hold spaces and parentheses itself, so that only
/// what follows the last closing one is split.
pub open spec fn status_words(stat: Seq<char>) -> Option<Seq<Seq<char>>> {
    match last_parenthesis(stat) {
        Some(at) => Some(words(stat.skip(at + 1))),
        None => None,
    }
}

/// The user and system ticks of a process status line: the twelfth and the thirteenth word
/// behind the command name.
pub open spec fn cpu_ticks(stat: Seq<char>) -> Option<(u64, u64)> {
    match status_words(stat) {
        Some(list) => if list.len() >= 13 {
            match (bounded_value(list[11], u64::MAX), bounded_value(list[12], u64::MAX)) {
                (Some(user), Some(system)) => Some((user, system)),
                _ => None,
            }
        } else {
            None
        },
        None => None,
    }
}

/// The user and system clock ticks of a process, out of its status line.
pub fn parse_process_cpu_ticks(stat: &str) -> (ticks: Option<(u64, u64)>)
    ensures
        ticks == cpu_ticks(stat@),
{
    let chars = to_chars(stat);
    let mut end: usize = chars.len();
    assert(stat@.take(end as int) =~= stat@);
    while end > 0 && chars[end - 1] != ')'
        invariant
            end <= chars.len(),
            chars@ == stat@,
            last_parenthesis(stat@) == last_parenthesis(stat@.take(end as int)),
        decreases end,
    {
        proof {
            assert(stat@.take(end as int).last() == chars@[end - 1]);
            assert(stat@.take(end as int).drop_last() =~= stat@.take(end - 1));
        }
        end = end - 1;
    }
    if end == 0 {
        return None;
    }
    proof {
        assert(stat@.take(end as int).last() == ')');
        assert(last_parenthesis(stat@) == Some(end - 1));
    }
    let rest = from_chars(&chars, end, chars.len());
    assert(rest@ =~= stat@.skip(end as int));
    let list = split_words(rest.as_str());
    let ghost all = words(rest@);
    assert(views(list@) == all);
    if list.len() < 13 {
        return None;
    }
    assert(all[11] == list@[11]@ && all[12] == list@[12]@);
    let user = parse_unsigned(list[11].as_str(), u64::MAX);
    let system = parse_unsigned(list[12].as_str(), u64::MAX);
    match (user, system) {
        (Some(user), Some(system)) => Some((user, system)),
        _ => None,
    }
}

/// The number that a line states for a key: the first word behind the key, where the line
/// begins with the key and the word is a number.
pub open spec fn line_value(line: Seq<char>, key: Seq<char>) -> Option<u64> {
    match after_prefix(line, key) {
        Some(rest) => if words(rest).len() > 0 {
            bounded_value(words(rest)[0], u64::MAX)
        } else {
            None
        },
        None => None,
    }
}

/// The number that the first line states that states one for a key.
pub open spec fn first_value(lines: Seq<Seq<char>>, key: Seq<char>) -> Option<u64>
    decreases lines.len(),
{
    if lines.len() == 0 {
        None
    } else {
        match line_value(lines[0], key) {
            Some(value) => Some(value),
            None => first_value(lines.drop_first(), key),
        }
    }
}

/// The number that a status text states for a key.
pub open spec fn status_value(status: Seq<char>, key: Seq<char>) -> Option<u64> {
    first_value(text_lines(status), key)
}

fn value_of_line(line: &str, key: &str) -> (value: Option<u64>)
    ensures
        value == line_value(line@, key@),
{
    match strip_prefix(line, key) {
        Some(rest) => {
            let list = split_words(rest.as_str());
            if list.len() > 0 {
                assert(words(rest@)[0] == list@[0]@);
                parse_unsigned(list[0].as_str(), u64::MAX)
            } else {
                assert(words(rest@).len() == 0);
                None
            }
        },
        None => None,
    }
}

/// The number that a status text states for a key.
pub fn read_status_field(status: &str, key: &str) -> (value: Option<u64>)
    ensures
        value == status_value(status@, key@),
{
    let lines = split_lines(status);
    let ghost all = views(lines@);
    let mut i: usize = 0;
    assert(all.skip(0) =~= all);
    while i < lines.len()
        invariant
            i <= lines@.len(),
            all == views(lines@),
            all == text_lines(status@),
            first_value(all, key@) == first_value(all.skip(i as int), key@),
        decreases lines.len() - i,
    {
        proof {
            assert(all.skip(i as int)[0] == lines@[i as int]@);
            assert(all.skip(i as int).drop_first() =~= all.skip(i + 1));
        }
        if let Some(value) = value_of_line(lines[i].as_str(), key) {
            return Some(value);
        }
        i = i + 1;
    }
    None
}

/// The resident set size that a status text states, which counts in units of 1024 bytes.
pub open spec fn rss_bytes(status: Seq<char>) -> Option<u64> {
    match status_value(status, "VmRSS:"@) {
        Some(units) => Some(
            if units * 1024 > u64::MAX {
                u64::MAX
            } else {
                (units * 1024) as u64
            },
        ),
        None => None,
    }
}

/// The resident set size of a process in bytes, out of its status text.
pub fn process_rss_bytes(status: &str) -> (bytes: Option<u64>)
    ensures
        bytes == rss_bytes(status@),
{
    match read_status_field(status, "VmRSS:") {
        Some(units) => Some(
            if units > 0x003f_ffff_ffff_ffff {
                u64::MAX
            } else {
                units * 1024
            },
        ),
        None => None,
    }
}

/// The number of threads of a process, out of its status text.
pub fn process_thread_count(status: &str) -> (threads: Option<u64>)
    ensures
        threads == status_value(status@, "Threads:"@),
{
    read_status_field(status, "Threads:")
}

/// The number of open file descriptors, given the entries of the listing: the listing itself
/// holds one open.
pub fn open_file_descriptor_count(entries: u64) -> (count: u64)
    ensures
        count == if entries == 0 {
            0
        } else {
            entries - 1
        },
{
    entries.saturating_sub(1)
}

proof fn lemma_last_parenthesis(text: Seq<char>, at: int)
    requires
        -1 <= at < text.len(),
        at >= 0 ==> text[at] == ')',
        forall|i: int| at < i < text.len() ==> #[trigger] text[i] != ')',
    ensures
        last_parenthesis(text) == if at >= 0 {
            Some(at)
        } else {
            None
        },
    decreases text.len(),
{
    if text.len() > 0 && at < text.len() - 1 {
        assert(text.last() == text[text.len() - 1]);
        lemma_last_parenthesis(text.drop_last(), at);
    }
}

/// The ticks of a status line are the numbers in the twelfth and the thirteenth word behind
/// its last closing parenthesis, whatever stands before that; there are none where either is
/// missing or no number, or where there is no parenthesis.
pub proof fn ticks_stand_behind_the_command_name(
    command: Seq<char>,
    rest: Seq<char>,
    user: u64,
    system: u64,
)
    requires
        forall|i: int| 0 <= i < rest.len() ==> #[trigger] rest[i] != ')',
    ensures
        cpu_ticks(command + seq![')'] + rest) == Some((user, system)) <==> words(rest).len() >= 13
            && unsigned_value(words(rest)[11]) == Some(user as nat) && unsigned_value(
            words(rest)[12],
        ) == Some(system as nat),
        cpu_ticks(rest) is None,
{
    let stat = command + seq![')'] + rest;
    let at = command.len() as int;
    assert forall|i: int| at < i < stat.len() implies #[trigger] stat[i] != ')' by {
        assert(stat[i] == rest[i - at - 1]);
    }
    lemma_last_parenthesis(stat, at);
    assert(stat.skip(at + 1) =~= rest);
    lemma_last_parenthesis(rest, -1);
}

/// Whether a line states a number for a key: it is the key, and behind it a first word that
/// writes the number.
pub open spec fn states_for(line: Seq<char>, key: Seq<char>, n: u64) -> bool {
    exists|rest: Seq<char>|
        line == #[trigger] (key + rest) && words(rest).len() > 0 && unsigned_value(words(rest)[0])
            == Some(n as nat)
}

proof fn lemma_line_value(line: Seq<char>, key: Seq<char>, n: u64)
    ensures
        line_value(line, key) == Some(n) <==> states_for(line, key, n),
{
    if line_value(line, key) == Some(n) {
        let rest = after_prefix(line, key)->0;
        a_prefix_and_the_rest_make_the_text(line, key, rest);
        assert(line == key + rest);
    }
    if states_for(line, key, n) {
        let rest = choose|rest: Seq<char>|
            line == #[trigger] (key + rest) && words(rest).len() > 0 && unsigned_value(
                words(rest)[0],
            ) == Some(n as nat);
        a_prefix_and_the_rest_make_the_text(line, key, rest);
    }
}

proof fn lemma_first_value(lines: Seq<Seq<char>>, key: Seq<char>, i: int, n: u64)
    requires
        0 <= i < lines.len(),
        line_value(lines[i], key) == Some(n),
        forall|j: int| 0 <= j < i ==> line_value(#[trigger] lines[j], key) is None,
    ensures
        first_value(lines, key) == Some(n),
    decreases lines.len(),
{
    if i > 0 {
        let rest = lines.drop_first();
        assert(line_value(lines[0], key) is None);
        assert forall|j: int| 0 <= j < i - 1 implies line_value(#[trigger] rest[j], key) is None by {
            assert(rest[j] == lines[j + 1]);
        }
        lemma_first_value(rest, key, i - 1, n);
    }
}

proof fn lemma_no_value(lines: Seq<Seq<char>>, key: Seq<char>)
    requires
        forall|j: int| 0 <= j < lines.len() ==> line_value(#[trigger] lines[j], key) is None,
    ensures
        first_value(lines, key) is None,
    decreases lines.len(),
{
    if lines.len() > 0 {
        let rest = lines.drop_first();
        assert forall|j: int| 0 <= j < rest.len() implies line_value(
            #[trigger] rest[j],
            key,
        ) is None by {
            assert(rest[j] == lines[j + 1]);
        }
        lemma_no_value(rest, key);
    }
}

/// The number of a key is the one in the first line that states one for it; there is none
/// where no line does.
pub proof fn the_first_line_that_states_a_number_counts(
    status: Seq<char>,
    key: Seq<char>,
    i: int,
    n: u64,
)
    ensures
        ({
            let lines = text_lines(status);
            &&& 0 <= i < lines.len() && states_for(lines[i], key, n) && (forall|j: int, m: u64|
                0 <= j < i ==> !#[trigger] states_for(lines[j], key, m)) ==> status_value(
                status,
                key,
            ) == Some(n)
            &&& (forall|j: int, m: u64|
                0 <= j < lines.len() ==> !#[trigger] states_for(lines[j], key, m)) ==> status_value(
                status,
                key,
            ) is None
        }),
{
    let lines = text_lines(status);
    if 0 <= i < lines.len() && states_for(lines[i], key, n) && (forall|j: int, m: u64|
        0 <= j < i ==> !#[trigger] states_for(lines[j], key, m)) {
        lemma_line_value(lines[i], key, n);
        assert forall|j: int| 0 <= j < i implies line_value(#[trigger] lines[j], key) is None by {
            if let Some(m) = line_value(lines[j], key) {
                lemma_line_value(lines[j], key, m);
                assert(states_for(lines[j], key, m));
            }
        }
        lemma_first_value(lines, key, i, n);
    }
    if forall|j: int, m: u64| 0 <= j < lines.len() ==> !#[trigger] states_for(lines[j], key, m) {
        assert forall|j: int| 0 <= j < lines.len() implies line_value(
            #[trigger] lines[j],
            key,
        ) is None by {
            if let Some(m) = line_value(lines[j], key) {
                lemma_line_value(lines[j], key, m);
                assert(states_for(lines[j], key, m));
            }
        }
        lemma_no_value(lines, key);
    }
}

/// The resident set size is 1024 times what the status text states, as long as that fits, and
/// the largest number else; it is missing exactly where the text states none.
pub proof fn the_resident_set_is_in_bytes(status: Seq<char>, units: u64)
    ensures
        status_value(status, "VmRSS:"@) is None <==> rss_bytes(status) is None,
        status_value(status, "VmRSS:"@) == Some(units) && units * 1024 <= u64::MAX ==> rss_bytes(
            status,
        ) == Some((units * 1024) as u64),
        status_value(status, "VmRSS:"@) == Some(units) && units * 1024 > u64::MAX ==> rss_bytes(
            status,
        ) == Some(u64::MAX),
{
}

} // verus!
