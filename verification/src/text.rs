//! Text primitives: characters, whitespace, words, lines, numbers, and the order of strings.

use vstd::prelude::*;
use vstd::utf8::is_ascii_chars;

verus! {

/// `String::push` appends one character at the end.
pub assume_specification[ String::push ](text: &mut String, c: char)
    ensures
        final(text)@ == old(text)@.push(c),
;

/// The characters of each string of a list.
pub open spec fn views(list: Seq<String>) -> Seq<Seq<char>> {
    list.map_values(|text: String| text@)
}

/// The characters of an optional string.
pub open spec fn opt_view(text: Option<String>) -> Option<Seq<char>> {
    match text {
        Some(text) => Some(text@),
        None => None,
    }
}

/// The characters of an optional borrowed string.
pub open spec fn opt_str_view(text: Option<&str>) -> Option<Seq<char>> {
    match text {
        Some(text) => Some(text@),
        None => None,
    }
}

/// A copy of an optional string.
pub fn copy_opt(text: &Option<String>) -> (copy: Option<String>)
    ensures
        opt_view(copy) == opt_view(*text),
{
    match text {
        Some(text) => Some(text.clone()),
        None => None,
    }
}

/// `list` with the member of `item` appended where there is one.
pub open spec fn push_opt<A>(list: Seq<A>, item: Option<A>) -> Seq<A> {
    match item {
        Some(item) => list.push(item),
        None => list,
    }
}

/// The members of a list with an optional one appended.
pub proof fn lemma_push_opt<A>(list: Seq<A>, item: Option<A>, member: A)
    ensures
        push_opt(list, item).contains(member) <==> list.contains(member) || item == Some(member),
{
    if let Some(one) = item {
        let grown = list.push(one);
        if list.contains(member) {
            let i = choose|i: int| 0 <= i < list.len() && list[i] == member;
            assert(grown[i] == member);
        }
        if one == member {
            assert(grown[list.len() as int] == member);
        }
        if grown.contains(member) {
            let i = choose|i: int| 0 <= i < grown.len() && grown[i] == member;
            if i < list.len() {
                assert(list[i] == member);
            }
        }
    }
}

/// Whether `text` holds no character.
pub fn is_empty(text: &str) -> (empty: bool)
    ensures
        empty == (text@.len() == 0),
{
    to_chars(text).len() == 0
}

/// The characters of `text`, in order.
pub fn to_chars(text: &str) -> (chars: Vec<char>)
    ensures
        chars@ == text@,
{
    let mut chars: Vec<char> = Vec::new();
    for c in it: text.chars()
        invariant
            chars@ == text@.take(it.index()),
            it.seq() == text@,
    {
        chars.push(c);
        assert(text@.take(it.index() + 1) =~= text@.take(it.index()).push(c));
    }
    assert(text@.take(text@.len() as int) =~= text@);
    chars
}

/// The string made of the characters `from..to` of `chars`.
pub fn from_chars(chars: &Vec<char>, from: usize, to: usize) -> (text: String)
    requires
        from <= to <= chars.len(),
    ensures
        text@ == chars@.subrange(from as int, to as int),
{
    let mut text = String::new();
    let mut i: usize = from;
    while i < to
        invariant
            from <= i <= to <= chars.len(),
            text@ == chars@.subrange(from as int, i as int),
        decreases to - i,
    {
        text.push(chars[i]);
        assert(chars@.subrange(from as int, i + 1) =~= chars@.subrange(from as int, i as int).push(
            chars@[i as int],
        ));
        i = i + 1;
    }
    text
}

/// Whether two strings hold the same characters.
pub fn same_text(a: &str, b: &str) -> (same: bool)
    ensures
        same == (a@ == b@),
{
    let left = to_chars(a);
    let right = to_chars(b);
    if left.len() != right.len() {
        return false;
    }
    let mut i: usize = 0;
    while i < left.len()
        invariant
            left@ == a@,
            right@ == b@,
            left@.len() == right@.len(),
            i <= left.len(),
            forall|j: int| 0 <= j < i ==> left@[j] == right@[j],
        decreases left.len() - i,
    {
        if left[i] != right[i] {
            return false;
        }
        i = i + 1;
    }
    assert(left@ =~= right@);
    true
}

/// The concatenation of two strings.
pub fn join_two(a: &str, b: &str) -> (text: String)
    ensures
        text@ == a@ + b@,
{
    let mut text = a.to_owned();
    text.append(b);
    text
}

// ── Whitespace ──────────────────────────────────────────────────────

/// The Unicode `White_Space` property.
pub open spec fn is_white_space(c: char) -> bool {
    let u = c as u32;
    ||| 0x9 <= u <= 0xd
    ||| u == 0x20
    ||| u == 0x85
    ||| u == 0xa0
    ||| u == 0x1680
    ||| 0x2000 <= u <= 0x200a
    ||| u == 0x2028
    ||| u == 0x2029
    ||| u == 0x202f
    ||| u == 0x205f
    ||| u == 0x3000
}

/// Whether `c` has the Unicode `White_Space` property.
pub fn white_space(c: char) -> (white: bool)
    ensures
        white == is_white_space(c),
{
    let u: u32 = c as u32;
    (0x9 <= u && u <= 0xd) || u == 0x20 || u == 0x85 || u == 0xa0 || u == 0x1680 || (0x2000 <= u && u
        <= 0x200a) || u == 0x2028 || u == 0x2029 || u == 0x202f || u == 0x205f || u == 0x3000
}

/// How many whitespace characters `text` starts with.
pub open spec fn leading_space(text: Seq<char>) -> nat
    decreases text.len(),
{
    if text.len() > 0 && is_white_space(text[0]) {
        1 + leading_space(text.drop_first())
    } else {
        0
    }
}

/// How many whitespace characters `text` ends with.
pub open spec fn trailing_space(text: Seq<char>) -> nat
    decreases text.len(),
{
    if text.len() > 0 && is_white_space(text.last()) {
        1 + trailing_space(text.drop_last())
    } else {
        0
    }
}

/// `text` without the whitespace at either end.
pub open spec fn trimmed_text(text: Seq<char>) -> Seq<char> {
    if leading_space(text) >= text.len() {
        Seq::empty()
    } else {
        text.subrange(leading_space(text) as int, text.len() - trailing_space(text))
    }
}

/// Whether `text` holds nothing but whitespace.
pub open spec fn is_blank(text: Seq<char>) -> bool {
    forall|i: int| 0 <= i < text.len() ==> is_white_space(#[trigger] text[i])
}

proof fn lemma_leading_space(text: Seq<char>)
    ensures
        leading_space(text) <= text.len(),
        forall|i: int| 0 <= i < leading_space(text) ==> is_white_space(#[trigger] text[i]),
        leading_space(text) < text.len() ==> !is_white_space(text[leading_space(text) as int]),
    decreases text.len(),
{
    if text.len() > 0 && is_white_space(text[0]) {
        let rest = text.drop_first();
        lemma_leading_space(rest);
        assert forall|i: int| 0 <= i < leading_space(text) implies is_white_space(
            #[trigger] text[i],
        ) by {
            if i > 0 {
                assert(text[i] == rest[i - 1]);
            }
        }
    }
}

proof fn lemma_leading_space_unique(text: Seq<char>, n: nat)
    requires
        n <= text.len(),
        forall|i: int| 0 <= i < n ==> is_white_space(#[trigger] text[i]),
        n < text.len() ==> !is_white_space(text[n as int]),
    ensures
        leading_space(text) == n,
    decreases text.len(),
{
    lemma_leading_space(text);
    let m = leading_space(text);
    if m < n {
        assert(is_white_space(text[m as int]));
    } else if n < m {
        assert(is_white_space(text[n as int]));
    }
}

proof fn lemma_trailing_space(text: Seq<char>)
    ensures
        trailing_space(text) <= text.len(),
        forall|i: int|
            text.len() - trailing_space(text) <= i < text.len() ==> is_white_space(
                #[trigger] text[i],
            ),
        trailing_space(text) < text.len() ==> !is_white_space(
            text[text.len() - trailing_space(text) - 1],
        ),
    decreases text.len(),
{
    if text.len() > 0 && is_white_space(text.last()) {
        let rest = text.drop_last();
        lemma_trailing_space(rest);
        assert forall|i: int|
            text.len() - trailing_space(text) <= i < text.len() implies is_white_space(
            #[trigger] text[i],
        ) by {
            if i < text.len() - 1 {
                assert(text[i] == rest[i]);
            }
        }
        if trailing_space(text) < text.len() {
            assert(text[text.len() - trailing_space(text) - 1] == rest[rest.len()
                - trailing_space(rest) - 1]);
        }
    }
}

proof fn lemma_trailing_space_unique(text: Seq<char>, n: nat)
    requires
        n <= text.len(),
        forall|i: int| text.len() - n <= i < text.len() ==> is_white_space(#[trigger] text[i]),
        n < text.len() ==> !is_white_space(text[text.len() - n - 1]),
    ensures
        trailing_space(text) == n,
{
    lemma_trailing_space(text);
    let m = trailing_space(text);
    if m < n {
        assert(is_white_space(text[text.len() - m - 1]));
    } else if n < m {
        assert(is_white_space(text[text.len() - n - 1]));
    }
}

/// Trimming leaves nothing exactly where there is nothing but whitespace; otherwise what is
/// left is a piece of the text that neither starts nor ends with whitespace, with nothing
/// but whitespace before and after it.
pub proof fn trimming_removes_only_outer_whitespace(text: Seq<char>)
    ensures
        (trimmed_text(text).len() == 0) == is_blank(text),
        !is_blank(text) ==> ({
            let kept = trimmed_text(text);
            let before = text.take(leading_space(text) as int);
            let after = text.skip(text.len() - trailing_space(text));
            &&& text == before + kept + after
            &&& is_blank(before)
            &&& is_blank(after)
            &&& !is_white_space(kept[0])
            &&& !is_white_space(kept.last())
        }),
{
    lemma_leading_space(text);
    lemma_trailing_space(text);
    let lead = leading_space(text) as int;
    let trail = trailing_space(text) as int;
    if lead < text.len() {
        assert(!is_white_space(text[lead]));
        assert(trail < text.len());
        assert(lead <= text.len() - trail - 1) by {
            if lead > text.len() - trail - 1 {
                assert(is_white_space(text[lead]));
            }
        }
        let kept = trimmed_text(text);
        let before = text.take(lead);
        let after = text.skip(text.len() - trail);
        assert(text =~= before + kept + after);
        assert(!is_white_space(text[lead]));
        assert(!is_blank(text));
        assert(kept[0] == text[lead]);
        assert(kept.last() == text[text.len() - trail - 1]);
    } else {
        assert(is_blank(text));
    }
}

/// `text` without the whitespace at either end.
pub fn trim(text: &str) -> (kept: String)
    ensures
        kept@ == trimmed_text(text@),
{
    let chars = to_chars(text);
    let mut from: usize = 0;
    while from < chars.len() && white_space(chars[from])
        invariant
            from <= chars.len(),
            forall|i: int| 0 <= i < from ==> is_white_space(#[trigger] chars@[i]),
        decreases chars.len() - from,
    {
        from = from + 1;
    }
    proof {
        lemma_leading_space_unique(chars@, from as nat);
    }
    if from == chars.len() {
        return String::new();
    }
    let mut to: usize = chars.len();
    while to > from && white_space(chars[to - 1])
        invariant
            from < chars.len(),
            from <= to <= chars.len(),
            !is_white_space(chars@[from as int]),
            forall|i: int| to <= i < chars.len() ==> is_white_space(#[trigger] chars@[i]),
        decreases to,
    {
        to = to - 1;
    }
    proof {
        if to == from {
            assert(is_white_space(chars@[from as int]));
        }
        lemma_trailing_space_unique(chars@, (chars.len() - to) as nat);
    }
    from_chars(&chars, from, to)
}

/// Whether `text` holds nothing but whitespace.
pub fn blank(text: &str) -> (only_space: bool)
    ensures
        only_space == is_blank(text@),
{
    let chars = to_chars(text);
    let mut i: usize = 0;
    while i < chars.len()
        invariant
            i <= chars.len(),
            chars@ == text@,
            forall|j: int| 0 <= j < i ==> is_white_space(#[trigger] chars@[j]),
        decreases chars.len() - i,
    {
        if !white_space(chars[i]) {
            assert(!is_white_space(text@[i as int]));
            return false;
        }
        i = i + 1;
    }
    true
}

// ── Words ───────────────────────────────────────────────────────────

/// The whitespace-separated words of `text`, in order: its maximal runs of characters that
/// are not whitespace.
pub open spec fn words(text: Seq<char>) -> Seq<Seq<char>>
    decreases text.len(),
{
    if text.len() == 0 {
        Seq::empty()
    } else {
        let before = words(text.drop_last());
        if is_white_space(text.last()) {
            before
        } else if text.len() == 1 || is_white_space(text[text.len() - 2]) {
            before.push(seq![text.last()])
        } else {
            before.update(before.len() - 1, before.last().push(text.last()))
        }
    }
}

/// The strings of `list`, in order, with `separator` between each two of them.
pub open spec fn joined(list: Seq<Seq<char>>, separator: Seq<char>) -> Seq<char>
    decreases list.len(),
{
    if list.len() == 0 {
        Seq::empty()
    } else if list.len() == 1 {
        list[0]
    } else {
        joined(list.drop_last(), separator) + separator + list.last()
    }
}

/// `text` with each run of whitespace replaced by one space and none at either end.
pub open spec fn space_collapsed(text: Seq<char>) -> Seq<char> {
    joined(words(text), seq![' '])
}

proof fn lemma_words_nonempty(text: Seq<char>)
    ensures
        text.len() > 0 && !is_white_space(text.last()) ==> words(text).len() > 0,
        forall|i: int| 0 <= i < words(text).len() ==> (#[trigger] words(text)[i]).len() > 0,
    decreases text.len(),
{
    if text.len() > 0 {
        lemma_words_nonempty(text.drop_last());
        if !is_white_space(text.last()) && text.len() > 1 && !is_white_space(text[text.len() - 2]) {
            assert(text.drop_last().last() == text[text.len() - 2]);
        }
    }
}

/// The whitespace-separated words of `text`, in order.
pub fn split_words(text: &str) -> (list: Vec<String>)
    ensures
        views(list@) == words(text@),
{
    let chars = to_chars(text);
    let mut list: Vec<String> = Vec::new();
    let mut i: usize = 0;
    assert(chars@.take(0) =~= Seq::<char>::empty());
    assert(views(list@) =~= words(chars@.take(0)));
    while i < chars.len()
        invariant
            i <= chars.len(),
            chars@ == text@,
            views(list@) == words(chars@.take(i as int)),
        decreases chars.len() - i,
    {
        let ghost done = chars@.take(i as int);
        let ghost next = chars@.take(i + 1);
        let ghost list_before = list@;
        assert(next.drop_last() =~= done);
        assert(next.last() == chars@[i as int]);
        if white_space(chars[i]) {
        } else if i == 0 || white_space(chars[i - 1]) {
            assert(next.len() > 1 ==> next[next.len() - 2] == chars@[i - 1]);
            let mut word = String::new();
            word.push(chars[i]);
            assert(word@ =~= seq![chars@[i as int]]);
            list.push(word);
            assert(views(list@) =~= views(list_before).push(seq![chars@[i as int]]));
        } else {
            proof {
                lemma_words_nonempty(done);
                assert(done.last() == chars@[i - 1]);
                assert(next[next.len() - 2] == chars@[i - 1]);
                assert(views(list_before).len() == list_before.len());
            }
            let mut word = String::new();
            let last = list.pop();
            if let Some(last) = last {
                word = last;
            }
            assert(word@ == views(list_before).last());
            word.push(chars[i]);
            list.push(word);
            assert(views(list@) =~= views(list_before).update(
                list_before.len() - 1,
                views(list_before).last().push(chars@[i as int]),
            ));
        }
        i = i + 1;
    }
    assert(chars@.take(chars@.len() as int) =~= chars@);
    list
}

/// The strings of `list`, in order, with `separator` between each two of them.
pub fn join(list: &Vec<String>, separator: &str) -> (text: String)
    ensures
        text@ == joined(views(list@), separator@),
{
    let mut text = String::new();
    let mut i: usize = 0;
    let ghost all = views(list@);
    assert(all.take(0) =~= Seq::<Seq<char>>::empty());
    while i < list.len()
        invariant
            i <= list.len(),
            all == views(list@),
            text@ == joined(all.take(i as int), separator@),
        decreases list.len() - i,
    {
        proof {
            assert(all.take(i + 1).drop_last() =~= all.take(i as int));
            assert(all.take(i + 1).last() == list@[i as int]@);
        }
        if i > 0 {
            text.append(separator);
        } else {
            assert(text@ + list@[0]@ =~= list@[0]@);
        }
        text.append(list[i].as_str());
        i = i + 1;
    }
    assert(all.take(all.len() as int) =~= all);
    text
}

/// `text` with each run of whitespace replaced by one space and none at either end.
pub fn collapse_space(text: &str) -> (collapsed: String)
    ensures
        collapsed@ == space_collapsed(text@),
{
    let list = split_words(text);
    proof {
        reveal_strlit(" ");
        assert(" "@ =~= seq![' ']);
    }
    join(&list, " ")
}

/// Whether `text` is one word: not empty, and without whitespace.
pub open spec fn is_word(text: Seq<char>) -> bool {
    &&& text.len() > 0
    &&& forall|i: int| 0 <= i < text.len() ==> !is_white_space(#[trigger] text[i])
}

/// Whether `text` has no whitespace at either end, and elsewhere none but single spaces.
pub open spec fn is_collapsed(text: Seq<char>) -> bool {
    &&& text.len() > 0 ==> !is_white_space(text[0]) && !is_white_space(text.last())
    &&& forall|i: int|
        0 <= i < text.len() - 1 && is_white_space(#[trigger] text[i]) ==> text[i] == ' '
            && !is_white_space(text[i + 1])
}

proof fn lemma_words_are_words(text: Seq<char>)
    ensures
        forall|i: int| 0 <= i < words(text).len() ==> is_word(#[trigger] words(text)[i]),
    decreases text.len(),
{
    if text.len() > 0 {
        let before = words(text.drop_last());
        lemma_words_are_words(text.drop_last());
        lemma_words_nonempty(text.drop_last());
        assert forall|i: int| 0 <= i < words(text).len() implies is_word(
            #[trigger] words(text)[i],
        ) by {
            if i < before.len() {
                assert(is_word(before[i]));
            }
        }
    }
}

proof fn lemma_words_of_blank(text: Seq<char>)
    requires
        is_blank(text),
    ensures
        words(text) == Seq::<Seq<char>>::empty(),
    decreases text.len(),
{
    if text.len() > 0 {
        assert(is_white_space(text[text.len() - 1]));
        assert(is_blank(text.drop_last())) by {
            assert forall|i: int| 0 <= i < text.drop_last().len() implies is_white_space(
                #[trigger] text.drop_last()[i],
            ) by {
                assert(is_white_space(text[i]));
            }
        }
        lemma_words_of_blank(text.drop_last());
    }
}

proof fn lemma_words_behind_blank(before: Seq<char>, text: Seq<char>)
    requires
        is_blank(before),
    ensures
        words(before + text) == words(text),
    decreases text.len(),
{
    let whole = before + text;
    if text.len() == 0 {
        assert(whole =~= before);
        lemma_words_of_blank(before);
    } else {
        lemma_words_behind_blank(before, text.drop_last());
        assert(whole.drop_last() =~= before + text.drop_last());
        assert(whole.last() == text.last());
        if text.len() == 1 {
            if before.len() > 0 {
                assert(whole[whole.len() - 2] == before[before.len() - 1]);
                assert(is_white_space(before[before.len() - 1]));
            }
        } else {
            assert(whole[whole.len() - 2] == text[text.len() - 2]);
        }
    }
}

proof fn lemma_words_before_blank(text: Seq<char>, after: Seq<char>)
    requires
        is_blank(after),
    ensures
        words(text + after) == words(text),
    decreases after.len(),
{
    let whole = text + after;
    if after.len() == 0 {
        assert(whole =~= text);
    } else {
        assert(is_blank(after.drop_last())) by {
            assert forall|i: int| 0 <= i < after.drop_last().len() implies is_white_space(
                #[trigger] after.drop_last()[i],
            ) by {
                assert(is_white_space(after[i]));
            }
        }
        lemma_words_before_blank(text, after.drop_last());
        assert(whole.drop_last() =~= text + after.drop_last());
        assert(whole.last() == after[after.len() - 1]);
    }
}

proof fn lemma_words_with_word(text: Seq<char>, word: Seq<char>)
    requires
        is_word(word),
        text.len() > 0 ==> is_white_space(text.last()),
    ensures
        words(text + word) == words(text).push(word),
    decreases word.len(),
{
    let whole = text + word;
    assert(whole.last() == word[word.len() - 1]);
    if word.len() == 1 {
        assert(whole.drop_last() =~= text);
        assert(word =~= seq![whole.last()]);
        if text.len() > 0 {
            assert(whole[whole.len() - 2] == text.last());
        }
    } else {
        let front = word.drop_last();
        assert forall|i: int| 0 <= i < front.len() implies !is_white_space(#[trigger] front[i]) by {
            assert(!is_white_space(word[i]));
        }
        lemma_words_with_word(text, front);
        assert(whole.drop_last() =~= text + front);
        assert(whole[whole.len() - 2] == word[word.len() - 2]);
        let before = words(text).push(front);
        assert(front.push(word.last()) =~= word);
        assert(before.update(before.len() - 1, word) =~= words(text).push(word));
    }
}

/// Words that are joined by spaces are read back as they were, and the text is collapsed.
proof fn lemma_joined_words(list: Seq<Seq<char>>)
    requires
        forall|i: int| 0 <= i < list.len() ==> is_word(#[trigger] list[i]),
    ensures
        words(joined(list, seq![' '])) == list,
        is_collapsed(joined(list, seq![' '])),
        list.len() > 0 ==> joined(list, seq![' ']).len() > 0,
    decreases list.len(),
{
    let space = seq![' '];
    let text = joined(list, space);
    if list.len() == 1 {
        assert(is_word(list[0]));
        lemma_words_with_word(Seq::empty(), list[0]);
        assert(Seq::<char>::empty() + list[0] =~= list[0]);
        assert(words(text) =~= list);
    } else if list.len() > 1 {
        let front = list.drop_last();
        let start = joined(front, space);
        let word = list.last();
        assert(is_word(list[list.len() - 1]));
        assert forall|i: int| 0 <= i < front.len() implies is_word(#[trigger] front[i]) by {
            assert(is_word(list[i]));
        }
        lemma_joined_words(front);
        assert(is_blank(space));
        lemma_words_before_blank(start, space);
        assert((start + space).last() == ' ');
        lemma_words_with_word(start + space, word);
        assert(words(text) =~= list);
        assert(text[0] == start[0]);
        assert(text.last() == word[word.len() - 1]);
        assert forall|i: int|
            0 <= i < text.len() - 1 && is_white_space(#[trigger] text[i]) implies text[i] == ' '
            && !is_white_space(text[i + 1]) by {
            if i < start.len() {
                assert(text[i] == start[i]);
                assert(i < start.len() - 1);
                assert(text[i + 1] == start[i + 1]);
            } else if i == start.len() {
                assert(text[i + 1] == word[0]);
            } else {
                assert(text[i] == word[i - start.len() - 1]);
            }
        }
    }
}

proof fn lemma_joined_with_character(list: Seq<Seq<char>>, separator: Seq<char>, c: char)
    requires
        list.len() > 0,
    ensures
        joined(list.update(list.len() - 1, list.last().push(c)), separator) == joined(
            list,
            separator,
        ).push(c),
{
    let grown = list.update(list.len() - 1, list.last().push(c));
    if list.len() > 1 {
        assert(grown.drop_last() =~= list.drop_last());
        assert(joined(grown, separator) =~= joined(list, separator).push(c));
    }
}

/// A text without leading whitespace and without whitespace but single spaces is what its
/// words are joined to, but for a space at its end.
proof fn lemma_joined_words_of_collapsed(text: Seq<char>)
    requires
        text.len() > 0 ==> !is_white_space(text[0]),
        forall|i: int|
            0 <= i < text.len() - 1 && is_white_space(#[trigger] text[i]) ==> text[i] == ' '
                && !is_white_space(text[i + 1]),
    ensures
        space_collapsed(text) == if text.len() > 0 && is_white_space(text.last()) {
            text.drop_last()
        } else {
            text
        },
    decreases text.len(),
{
    if text.len() > 0 {
        let front = text.drop_last();
        let list = words(front);
        let c = text.last();
        assert forall|i: int| 0 <= i < front.len() - 1 && is_white_space(#[trigger] front[i]) implies
            front[i] == ' ' && !is_white_space(front[i + 1]) by {
            assert(is_white_space(text[i]));
            assert(front[i + 1] == text[i + 1]);
        }
        lemma_joined_words_of_collapsed(front);
        if text.len() == 1 {
            assert(list =~= Seq::<Seq<char>>::empty());
            assert(space_collapsed(text) =~= text);
        } else {
            let previous = text[text.len() - 2];
            assert(front.last() == previous);
            if is_white_space(c) {
                assert(!is_white_space(previous));
            } else if is_white_space(previous) {
                assert(previous == ' ');
                assert(front.len() > 1);
                assert(list.len() > 0);
                assert(list.push(seq![c]).drop_last() =~= list);
                assert(space_collapsed(text) =~= text);
            } else {
                lemma_words_nonempty(front);
                lemma_joined_with_character(list, seq![' '], c);
                assert(space_collapsed(text) =~= text);
            }
        }
    }
}

/// Collapsing the space of a text changes it exactly where there is something to collapse.
pub proof fn a_collapsed_text_stays_as_it_is(text: Seq<char>)
    ensures
        is_collapsed(text) <==> space_collapsed(text) == text,
{
    collapsing_space_twice_is_collapsing_it_once(text);
    if is_collapsed(text) {
        lemma_joined_words_of_collapsed(text);
    }
}

proof fn lemma_words_of_ascii(text: Seq<char>)
    requires
        is_ascii_chars(text),
    ensures
        forall|i: int| 0 <= i < words(text).len() ==> is_ascii_chars(#[trigger] words(text)[i]),
    decreases text.len(),
{
    if text.len() > 0 {
        let before = words(text.drop_last());
        assert('\0' <= text[text.len() - 1] <= '\u{7f}');
        lemma_words_of_ascii(text.drop_last());
        lemma_words_nonempty(text.drop_last());
        assert forall|i: int| 0 <= i < words(text).len() implies is_ascii_chars(
            #[trigger] words(text)[i],
        ) by {
            if i < before.len() {
                assert(is_ascii_chars(before[i]));
            }
        }
    }
}

proof fn lemma_joined_ascii(list: Seq<Seq<char>>)
    requires
        forall|i: int| 0 <= i < list.len() ==> is_ascii_chars(#[trigger] list[i]),
    ensures
        is_ascii_chars(joined(list, seq![' '])),
    decreases list.len(),
{
    if list.len() > 0 {
        assert(is_ascii_chars(list[list.len() - 1]));
        let front = list.drop_last();
        assert forall|i: int| 0 <= i < front.len() implies is_ascii_chars(#[trigger] front[i]) by {
            assert(is_ascii_chars(list[i]));
        }
        lemma_joined_ascii(front);
    }
}

/// The collapsed form of an ASCII text is an ASCII text.
pub proof fn collapsing_space_keeps_ascii(text: Seq<char>)
    requires
        is_ascii_chars(text),
    ensures
        is_ascii_chars(space_collapsed(text)),
{
    lemma_words_of_ascii(text);
    lemma_joined_ascii(words(text));
}

/// Whitespace parts the words of a text, one word is itself, and nothing has no words.
pub proof fn words_are_parted_by_whitespace(before: Seq<char>, c: char, after: Seq<char>)
    ensures
        is_white_space(c) ==> words(before + seq![c] + after) == words(before) + words(after),
        is_word(after) ==> words(after) == seq![after],
        words(Seq::empty()) == Seq::<Seq<char>>::empty(),
{
    if is_white_space(c) {
        lemma_words_parted(before, c, after);
    }
    if is_word(after) {
        lemma_words_with_word(Seq::empty(), after);
        assert(Seq::<char>::empty() + after =~= after);
        assert(words(Seq::<char>::empty()).push(after) =~= seq![after]);
    }
}

proof fn lemma_words_parted(before: Seq<char>, c: char, after: Seq<char>)
    requires
        is_white_space(c),
    ensures
        words(before + seq![c] + after) == words(before) + words(after),
    decreases after.len(),
{
    let whole = before + seq![c] + after;
    if after.len() == 0 {
        assert(whole.drop_last() =~= before);
        assert(whole.last() == c);
        assert(words(before) + words(after) =~= words(before));
    } else {
        let rest = after.drop_last();
        lemma_words_parted(before, c, rest);
        assert(whole.drop_last() =~= before + seq![c] + rest);
        assert(whole.last() == after.last());
        lemma_words_nonempty(rest);
        if after.len() == 1 {
            assert(whole[whole.len() - 2] == c);
        } else {
            assert(whole[whole.len() - 2] == after[after.len() - 2]);
            assert(rest.last() == after[after.len() - 2]);
        }
        assert(words(whole) =~= words(before) + words(after));
    }
}

/// The strings of two lists are joined one list behind the other, with the separator between.
pub proof fn lists_are_joined_one_behind_the_other(
    first: Seq<Seq<char>>,
    second: Seq<Seq<char>>,
    separator: Seq<char>,
)
    ensures
        first.len() > 0 && second.len() > 0 ==> joined(first + second, separator) == joined(
            first,
            separator,
        ) + separator + joined(second, separator),
        first.len() == 1 ==> joined(first, separator) == first[0],
        joined(Seq::empty(), separator) == Seq::<char>::empty(),
    decreases second.len(),
{
    if first.len() > 0 && second.len() > 0 {
        let rest = second.drop_last();
        let all = first + second;
        assert(all.drop_last() =~= first + rest);
        assert(all.last() == second.last());
        if second.len() == 1 {
            assert(first + rest =~= first);
        } else {
            lists_are_joined_one_behind_the_other(first, rest, separator);
            assert(joined(all, separator) =~= joined(first, separator) + separator + joined(
                second,
                separator,
            ));
        }
    }
}

/// A text whose space was collapsed has no whitespace at either end and none but single
/// spaces within, holds the same words, and is not changed by collapsing it again.
pub proof fn collapsing_space_twice_is_collapsing_it_once(text: Seq<char>)
    ensures
        is_collapsed(space_collapsed(text)),
        words(space_collapsed(text)) == words(text),
        space_collapsed(space_collapsed(text)) == space_collapsed(text),
{
    lemma_words_are_words(text);
    lemma_joined_words(words(text));
}

/// Whitespace around a text adds no word to it and does not show in its collapsed form.
pub proof fn whitespace_around_a_text_does_not_matter(
    before: Seq<char>,
    text: Seq<char>,
    after: Seq<char>,
)
    requires
        is_blank(before),
        is_blank(after),
    ensures
        words(before + text + after) == words(text),
        space_collapsed(before + text + after) == space_collapsed(text),
{
    lemma_words_before_blank(before + text, after);
    lemma_words_behind_blank(before, text);
}

// ── ASCII case ──────────────────────────────────────────────────────

/// `c` with an ASCII capital turned into its small letter.
pub open spec fn ascii_lower(c: char) -> char {
    if 'A' <= c && c <= 'Z' {
        ((c as u32) + 32) as char
    } else {
        c
    }
}

/// `c` with an ASCII small letter turned into its capital.
pub open spec fn ascii_upper(c: char) -> char {
    if 'a' <= c && c <= 'z' {
        ((c as u32) - 32) as char
    } else {
        c
    }
}

/// `text` with each ASCII small letter turned into its capital.
pub open spec fn ascii_uppercase(text: Seq<char>) -> Seq<char> {
    text.map_values(|c: char| ascii_upper(c))
}

/// Turning the small letters of an ASCII text into capitals gives an ASCII text, changes no
/// whitespace, and does nothing when it is done again.
pub proof fn ascii_capitals_stay_as_they_are(text: Seq<char>)
    requires
        is_ascii_chars(text),
    ensures
        is_ascii_chars(ascii_uppercase(text)),
        ascii_uppercase(ascii_uppercase(text)) == ascii_uppercase(text),
        is_collapsed(text) ==> is_collapsed(ascii_uppercase(text)),
{
    let upper = ascii_uppercase(text);
    assert forall|i: int| 0 <= i < upper.len() implies '\0' <= #[trigger] upper[i] <= '\u{7f}' by {
        assert('\0' <= text[i] <= '\u{7f}');
    }
    assert(ascii_uppercase(upper) =~= upper);
    if is_collapsed(text) {
        assert forall|i: int|
            0 <= i < upper.len() - 1 && is_white_space(#[trigger] upper[i]) implies upper[i] == ' '
            && !is_white_space(upper[i + 1]) by {
            assert(upper[i] == ascii_upper(text[i]));
            assert(upper[i + 1] == ascii_upper(text[i + 1]));
            assert(is_white_space(text[i]));
        }
    }
}

/// Whether two strings are equal but for the case of ASCII letters.
pub open spec fn same_ignoring_ascii_case(a: Seq<char>, b: Seq<char>) -> bool {
    a.map_values(|c: char| ascii_lower(c)) == b.map_values(|c: char| ascii_lower(c))
}

fn lower_letter(c: char) -> (lower: char)
    ensures
        lower == ascii_lower(c),
{
    if 'A' <= c && c <= 'Z' {
        let code: u32 = c as u32;
        let small: u8 = (code as u8) + 32;
        small as char
    } else {
        c
    }
}

/// Whether two strings are equal but for the case of ASCII letters.
pub fn equals_ignoring_ascii_case(a: &str, b: &str) -> (same: bool)
    ensures
        same == same_ignoring_ascii_case(a@, b@),
{
    let left = to_chars(a);
    let right = to_chars(b);
    let ghost lower_left = left@.map_values(|c: char| ascii_lower(c));
    let ghost lower_right = right@.map_values(|c: char| ascii_lower(c));
    if left.len() != right.len() {
        assert(lower_left.len() != lower_right.len());
        return false;
    }
    let mut i: usize = 0;
    while i < left.len()
        invariant
            left@ == a@,
            right@ == b@,
            left@.len() == right@.len(),
            i <= left.len(),
            lower_left == left@.map_values(|c: char| ascii_lower(c)),
            lower_right == right@.map_values(|c: char| ascii_lower(c)),
            forall|j: int| 0 <= j < i ==> lower_left[j] == lower_right[j],
        decreases left.len() - i,
    {
        if lower_letter(left[i]) != lower_letter(right[i]) {
            assert(lower_left[i as int] != lower_right[i as int]);
            return false;
        }
        i = i + 1;
    }
    assert(lower_left =~= lower_right);
    true
}

/// The Unicode uppercase of a string, as the standard library maps it.
pub uninterp spec fn uppercase(text: Seq<char>) -> Seq<char>;

/// `str::to_uppercase`. The whole Unicode mapping has a name only; of a string of ASCII
/// characters the contract says that each small letter becomes its capital and every other
/// character stays.
#[verifier::external_body]
pub(crate) fn to_upper(text: &str) -> (upper: String)
    ensures
        upper@ == uppercase(text@),
        is_ascii_chars(text@) ==> upper@ == ascii_uppercase(text@),
{
    text.to_uppercase()
}

// ── Numbers ─────────────────────────────────────────────────────────

/// Whether `c` is one of the ASCII digits.
pub open spec fn is_digit(c: char) -> bool {
    '0' <= c && c <= '9'
}

/// Whether every character of `text` is an ASCII digit.
pub open spec fn all_digits(text: Seq<char>) -> bool {
    forall|i: int| 0 <= i < text.len() ==> is_digit(#[trigger] text[i])
}

/// The number that a string of digits writes in base ten.
pub open spec fn decimal_value(digits: Seq<char>) -> nat
    decreases digits.len(),
{
    if digits.len() == 0 {
        0
    } else {
        (decimal_value(digits.drop_last()) * 10 + (digits.last() as u32 - '0' as u32)) as nat
    }
}

/// The digits of `text`: what follows an optional leading `+`.
pub open spec fn unsigned_digits(text: Seq<char>) -> Seq<char> {
    if text.len() > 0 && text[0] == '+' {
        text.drop_first()
    } else {
        text
    }
}

/// The number that `text` writes: an optional `+` and at least one digit, or none.
pub open spec fn unsigned_value(text: Seq<char>) -> Option<nat> {
    let digits = unsigned_digits(text);
    if digits.len() > 0 && all_digits(digits) {
        Some(decimal_value(digits))
    } else {
        None
    }
}

/// The number that `text` writes where it is at most `max`.
pub open spec fn bounded_value(text: Seq<char>, max: u64) -> Option<u64> {
    match unsigned_value(text) {
        Some(value) => if value <= max {
            Some(value as u64)
        } else {
            None
        },
        None => None,
    }
}

/// Whether `c` is one of the ASCII digits.
pub fn digit(c: char) -> (is: bool)
    ensures
        is == is_digit(c),
{
    '0' <= c && c <= '9'
}

/// Read an unsigned decimal number that is at most `max`.
pub fn parse_unsigned(text: &str, max: u64) -> (value: Option<u64>)
    ensures
        value == bounded_value(text@, max),
{
    let chars = to_chars(text);
    let start: usize = if chars.len() > 0 && chars[0] == '+' {
        1
    } else {
        0
    };
    let ghost digits = unsigned_digits(text@);
    assert(digits =~= chars@.skip(start as int));
    if start == chars.len() {
        return None;
    }
    let mut total: u64 = 0;
    let mut over = false;
    let mut i: usize = start;
    assert(digits.take(0) =~= Seq::<char>::empty());
    while i < chars.len()
        invariant
            start <= i <= chars.len(),
            chars@ == text@,
            digits == unsigned_digits(text@),
            digits == chars@.skip(start as int),
            forall|j: int| 0 <= j < i - start ==> is_digit(#[trigger] digits[j]),
            !over ==> total == decimal_value(digits.take(i - start)) && total <= max,
            over ==> decimal_value(digits.take(i - start)) > max,
        decreases chars.len() - i,
    {
        let c = chars[i];
        assert(digits[i - start] == c);
        if !digit(c) {
            assert(!is_digit(digits[i - start]));
            return None;
        }
        let unit: u64 = (c as u32 - '0' as u32) as u64;
        proof {
            assert(digits.take(i + 1 - start).drop_last() =~= digits.take(i - start));
            assert(digits.take(i + 1 - start).last() == c);
        }
        if !over {
            let wide: u128 = (total as u128) * 10 + (unit as u128);
            if wide > (max as u128) {
                over = true;
            } else {
                total = wide as u64;
            }
        }
        i = i + 1;
    }
    assert(digits.take(digits.len() as int) =~= digits);
    if over {
        None
    } else {
        Some(total)
    }
}

/// The base-ten digits of `n`, without leading zeros.
pub open spec fn decimal_text(n: nat) -> Seq<char>
    decreases n,
{
    if n < 10 {
        seq![(48 + n) as char]
    } else {
        decimal_text(n / 10).push((48 + n % 10) as char)
    }
}

/// The base-ten digits of `n`, without leading zeros.
pub fn decimal(n: u64) -> (text: String)
    ensures
        text@ == decimal_text(n as nat),
    decreases n,
{
    let unit: u8 = (n % 10) as u8;
    let c: char = (48 + unit) as char;
    if n < 10 {
        let mut text = String::new();
        text.push(c);
        assert(text@ =~= seq![c]);
        text
    } else {
        let mut text = decimal(n / 10);
        text.push(c);
        text
    }
}

pub proof fn lemma_decimal_text(n: nat)
    ensures
        decimal_text(n).len() > 0,
        all_digits(decimal_text(n)),
        decimal_value(decimal_text(n)) == n,
    decreases n,
{
    if n < 10 {
        let text = seq![(48 + n) as char];
        assert(text.drop_last() =~= Seq::<char>::empty());
        assert(decimal_value(text.drop_last()) == 0);
        assert(text.last() as u32 == 48 + n);
    } else {
        lemma_decimal_text(n / 10);
        let text = decimal_text(n);
        assert(text.drop_last() =~= decimal_text(n / 10));
        assert forall|i: int| 0 <= i < text.len() implies is_digit(#[trigger] text[i]) by {
            if i < text.len() - 1 {
                assert(text[i] == decimal_text(n / 10)[i]);
            }
        }
    }
}

/// A number that was written in base ten is read back unchanged.
pub proof fn written_numbers_read_back(n: u64)
    ensures
        bounded_value(decimal_text(n as nat), u64::MAX) == Some(n),
{
    lemma_decimal_text(n as nat);
    let text = decimal_text(n as nat);
    assert(is_digit(text[0]));
}

// ── Order ───────────────────────────────────────────────────────────

/// Whether `a` comes before `b` in the lexicographic order of their characters.
pub open spec fn text_before(a: Seq<char>, b: Seq<char>) -> bool
    decreases a.len(),
{
    if b.len() == 0 {
        false
    } else if a.len() == 0 {
        true
    } else if a[0] == b[0] {
        text_before(a.drop_first(), b.drop_first())
    } else {
        a[0] < b[0]
    }
}

/// Where one value stands relative to another.
#[derive(Debug, Clone, Copy, PartialEq, Eq, Structural)]
pub enum Placement {
    Before,
    Same,
    After,
}

proof fn lemma_text_before_shared(a: Seq<char>, b: Seq<char>, n: int)
    requires
        0 <= n <= a.len(),
        n <= b.len(),
        a.take(n) == b.take(n),
    ensures
        text_before(a, b) == text_before(a.skip(n), b.skip(n)),
    decreases n,
{
    if n == 0 {
        assert(a.skip(0) =~= a);
        assert(b.skip(0) =~= b);
    } else {
        assert(a[0] == a.take(n)[0] && b[0] == b.take(n)[0]);
        assert(a.drop_first().take(n - 1) =~= a.take(n).drop_first());
        assert(b.drop_first().take(n - 1) =~= b.take(n).drop_first());
        lemma_text_before_shared(a.drop_first(), b.drop_first(), n - 1);
        assert(a.drop_first().skip(n - 1) =~= a.skip(n));
        assert(b.drop_first().skip(n - 1) =~= b.skip(n));
    }
}

/// No string comes before itself.
pub proof fn text_order_is_irreflexive(a: Seq<char>)
    ensures
        !text_before(a, a),
    decreases a.len(),
{
    if a.len() > 0 {
        text_order_is_irreflexive(a.drop_first());
    }
}

/// The order of strings is transitive.
pub proof fn text_order_is_transitive(a: Seq<char>, b: Seq<char>, c: Seq<char>)
    requires
        text_before(a, b),
        text_before(b, c),
    ensures
        text_before(a, c),
    decreases a.len(),
{
    if a.len() > 0 && b.len() > 0 && c.len() > 0 && a[0] == b[0] && b[0] == c[0] {
        text_order_is_transitive(a.drop_first(), b.drop_first(), c.drop_first());
    }
}

/// Of two different strings one comes before the other.
pub proof fn text_order_is_total(a: Seq<char>, b: Seq<char>)
    ensures
        a == b || text_before(a, b) || text_before(b, a),
    decreases a.len(),
{
    if a.len() > 0 && b.len() > 0 && a[0] == b[0] {
        text_order_is_total(a.drop_first(), b.drop_first());
        if a.drop_first() == b.drop_first() {
            assert(a =~= seq![a[0]] + a.drop_first());
            assert(b =~= seq![b[0]] + b.drop_first());
        }
    } else if a.len() == 0 && b.len() == 0 {
        assert(a =~= b);
    }
}

/// Where `a` stands relative to `b` in the lexicographic order of their characters.
pub fn place_text(a: &str, b: &str) -> (placement: Placement)
    ensures
        placement is Before <==> text_before(a@, b@),
        placement is Same <==> a@ == b@,
        placement is After <==> text_before(b@, a@),
{
    let left = to_chars(a);
    let right = to_chars(b);
    let mut i: usize = 0;
    while i < left.len() && i < right.len() && left[i] == right[i]
        invariant
            left@ == a@,
            right@ == b@,
            i <= left.len(),
            i <= right.len(),
            left@.take(i as int) =~= right@.take(i as int),
        decreases left.len() - i,
    {
        assert(left@.take(i + 1) =~= left@.take(i as int).push(left@[i as int]));
        assert(right@.take(i + 1) =~= right@.take(i as int).push(right@[i as int]));
        i = i + 1;
    }
    proof {
        lemma_text_before_shared(a@, b@, i as int);
        lemma_text_before_shared(b@, a@, i as int);
        text_order_is_irreflexive(a@);
        if i < left.len() {
            assert(a@.skip(i as int)[0] == a@[i as int]);
        }
        if i < right.len() {
            assert(b@.skip(i as int)[0] == b@[i as int]);
        }
    }
    if i < left.len() {
        if i < right.len() {
            if left[i] < right[i] {
                Placement::Before
            } else {
                Placement::After
            }
        } else {
            Placement::After
        }
    } else if i < right.len() {
        Placement::Before
    } else {
        proof {
            assert(a@.take(i as int) =~= a@);
            assert(b@.take(i as int) =~= b@);
        }
        Placement::Same
    }
}

// ── Pieces ──────────────────────────────────────────────────────────

/// Whether `piece` occurs in `text` as a run of adjacent characters.
pub open spec fn has_piece(text: Seq<char>, piece: Seq<char>) -> bool {
    exists|at: int| #[trigger] piece_at(text, piece, at)
}

/// Whether `piece` stands in `text` at character `at`.
pub open spec fn piece_at(text: Seq<char>, piece: Seq<char>, at: int) -> bool {
    0 <= at && at + piece.len() <= text.len() && text.subrange(at, at + piece.len()) == piece
}

fn chars_have_piece_at(text: &Vec<char>, piece: &Vec<char>, at: usize) -> (here: bool)
    ensures
        here == piece_at(text@, piece@, at as int),
{
    if at > text.len() || text.len() - at < piece.len() {
        return false;
    }
    let mut i: usize = 0;
    while i < piece.len()
        invariant
            i <= piece.len(),
            at + piece.len() <= text.len(),
            forall|j: int| 0 <= j < i ==> text@[at + j] == piece@[j],
        decreases piece.len() - i,
    {
        if text[at + i] != piece[i] {
            assert(text@.subrange(at as int, at + piece.len())[i as int] != piece@[i as int]);
            return false;
        }
        i = i + 1;
    }
    assert(text@.subrange(at as int, at + piece.len()) =~= piece@);
    true
}

/// Whether `piece` occurs in `text`.
pub fn contains_piece(text: &str, piece: &str) -> (found: bool)
    ensures
        found == has_piece(text@, piece@),
{
    let chars = to_chars(text);
    let part = to_chars(piece);
    let mut at: usize = 0;
    while at < chars.len()
        invariant
            at <= chars.len(),
            chars@ == text@,
            part@ == piece@,
            forall|k: int| 0 <= k < at ==> !#[trigger] piece_at(text@, piece@, k),
        decreases chars.len() - at,
    {
        if chars_have_piece_at(&chars, &part, at) {
            return true;
        }
        at = at + 1;
    }
    chars_have_piece_at(&chars, &part, at)
}

/// What follows `prefix` where `text` starts with it.
pub open spec fn after_prefix(text: Seq<char>, prefix: Seq<char>) -> Option<Seq<char>> {
    if piece_at(text, prefix, 0) {
        Some(text.skip(prefix.len() as int))
    } else {
        None
    }
}

/// What follows `prefix` where `text` starts with it.
pub fn strip_prefix(text: &str, prefix: &str) -> (rest: Option<String>)
    ensures
        opt_view(rest) == after_prefix(text@, prefix@),
{
    let chars = to_chars(text);
    let start = to_chars(prefix);
    if chars_have_piece_at(&chars, &start, 0) {
        let rest = from_chars(&chars, start.len(), chars.len());
        assert(rest@ =~= text@.skip(prefix@.len() as int));
        Some(rest)
    } else {
        None
    }
}

// ── Lines ───────────────────────────────────────────────────────────

/// Where the first line feed of `text` stands; the length of `text` where there is none.
pub open spec fn first_line_feed(text: Seq<char>) -> nat
    decreases text.len(),
{
    if text.len() == 0 || text[0] == '\n' {
        0
    } else {
        1 + first_line_feed(text.drop_first())
    }
}

/// A line without the carriage return that stood before its line feed.
pub open spec fn without_carriage_return(line: Seq<char>) -> Seq<char> {
    if line.len() > 0 && line.last() == '\r' {
        line.drop_last()
    } else {
        line
    }
}

proof fn lemma_first_line_feed(text: Seq<char>)
    ensures
        first_line_feed(text) <= text.len(),
        first_line_feed(text) < text.len() ==> text[first_line_feed(text) as int] == '\n',
        forall|i: int| 0 <= i < first_line_feed(text) ==> #[trigger] text[i] != '\n',
    decreases text.len(),
{
    if text.len() > 0 && text[0] != '\n' {
        lemma_first_line_feed(text.drop_first());
        assert forall|i: int| 0 <= i < first_line_feed(text) implies #[trigger] text[i] != '\n' by {
            if i > 0 {
                assert(text[i] == text.drop_first()[i - 1]);
            }
        }
    }
}

proof fn lemma_first_line_feed_unique(text: Seq<char>, n: int)
    requires
        0 <= n <= text.len(),
        n < text.len() ==> text[n] == '\n',
        forall|i: int| 0 <= i < n ==> #[trigger] text[i] != '\n',
    ensures
        first_line_feed(text) == n,
{
    lemma_first_line_feed(text);
    let m = first_line_feed(text) as int;
    if m < n {
        assert(text[m] != '\n');
    } else if n < m {
        assert(text[n] != '\n');
    }
}

/// The lines of `text`. A line ends at a line feed, or at a carriage return and a line feed;
/// the last one may have no end, and nothing after the last end is no line.
pub open spec fn text_lines(text: Seq<char>) -> Seq<Seq<char>>
    decreases text.len(),
{
    let end = first_line_feed(text);
    if text.len() == 0 {
        Seq::empty()
    } else if end >= text.len() {
        seq![text]
    } else {
        seq![without_carriage_return(text.take(end as int))] + text_lines(text.skip(end as int + 1))
    }
}

/// The lines of `text`.
pub fn split_lines(text: &str) -> (list: Vec<String>)
    ensures
        views(list@) == text_lines(text@),
{
    let chars = to_chars(text);
    let mut list: Vec<String> = Vec::new();
    let mut from: usize = 0;
    assert(chars@.skip(0) =~= chars@);
    assert(views(list@) + text_lines(chars@) =~= text_lines(chars@));
    while from < chars.len()
        invariant
            from <= chars.len(),
            chars@ == text@,
            views(list@) + text_lines(chars@.skip(from as int)) == text_lines(text@),
        decreases chars.len() - from,
    {
        let ghost rest = chars@.skip(from as int);
        let mut end: usize = from;
        while end < chars.len() && chars[end] != '\n'
            invariant
                from <= end <= chars.len(),
                rest == chars@.skip(from as int),
                forall|i: int| 0 <= i < end - from ==> #[trigger] rest[i] != '\n',
            decreases chars.len() - end,
        {
            assert(rest[end - from] == chars@[end as int]);
            end = end + 1;
        }
        proof {
            if end < chars.len() {
                assert(rest[end - from] == chars@[end as int]);
            }
            lemma_first_line_feed_unique(rest, end - from);
        }
        let ghost before = list@;
        if end == chars.len() {
            let line = from_chars(&chars, from, end);
            assert(line@ =~= rest);
            list.push(line);
            assert(views(list@) =~= views(before).push(rest));
            assert(chars@.skip(end as int) =~= Seq::<char>::empty());
            assert(views(list@) + text_lines(chars@.skip(end as int)) =~= views(before)
                + text_lines(rest));
            from = end;
        } else {
            let stop: usize = if end > from && chars[end - 1] == '\r' {
                end - 1
            } else {
                end
            };
            let line = from_chars(&chars, from, stop);
            proof {
                if end > from {
                    assert(rest.take(end - from).last() == chars@[end - 1]);
                }
                assert(line@ =~= without_carriage_return(rest.take(end - from)));
            }
            list.push(line);
            assert(views(list@) =~= views(before).push(line@));
            assert(chars@.skip(end + 1) =~= rest.skip(end - from + 1));
            assert(views(list@) + text_lines(chars@.skip(end + 1)) =~= views(before) + text_lines(
                rest,
            ));
            from = end + 1;
        }
    }
    assert(chars@.skip(from as int) =~= Seq::<char>::empty());
    assert(views(list@) + text_lines(chars@.skip(from as int)) =~= views(list@));
    list
}

// ── What reading and ordering mean ──────────────────────────────────

/// A digit behind a number moves the number up by one place and is added to it. A leading `+`
/// does not matter. Nothing, a `+` alone, and a text with any other character write no number.
pub proof fn numbers_are_read_place_by_place(digits: Seq<char>, c: char, text: Seq<char>, i: int)
    ensures
        '0' <= c && c <= '9' && digits.len() > 0 && digits[0] != '+' && unsigned_value(
            digits,
        ) is Some ==> unsigned_value(digits.push(c)) == Some(
            (unsigned_value(digits)->0 * 10 + (c as int - '0' as int)) as nat,
        ),
        '0' <= c && c <= '9' ==> unsigned_value(seq![c]) == Some((c as int - '0' as int) as nat),
        text.len() > 0 && text[0] != '+' ==> unsigned_value(seq!['+'] + text) == unsigned_value(
            text,
        ),
        unsigned_value(Seq::empty()) is None,
        unsigned_value(seq!['+']) is None,
        0 <= i < text.len() && !('0' <= text[i] && text[i] <= '9') && !(i == 0 && text[i] == '+')
            ==> unsigned_value(text) is None,
{
    if '0' <= c && c <= '9' {
        let one = seq![c];
        assert(one.drop_last() =~= Seq::<char>::empty());
        assert(decimal_value(one.drop_last()) == 0);
        assert(decimal_value(one) == (c as u32 - '0' as u32) as nat);
        if digits.len() > 0 && digits[0] != '+' && unsigned_value(digits) is Some {
            assert(digits.push(c).drop_last() =~= digits);
            assert forall|k: int| 0 <= k < digits.push(c).len() implies is_digit(
                #[trigger] digits.push(c)[k],
            ) by {
                if k < digits.len() {
                    assert(is_digit(digits[k]));
                }
            }
        }
    }
    assert((seq!['+'] + text).drop_first() =~= text);
    if 0 <= i < text.len() && !('0' <= text[i] && text[i] <= '9') && !(i == 0 && text[i] == '+') {
        if text[0] == '+' {
            assert(text.drop_first()[i - 1] == text[i]);
        }
    }
}

/// A number is taken within its bound as it is read, and not beyond.
pub proof fn numbers_are_taken_within_bounds(text: Seq<char>, max: u64, n: u64)
    ensures
        bounded_value(text, max) == Some(n) <==> unsigned_value(text) == Some(n as nat) && n <= max,
        bounded_value(text, max) is None <==> unsigned_value(text) is None || unsigned_value(text)->0
            > max,
{
}

/// Two strings are ordered by the first character in which they differ, and a string comes
/// before each that goes on behind it.
pub proof fn the_first_difference_orders(
    shared: Seq<char>,
    c: char,
    one: Seq<char>,
    d: char,
    other: Seq<char>,
)
    ensures
        c < d ==> text_before(shared + seq![c] + one, shared + seq![d] + other),
        text_before(shared, shared + seq![c] + one),
{
    let a = shared + seq![c] + one;
    let b = shared + seq![d] + other;
    let n = shared.len() as int;
    assert(a.take(n) =~= shared && b.take(n) =~= shared && shared.take(n) =~= shared);
    lemma_text_before_shared(a, b, n);
    lemma_text_before_shared(shared, a, n);
    assert(a.skip(n)[0] == c && b.skip(n)[0] == d);
    assert(shared.skip(n).len() == 0);
}

/// What follows a prefix is what makes the text together with it.
pub proof fn a_prefix_and_the_rest_make_the_text(
    text: Seq<char>,
    prefix: Seq<char>,
    rest: Seq<char>,
)
    ensures
        after_prefix(text, prefix) == Some(rest) <==> text == prefix + rest,
{
    if after_prefix(text, prefix) == Some(rest) {
        assert(text.subrange(0, prefix.len() as int) == prefix);
        assert(text =~= prefix + rest);
    }
    if text == prefix + rest {
        assert(text.subrange(0, 0int + prefix.len()) =~= prefix);
        assert(text.skip(prefix.len() as int) =~= rest);
    }
}

/// A piece occurs in a text exactly where the text is made of something, the piece, and
/// something.
pub proof fn a_piece_stands_between_the_rest(
    before: Seq<char>,
    piece: Seq<char>,
    after: Seq<char>,
    text: Seq<char>,
)
    ensures
        has_piece(before + piece + after, piece),
        has_piece(text, piece) ==> exists|a: Seq<char>, b: Seq<char>|
            text == #[trigger] (a + piece + b),
{
    let whole = before + piece + after;
    let n = before.len() as int;
    assert(whole.subrange(n, n + piece.len()) =~= piece);
    assert(piece_at(whole, piece, n));
    if has_piece(text, piece) {
        let at = choose|at: int| #[trigger] piece_at(text, piece, at);
        let a = text.take(at);
        let b = text.skip(at + piece.len());
        assert(text =~= a + text.subrange(at, at + piece.len()) + b);
        assert(text == a + piece + b);
    }
}

/// A line that ends at a line feed, or at a carriage return and a line feed, is the first of
/// the lines, and those of the rest follow; what is behind the last line feed is a line as it
/// stands, unless it is nothing.
pub proof fn lines_end_at_line_feeds(line: Seq<char>, rest: Seq<char>)
    requires
        forall|i: int| 0 <= i < line.len() ==> #[trigger] line[i] != '\n',
    ensures
        (line.len() == 0 || line.last() != '\r') ==> text_lines(line + seq!['\n'] + rest) == seq![
            line,
        ] + text_lines(rest),
        text_lines(line + seq!['\r', '\n'] + rest) == seq![line] + text_lines(rest),
        line.len() > 0 ==> text_lines(line) == seq![line],
        text_lines(Seq::empty()) == Seq::<Seq<char>>::empty(),
{
    let n = line.len() as int;
    let plain = line + seq!['\n'] + rest;
    lemma_first_line_feed_unique(plain, n);
    assert(plain.take(n) =~= line);
    assert(plain.skip(n + 1) =~= rest);
    let both = line + seq!['\r', '\n'] + rest;
    assert forall|i: int| 0 <= i < n + 1 implies #[trigger] both[i] != '\n' by {
        if i < n {
            assert(both[i] == line[i]);
        }
    }
    lemma_first_line_feed_unique(both, n + 1);
    assert(both.take(n + 1) =~= line.push('\r'));
    assert(both.take(n + 1).drop_last() =~= line);
    assert(both.skip(n + 2) =~= rest);
    if n > 0 {
        lemma_first_line_feed_unique(line, n);
    }
}

/// Whether two characters are the capital and the small letter of one ASCII letter, or equal.
pub open spec fn same_letter(a: char, b: char) -> bool {
    ||| a == b
    ||| 'A' <= a && a <= 'Z' && b as int == a as int + 32
    ||| 'A' <= b && b <= 'Z' && a as int == b as int + 32
}

/// Two strings are equal but for the case of ASCII letters exactly where they are as long as
/// each other and hold the same letters or equal characters throughout.
pub proof fn case_is_ignored_letter_by_letter(a: Seq<char>, b: Seq<char>)
    ensures
        same_ignoring_ascii_case(a, b) <==> a.len() == b.len() && forall|i: int|
            0 <= i < a.len() ==> same_letter(#[trigger] a[i], b[i]),
{
    let lower_a = a.map_values(|c: char| ascii_lower(c));
    let lower_b = b.map_values(|c: char| ascii_lower(c));
    if same_ignoring_ascii_case(a, b) {
        assert(lower_a.len() == lower_b.len());
        assert forall|i: int| 0 <= i < a.len() implies same_letter(#[trigger] a[i], b[i]) by {
            assert(lower_a[i] == lower_b[i]);
        }
    }
    if a.len() == b.len() && forall|i: int| 0 <= i < a.len() ==> same_letter(#[trigger] a[i], b[i]) {
        assert forall|i: int| 0 <= i < a.len() implies lower_a[i] == lower_b[i] by {
            assert(same_letter(a[i], b[i]));
        }
        assert(lower_a =~= lower_b);
    }
}

/// Turning an ASCII text into capitals changes small letters into the same capitals, and
/// leaves no small letter behind.
pub proof fn capitals_are_the_same_letters(text: Seq<char>, i: int)
    requires
        0 <= i < text.len(),
    ensures
        ascii_uppercase(text).len() == text.len(),
        same_letter(ascii_uppercase(text)[i], text[i]),
        !('a' <= ascii_uppercase(text)[i] && ascii_uppercase(text)[i] <= 'z'),
{
}

/// What stands between whitespace, and neither starts nor ends with it, is what trimming
/// keeps.
pub proof fn trimming_keeps_what_is_between(before: Seq<char>, kept: Seq<char>, after: Seq<char>)
    requires
        is_blank(before),
        is_blank(after),
        kept.len() > 0,
        !is_white_space(kept[0]),
        !is_white_space(kept.last()),
    ensures
        trimmed_text(before + kept + after) == kept,
{
    let text = before + kept + after;
    let lead = before.len();
    let trail = after.len();
    assert(text[lead as int] == kept[0]);
    assert(text[text.len() - trail - 1] == kept.last());
    assert forall|i: int| 0 <= i < lead implies is_white_space(#[trigger] text[i]) by {
        assert(text[i] == before[i]);
    }
    assert forall|i: int| text.len() - trail <= i < text.len() implies is_white_space(
        #[trigger] text[i],
    ) by {
        assert(text[i] == after[i - lead - kept.len()]);
    }
    lemma_leading_space_unique(text, lead);
    lemma_trailing_space_unique(text, trail);
    assert(trimmed_text(text) =~= kept);
}

/// The digits of a number are written without leading zeros, and one digit behind them writes
/// ten times the number and the digit.
pub proof fn numbers_are_written_without_leading_zeros(n: nat, digit: nat)
    requires
        digit < 10,
    ensures
        n > 0 ==> decimal_text(n)[0] != '0',
        n > 0 ==> decimal_text(n * 10 + digit) == decimal_text(n).push((48 + digit) as char),
        decimal_text(digit) == seq![(48 + digit) as char],
    decreases n,
{
    if n >= 10 {
        lemma_decimal_text(n / 10);
        numbers_are_written_without_leading_zeros(n / 10, digit);
    }
    assert((n * 10 + digit) / 10 == n);
    assert((n * 10 + digit) % 10 == digit);
}

} // verus!
