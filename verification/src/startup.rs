//! What the process shows and decides around its extraction runs.

use crate::text::{
    ascii_uppercase, bounded_value, join_two, opt_str_view, parse_unsigned, same_text, to_upper,
    unsigned_value, uppercase,
};
use vstd::prelude::*;

verus! {

/// The seconds that a process waits before it exits with an error, by default.
pub const DEFAULT_FAILURE_COOLDOWN_SECS: u64 = 600;

/// The seconds that a setting asks for, else the default: where it is not set and where it is
/// no number.
pub open spec fn failure_cooldown(setting: Option<Seq<char>>) -> u64 {
    match setting {
        Some(text) => match bounded_value(text, u64::MAX) {
            Some(seconds) => seconds,
            None => DEFAULT_FAILURE_COOLDOWN_SECS,
        },
        None => DEFAULT_FAILURE_COOLDOWN_SECS,
    }
}

/// The seconds to wait before the process exits with an error.
pub fn parse_failure_cooldown(env_value: Option<&str>) -> (seconds: u64)
    ensures
        seconds == failure_cooldown(opt_str_view(env_value)),
{
    match env_value {
        Some(text) => match parse_unsigned(text, u64::MAX) {
            Some(seconds) => seconds,
            None => DEFAULT_FAILURE_COOLDOWN_SECS,
        },
        None => DEFAULT_FAILURE_COOLDOWN_SECS,
    }
}

/// The wait before the process exits with an error; none where the setting is zero.
pub fn apply_failure_cooldown(env_value: Option<&str>) -> (wait: Option<u64>)
    ensures
        wait == if failure_cooldown(opt_str_view(env_value)) > 0 {
            Some(failure_cooldown(opt_str_view(env_value)))
        } else {
            None
        },
{
    let cooldown: u64 = parse_failure_cooldown(env_value);
    if cooldown > 0 {
        Some(cooldown)
    } else {
        None
    }
}

/// The line that is logged when the process starts.
pub fn startup_banner_message() -> (line: &'static str)
    ensures
        line == "🚀 Starting GrooveMap musicbrainz-ingestion",
{
    "🚀 Starting GrooveMap musicbrainz-ingestion"
}

/// The banner that is printed when the process starts.
pub const ASCII_ART: &'static str = r#"
         _        _               _                  _   _
 __ __ _| |_ __ _| |___  __ _ ___(_)_ _  __ _ ___ __| |_(_)___ _ _
/ _/ _` |  _/ _` | / _ \/ _` |___| | ' \/ _` / -_|_-<  _| / _ \ ' \
\__\__,_|\__\__,_|_\___/\__, |   |_|_||_\__, \___/__/\__|_\___/_||_|
                        |___/           |___/
              catalog-ingestion / musicbrainz-ingestion
"#;

/// The banner that is printed when the process starts.
pub fn ascii_art() -> (banner: &'static str)
    ensures
        banner == ASCII_ART,
{
    ASCII_ART
}

/// The level that an uppercase level name stands for; `info` where the name is unknown.
pub open spec fn rust_level(upper: Seq<char>) -> &'static str {
    if upper == "DEBUG"@ {
        "debug"
    } else if upper == "INFO"@ {
        "info"
    } else if upper == "WARNING"@ || upper == "WARN"@ {
        "warn"
    } else if upper == "ERROR"@ || upper == "CRITICAL"@ {
        "error"
    } else {
        "info"
    }
}

/// The log filter of a level: the broker client is kept quieter than the extractor.
pub open spec fn filter_of(upper: Seq<char>) -> Seq<char> {
    "extractor="@ + rust_level(upper)@ + ",lapin="@ + if rust_level(upper)@ == "debug"@ {
        "info"@
    } else {
        "warn"@
    }
}

fn level_of(upper: &str) -> (level: &'static str)
    ensures
        level == rust_level(upper@),
{
    if same_text(upper, "DEBUG") {
        "debug"
    } else if same_text(upper, "INFO") {
        "info"
    } else if same_text(upper, "WARNING") || same_text(upper, "WARN") {
        "warn"
    } else if same_text(upper, "ERROR") || same_text(upper, "CRITICAL") {
        "error"
    } else {
        "info"
    }
}

/// The log filter of an uppercase level name.
pub fn tracing_filter(upper: &str) -> (filter: String)
    ensures
        filter@ == filter_of(upper@),
{
    let level = level_of(upper);
    let mut filter = join_two("extractor=", level);
    filter.append(",lapin=");
    if same_text(level, "debug") {
        filter.append("info");
    } else {
        filter.append("warn");
    }
    filter
}

/// The log filter of a level name, in any case.
pub fn build_tracing_filter(log_level: &str) -> (filter: String)
    ensures
        filter@ == filter_of(uppercase(log_level@)),
        vstd::utf8::is_ascii_chars(log_level@) ==> filter@ == filter_of(
            ascii_uppercase(log_level@),
        ),
{
    tracing_filter(to_upper(log_level).as_str())
}

/// A cooldown is the number that its setting states, zero among them, and ten minutes where it
/// is not set or states no number that fits.
pub proof fn a_cooldown_is_what_is_set(text: Seq<char>, n: u64)
    ensures
        unsigned_value(text) == Some(n as nat) ==> failure_cooldown(Some(text)) == n,
        unsigned_value(text) is None || unsigned_value(text)->0 > u64::MAX ==> failure_cooldown(
            Some(text),
        ) == 600,
        failure_cooldown(None) == 600,
{
}

/// A level name that is not known filters as `INFO` does, `WARN` as `WARNING`, and `CRITICAL`
/// as `ERROR`.
pub proof fn unknown_levels_filter_as_info(upper: Seq<char>)
    ensures
        upper != "DEBUG"@ && upper != "WARNING"@ && upper != "WARN"@ && upper != "ERROR"@ && upper
            != "CRITICAL"@ ==> filter_of(upper) == filter_of("INFO"@),
        filter_of("WARN"@) == filter_of("WARNING"@),
        filter_of("CRITICAL"@) == filter_of("ERROR"@),
{
    reveal_strlit("DEBUG");
    reveal_strlit("INFO");
    reveal_strlit("WARNING");
    reveal_strlit("WARN");
    reveal_strlit("ERROR");
    reveal_strlit("CRITICAL");
    assert("DEBUG"@.len() == 5 && "DEBUG"@[0] == 'D');
    assert("ERROR"@.len() == 5 && "ERROR"@[0] == 'E');
    assert("INFO"@.len() == 4 && "INFO"@[0] == 'I');
    assert("WARN"@.len() == 4 && "WARN"@[0] == 'W');
    assert("WARNING"@.len() == 7 && "CRITICAL"@.len() == 8);
}

} // verus!
