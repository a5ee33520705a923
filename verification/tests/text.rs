//! Text, against the standard library.

use extractor::json::{Json, Number};
use extractor::text::{
    blank, collapse_space, contains_piece, decimal, equals_ignoring_ascii_case, is_empty, join,
    parse_unsigned, place_text, split_lines, split_words, strip_prefix, trim, white_space,
    Placement,
};

const SAMPLES: [&str; 14] = [
    "",
    " ",
    "a",
    " a ",
    "\u{2003}wide\u{3000}",
    "two words",
    "a\tb\u{a0}c\n\nd",
    "line\r\nnext\n",
    "\r",
    "\n",
    "x\r\r\ny",
    "no end",
    "ß İ ŉ",
    "\u{85}\u{200b}",
];

#[test]
fn every_character_is_white_space_as_in_the_standard_library() {
    for c in '\u{0}'..=char::MAX {
        assert_eq!(white_space(c), c.is_whitespace(), "{c:?}");
    }
}

#[test]
fn splitting_and_trimming_agree_with_the_standard_library() {
    for text in SAMPLES {
        assert_eq!(trim(text), text.trim(), "{text:?}");
        assert_eq!(blank(text), text.trim().is_empty(), "{text:?}");
        assert_eq!(is_empty(text), text.is_empty(), "{text:?}");
        assert_eq!(split_words(text), text.split_whitespace().collect::<Vec<_>>(), "{text:?}");
        assert_eq!(
            collapse_space(text),
            text.split_whitespace().collect::<Vec<_>>().join(" "),
            "{text:?}"
        );
        assert_eq!(split_lines(text), text.lines().collect::<Vec<_>>(), "{text:?}");
        for other in SAMPLES {
            assert_eq!(contains_piece(text, other), text.contains(other), "{text:?} {other:?}");
            assert_eq!(
                strip_prefix(text, other).as_deref(),
                text.strip_prefix(other),
                "{text:?} {other:?}"
            );
            assert_eq!(
                equals_ignoring_ascii_case(text, other),
                text.eq_ignore_ascii_case(other),
                "{text:?} {other:?}"
            );
            let placement = place_text(text, other);
            assert_eq!(matches!(placement, Placement::Before), text < other, "{text:?} {other:?}");
            assert_eq!(matches!(placement, Placement::Same), text == other, "{text:?} {other:?}");
            assert_eq!(matches!(placement, Placement::After), text > other, "{text:?} {other:?}");
        }
    }
    assert!(equals_ignoring_ascii_case("NoNe", "none"));
    assert!(!equals_ignoring_ascii_case("none\u{212a}", "nonek"));
    assert_eq!(join(&vec!["a".to_string(), "".to_string(), "b".to_string()], ", "), "a, , b");
}

#[test]
fn numbers_are_read_as_in_the_standard_library() {
    for text in [
        "", "+", "-", "0", "-0", "+0", "00", "007", "1", " 1", "1 ", "1_0", "0x1", "٣", "++1",
        "255", "256", "65535", "65536", "18446744073709551615", "18446744073709551616",
        "+18446744073709551615", "99999999999999999999999999",
    ] {
        assert_eq!(parse_unsigned(text, u64::MAX), text.parse::<u64>().ok(), "{text:?}");
        assert_eq!(
            parse_unsigned(text, 255),
            text.parse::<u8>().ok().map(u64::from),
            "{text:?}"
        );
    }
}

#[test]
fn written_numbers_are_read_back() {
    for n in [0, 1, 9, 10, 99, 100, 12345, u64::MAX - 1, u64::MAX] {
        assert_eq!(decimal(n), n.to_string());
        assert_eq!(parse_unsigned(&decimal(n), u64::MAX), Some(n));
    }
    assert_eq!(Number::NegInt(i64::MIN).text(), i64::MIN.to_string());
    assert_eq!(Number::NegInt(-7).text(), "-7");
    assert_eq!(Number::Float("1.5".to_string()).text(), "1.5");
    assert_eq!(Number::PosInt(u64::MAX).as_i64(), None);
    assert_eq!(Number::PosInt(7).as_i64(), Some(7));
    assert_eq!(Number::NegInt(-7).as_i64(), Some(-7));
}

#[test]
fn members_are_read_by_key() {
    let mut table = extractor::table::Table::new();
    table.insert("a".to_string(), Json::Text("x".to_string()));
    table.insert("a".to_string(), Json::Bool(true));
    table.insert("b".to_string(), Json::Array(vec![Json::Null]));
    let object = Json::Object(table);
    assert!(matches!(object.get("a"), Some(Json::Bool(true))));
    assert!(object.get_str("a").is_none());
    assert_eq!(object.get_array("b").map(Vec::len), Some(1));
    assert!(object.get("c").is_none());
    assert!(matches!(object.member_copy("c"), Json::Null));
    assert!(Json::Null.get("a").is_none());
    assert!(object.is_object());
    assert!(matches!(object.copy().get("a"), Some(Json::Bool(true))));
}
