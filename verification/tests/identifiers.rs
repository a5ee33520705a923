//! The identifiers block, on records as the dump states them.

use extractor::json::{Json, Number};
use extractor::musicbrainz::identifiers::{
    alias_value, attach_identifiers_block, map_musicbrainz_identifiers, trimmed, MusicBrainz,
    Namespace, Vocabulary,
};
use extractor::table::Table;
use serde_json::Value;

fn parsed(text: &str) -> Value {
    serde_json::from_str(text).expect("the test value is JSON")
}

fn json_of(value: &Value) -> Json {
    match value {
        Value::Null => Json::Null,
        Value::Bool(flag) => Json::Bool(*flag),
        Value::Number(number) => Json::Number(Number::Float(number.to_string())),
        Value::String(text) => Json::Text(text.clone()),
        Value::Array(items) => Json::Array(items.iter().map(json_of).collect()),
        Value::Object(map) => {
            let mut table = Table::new();
            for (key, value) in map {
                table.insert(key.clone(), json_of(value));
            }
            Json::Object(table)
        }
    }
}

fn value_of(json: &Json) -> Value {
    match json {
        Json::Null => Value::Null,
        Json::Bool(flag) => Value::Bool(*flag),
        Json::Number(number) => parsed(&number.text()),
        Json::Text(text) => Value::String(text.clone()),
        Json::Array(items) => Value::Array(items.iter().map(value_of).collect()),
        Json::Object(table) => {
            let mut map = serde_json::Map::new();
            for (key, value) in &table.entries {
                map.insert(key.clone(), value_of(value));
            }
            Value::Object(map)
        }
    }
}

fn namespace(provider: &str, type_id: &str, normalization: &str) -> Namespace {
    Namespace {
        provider: provider.to_string(),
        type_id: type_id.to_string(),
        normalization: normalization.to_string(),
    }
}

fn vocabulary(know_catalog_numbers: bool) -> Vocabulary {
    let mut types = Table::new();
    types.insert("barcode".to_string(), "barcode".to_string());
    if know_catalog_numbers {
        types.insert("catalog-number".to_string(), "catalogue_number".to_string());
    }
    Vocabulary {
        vocabulary_version: "1".to_string(),
        unmapped_type: "other".to_string(),
        alias_namespaces: vec![
            namespace("gtin", "barcode", "digits_only"),
            namespace("catno", "catalogue_number", "upper_collapse_space"),
            namespace("nowhere", "barcode", "reverse"),
        ],
        musicbrainz: MusicBrainz {
            barcode_field: "barcode".to_string(),
            catalog_number_field: "label-info.catalog-number".to_string(),
            types,
        },
    }
}

fn mapped(release: &str) -> Value {
    value_of(&map_musicbrainz_identifiers(&json_of(&parsed(release)), &vocabulary(true)))
}

#[test]
fn malformed_and_empty_are_schema_shaped() {
    for input in [
        "{}",
        r#"{"barcode": 42, "label-info": "bad"}"#,
        r#"{"barcode": " ", "label-info": [null, {"catalog-number": 12}]}"#,
    ] {
        let block = mapped(input);
        assert_eq!(block["items"], parsed("[]"));
        assert_eq!(block["types"], parsed("[]"));
        assert_eq!(block["aliases"], parsed("[]"));
        assert_eq!(block["unmapped"]["types"], parsed("[]"));
    }
}

#[test]
fn a_barcode_and_catalogue_numbers_are_mapped_in_source_order() {
    let block = mapped(
        r#"{"barcode": " 0 75992-5158 1 ",
            "label-info": [{"catalog-number": "b  12"}, {"catalog-number": " a-1\t"},
                {"label": "none"}, {"catalog-number": "B 12"}]}"#,
    );
    assert_eq!(
        block,
        parsed(
            r#"{
                "identifiers_version": "1",
                "items": [
                    {"type": "barcode", "value": "0 75992-5158 1", "description": null,
                        "source": {"provider": "musicbrainz", "type": null, "field": "barcode"}},
                    {"type": "catalogue_number", "value": "b  12", "description": null,
                        "source": {"provider": "musicbrainz", "type": null,
                            "field": "label-info.catalog-number"}},
                    {"type": "catalogue_number", "value": "a-1", "description": null,
                        "source": {"provider": "musicbrainz", "type": null,
                            "field": "label-info.catalog-number"}},
                    {"type": "catalogue_number", "value": "B 12", "description": null,
                        "source": {"provider": "musicbrainz", "type": null,
                            "field": "label-info.catalog-number"}}
                ],
                "types": ["barcode", "catalogue_number"],
                "aliases": [
                    {"provider": "catno", "external_id": "A-1"},
                    {"provider": "catno", "external_id": "B 12"},
                    {"provider": "gtin", "external_id": "07599251581"}
                ],
                "unmapped": {"types": []}
            }"#
        )
    );
}

#[test]
fn an_unknown_type_is_kept_as_unmapped() {
    let release = json_of(&parsed(
        r#"{"barcode": "1", "label-info": [{"catalog-number": "x"}, {"catalog-number": "y"}]}"#,
    ));
    let block = value_of(&map_musicbrainz_identifiers(&release, &vocabulary(false)));
    assert_eq!(block["types"], parsed(r#"["barcode", "other"]"#));
    assert_eq!(block["unmapped"]["types"], parsed(r#"["catalog-number"]"#));
    assert_eq!(block["aliases"], parsed(r#"[{"provider": "gtin", "external_id": "1"}]"#));
}

#[test]
fn each_rule_makes_its_own_external_id() {
    assert_eq!(alias_value("digits_only", "0-1 2٣x"), Some("012".to_string()));
    assert_eq!(alias_value("digits_only", "none"), None);
    assert_eq!(alias_value("collapse_space", "  a \t b\u{a0}c "), Some("a b c".to_string()));
    assert_eq!(alias_value("collapse_space", " \n "), None);
    assert_eq!(alias_value("upper_collapse_space", " aß  ŉ "), Some("ASS ʼN".to_string()));
    assert_eq!(alias_value("upper_collapse_space", "ab-1"), Some("AB-1".to_string()));
    assert_eq!(alias_value("other", "value"), None);
}

#[test]
fn a_value_states_a_trimmed_string_or_nothing() {
    assert_eq!(trimmed(Some(&Json::Text(" a b\n".to_string()))), Some("a b".to_string()));
    assert_eq!(trimmed(Some(&Json::Text("\u{2003}".to_string()))), None);
    assert_eq!(trimmed(Some(&Json::Bool(true))), None);
    assert_eq!(trimmed(None), None);
}

#[test]
fn attaching_changes_one_member_only() {
    let release = json_of(&parsed(r#"{"barcode": "1"}"#));
    let mut data = json_of(&parsed(r#"{"name": "A", "identifiers": 7}"#));
    attach_identifiers_block(&mut data, &release, &vocabulary(true));
    let once = value_of(&data);
    assert_eq!(once["name"], parsed("\"A\""));
    assert_eq!(once["identifiers"]["items"][0]["value"], parsed("\"1\""));
    attach_identifiers_block(&mut data, &release, &vocabulary(true));
    assert_eq!(value_of(&data), once);

    let mut list = json_of(&parsed("[1]"));
    attach_identifiers_block(&mut list, &release, &vocabulary(true));
    assert_eq!(value_of(&list), parsed("[1]"));
}

#[test]
fn external_ids_are_stable_and_ignore_outer_whitespace() {
    let values = ["  724\u{2003}3 8-56 ", "abc  d\te", "\nA", "", " \t", "Nr. 5", "x"];
    for rule in ["digits_only", "collapse_space", "upper_collapse_space", "unheard_of"] {
        for value in values {
            let once = alias_value(rule, value);
            if let Some(id) = &once {
                assert_eq!(alias_value(rule, id), once, "{rule} of {value:?}");
                assert!(!id.is_empty());
                assert_eq!(id.trim(), id);
                assert!(!id.contains("  "));
            }
            assert_eq!(alias_value(rule, &format!(" \t{value}\u{3000}\n")), once);
        }
    }
    assert_eq!(alias_value("digits_only", values[0]).as_deref(), Some("7243856"));
    assert_eq!(alias_value("collapse_space", values[1]).as_deref(), Some("abc d e"));
    assert_eq!(alias_value("upper_collapse_space", values[1]).as_deref(), Some("ABC D E"));
}
