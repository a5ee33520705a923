//! The media block, on records as the dump states them.

use extractor::json::{Json, Number};
use extractor::musicbrainz::identifiers::{attach_identifiers_block, MusicBrainz, Vocabulary};
use extractor::musicbrainz::media::{
    attach_media_block, map_musicbrainz_release, release_view, FamilyDefinition, FormatEntry,
    MediumDefinition, MusicBrainzVocabulary, ResolveRule, Taxonomy, TaxonomyDocument,
};
use extractor::musicbrainz::media::{apply_format_entry, fill, finish_item, MediaBlock, MediaItem};
use extractor::ordered::sorted_unique;
use extractor::table::Table;
use serde_json::Value;

fn parsed(text: &str) -> Value {
    serde_json::from_str(text).expect("the test value is JSON")
}

fn json_of(value: &Value) -> Json {
    match value {
        Value::Null => Json::Null,
        Value::Bool(flag) => Json::Bool(*flag),
        Value::Number(number) => Json::Number(if let Some(n) = number.as_u64() {
            Number::PosInt(n)
        } else if let Some(n) = number.as_i64() {
            Number::NegInt(n)
        } else {
            Number::Float(number.to_string())
        }),
        Value::String(text) => Json::Text(text.clone()),
        Value::Array(items) => Json::Array(items.iter().map(json_of).collect()),
        Value::Object(map) => {
            let mut table = Table::new();
            for (key, value) in map {
                table.insert(key.clone(), json_of(value));
            }
            Json::Object(table)
        }
    }
}

fn value_of(json: &Json) -> Value {
    match json {
        Json::Null => Value::Null,
        Json::Bool(flag) => Value::Bool(*flag),
        Json::Number(number) => parsed(&number.text()),
        Json::Text(text) => Value::String(text.clone()),
        Json::Array(items) => Value::Array(items.iter().map(value_of).collect()),
        Json::Object(table) => {
            let mut map = serde_json::Map::new();
            for (key, value) in &table.entries {
                map.insert(key.clone(), value_of(value));
            }
            Value::Object(map)
        }
    }
}

fn texts(pairs: &[(&str, &str)]) -> Table<String> {
    let mut table = Table::new();
    for (key, value) in pairs {
        table.insert(key.to_string(), value.to_string());
    }
    table
}

fn family(id: &str) -> FamilyDefinition {
    FamilyDefinition { id: id.to_string(), resolve: None }
}

fn medium(id: &str, family: &str, defaults: &[(&str, &str)]) -> MediumDefinition {
    let mut table = Table::new();
    for (key, value) in defaults {
        table.insert(key.to_string(), json_of(&parsed(value)));
    }
    MediumDefinition { id: id.to_string(), family: family.to_string(), defaults: table }
}

fn entry(family: Option<&str>, medium: Option<&str>, variant: Option<&str>) -> FormatEntry {
    FormatEntry {
        family: family.map(str::to_string),
        medium: medium.map(str::to_string),
        variant: variant.map(str::to_string),
        container: None,
        flag: None,
    }
}

fn taxonomy() -> Taxonomy {
    let mut formats = Table::new();
    for (name, medium) in [
        ("CD", "optical_cd"),
        ("Cassette", "tape_cassette"),
        ("7\" Vinyl", "vinyl_7"),
        ("10\" Vinyl", "vinyl_10"),
        ("12\" Vinyl", "vinyl_12"),
        ("Other", "other_unspecified"),
        ("Digital Media", "digital_file"),
        ("DVD-Video", "video_dvd"),
        ("Shellac", "shellac_10"),
    ] {
        formats.insert(name.to_string(), entry(None, Some(medium), None));
    }
    formats.insert("Vinyl".to_string(), entry(Some("vinyl"), None, None));
    formats
        .insert("Hybrid SACD".to_string(), entry(None, Some("optical_sacd"), Some("hybrid_layer")));
    formats.insert(
        "Box Set".to_string(),
        FormatEntry { container: Some("box_set".to_string()), ..entry(None, None, None) },
    );
    formats.insert(
        "Enhanced".to_string(),
        FormatEntry { flag: Some("enhanced".to_string()), ..entry(None, None, None) },
    );
    let mut status = Table::new();
    status.insert("Official".to_string(), None);
    for (name, edition) in [
        ("Bootleg", "unofficial"),
        ("Promotion", "promo"),
        ("Withdrawn", "withdrawn"),
        ("Cancelled", "cancelled"),
        ("Expunged", "expunged"),
        ("Pseudo-Release", "pseudo_release"),
    ] {
        status.insert(name.to_string(), Some(edition.to_string()));
    }
    Taxonomy::from(TaxonomyDocument {
        taxonomy_version: "1".to_string(),
        families: vec![
            FamilyDefinition {
                id: "vinyl".to_string(),
                resolve: Some(ResolveRule {
                    attribute: "size_inches".to_string(),
                    map: texts(&[("7", "vinyl_7"), ("10", "vinyl_10"), ("12", "vinyl_12")]),
                }),
            },
            family("optical"),
            family("tape"),
            family("other"),
            family("digital"),
            family("video"),
            family("shellac"),
        ],
        media: vec![
            medium("vinyl_7", "vinyl", &[("size_inches", "7")]),
            medium("vinyl_10", "vinyl", &[("size_inches", "10")]),
            medium("vinyl_12", "vinyl", &[("size_inches", "12")]),
            medium("vinyl_unspecified", "vinyl", &[]),
            medium("optical_cd", "optical", &[]),
            medium("optical_sacd", "optical", &[]),
            medium("tape_cassette", "tape", &[]),
            medium("other_unspecified", "other", &[]),
            medium("digital_file", "digital", &[]),
            medium("video_dvd", "video", &[]),
            medium(
                "shellac_10",
                "shellac",
                &[
                    ("speed_rpm", "78"),
                    ("size_inches", "\"ten\""),
                    ("channels", "\"mono\""),
                    ("codec", "7"),
                ],
            ),
        ],
        musicbrainz: MusicBrainzVocabulary {
            formats,
            status,
            packaging: texts(&[
                ("Gatefold Cover", "gatefold"),
                ("Digipak", "digipak"),
                ("Jewel Case", "jewel_case"),
                ("Cardboard/Paper Sleeve", "cardboard_sleeve"),
                ("None", "none"),
                ("Other", "other"),
            ]),
            primary_types: texts(&[
                ("Album", "album"),
                ("Single", "single"),
                ("EP", "ep"),
                ("Broadcast", "broadcast"),
                ("Other", "other"),
            ]),
            secondary_types: texts(&[
                ("Remix", "remix"),
                ("Compilation", "compilation"),
                ("Live", "live"),
                ("Demo", "demo"),
            ]),
        },
    })
}

/// The block of a release view, as JSON.
fn map(release: &Value) -> Value {
    value_of(&map_musicbrainz_release(&json_of(release), &taxonomy()).to_json())
}

fn mapped(release: &str) -> Value {
    map(&parsed(release))
}

/// The block of a release with one medium.
fn one_medium(medium: &str) -> Value {
    mapped(&format!("{{\"media\": [{medium}]}}"))
}

fn formatted(format: &str) -> Value {
    let mut medium = serde_json::Map::new();
    medium.insert("format".to_string(), Value::String(format.to_string()));
    medium.insert("position".to_string(), parsed("1"));
    medium.insert("track_count".to_string(), parsed("2"));
    let mut release = serde_json::Map::new();
    release.insert("media".to_string(), Value::Array(vec![Value::Object(medium)]));
    map(&Value::Object(release))
}

#[test]
fn test_absent_media_produce_the_empty_block() {
    assert_eq!(
        mapped("{}"),
        parsed(
            r#"{
                "taxonomy_version": "1",
                "items": [],
                "families": [],
                "release_kind": null,
                "traits": [],
                "edition": [],
                "packaging": null,
                "container": null,
                "flags": [],
                "unmapped": {"formats": [], "descriptions": []}
            }"#
        )
    );
}

#[test]
fn test_malformed_media_produce_no_items() {
    for media in ["null", "\"CD\"", "7", "{\"medium\": []}"] {
        let produced = mapped(&format!("{{\"media\": {media}}}"));
        assert_eq!(produced["items"], parsed("[]"), "{media} must yield no items");
        assert_eq!(produced["families"], parsed("[]"), "{media} must yield no families");
    }
}

#[test]
fn test_a_non_object_medium_entry_is_skipped() {
    let produced = mapped(
        r#"{"media": [null, "CD", 7, true, [], ["CD"],
            {"format": "CD", "position": 1, "track_count": 3}]}"#,
    );
    assert_eq!(produced["items"].as_array().expect("items is a list").len(), 1);
    assert_eq!(produced["items"][0]["medium"], parsed("\"optical_cd\""));
    assert_eq!(produced["families"], parsed("[\"optical\"]"));
    assert_eq!(produced["unmapped"], parsed(r#"{"formats": [], "descriptions": []}"#));
}

#[test]
fn test_every_field_is_always_present() {
    let produced = one_medium(r#"{"format": "CD", "position": 1, "track_count": 12}"#);
    let block = produced.as_object().expect("the block is an object");
    for key in [
        "taxonomy_version",
        "items",
        "families",
        "release_kind",
        "traits",
        "edition",
        "packaging",
        "container",
        "flags",
        "unmapped",
    ] {
        assert!(block.contains_key(key), "the block must carry {key}");
    }
    let item = produced["items"][0].as_object().expect("the item is an object");
    for key in [
        "family",
        "medium",
        "qty",
        "size_inches",
        "speed_rpm",
        "channels",
        "codec",
        "variants",
        "appearance",
        "position",
        "track_count",
        "source",
    ] {
        assert!(item.contains_key(key), "the item must carry {key}");
    }
    let source = produced["items"][0]["source"].as_object().expect("the source is an object");
    for key in ["provider", "name", "descriptions", "text"] {
        assert!(source.contains_key(key), "the source must carry {key}");
    }
}

#[test]
fn test_every_item_is_one_unit_from_a_bare_name() {
    let produced = one_medium(r#"{"format": "Cassette", "position": 1, "track_count": 10}"#);
    assert_eq!(produced["items"][0]["qty"], parsed("1"));
    assert!(produced["items"][0]["qty"].is_u64(), "qty is a JSON number");
    assert_eq!(
        produced["items"][0]["source"],
        parsed(
            r#"{"provider": "musicbrainz", "name": "Cassette", "descriptions": [], "text": null}"#
        )
    );
}

#[test]
fn test_parent_vinyl_resolves_to_the_unspecified_medium() {
    let produced = one_medium(r#"{"format": "Vinyl", "position": 1, "track_count": 4}"#);
    assert_eq!(produced["items"][0]["family"], parsed("\"vinyl\""));
    assert_eq!(produced["items"][0]["medium"], parsed("\"vinyl_unspecified\""));
    assert_eq!(produced["items"][0]["size_inches"], Value::Null);
    assert_eq!(produced["families"], parsed("[\"vinyl\"]"));
}

#[test]
fn test_sized_vinyl_children_carry_the_medium_default_size() {
    for (format, medium, size) in
        [("7\" Vinyl", "vinyl_7", "7"), ("10\" Vinyl", "vinyl_10", "10"), ("12\" Vinyl", "vinyl_12", "12")]
    {
        let produced = formatted(format);
        assert_eq!(produced["items"][0]["medium"], Value::String(medium.to_string()));
        assert_eq!(produced["items"][0]["size_inches"], parsed(size));
    }
}

#[test]
fn test_unambiguous_parents_map_straight_to_a_medium() {
    for (format, family, medium) in
        [("CD", "optical", "optical_cd"), ("Cassette", "tape", "tape_cassette")]
    {
        let produced = formatted(format);
        assert_eq!(produced["items"][0]["family"], Value::String(family.to_string()));
        assert_eq!(produced["items"][0]["medium"], Value::String(medium.to_string()));
    }
}

#[test]
fn test_other_maps_to_the_other_family() {
    let produced = one_medium(r#"{"format": "Other", "position": 1, "track_count": 3}"#);
    assert_eq!(produced["items"][0]["family"], parsed("\"other\""));
    assert_eq!(produced["items"][0]["medium"], parsed("\"other_unspecified\""));
    assert_eq!(produced["families"], parsed("[\"other\"]"));
}

#[test]
fn test_digital_media_maps_to_the_digital_file_medium() {
    let produced = one_medium(r#"{"format": "Digital Media", "position": 1, "track_count": 14}"#);
    assert_eq!(produced["items"][0]["family"], parsed("\"digital\""));
    assert_eq!(produced["items"][0]["medium"], parsed("\"digital_file\""));
    assert_eq!(produced["items"][0]["codec"], Value::Null);
}

#[test]
fn test_a_format_entry_variant_lands_on_the_item() {
    let produced = one_medium(r#"{"format": "Hybrid SACD", "position": 1, "track_count": 11}"#);
    assert_eq!(produced["items"][0]["medium"], parsed("\"optical_sacd\""));
    assert_eq!(produced["items"][0]["variants"], parsed("[\"hybrid_layer\"]"));
}

#[test]
fn test_a_missing_format_is_an_unspecified_medium_not_an_unmapped_value() {
    for format in ["null", "\"\"", "null"] {
        let produced =
            one_medium(&format!("{{\"format\": {format}, \"position\": 2, \"track_count\": 8}}"));
        assert_eq!(produced["items"][0]["medium"], parsed("\"other_unspecified\""));
        assert_eq!(produced["items"][0]["family"], parsed("\"other\""));
        assert_eq!(produced["items"][0]["source"]["name"], Value::Null);
        assert_eq!(produced["unmapped"]["formats"], parsed("[]"));
    }
    let produced = one_medium(r#"{"position": 1, "track_count": 5}"#);
    assert_eq!(produced["items"][0]["medium"], parsed("\"other_unspecified\""));
}

#[test]
fn test_an_unknown_format_lands_in_unmapped_with_no_item() {
    let produced = mapped(
        r#"{"media": [
            {"format": "Quantum Crystal", "position": 1, "track_count": 1},
            {"format": "Wax Cylinder Mk II", "position": 2, "track_count": 1},
            {"format": "Quantum Crystal", "position": 3, "track_count": 1},
            {"format": "CD", "position": 4, "track_count": 9}
        ]}"#,
    );
    assert_eq!(produced["items"].as_array().expect("items is a list").len(), 1);
    assert_eq!(produced["items"][0]["medium"], parsed("\"optical_cd\""));
    assert_eq!(
        produced["unmapped"]["formats"],
        parsed(r#"["Quantum Crystal", "Wax Cylinder Mk II"]"#)
    );
    assert_eq!(produced["families"], parsed("[\"optical\"]"));
}

#[test]
fn test_items_keep_source_order_with_sorted_families() {
    let produced = mapped(
        r#"{"media": [
            {"format": "Hybrid SACD", "position": 1, "title": "Album", "track_count": 11},
            {"format": "DVD-Video", "position": 2, "title": "Bonus", "track_count": 6},
            {"format": "CD", "position": 3, "title": "", "track_count": 4}
        ]}"#,
    );
    let media: Vec<&Value> = produced["items"]
        .as_array()
        .expect("items is a list")
        .iter()
        .map(|item| &item["medium"])
        .collect();
    assert_eq!(
        media,
        vec![&parsed("\"optical_sacd\""), &parsed("\"video_dvd\""), &parsed("\"optical_cd\"")]
    );
    assert_eq!(produced["families"], parsed(r#"["optical", "video"]"#));
    assert_eq!(produced["items"][0]["position"], parsed("1"));
    assert_eq!(produced["items"][1]["position"], parsed("2"));
    assert_eq!(produced["items"][1]["track_count"], parsed("6"));
    assert_eq!(produced["items"][2]["track_count"], parsed("4"));
}

#[test]
fn test_a_repeated_format_deduplicates_families_only() {
    let produced = mapped(
        r#"{"media": [
            {"format": "Vinyl", "position": 1, "track_count": 4},
            {"format": "Vinyl", "position": 2, "track_count": 5}
        ]}"#,
    );
    assert_eq!(produced["items"].as_array().expect("items is a list").len(), 2);
    assert_eq!(produced["families"], parsed("[\"vinyl\"]"));
}

#[test]
fn test_a_non_integer_position_or_track_count_is_null() {
    for value in ["null", "\"1\"", "1.5", "true"] {
        let produced = one_medium(&format!(
            "{{\"format\": \"CD\", \"position\": {value}, \"track_count\": {value}}}"
        ));
        assert_eq!(produced["items"][0]["position"], Value::Null, "position {value}");
        assert_eq!(produced["items"][0]["track_count"], Value::Null, "track_count {value}");
    }
    let produced = one_medium(r#"{"format": "CD"}"#);
    assert_eq!(produced["items"][0]["position"], Value::Null);
    assert_eq!(produced["items"][0]["track_count"], Value::Null);
}

#[test]
fn test_status_routes_to_edition() {
    for (status, edition) in [
        ("Bootleg", "unofficial"),
        ("Promotion", "promo"),
        ("Withdrawn", "withdrawn"),
        ("Cancelled", "cancelled"),
        ("Expunged", "expunged"),
        ("Pseudo-Release", "pseudo_release"),
    ] {
        let produced = mapped(&format!("{{\"status\": \"{status}\"}}"));
        assert_eq!(produced["edition"], parsed(&format!("[\"{edition}\"]")));
        assert_eq!(produced["unmapped"]["descriptions"], parsed("[]"));
    }
    let official = mapped(r#"{"status": "Official"}"#);
    assert_eq!(official["edition"], parsed("[]"));
    assert_eq!(official["unmapped"]["descriptions"], parsed("[]"));
}

#[test]
fn test_packaging_routes_to_packaging() {
    for (packaging, target) in [
        ("Gatefold Cover", "gatefold"),
        ("Digipak", "digipak"),
        ("Jewel Case", "jewel_case"),
        ("Cardboard/Paper Sleeve", "cardboard_sleeve"),
        ("None", "none"),
        ("Other", "other"),
    ] {
        let produced = mapped(&format!("{{\"packaging\": \"{packaging}\"}}"));
        assert_eq!(produced["packaging"], Value::String(target.to_string()));
    }
    let absent = mapped(r#"{"packaging": null}"#);
    assert_eq!(absent["packaging"], Value::Null);
}

#[test]
fn test_release_group_types_route_to_kind_and_traits() {
    for (primary, kind) in [
        ("Album", "album"),
        ("Single", "single"),
        ("EP", "ep"),
        ("Broadcast", "broadcast"),
        ("Other", "other"),
    ] {
        let produced = mapped(&format!(
            "{{\"release_group\": {{\"primary_type\": \"{primary}\", \"secondary_types\": []}}}}"
        ));
        assert_eq!(produced["release_kind"], Value::String(kind.to_string()));
        assert_eq!(produced["traits"], parsed("[]"));
    }
    let produced = mapped(
        r#"{"release_group": {"primary_type": "Album",
            "secondary_types": ["Remix", "Compilation", "Live", "Compilation"]}}"#,
    );
    assert_eq!(produced["release_kind"], parsed("\"album\""));
    assert_eq!(produced["traits"], parsed(r#"["compilation", "live", "remix"]"#));
}

#[test]
fn test_unknown_release_values_land_in_unmapped_descriptions() {
    let produced = mapped(
        r#"{
            "status": "Rumoured",
            "packaging": "Hessian Sack",
            "release_group": {"primary_type": "Novella",
                "secondary_types": ["Podcast", "Live", "Podcast"]}
        }"#,
    );
    assert_eq!(
        produced["unmapped"]["descriptions"],
        parsed(r#"["Hessian Sack", "Novella", "Podcast", "Rumoured"]"#)
    );
    assert_eq!(produced["edition"], parsed("[]"));
    assert_eq!(produced["packaging"], Value::Null);
    assert_eq!(produced["release_kind"], Value::Null);
    assert_eq!(produced["traits"], parsed("[\"live\"]"));
    assert_eq!(produced["unmapped"]["formats"], parsed("[]"));
}

#[test]
fn test_release_facts_survive_an_unmapped_medium() {
    let produced = mapped(
        r#"{
            "media": [{"format": "Quantum Crystal", "position": 1, "track_count": 1}],
            "status": "Withdrawn",
            "packaging": "Jewel Case",
            "release_group": {"primary_type": "Single", "secondary_types": ["Demo"]}
        }"#,
    );
    assert_eq!(produced["items"], parsed("[]"));
    assert_eq!(produced["release_kind"], parsed("\"single\""));
    assert_eq!(produced["edition"], parsed("[\"withdrawn\"]"));
    assert_eq!(produced["packaging"], parsed("\"jewel_case\""));
    assert_eq!(produced["traits"], parsed("[\"demo\"]"));
    assert_eq!(produced["unmapped"]["formats"], parsed("[\"Quantum Crystal\"]"));
}

#[test]
fn test_non_string_release_values_are_ignored() {
    let produced = mapped(r#"{"status": 7, "packaging": ["Digipak"], "release_group": null}"#);
    assert_eq!(produced["edition"], parsed("[]"));
    assert_eq!(produced["packaging"], Value::Null);
    assert_eq!(produced["release_kind"], Value::Null);
    assert_eq!(produced["unmapped"]["descriptions"], parsed("[]"));

    let produced = mapped(
        r#"{"release_group": {"primary_type": "Album", "secondary_types": ["Live", 7, null]}}"#,
    );
    assert_eq!(produced["traits"], parsed("[\"live\"]"));
}

#[test]
fn test_release_view_translates_the_dump_spelling() {
    let record = parsed(
        r#"{
            "id": "a-release",
            "title": "A Release",
            "status": "Official",
            "packaging": "Digipak",
            "release-group": {"id": "a-group", "primary-type": "Album", "secondary-types": ["Live"]},
            "media": [{"format": "CD", "track-count": 9}]
        }"#,
    );
    let media_raw = vec![json_of(&parsed(
        r#"{"format": "CD", "format_id": null, "position": 1, "title": "", "track_count": 9}"#,
    ))];
    let view = release_view(&json_of(&record), &media_raw);
    assert_eq!(
        value_of(&view),
        parsed(
            r#"{
                "media": [{"format": "CD", "format_id": null, "position": 1, "title": "",
                    "track_count": 9}],
                "status": "Official",
                "packaging": "Digipak",
                "release_group": {"primary_type": "Album", "secondary_types": ["Live"]}
            }"#
        )
    );
}

#[test]
fn test_release_view_of_a_bare_record() {
    let view = release_view(&json_of(&parsed(r#"{"id": "a-release"}"#)), &Vec::new());
    assert_eq!(
        value_of(&view),
        parsed(
            r#"{
                "media": [],
                "status": null,
                "packaging": null,
                "release_group": {"primary_type": null, "secondary_types": null}
            }"#
        )
    );
    assert_eq!(map(&value_of(&view))["items"], parsed("[]"));
}

#[test]
fn test_attach_media_block_leaves_the_raw_medium_list_untouched() {
    let media_raw = parsed(
        r#"[{"format": "12\" Vinyl", "format_id": "7a", "position": 1, "title": "",
            "track_count": 9}]"#,
    );
    let record = parsed(
        r#"{"status": "Promotion", "packaging": "Gatefold Cover",
            "release-group": {"primary-type": "Album"}}"#,
    );
    let mut source = serde_json::Map::new();
    source.insert("name".to_string(), Value::String("A Release".to_string()));
    source.insert("status".to_string(), Value::String("Promotion".to_string()));
    source.insert("media_raw".to_string(), media_raw.clone());
    let mut data = json_of(&Value::Object(source));

    attach_media_block(&mut data, &json_of(&record), &taxonomy());

    let data = value_of(&data);
    assert_eq!(data["media_raw"], media_raw);
    assert_eq!(data["media"]["items"][0]["medium"], parsed("\"vinyl_12\""));
    assert_eq!(data["media"]["items"][0]["size_inches"], parsed("12"));
    assert_eq!(data["media"]["edition"], parsed("[\"promo\"]"));
    assert_eq!(data["media"]["packaging"], parsed("\"gatefold\""));
    assert_eq!(data["media"]["release_kind"], parsed("\"album\""));
    assert_eq!(data["name"], parsed("\"A Release\""));
}

#[test]
fn test_attach_media_block_on_a_record_without_media() {
    let mut data = json_of(&parsed(r#"{"name": "A Release"}"#));
    attach_media_block(&mut data, &json_of(&parsed("{}")), &taxonomy());
    let data = value_of(&data);
    assert_eq!(data["media"]["items"], parsed("[]"));
    assert_eq!(data["media"]["families"], parsed("[]"));
    assert_eq!(data["media"]["taxonomy_version"], parsed("\"1\""));
}

#[test]
fn test_attach_media_block_ignores_a_non_object_record() {
    let mut data = json_of(&parsed(r#"["not", "a", "record"]"#));
    attach_media_block(&mut data, &json_of(&parsed("{}")), &taxonomy());
    assert_eq!(value_of(&data), parsed(r#"["not", "a", "record"]"#));
}

#[test]
fn attaching_twice_changes_nothing_more() {
    let record = json_of(&parsed(r#"{"status": "Promotion"}"#));
    let mut data = json_of(&parsed(r#"{"media_raw": [{"format": "CD"}], "other": [1, -2]}"#));
    attach_media_block(&mut data, &record, &taxonomy());
    let once = value_of(&data);
    attach_media_block(&mut data, &record, &taxonomy());
    assert_eq!(value_of(&data), once);
    assert_eq!(once["other"], parsed("[1, -2]"));
}

#[test]
fn a_container_and_a_flag_make_no_item() {
    let produced = mapped(
        r#"{"media": [{"format": "Box Set"}, {"format": "Enhanced"}, {"format": "Enhanced"}]}"#,
    );
    assert_eq!(produced["items"], parsed("[]"));
    assert_eq!(produced["container"], parsed("\"box_set\""));
    assert_eq!(produced["flags"], parsed("[\"enhanced\"]"));
    assert_eq!(produced["unmapped"]["formats"], parsed("[]"));
}

#[test]
fn defaults_fill_only_what_fits_and_is_missing() {
    let produced = formatted("Shellac");
    let item = &produced["items"][0];
    assert_eq!(item["speed_rpm"], parsed("78"));
    assert_eq!(item["channels"], parsed("\"mono\""));
    assert_eq!(item["size_inches"], Value::Null, "a size that is no number is no size");
    assert_eq!(item["codec"], Value::Null, "a codec that is no string is no codec");

    let taxonomy = taxonomy();
    let mut stated = MediaItem::new(None, Vec::new(), None);
    stated.medium = Some("shellac_10".to_string());
    stated.speed_rpm = Some(Number::PosInt(80));
    let done = finish_item(stated, &taxonomy);
    assert_eq!(done.speed_rpm, Some(Number::PosInt(80)));
    assert_eq!(done.family, Some("shellac".to_string()));
}

#[test]
fn a_family_resolves_by_the_text_of_an_attribute() {
    let taxonomy = taxonomy();
    for (size, medium) in [
        (Number::PosInt(12), "vinyl_12"),
        (Number::NegInt(-7), "vinyl_unspecified"),
        (Number::Float("10.5".to_string()), "vinyl_unspecified"),
    ] {
        let mut item = MediaItem::new(None, Vec::new(), None);
        item.family = Some("vinyl".to_string());
        item.size_inches = Some(size);
        assert_eq!(finish_item(item, &taxonomy).medium, Some(medium.to_string()));
    }
    let mut unknown = MediaItem::new(None, Vec::new(), None);
    unknown.family = Some("wax".to_string());
    assert_eq!(finish_item(unknown, &taxonomy).medium, Some("wax_unspecified".to_string()));
    let bare = finish_item(MediaItem::new(None, Vec::new(), None), &taxonomy);
    assert_eq!(bare.medium, None);
    assert_eq!(bare.family, None);
}

#[test]
fn an_entry_may_name_a_medium_and_a_flag_at_once() {
    let taxonomy = taxonomy();
    let mut block = MediaBlock::empty(&taxonomy);
    let both = FormatEntry {
        family: Some("optical".to_string()),
        medium: Some("optical_cd".to_string()),
        variant: Some("v".to_string()),
        container: Some("c".to_string()),
        flag: Some("f".to_string()),
    };
    let item = apply_format_entry(&mut block, &both, MediaItem::new(None, Vec::new(), None))
        .expect("the entry names a medium");
    assert_eq!(item.family, Some("optical".to_string()));
    assert_eq!(item.medium, Some("optical_cd".to_string()));
    assert_eq!(item.variants, vec!["v".to_string()]);
    assert_eq!(block.container, Some("c".to_string()));
    assert_eq!(block.flags, vec!["f".to_string()]);
}

#[test]
fn the_first_value_of_a_slot_stays() {
    let mut slot: Option<u8> = None;
    fill(&mut slot, None);
    assert_eq!(slot, None);
    fill(&mut slot, Some(1));
    assert_eq!(slot, Some(1));
    fill(&mut slot, Some(2));
    assert_eq!(slot, Some(1));
}

#[test]
fn sorting_keeps_each_string_once() {
    let list = ["b", "", "a", "ä", "B", "a", "aa", "\u{10000}", "\u{ffff}", "b"];
    let mut expected: Vec<String> = list.iter().map(|text| text.to_string()).collect();
    let sorted = sorted_unique(expected.clone());
    expected.sort();
    expected.dedup();
    assert_eq!(sorted, expected);
}

#[test]
fn of_two_definitions_the_later_counts() {
    let taxonomy = Taxonomy::from(TaxonomyDocument {
        taxonomy_version: "2".to_string(),
        families: vec![],
        media: vec![medium("m", "first", &[]), medium("m", "second", &[])],
        musicbrainz: MusicBrainzVocabulary {
            formats: Table::new(),
            status: Table::new(),
            packaging: Table::new(),
            primary_types: Table::new(),
            secondary_types: Table::new(),
        },
    });
    assert_eq!(taxonomy.media.get("m").expect("the medium is there").family, "second");
    assert!(taxonomy.media.get("n").is_none());
}

#[test]
fn the_two_blocks_attach_in_either_order() {
    let vocabulary = Vocabulary {
        vocabulary_version: "1".to_string(),
        unmapped_type: "other".to_string(),
        alias_namespaces: Vec::new(),
        musicbrainz: MusicBrainz {
            barcode_field: "barcode".to_string(),
            catalog_number_field: "catalog-number".to_string(),
            types: texts(&[("Barcode", "barcode")]),
        },
    };
    let line = json_of(&parsed(r#"{"barcode": "012", "status": "Official"}"#));
    let raw = r#"{"id": "x", "media_raw": [{"format": "CD"}]}"#;
    let mut first = json_of(&parsed(raw));
    attach_media_block(&mut first, &line, &taxonomy());
    attach_identifiers_block(&mut first, &line, &vocabulary);
    let mut second = json_of(&parsed(raw));
    attach_identifiers_block(&mut second, &line, &vocabulary);
    attach_media_block(&mut second, &line, &taxonomy());
    assert_eq!(value_of(&first), value_of(&second));
    assert_eq!(value_of(&first)["identifiers"]["items"][0]["value"], parsed("\"012\""));
    assert_eq!(value_of(&first)["media"]["items"][0]["qty"], parsed("1"));
}
