//! What holds of the identifiers block of every release.

use crate::json::{has_member, member, member_items, texts_json, JsonModel};
use crate::musicbrainz::identifiers::{
    alias_in, alias_json, aliases_json, ascii_external_id, external_id, identifier_aliases,
    identifier_items, identifier_json, identifier_types, identifiers_block, stated_barcode,
    stated_catalog_number, stated_identifiers, stated_text, type_of, unknown_type, unknown_types,
    with_aliases, with_catalog_numbers, with_identifiers_block, Namespace, StatedModel, Vocabulary,
};
use crate::musicbrainz::media::{with_media_block, Taxonomy};
use crate::musicbrainz::release_laws::{has_keys, lists, under};
use crate::ordered::{
    lemma_sorted_set_of_none, sorted_set, sorted_set_holds_each_member_once, sorted_texts,
    strictly_sorted,
};
use crate::text::{
    a_collapsed_text_stays_as_it_is, ascii_capitals_stay_as_they_are, collapsing_space_keeps_ascii,
    collapsing_space_twice_is_collapsing_it_once, is_blank, is_collapsed, is_digit, is_white_space,
    lemma_push_opt, push_opt, space_collapsed, trimmed_text, trimming_removes_only_outer_whitespace,
    uppercase, whitespace_around_a_text_does_not_matter, words, words_are_parted_by_whitespace,
};
use vstd::prelude::*;
use vstd::utf8::is_ascii_chars;

verus! {

/// A release that states neither a barcode nor a catalogue number has a block without items,
/// types, aliases or unmapped types.
pub proof fn a_release_without_identifiers_has_the_empty_block(
    release: JsonModel,
    vocabulary: Vocabulary,
)
    requires
        stated_text(member(release, "barcode"@)) is None,
        forall|i: int|
            0 <= i < member_items(release, "label-info"@).len() ==> stated_text(
                member(#[trigger] member_items(release, "label-info"@)[i], "catalog-number"@),
            ) is None,
    ensures
        identifiers_block(release, vocabulary) == JsonModel::Object(
            map![
                "identifiers_version"@ => JsonModel::Text(vocabulary.vocabulary_version@),
                "items"@ => JsonModel::Array(Seq::empty()),
                "types"@ => texts_json(Seq::empty()),
                "aliases"@ => aliases_json(Seq::empty()),
                "unmapped"@ => JsonModel::Object(map!["types"@ => texts_json(Seq::empty())]),
            ],
        ),
{
    let none = Seq::<StatedModel>::empty();
    lemma_no_catalog_numbers(none, member_items(release, "label-info"@), vocabulary);
    assert(stated_identifiers(release, vocabulary) == none);
    lemma_sorted_set_of_none::<String>();
    lemma_sorted_set_of_none::<(String, String)>();
    assert(identifier_items(none, vocabulary) =~= Seq::<JsonModel>::empty());
    assert(identifier_types(none, vocabulary) =~= Seq::<Seq<char>>::empty());
}

proof fn lemma_no_catalog_numbers(
    before: Seq<StatedModel>,
    entries: Seq<JsonModel>,
    vocabulary: Vocabulary,
)
    requires
        forall|i: int|
            0 <= i < entries.len() ==> stated_text(
                member(#[trigger] entries[i], "catalog-number"@),
            ) is None,
    ensures
        with_catalog_numbers(before, entries, vocabulary) == before,
    decreases entries.len(),
{
    if entries.len() > 0 {
        let rest = entries.drop_last();
        assert forall|i: int| 0 <= i < rest.len() implies stated_text(
            member(#[trigger] rest[i], "catalog-number"@),
        ) is None by {
            assert(rest[i] == entries[i]);
        }
        lemma_no_catalog_numbers(before, rest, vocabulary);
        assert(entries[entries.len() - 1] == entries.last());
    }
}

/// What a value states is not empty and has no whitespace at either end.
pub proof fn stated_values_are_trimmed(value: Option<JsonModel>)
    requires
        stated_text(value) is Some,
    ensures
        stated_text(value)->0.len() > 0,
        !is_white_space(stated_text(value)->0.first()),
        !is_white_space(stated_text(value)->0.last()),
{
    let text = match value {
        Some(JsonModel::Text(text)) => text,
        _ => Seq::<char>::empty(),
    };
    trimming_removes_only_outer_whitespace(text);
}

/// The types of a block are exactly those of its items, sorted and without repetition.
pub proof fn types_are_those_of_the_items(
    stated: Seq<StatedModel>,
    vocabulary: Vocabulary,
    type_id: Seq<char>,
)
    ensures
        strictly_sorted::<String>(sorted_texts(identifier_types(stated, vocabulary))),
        sorted_texts(identifier_types(stated, vocabulary)).contains(type_id) <==> exists|i: int|
            0 <= i < stated.len() && type_of(#[trigger] stated[i], vocabulary) == type_id,
{
    let types = identifier_types(stated, vocabulary);
    sorted_set_holds_each_member_once::<String>(types);
    assert(sorted_texts(types).to_set().contains(type_id) <==> types.to_set().contains(type_id));
    if types.contains(type_id) {
        let i = choose|i: int| 0 <= i < types.len() && types[i] == type_id;
        assert(type_of(stated[i], vocabulary) == type_id);
    }
    if exists|i: int| 0 <= i < stated.len() && type_of(#[trigger] stated[i], vocabulary) == type_id {
        let i = choose|i: int|
            0 <= i < stated.len() && type_of(#[trigger] stated[i], vocabulary) == type_id;
        assert(types[i] == type_id);
    }
}

proof fn lemma_unknown_types(stated: Seq<StatedModel>, vocabulary: Vocabulary, raw_type: Seq<char>)
    ensures
        unknown_types(stated, vocabulary).contains(raw_type) <==> exists|i: int|
            0 <= i < stated.len() && unknown_type(#[trigger] stated[i], vocabulary) == Some(
                raw_type,
            ),
    decreases stated.len(),
{
    if stated.len() > 0 {
        let rest = stated.drop_last();
        lemma_unknown_types(rest, vocabulary, raw_type);
        lemma_push_opt(
            unknown_types(rest, vocabulary),
            unknown_type(stated.last(), vocabulary),
            raw_type,
        );
        if exists|i: int|
            0 <= i < stated.len() && unknown_type(#[trigger] stated[i], vocabulary) == Some(
                raw_type,
            ) {
            let i = choose|i: int|
                0 <= i < stated.len() && unknown_type(#[trigger] stated[i], vocabulary) == Some(
                    raw_type,
                );
            if i < rest.len() {
                assert(rest[i] == stated[i]);
            }
        }
        if unknown_types(stated, vocabulary).contains(raw_type) {
            if unknown_types(rest, vocabulary).contains(raw_type) {
                let i = choose|i: int|
                    0 <= i < rest.len() && unknown_type(#[trigger] rest[i], vocabulary) == Some(
                        raw_type,
                    );
                assert(stated[i] == rest[i]);
            } else {
                assert(unknown_type(stated[stated.len() - 1], vocabulary) == Some(raw_type));
            }
        }
    }
}

/// A raw type is kept as unmapped exactly where an identifier states it and the vocabulary
/// does not know it.
pub proof fn unknown_types_are_kept(
    stated: Seq<StatedModel>,
    vocabulary: Vocabulary,
    raw_type: Seq<char>,
)
    ensures
        strictly_sorted::<String>(sorted_texts(unknown_types(stated, vocabulary))),
        sorted_texts(unknown_types(stated, vocabulary)).contains(raw_type) <==> (exists|i: int|
            0 <= i < stated.len() && (#[trigger] stated[i]).raw_type == raw_type)
            && !vocabulary.musicbrainz.types@.contains_key(raw_type),
{
    let list = unknown_types(stated, vocabulary);
    sorted_set_holds_each_member_once::<String>(list);
    assert(sorted_texts(list).to_set().contains(raw_type) <==> list.to_set().contains(raw_type));
    lemma_unknown_types(stated, vocabulary, raw_type);
    if exists|i: int| 0 <= i < stated.len() && (#[trigger] stated[i]).raw_type == raw_type {
        let i = choose|i: int|
            0 <= i < stated.len() && (#[trigger] stated[i]).raw_type == raw_type;
        if !vocabulary.musicbrainz.types@.contains_key(raw_type) {
            assert(unknown_type(stated[i], vocabulary) == Some(raw_type));
        }
    }
    if exists|i: int|
        0 <= i < stated.len() && unknown_type(#[trigger] stated[i], vocabulary) == Some(raw_type) {
        let i = choose|i: int|
            0 <= i < stated.len() && unknown_type(#[trigger] stated[i], vocabulary) == Some(
                raw_type,
            );
        assert(stated[i].raw_type == raw_type);
    }
}

/// Whether one of the namespaces makes `alias` of a stated identifier.
pub open spec fn makes_alias(
    stated: StatedModel,
    namespaces: Seq<Namespace>,
    vocabulary: Vocabulary,
    alias: (Seq<char>, Seq<char>),
) -> bool {
    exists|n: int|
        0 <= n < namespaces.len() && alias_in(stated, #[trigger] namespaces[n], vocabulary)
            == Some(alias)
}

proof fn lemma_aliases_of_one(
    before: Seq<(Seq<char>, Seq<char>)>,
    stated: StatedModel,
    namespaces: Seq<Namespace>,
    vocabulary: Vocabulary,
    alias: (Seq<char>, Seq<char>),
)
    ensures
        with_aliases(before, stated, namespaces, vocabulary).contains(alias) <==> before.contains(
            alias,
        ) || makes_alias(stated, namespaces, vocabulary, alias),
    decreases namespaces.len(),
{
    if namespaces.len() > 0 {
        let rest = namespaces.drop_last();
        let last = alias_in(stated, namespaces.last(), vocabulary);
        lemma_aliases_of_one(before, stated, rest, vocabulary, alias);
        lemma_push_opt(with_aliases(before, stated, rest, vocabulary), last, alias);
        if makes_alias(stated, rest, vocabulary, alias) {
            let n = choose|n: int|
                0 <= n < rest.len() && alias_in(stated, #[trigger] rest[n], vocabulary) == Some(
                    alias,
                );
            assert(namespaces[n] == rest[n]);
        }
        if last == Some(alias) {
            assert(alias_in(stated, namespaces[namespaces.len() - 1], vocabulary) == Some(alias));
        }
        if makes_alias(stated, namespaces, vocabulary, alias) {
            let n = choose|n: int|
                0 <= n < namespaces.len() && alias_in(stated, #[trigger] namespaces[n], vocabulary)
                    == Some(alias);
            if n < rest.len() {
                assert(rest[n] == namespaces[n]);
            }
        }
    }
}

proof fn lemma_aliases(
    stated: Seq<StatedModel>,
    vocabulary: Vocabulary,
    alias: (Seq<char>, Seq<char>),
)
    ensures
        identifier_aliases(stated, vocabulary).contains(alias) <==> exists|i: int|
            0 <= i < stated.len() && makes_alias(
                #[trigger] stated[i],
                vocabulary.alias_namespaces@,
                vocabulary,
                alias,
            ),
    decreases stated.len(),
{
    if stated.len() > 0 {
        let namespaces = vocabulary.alias_namespaces@;
        let rest = stated.drop_last();
        let before = identifier_aliases(rest, vocabulary);
        lemma_aliases(rest, vocabulary, alias);
        lemma_aliases_of_one(before, stated.last(), namespaces, vocabulary, alias);
        if before.contains(alias) {
            let i = choose|i: int|
                0 <= i < rest.len() && makes_alias(
                    #[trigger] rest[i],
                    namespaces,
                    vocabulary,
                    alias,
                );
            assert(stated[i] == rest[i]);
        }
        if makes_alias(stated.last(), namespaces, vocabulary, alias) {
            assert(makes_alias(stated[stated.len() - 1], namespaces, vocabulary, alias));
        }
        if exists|i: int|
            0 <= i < stated.len() && makes_alias(
                #[trigger] stated[i],
                namespaces,
                vocabulary,
                alias,
            ) {
            let i = choose|i: int|
                0 <= i < stated.len() && makes_alias(
                    #[trigger] stated[i],
                    namespaces,
                    vocabulary,
                    alias,
                );
            if i < rest.len() {
                assert(rest[i] == stated[i]);
            }
        }
    }
}

/// The aliases of a block are exactly those that the namespaces make of its identifiers,
/// sorted and without repetition.
pub proof fn aliases_are_those_of_the_namespaces(
    stated: Seq<StatedModel>,
    vocabulary: Vocabulary,
    alias: (Seq<char>, Seq<char>),
)
    ensures
        strictly_sorted::<(String, String)>(
            sorted_set::<(String, String)>(identifier_aliases(stated, vocabulary)),
        ),
        sorted_set::<(String, String)>(identifier_aliases(stated, vocabulary)).contains(alias)
            <==> exists|i: int|
            0 <= i < stated.len() && makes_alias(
                #[trigger] stated[i],
                vocabulary.alias_namespaces@,
                vocabulary,
                alias,
            ),
{
    let list = identifier_aliases(stated, vocabulary);
    sorted_set_holds_each_member_once::<(String, String)>(list);
    assert(sorted_set::<(String, String)>(list).to_set().contains(alias) <==> list.to_set().contains(
        alias,
    ));
    lemma_aliases(stated, vocabulary, alias);
}

/// An external id is never empty, and one of the rule `digits_only` holds digits alone.
pub proof fn external_ids_are_never_empty(rule: Seq<char>, value: Seq<char>)
    requires
        external_id(rule, value) is Some,
    ensures
        external_id(rule, value)->0.len() > 0,
        rule == "digits_only"@ ==> forall|i: int|
            0 <= i < external_id(rule, value)->0.len() ==> is_digit(
                #[trigger] external_id(rule, value)->0[i],
            ),
{
    broadcast use vstd::seq_lib::group_filter_ensures;

    let only = |c: char| is_digit(c);
    if rule == "digits_only"@ {
        let id = value.filter(only);
        assert forall|i: int| 0 <= i < id.len() implies is_digit(#[trigger] id[i]) by {
            assert(only(id[i]));
        }
    }
}

proof fn lemma_filtered_again(text: Seq<char>, only: spec_fn(char) -> bool)
    requires
        forall|i: int| 0 <= i < text.len() ==> only(#[trigger] text[i]),
    ensures
        text.filter(only) == text,
    decreases text.len(),
{
    reveal(Seq::filter);
    if text.len() > 0 {
        let rest = text.drop_last();
        assert forall|i: int| 0 <= i < rest.len() implies only(#[trigger] rest[i]) by {
            assert(only(text[i]));
        }
        lemma_filtered_again(rest, only);
        assert(only(text[text.len() - 1]));
        assert(rest.push(text.last()) =~= text);
    }
}

proof fn lemma_no_digits_in_blank(text: Seq<char>)
    requires
        is_blank(text),
    ensures
        text.filter(|c: char| is_digit(c)) == Seq::<char>::empty(),
    decreases text.len(),
{
    reveal(Seq::filter);
    if text.len() > 0 {
        let rest = text.drop_last();
        assert forall|i: int| 0 <= i < rest.len() implies is_white_space(#[trigger] rest[i]) by {
            assert(is_white_space(text[i]));
        }
        lemma_no_digits_in_blank(rest);
        assert(is_white_space(text[text.len() - 1]));
    }
}

proof fn lemma_rules_differ()
    ensures
        "digits_only"@ != "collapse_space"@,
        "digits_only"@ != "upper_collapse_space"@,
        "collapse_space"@ != "upper_collapse_space"@,
{
    reveal_strlit("digits_only");
    reveal_strlit("collapse_space");
    reveal_strlit("upper_collapse_space");
    assert("digits_only"@.len() == 11 && "collapse_space"@.len() == 14
        && "upper_collapse_space"@.len() == 20);
}

/// Normalizing a value that was normalized changes nothing, and an external id has no
/// whitespace at either end and none but single spaces within.
pub proof fn external_ids_are_stable(rule: Seq<char>, value: Seq<char>)
    requires
        rule == "digits_only"@ || rule == "collapse_space"@,
        external_id(rule, value) is Some,
    ensures
        external_id(rule, external_id(rule, value)->0) == external_id(rule, value),
        external_id(rule, value)->0.len() > 0,
        is_collapsed(external_id(rule, value)->0),
{
    lemma_rules_differ();
    let id = external_id(rule, value)->0;
    if rule == "digits_only"@ {
        external_ids_are_never_empty(rule, value);
        assert forall|i: int| 0 <= i < id.len() implies is_digit(#[trigger] id[i])
            && !is_white_space(id[i]) by {}
        lemma_filtered_again(id, |c: char| is_digit(c));
    } else {
        collapsing_space_twice_is_collapsing_it_once(value);
    }
}

/// Of a value whose collapsed form is ASCII, every rule makes a stable external id: normalizing
/// it again changes nothing, and it has no whitespace at either end and none but single spaces
/// within. The collapsed form of an ASCII value, and that of the external id, are ASCII.
pub proof fn ascii_external_ids_are_stable(rule: Seq<char>, value: Seq<char>)
    requires
        is_ascii_chars(value) || is_ascii_chars(space_collapsed(value)),
        ascii_external_id(rule, value) is Some,
    ensures
        is_ascii_chars(space_collapsed(value)),
        is_ascii_chars(space_collapsed(ascii_external_id(rule, value)->0)),
        ascii_external_id(rule, ascii_external_id(rule, value)->0) == ascii_external_id(
            rule,
            value,
        ),
        ascii_external_id(rule, value)->0.len() > 0,
        is_collapsed(ascii_external_id(rule, value)->0),
{
    lemma_rules_differ();
    if is_ascii_chars(value) {
        collapsing_space_keeps_ascii(value);
    }
    let id = ascii_external_id(rule, value)->0;
    if rule == "upper_collapse_space"@ {
        collapsing_space_twice_is_collapsing_it_once(value);
        ascii_capitals_stay_as_they_are(space_collapsed(value));
    } else {
        external_ids_are_stable(rule, value);
        if rule == "digits_only"@ {
            external_ids_are_never_empty(rule, value);
            assert forall|i: int| 0 <= i < id.len() implies '\0' <= #[trigger] id[i] <= '\u{7f}' by {
                assert(is_digit(id[i]));
            }
        }
    }
    a_collapsed_text_stays_as_it_is(id);
}

/// Whitespace around a value does not change its external id, whatever the rule.
pub proof fn whitespace_around_a_value_makes_no_other_id(
    rule: Seq<char>,
    before: Seq<char>,
    value: Seq<char>,
    after: Seq<char>,
)
    requires
        is_blank(before),
        is_blank(after),
    ensures
        external_id(rule, before + value + after) == external_id(rule, value),
        ascii_external_id(rule, before + value + after) == ascii_external_id(rule, value),
        space_collapsed(before + value + after) == space_collapsed(value),
{
    let only = |c: char| is_digit(c);
    whitespace_around_a_text_does_not_matter(before, value, after);
    lemma_no_digits_in_blank(before);
    lemma_no_digits_in_blank(after);
    Seq::filter_distributes_over_add(before + value, after, only);
    Seq::filter_distributes_over_add(before, value, only);
    assert((before + value + after).filter(only) =~= value.filter(only));
}

// ── The rules ───────────────────────────────────────────────────────

/// The rule `digits_only` takes the digits of a value in order, and no other character.
pub proof fn digits_are_taken_in_order(value: Seq<char>, c: char)
    ensures
        ({
            let before = if external_id("digits_only"@, value) is Some {
                external_id("digits_only"@, value)->0
            } else {
                Seq::empty()
            };
            let after = external_id("digits_only"@, value.push(c));
            &&& '0' <= c && c <= '9' ==> after == Some(before.push(c))
            &&& !('0' <= c && c <= '9') ==> after == external_id("digits_only"@, value)
        }),
        external_id("digits_only"@, Seq::empty()) is None,
{
    reveal(Seq::filter);
    lemma_rules_differ();
    assert(value.push(c).drop_last() =~= value);
    assert(value.push(c).last() == c);
}

/// The rule `collapse_space` keeps the words of a value, with one space between each two of
/// them, and gives nothing where there are none. The rule `upper_collapse_space` gives the
/// uppercase of that. Any other rule but these and `digits_only` gives nothing.
pub proof fn words_are_kept(rule: Seq<char>, value: Seq<char>)
    ensures
        external_id("collapse_space"@, value) is Some <==> words(value).len() > 0,
        external_id("collapse_space"@, value) is Some ==> words(
            external_id("collapse_space"@, value)->0,
        ) == words(value) && is_collapsed(external_id("collapse_space"@, value)->0),
        ({
            let collapsed = if words(value).len() > 0 {
                external_id("collapse_space"@, value)->0
            } else {
                Seq::empty()
            };
            let upper = external_id("upper_collapse_space"@, value);
            &&& upper is Some <==> uppercase(collapsed).len() > 0
            &&& upper is Some ==> upper->0 == uppercase(collapsed)
        }),
        rule != "digits_only"@ && rule != "collapse_space"@ && rule != "upper_collapse_space"@
            ==> external_id(rule, value) is None,
{
    lemma_rules_differ();
    collapsing_space_twice_is_collapsing_it_once(value);
    if words(value).len() > 0 {
        if space_collapsed(value).len() == 0 {
            assert(space_collapsed(value) =~= Seq::<char>::empty());
            words_are_parted_by_whitespace(Seq::empty(), ' ', Seq::empty());
        }
    } else {
        assert(space_collapsed(value) =~= Seq::<char>::empty());
    }
}

// ── The block of a release ──────────────────────────────────────────

/// Whether a value holds a string under a key that is not only whitespace.
pub open spec fn states_value(value: JsonModel, key: Seq<char>, text: Seq<char>) -> bool {
    has_member(value, key, JsonModel::Text(text)) && !is_blank(text)
}

/// Whether a label entry states a catalogue number.
pub open spec fn is_numbered(entry: JsonModel) -> bool {
    exists|text: Seq<char>| #[trigger] states_value(entry, "catalog-number"@, text)
}

/// The label entries that state a catalogue number, in source order.
pub open spec fn numbered(entries: Seq<JsonModel>) -> Seq<JsonModel> {
    entries.filter(|entry: JsonModel| is_numbered(entry))
}

/// Whether `entries` are the label entries of a release: the list that it holds, or none where
/// it holds no list.
pub open spec fn are_labels_of(entries: Seq<JsonModel>, release: JsonModel) -> bool {
    ||| has_member(release, "label-info"@, JsonModel::Array(entries))
    ||| entries.len() == 0 && forall|other: Seq<JsonModel>|
        !#[trigger] has_member(release, "label-info"@, JsonModel::Array(other))
}

/// Whether an item states a value of a raw type, as it was received from a field, without the
/// whitespace around it, and with the type that the vocabulary gives to the raw type.
pub open spec fn is_item(
    item: JsonModel,
    raw_type: Seq<char>,
    text: Seq<char>,
    field: Seq<char>,
    vocabulary: Vocabulary,
) -> bool {
    let source = under(item, "source"@);
    &&& has_keys(item, set!["type"@, "value"@, "description"@, "source"@])
    &&& has_keys(source, set!["provider"@, "type"@, "field"@])
    &&& vocabulary.musicbrainz.types@.contains_key(raw_type) ==> under(item, "type"@)
        == JsonModel::Text(vocabulary.musicbrainz.types@[raw_type]@)
    &&& !vocabulary.musicbrainz.types@.contains_key(raw_type) ==> under(item, "type"@)
        == JsonModel::Text(vocabulary.unmapped_type@)
    &&& under(item, "value"@) == JsonModel::Text(trimmed_text(text))
    &&& under(item, "description"@) == JsonModel::Null
    &&& under(source, "provider"@) == JsonModel::Text("musicbrainz"@)
    &&& under(source, "type"@) == JsonModel::Null
    &&& under(source, "field"@) == JsonModel::Text(field)
}

/// The items of an identifiers block.
pub open spec fn items_in(block: JsonModel) -> Seq<JsonModel> {
    under(block, "items"@)->Array_0
}

proof fn lemma_block_keys_differ()
    ensures
        "identifiers_version"@ != "items"@,
        "identifiers_version"@ != "types"@,
        "identifiers_version"@ != "aliases"@,
        "identifiers_version"@ != "unmapped"@,
        "items"@ != "types"@,
        "items"@ != "aliases"@,
        "items"@ != "unmapped"@,
        "types"@ != "aliases"@,
        "types"@ != "unmapped"@,
        "aliases"@ != "unmapped"@,
{
    reveal_strlit("identifiers_version");
    reveal_strlit("items");
    reveal_strlit("types");
    reveal_strlit("aliases");
    reveal_strlit("unmapped");
    assert("identifiers_version"@.len() == 19);
    assert("items"@.len() == 5 && "items"@[0] == 'i');
    assert("types"@.len() == 5 && "types"@[0] == 't');
    assert("aliases"@.len() == 7);
    assert("unmapped"@.len() == 8);
}

proof fn lemma_is_item(stated: StatedModel, text: Seq<char>, vocabulary: Vocabulary)
    requires
        stated.value == trimmed_text(text),
    ensures
        is_item(
            identifier_json(stated, vocabulary),
            stated.raw_type,
            text,
            stated.field,
            vocabulary,
        ),
{
    reveal_strlit("type");
    reveal_strlit("value");
    reveal_strlit("description");
    reveal_strlit("source");
    reveal_strlit("provider");
    reveal_strlit("field");
    assert("type"@.len() == 4);
    assert("value"@.len() == 5 && "value"@[0] == 'v');
    assert("field"@.len() == 5 && "field"@[0] == 'f');
    assert("description"@.len() == 11 && "source"@.len() == 6 && "provider"@.len() == 8);
    let item = identifier_json(stated, vocabulary);
    assert(item->Object_0.dom() =~= set!["type"@, "value"@, "description"@, "source"@]);
    assert(under(item, "source"@)->Object_0.dom() =~= set!["provider"@, "type"@, "field"@]);
}

proof fn lemma_stated_text(value: JsonModel, key: Seq<char>, text: Seq<char>)
    ensures
        states_value(value, key, text) ==> stated_text(member(value, key)) == Some(
            trimmed_text(text),
        ),
        stated_text(member(value, key)) is Some ==> exists|found: Seq<char>| #[trigger]
            states_value(value, key, found),
{
    trimming_removes_only_outer_whitespace(text);
    if let Some(JsonModel::Text(found)) = member(value, key) {
        trimming_removes_only_outer_whitespace(found);
        if stated_text(member(value, key)) is Some {
            assert(states_value(value, key, found));
        }
    }
}

proof fn lemma_catalog_numbers(
    before: Seq<StatedModel>,
    entries: Seq<JsonModel>,
    vocabulary: Vocabulary,
)
    ensures
        ({
            let all = with_catalog_numbers(before, entries, vocabulary);
            let list = numbered(entries);
            &&& all.len() == before.len() + list.len()
            &&& forall|i: int| 0 <= i < before.len() ==> #[trigger] all[i] == before[i]
            &&& forall|i: int|
                0 <= i < list.len() ==> stated_catalog_number(#[trigger] list[i], vocabulary)
                    == Some(all[before.len() + i])
        }),
    decreases entries.len(),
{
    reveal(Seq::filter);
    if entries.len() > 0 {
        let rest = entries.drop_last();
        let last = entries.last();
        lemma_catalog_numbers(before, rest, vocabulary);
        lemma_stated_text(last, "catalog-number"@, Seq::empty());
        if is_numbered(last) {
            let text = choose|text: Seq<char>| #[trigger]
                states_value(last, "catalog-number"@, text);
            lemma_stated_text(last, "catalog-number"@, text);
        }
        let all = with_catalog_numbers(before, entries, vocabulary);
        let some = with_catalog_numbers(before, rest, vocabulary);
        let list = numbered(entries);
        assert forall|i: int| 0 <= i < list.len() implies stated_catalog_number(
            #[trigger] list[i],
            vocabulary,
        ) == Some(all[before.len() + i]) by {
            if i < numbered(rest).len() {
                assert(list[i] == numbered(rest)[i]);
                assert(all[before.len() + i] == some[before.len() + i]);
            }
        }
    }
}

proof fn lemma_labels(entries: Seq<JsonModel>, release: JsonModel)
    requires
        are_labels_of(entries, release),
    ensures
        member_items(release, "label-info"@) == entries,
{
    let items = member_items(release, "label-info"@);
    if items.len() > 0 {
        assert(has_member(release, "label-info"@, JsonModel::Array(items)));
    }
    if !has_member(release, "label-info"@, JsonModel::Array(entries)) {
        assert(items =~= entries);
    }
}

/// The items of a block are the barcode, where the release states one, and then exactly one
/// for each label entry that states a catalogue number, in source order, whether there is a
/// barcode or not.
pub proof fn items_are_the_barcode_and_the_catalogue_numbers(
    release: JsonModel,
    entries: Seq<JsonModel>,
    vocabulary: Vocabulary,
)
    requires
        are_labels_of(entries, release),
    ensures
        ({
            let block = identifiers_block(release, vocabulary);
            let items = items_in(block);
            let coded = exists|text: Seq<char>| #[trigger] states_value(release, "barcode"@, text);
            let skip: int = if coded { 1 } else { 0 };
            &&& under(block, "items"@) is Array
            &&& items.len() == skip + numbered(entries).len()
            &&& forall|text: Seq<char>| #[trigger]
                states_value(release, "barcode"@, text) ==> is_item(
                    items[0],
                    "barcode"@,
                    text,
                    vocabulary.musicbrainz.barcode_field@,
                    vocabulary,
                )
            &&& forall|i: int, text: Seq<char>|
                0 <= i < numbered(entries).len() && #[trigger] states_value(
                    numbered(entries)[i],
                    "catalog-number"@,
                    text,
                ) ==> is_item(
                    items[skip + i],
                    "catalog-number"@,
                    text,
                    vocabulary.musicbrainz.catalog_number_field@,
                    vocabulary,
                )
        }),
{
    lemma_block_keys_differ();
    lemma_labels(entries, release);
    let none = Seq::<StatedModel>::empty();
    let before = push_opt(none, stated_barcode(release, vocabulary));
    let all = stated_identifiers(release, vocabulary);
    lemma_catalog_numbers(before, entries, vocabulary);
    lemma_stated_text(release, "barcode"@, Seq::empty());
    let items = items_in(identifiers_block(release, vocabulary));
    assert(items =~= identifier_items(all, vocabulary));
    if exists|text: Seq<char>| #[trigger] states_value(release, "barcode"@, text) {
        let text = choose|text: Seq<char>| #[trigger] states_value(release, "barcode"@, text);
        lemma_stated_text(release, "barcode"@, text);
    }
    assert forall|text: Seq<char>| #[trigger]
        states_value(release, "barcode"@, text) implies is_item(
        items[0],
        "barcode"@,
        text,
        vocabulary.musicbrainz.barcode_field@,
        vocabulary,
    ) by {
        lemma_stated_text(release, "barcode"@, text);
        assert(all[0] == before[0]);
        lemma_is_item(all[0], text, vocabulary);
    }
    assert forall|i: int, text: Seq<char>|
        0 <= i < numbered(entries).len() && #[trigger] states_value(
            numbered(entries)[i],
            "catalog-number"@,
            text,
        ) implies is_item(
        items[before.len() + i],
        "catalog-number"@,
        text,
        vocabulary.musicbrainz.catalog_number_field@,
        vocabulary,
    ) by {
        let entry = numbered(entries)[i];
        lemma_stated_text(entry, "catalog-number"@, text);
        assert(stated_catalog_number(entry, vocabulary) == Some(all[before.len() + i]));
        lemma_is_item(all[before.len() + i], text, vocabulary);
    }
}

/// The types of a block are exactly those of its items, and its aliases exactly those that a
/// namespace of the type of an item makes of its value; both are sorted and without repetition.
/// The block names the version of the vocabulary.
pub proof fn types_and_aliases_are_those_of_the_items(
    release: JsonModel,
    vocabulary: Vocabulary,
    types: Seq<Seq<char>>,
    aliases: Seq<(Seq<char>, Seq<char>)>,
    type_id: Seq<char>,
    alias: (Seq<char>, Seq<char>),
)
    requires
        types == sorted_texts(identifier_types(stated_identifiers(release, vocabulary), vocabulary)),
        aliases == sorted_set::<(String, String)>(
            identifier_aliases(stated_identifiers(release, vocabulary), vocabulary),
        ),
    ensures
        ({
            let block = identifiers_block(release, vocabulary);
            let items = items_in(block);
            let pairs = under(block, "aliases"@);
            &&& has_keys(
                block,
                set!["identifiers_version"@, "items"@, "types"@, "aliases"@, "unmapped"@],
            )
            &&& under(block, "identifiers_version"@) == JsonModel::Text(
                vocabulary.vocabulary_version@,
            )
            &&& lists(under(block, "types"@), types)
            &&& strictly_sorted::<String>(types)
            &&& types.contains(type_id) <==> exists|i: int|
                0 <= i < items.len() && under(#[trigger] items[i], "type"@) == JsonModel::Text(
                    type_id,
                )
            &&& pairs is Array
            &&& pairs->Array_0.len() == aliases.len()
            &&& forall|i: int|
                0 <= i < aliases.len() ==> is_alias(#[trigger] pairs->Array_0[i], aliases[i])
            &&& strictly_sorted::<(String, String)>(aliases)
            &&& aliases.contains(alias) <==> exists|i: int, n: int|
                0 <= i < items.len() && 0 <= n < vocabulary.alias_namespaces@.len()
                    && #[trigger] gives_alias(items[i], vocabulary.alias_namespaces@[n], alias)
        }),
{
    lemma_block_keys_differ();
    reveal_strlit("type");
    reveal_strlit("value");
    reveal_strlit("description");
    reveal_strlit("source");
    assert("type"@.len() == 4 && "value"@.len() == 5 && "description"@.len() == 11
        && "source"@.len() == 6);
    reveal_strlit("provider");
    reveal_strlit("external_id");
    assert("provider"@.len() == 8 && "external_id"@.len() == 11);
    let block = identifiers_block(release, vocabulary);
    let items = items_in(block);
    let stated = stated_identifiers(release, vocabulary);
    let namespaces = vocabulary.alias_namespaces@;
    assert(block->Object_0.dom() =~= set![
        "identifiers_version"@, "items"@, "types"@, "aliases"@, "unmapped"@,
    ]);
    assert(items =~= identifier_items(stated, vocabulary));
    types_are_those_of_the_items(stated, vocabulary, type_id);
    if types.contains(type_id) {
        let i = choose|i: int|
            0 <= i < stated.len() && type_of(#[trigger] stated[i], vocabulary) == type_id;
        assert(under(items[i], "type"@) == JsonModel::Text(type_id));
    }
    if exists|i: int|
        0 <= i < items.len() && under(#[trigger] items[i], "type"@) == JsonModel::Text(type_id) {
        let i = choose|i: int|
            0 <= i < items.len() && under(#[trigger] items[i], "type"@) == JsonModel::Text(type_id);
        assert(type_of(stated[i], vocabulary) == type_id);
    }
    let pairs = under(block, "aliases"@);
    assert forall|i: int| 0 <= i < aliases.len() implies is_alias(
        #[trigger] pairs->Array_0[i],
        aliases[i],
    ) by {
        let one = pairs->Array_0[i];
        assert(one == alias_json(aliases[i]));
        assert(one->Object_0.dom() =~= set!["provider"@, "external_id"@]);
    }
    aliases_are_those_of_the_namespaces(stated, vocabulary, alias);
    if aliases.contains(alias) {
        let i = choose|i: int|
            0 <= i < stated.len() && makes_alias(
                #[trigger] stated[i],
                namespaces,
                vocabulary,
                alias,
            );
        let n = choose|n: int|
            0 <= n < namespaces.len() && alias_in(stated[i], #[trigger] namespaces[n], vocabulary)
                == Some(alias);
        assert(items[i] == identifier_json(stated[i], vocabulary));
        assert(gives_alias(items[i], namespaces[n], alias));
    }
    if exists|i: int, n: int|
        0 <= i < items.len() && 0 <= n < namespaces.len() && #[trigger] gives_alias(
            items[i],
            namespaces[n],
            alias,
        ) {
        let (i, n) = choose|i: int, n: int|
            0 <= i < items.len() && 0 <= n < namespaces.len() && #[trigger] gives_alias(
                items[i],
                namespaces[n],
                alias,
            );
        assert(items[i] == identifier_json(stated[i], vocabulary));
        assert(alias_in(stated[i], namespaces[n], vocabulary) == Some(alias));
        assert(makes_alias(stated[i], namespaces, vocabulary, alias));
    }
}

/// Whether a JSON value is an alias: its provider and its external id.
pub open spec fn is_alias(value: JsonModel, alias: (Seq<char>, Seq<char>)) -> bool {
    &&& has_keys(value, set!["provider"@, "external_id"@])
    &&& under(value, "provider"@) == JsonModel::Text(alias.0)
    &&& under(value, "external_id"@) == JsonModel::Text(alias.1)
}

/// Whether a namespace makes an alias of an item: it is for the type of the item, and its rule
/// makes the external id of the value of the item.
pub open spec fn gives_alias(
    item: JsonModel,
    namespace: Namespace,
    alias: (Seq<char>, Seq<char>),
) -> bool {
    &&& under(item, "type"@) == JsonModel::Text(namespace.type_id@)
    &&& under(item, "value"@) is Text
    &&& external_id(namespace.normalization@, under(item, "value"@)->Text_0) == Some(alias.1)
    &&& alias.0 == namespace.provider@
}

/// A raw type is listed as unmapped exactly where the vocabulary does not know it and the
/// release states it: a barcode, or a catalogue number of one of its labels.
pub proof fn unmapped_types_are_what_the_vocabulary_does_not_know(
    release: JsonModel,
    entries: Seq<JsonModel>,
    vocabulary: Vocabulary,
    unmapped: Seq<Seq<char>>,
    raw_type: Seq<char>,
)
    requires
        are_labels_of(entries, release),
        unmapped == sorted_texts(
            unknown_types(stated_identifiers(release, vocabulary), vocabulary),
        ),
    ensures
        ({
            let shown = under(identifiers_block(release, vocabulary), "unmapped"@);
            &&& has_keys(shown, set!["types"@])
            &&& lists(under(shown, "types"@), unmapped)
            &&& strictly_sorted::<String>(unmapped)
            &&& unmapped.contains(raw_type) <==> !vocabulary.musicbrainz.types@.contains_key(
                raw_type,
            ) && {
                ||| raw_type == "barcode"@ && exists|text: Seq<char>| #[trigger]
                    states_value(release, "barcode"@, text)
                ||| raw_type == "catalog-number"@ && numbered(entries).len() > 0
            }
        }),
{
    lemma_block_keys_differ();
    lemma_labels(entries, release);
    let none = Seq::<StatedModel>::empty();
    let before = push_opt(none, stated_barcode(release, vocabulary));
    let all = stated_identifiers(release, vocabulary);
    lemma_catalog_numbers(before, entries, vocabulary);
    lemma_stated_text(release, "barcode"@, Seq::empty());
    unknown_types_are_kept(all, vocabulary, raw_type);
    let shown = under(identifiers_block(release, vocabulary), "unmapped"@);
    assert(shown->Object_0.dom() =~= set!["types"@]);
    if exists|text: Seq<char>| #[trigger] states_value(release, "barcode"@, text) {
        let text = choose|text: Seq<char>| #[trigger] states_value(release, "barcode"@, text);
        lemma_stated_text(release, "barcode"@, text);
        assert(all[0] == before[0]);
        assert(all[0].raw_type == "barcode"@);
    }
    if numbered(entries).len() > 0 {
        assert(stated_catalog_number(numbered(entries)[0], vocabulary) == Some(all[before.len() as int]));
        assert(all[before.len() as int].raw_type == "catalog-number"@);
    }
    if exists|i: int| 0 <= i < all.len() && (#[trigger] all[i]).raw_type == raw_type {
        let i = choose|i: int| 0 <= i < all.len() && (#[trigger] all[i]).raw_type == raw_type;
        if i < before.len() {
            assert(all[i] == before[i]);
        } else {
            let entry = numbered(entries)[i - before.len()];
            assert(stated_catalog_number(entry, vocabulary) == Some(
                all[before.len() + (i - before.len())],
            ));
        }
    }
}

/// What is attached to a record under `identifiers` is the block of the release; what is no
/// object is not touched.
pub proof fn the_attached_block_is_that_of_the_release(
    data: JsonModel,
    release: JsonModel,
    vocabulary: Vocabulary,
)
    ensures
        data is Object ==> has_member(
            with_identifiers_block(data, release, vocabulary),
            "identifiers"@,
            identifiers_block(release, vocabulary),
        ),
        !(data is Object) ==> with_identifiers_block(data, release, vocabulary) == data,
{
}

/// Attaching the block changes the member `identifiers` and no other.
pub proof fn attaching_changes_only_the_identifiers_member(
    data: JsonModel,
    release: JsonModel,
    vocabulary: Vocabulary,
    key: Seq<char>,
)
    requires
        key != "identifiers"@,
    ensures
        member(with_identifiers_block(data, release, vocabulary), key) == member(data, key),
{
}

/// Attaching the block a second time changes nothing.
pub proof fn attaching_twice_is_attaching_once(
    data: JsonModel,
    release: JsonModel,
    vocabulary: Vocabulary,
)
    ensures
        with_identifiers_block(
            with_identifiers_block(data, release, vocabulary),
            release,
            vocabulary,
        ) == with_identifiers_block(data, release, vocabulary),
{
    if let JsonModel::Object(map) = data {
        let block = identifiers_block(release, vocabulary);
        assert(map.insert("identifiers"@, block).insert("identifiers"@, block) =~= map.insert(
            "identifiers"@,
            block,
        ));
    }
}

/// The identifiers block and the media block do not disturb each other: they can be attached
/// in either order.
pub proof fn the_blocks_can_be_attached_in_either_order(
    data: JsonModel,
    record: JsonModel,
    taxonomy: Taxonomy,
    vocabulary: Vocabulary,
)
    ensures
        with_media_block(with_identifiers_block(data, record, vocabulary), record, taxonomy)
            == with_identifiers_block(
            with_media_block(data, record, taxonomy),
            record,
            vocabulary,
        ),
{
    reveal_strlit("media");
    reveal_strlit("media_raw");
    reveal_strlit("identifiers");
    assert("media"@.len() == 5 && "media_raw"@.len() == 9 && "identifiers"@.len() == 11);
    attaching_changes_only_the_identifiers_member(data, record, vocabulary, "media_raw"@);
    if let JsonModel::Object(map) = data {
        let identifiers = identifiers_block(record, vocabulary);
        let with_media = with_media_block(data, record, taxonomy);
        assert(with_media is Object);
        let block = match with_media {
            JsonModel::Object(changed) => changed["media"@],
            _ => JsonModel::Null,
        };
        assert(map.insert("identifiers"@, identifiers).insert("media"@, block) =~= map.insert(
            "media"@,
            block,
        ).insert("identifiers"@, identifiers));
    }
}

} // verus!
