//! The canonical identifiers block of a release: its barcode and its catalogue numbers, with
//! the aliases that name the release in other catalogues.

use crate::json::{
    as_text, json_text, json_texts, lemma_list_model, list_model, member, member_items, no_members,
    opt_model, set_member, texts_json, Json, JsonModel,
};
use crate::ordered::{insert_sorted, keys, lemma_sorted_set_of_none, sorted_set, sorted_texts};
use crate::table::Table;
use crate::text::{
    ascii_uppercase, collapse_space, digit, is_digit, is_empty, opt_view, push_opt, same_text,
    space_collapsed, to_chars, to_upper, trim, trimmed_text, uppercase, views,
};
use vstd::prelude::*;

verus! {

// ── The vocabulary ──────────────────────────────────────────────────

/// The identifier types, and which of them name a release elsewhere.
///
/// A type that a release states and the vocabulary does not know becomes `unmapped_type`.
#[derive(Debug)]
pub struct Vocabulary {
    pub vocabulary_version: String,
    pub unmapped_type: String,
    pub alias_namespaces: Vec<Namespace>,
    pub musicbrainz: MusicBrainz,
}

/// A catalogue whose external ids are made of the values of one identifier type.
#[derive(Debug)]
pub struct Namespace {
    pub provider: String,
    pub type_id: String,
    pub normalization: String,
}

/// The MusicBrainz half of the vocabulary.
#[derive(Debug)]
pub struct MusicBrainz {
    pub barcode_field: String,
    pub catalog_number_field: String,
    pub types: Table<String>,
}

// ── What a release states ───────────────────────────────────────────

/// The string that a value states: without its outer whitespace, and not empty.
pub open spec fn stated_text(value: Option<JsonModel>) -> Option<Seq<char>> {
    match value {
        Some(value) => match as_text(value) {
            Some(text) => if trimmed_text(text).len() == 0 {
                None
            } else {
                Some(trimmed_text(text))
            },
            None => None,
        },
        None => None,
    }
}

/// One identifier as a release states it.
#[verifier::ext_equal]
pub struct StatedModel {
    pub raw_type: Seq<char>,
    pub value: Seq<char>,
    pub field: Seq<char>,
}

/// The identifier that a barcode states, if it states one.
pub open spec fn stated_barcode(release: JsonModel, vocabulary: Vocabulary) -> Option<
    StatedModel,
> {
    match stated_text(member(release, "barcode"@)) {
        Some(value) => Some(
            StatedModel {
                raw_type: "barcode"@,
                value,
                field: vocabulary.musicbrainz.barcode_field@,
            },
        ),
        None => None,
    }
}

/// The identifier that a label entry states, if it states one.
pub open spec fn stated_catalog_number(entry: JsonModel, vocabulary: Vocabulary) -> Option<
    StatedModel,
> {
    match stated_text(member(entry, "catalog-number"@)) {
        Some(value) => Some(
            StatedModel {
                raw_type: "catalog-number"@,
                value,
                field: vocabulary.musicbrainz.catalog_number_field@,
            },
        ),
        None => None,
    }
}

/// The identifiers that a release states behind those of `before`: one for each label entry
/// that states a catalogue number, in source order.
pub open spec fn with_catalog_numbers(
    before: Seq<StatedModel>,
    entries: Seq<JsonModel>,
    vocabulary: Vocabulary,
) -> Seq<StatedModel>
    decreases entries.len(),
{
    if entries.len() == 0 {
        before
    } else {
        push_opt(
            with_catalog_numbers(before, entries.drop_last(), vocabulary),
            stated_catalog_number(entries.last(), vocabulary),
        )
    }
}

/// The identifiers that a release states: its barcode, then its catalogue numbers.
pub open spec fn stated_identifiers(release: JsonModel, vocabulary: Vocabulary) -> Seq<
    StatedModel,
> {
    with_catalog_numbers(
        push_opt(Seq::empty(), stated_barcode(release, vocabulary)),
        member_items(release, "label-info"@),
        vocabulary,
    )
}

// ── What becomes of it ──────────────────────────────────────────────

/// The type of a stated identifier.
pub open spec fn type_of(stated: StatedModel, vocabulary: Vocabulary) -> Seq<char> {
    if vocabulary.musicbrainz.types@.contains_key(stated.raw_type) {
        vocabulary.musicbrainz.types@[stated.raw_type]@
    } else {
        vocabulary.unmapped_type@
    }
}

/// The raw type of a stated identifier where the vocabulary does not know it.
pub open spec fn unknown_type(stated: StatedModel, vocabulary: Vocabulary) -> Option<Seq<char>> {
    if vocabulary.musicbrainz.types@.contains_key(stated.raw_type) {
        None
    } else {
        Some(stated.raw_type)
    }
}

/// A stated identifier as an item of the block.
pub open spec fn identifier_json(stated: StatedModel, vocabulary: Vocabulary) -> JsonModel {
    JsonModel::Object(
        map![
            "type"@ => JsonModel::Text(type_of(stated, vocabulary)),
            "value"@ => JsonModel::Text(stated.value),
            "description"@ => JsonModel::Null,
            "source"@ => JsonModel::Object(
                map![
                    "provider"@ => JsonModel::Text("musicbrainz"@),
                    "type"@ => JsonModel::Null,
                    "field"@ => JsonModel::Text(stated.field),
                ],
            ),
        ],
    )
}

/// The text where it is not empty.
pub open spec fn if_not_empty(text: Seq<char>) -> Option<Seq<char>> {
    if text.len() == 0 {
        None
    } else {
        Some(text)
    }
}

/// The external id that a rule makes of a value; none where the rule is unknown or leaves
/// nothing.
pub open spec fn external_id(rule: Seq<char>, value: Seq<char>) -> Option<Seq<char>> {
    if rule == "digits_only"@ {
        if_not_empty(value.filter(|c: char| is_digit(c)))
    } else if rule == "collapse_space"@ {
        if_not_empty(space_collapsed(value))
    } else if rule == "upper_collapse_space"@ {
        if_not_empty(uppercase(space_collapsed(value)))
    } else {
        None
    }
}

/// The external id that a rule makes of a value whose collapsed form is ASCII.
pub open spec fn ascii_external_id(rule: Seq<char>, value: Seq<char>) -> Option<Seq<char>> {
    if rule == "upper_collapse_space"@ {
        if_not_empty(ascii_uppercase(space_collapsed(value)))
    } else {
        external_id(rule, value)
    }
}

/// The alias that one namespace makes of a stated identifier, if it makes one.
pub open spec fn alias_in(
    stated: StatedModel,
    namespace: Namespace,
    vocabulary: Vocabulary,
) -> Option<(Seq<char>, Seq<char>)> {
    if namespace.type_id@ == type_of(stated, vocabulary) {
        match external_id(namespace.normalization@, stated.value) {
            Some(id) => Some((namespace.provider@, id)),
            None => None,
        }
    } else {
        None
    }
}

/// `before` and then the aliases that the namespaces make of a stated identifier.
pub open spec fn with_aliases(
    before: Seq<(Seq<char>, Seq<char>)>,
    stated: StatedModel,
    namespaces: Seq<Namespace>,
    vocabulary: Vocabulary,
) -> Seq<(Seq<char>, Seq<char>)>
    decreases namespaces.len(),
{
    if namespaces.len() == 0 {
        before
    } else {
        push_opt(
            with_aliases(before, stated, namespaces.drop_last(), vocabulary),
            alias_in(stated, namespaces.last(), vocabulary),
        )
    }
}

/// The items of the stated identifiers, in source order.
pub open spec fn identifier_items(stated: Seq<StatedModel>, vocabulary: Vocabulary) -> Seq<
    JsonModel,
> {
    stated.map_values(|one: StatedModel| identifier_json(one, vocabulary))
}

/// The types of the stated identifiers, in source order.
pub open spec fn identifier_types(stated: Seq<StatedModel>, vocabulary: Vocabulary) -> Seq<
    Seq<char>,
> {
    stated.map_values(|one: StatedModel| type_of(one, vocabulary))
}

/// The aliases of the stated identifiers, in source order.
pub open spec fn identifier_aliases(stated: Seq<StatedModel>, vocabulary: Vocabulary) -> Seq<
    (Seq<char>, Seq<char>),
>
    decreases stated.len(),
{
    if stated.len() == 0 {
        Seq::empty()
    } else {
        with_aliases(
            identifier_aliases(stated.drop_last(), vocabulary),
            stated.last(),
            vocabulary.alias_namespaces@,
            vocabulary,
        )
    }
}

/// The raw types of the stated identifiers that the vocabulary does not know.
pub open spec fn unknown_types(stated: Seq<StatedModel>, vocabulary: Vocabulary) -> Seq<Seq<char>>
    decreases stated.len(),
{
    if stated.len() == 0 {
        Seq::empty()
    } else {
        push_opt(
            unknown_types(stated.drop_last(), vocabulary),
            unknown_type(stated.last(), vocabulary),
        )
    }
}

/// An alias as JSON.
pub open spec fn alias_json(alias: (Seq<char>, Seq<char>)) -> JsonModel {
    JsonModel::Object(
        map![
            "provider"@ => JsonModel::Text(alias.0),
            "external_id"@ => JsonModel::Text(alias.1),
        ],
    )
}

/// A list of aliases as JSON.
pub open spec fn aliases_json(aliases: Seq<(Seq<char>, Seq<char>)>) -> JsonModel {
    JsonModel::Array(aliases.map_values(|alias: (Seq<char>, Seq<char>)| alias_json(alias)))
}

/// The identifiers block of a list of stated identifiers.
pub open spec fn block_of(stated: Seq<StatedModel>, vocabulary: Vocabulary) -> JsonModel {
    JsonModel::Object(
        map![
            "identifiers_version"@ => JsonModel::Text(vocabulary.vocabulary_version@),
            "items"@ => JsonModel::Array(identifier_items(stated, vocabulary)),
            "types"@ => texts_json(sorted_texts(identifier_types(stated, vocabulary))),
            "aliases"@ => aliases_json(
                sorted_set::<(String, String)>(identifier_aliases(stated, vocabulary)),
            ),
            "unmapped"@ => JsonModel::Object(
                map!["types"@ => texts_json(sorted_texts(unknown_types(stated, vocabulary)))],
            ),
        ],
    )
}

/// The identifiers block of a release.
pub open spec fn identifiers_block(release: JsonModel, vocabulary: Vocabulary) -> JsonModel {
    block_of(stated_identifiers(release, vocabulary), vocabulary)
}

// ── The mapper ──────────────────────────────────────────────────────

/// The string that a value states: without its outer whitespace, and not empty.
pub fn trimmed(value: Option<&Json>) -> (text: Option<String>)
    ensures
        opt_view(text) == stated_text(opt_model(value)),
{
    let Some(value) = value else {
        return None;
    };
    match value.as_str() {
        Some(text) => not_empty(trim(text)),
        None => None,
    }
}

/// The text where it is not empty.
pub fn not_empty(text: String) -> (kept: Option<String>)
    ensures
        opt_view(kept) == if_not_empty(text@),
{
    if is_empty(text.as_str()) {
        None
    } else {
        Some(text)
    }
}

fn only_digits(value: &str) -> (digits: String)
    ensures
        digits@ == value@.filter(|c: char| is_digit(c)),
{
    broadcast use vstd::seq_lib::group_filter_ensures;

    let chars = to_chars(value);
    let mut digits = String::new();
    let mut i: usize = 0;
    let ghost only = |c: char| is_digit(c);
    assert(value@.take(0) =~= Seq::<char>::empty());
    proof {
        reveal(Seq::filter);
    }
    assert(digits@ =~= value@.take(0).filter(only));
    while i < chars.len()
        invariant
            i <= chars.len(),
            chars@ == value@,
            only == (|c: char| is_digit(c)),
            digits@ == value@.take(i as int).filter(only),
        decreases chars.len() - i,
    {
        proof {
            reveal(Seq::filter);
            assert(value@.take(i + 1).drop_last() =~= value@.take(i as int));
            assert(value@.take(i + 1).last() == value@[i as int]);
        }
        if digit(chars[i]) {
            digits.push(chars[i]);
        }
        i = i + 1;
    }
    assert(value@.take(value@.len() as int) =~= value@);
    digits
}

/// The external id that a normalization rule makes of a value; none where the rule is unknown
/// or leaves nothing.
pub fn alias_value(rule: &str, value: &str) -> (id: Option<String>)
    ensures
        opt_view(id) == external_id(rule@, value@),
        vstd::utf8::is_ascii_chars(space_collapsed(value@)) ==> opt_view(id) == ascii_external_id(
            rule@,
            value@,
        ),
{
    proof {
        reveal_strlit("digits_only");
        reveal_strlit("collapse_space");
        reveal_strlit("upper_collapse_space");
        assert("digits_only"@.len() == 11 && "collapse_space"@.len() == 14
            && "upper_collapse_space"@.len() == 20);
    }
    if same_text(rule, "digits_only") {
        not_empty(only_digits(value))
    } else if same_text(rule, "collapse_space") {
        not_empty(collapse_space(value))
    } else if same_text(rule, "upper_collapse_space") {
        not_empty(to_upper(collapse_space(value).as_str()))
    } else {
        None
    }
}

/// The parts of a block while its identifiers are collected.
struct Collected {
    items: Vec<Json>,
    types: Vec<String>,
    aliases: Vec<(String, String)>,
    unmapped: Vec<String>,
}

impl Collected {
    spec fn holds(&self, stated: Seq<StatedModel>, vocabulary: Vocabulary) -> bool {
        &&& list_model(self.items@) == identifier_items(stated, vocabulary)
        &&& keys(self.types@) == sorted_set::<String>(identifier_types(stated, vocabulary))
        &&& keys(self.aliases@) == sorted_set::<(String, String)>(
            identifier_aliases(stated, vocabulary),
        )
        &&& keys(self.unmapped@) == sorted_set::<String>(unknown_types(stated, vocabulary))
    }

    fn new(vocabulary: &Vocabulary) -> (collected: Collected)
        ensures
            collected.holds(Seq::empty(), *vocabulary),
    {
        let collected = Collected {
            items: Vec::new(),
            types: Vec::new(),
            aliases: Vec::new(),
            unmapped: Vec::new(),
        };
        proof {
            let none = Seq::<StatedModel>::empty();
            lemma_sorted_set_of_none::<String>();
            lemma_sorted_set_of_none::<(String, String)>();
            assert(list_model(collected.items@) =~= identifier_items(none, *vocabulary));
            assert(identifier_types(none, *vocabulary) =~= Seq::<Seq<char>>::empty());
            assert(keys(collected.types@) =~= Seq::<Seq<char>>::empty());
            assert(keys(collected.aliases@) =~= Seq::<(Seq<char>, Seq<char>)>::empty());
            assert(keys(collected.unmapped@) =~= Seq::<Seq<char>>::empty());
        }
        collected
    }

    /// Take one more stated identifier.
    fn add_stated(
        &mut self,
        raw_type: &str,
        value: String,
        field: &str,
        vocabulary: &Vocabulary,
        before: Ghost<Seq<StatedModel>>,
    )
        requires
            old(self).holds(before@, *vocabulary),
        ensures
            final(self).holds(
                before@.push(StatedModel { raw_type: raw_type@, value: value@, field: field@ }),
                *vocabulary,
            ),
    {
        let ghost one = StatedModel { raw_type: raw_type@, value: value@, field: field@ };
        let ghost all = before@.push(one);
        proof {
            assert(all.drop_last() =~= before@);
            assert(all.last() == one);
        }
        let type_id: String = match vocabulary.musicbrainz.types.get(raw_type) {
            Some(known) => known.clone(),
            None => {
                insert_sorted(
                    &mut self.unmapped,
                    raw_type.to_owned(),
                    Ghost(unknown_types(before@, *vocabulary)),
                );
                vocabulary.unmapped_type.clone()
            },
        };
        assert(type_id@ == type_of(one, *vocabulary));
        insert_sorted(
            &mut self.types,
            type_id.clone(),
            Ghost(identifier_types(before@, *vocabulary)),
        );
        proof {
            assert(identifier_types(all, *vocabulary) =~= identifier_types(
                before@,
                *vocabulary,
            ).push(type_id@));
        }
        let item = identifier_item(type_id.as_str(), value.as_str(), field);
        let ghost items_before = self.items@;
        self.items.push(item);
        proof {
            lemma_list_model(items_before);
            lemma_list_model(self.items@);
            assert(item@ =~= identifier_json(one, *vocabulary));
            assert(self.items@.drop_last() =~= items_before);
            assert(list_model(self.items@) =~= identifier_items(all, *vocabulary));
        }
        let ghost earlier = identifier_aliases(before@, *vocabulary);
        let ghost namespaces = vocabulary.alias_namespaces@;
        let ghost unmapped = self.unmapped@;
        let ghost types = self.types@;
        let ghost items = self.items@;
        let mut i: usize = 0;
        assert(namespaces.take(0) =~= Seq::<Namespace>::empty());
        while i < vocabulary.alias_namespaces.len()
            invariant
                i <= vocabulary.alias_namespaces.len(),
                namespaces == vocabulary.alias_namespaces@,
                one.value == value@,
                type_id@ == type_of(one, *vocabulary),
                self.unmapped@ == unmapped,
                self.types@ == types,
                self.items@ == items,
                keys(self.aliases@) == sorted_set::<(String, String)>(
                    with_aliases(earlier, one, namespaces.take(i as int), *vocabulary),
                ),
            decreases vocabulary.alias_namespaces.len() - i,
        {
            let namespace = &vocabulary.alias_namespaces[i];
            proof {
                assert(namespaces.take(i + 1).drop_last() =~= namespaces.take(i as int));
                assert(namespaces.take(i + 1).last() == namespaces[i as int]);
            }
            if same_text(namespace.type_id.as_str(), type_id.as_str()) {
                if let Some(id) = alias_value(namespace.normalization.as_str(), value.as_str()) {
                    insert_sorted(
                        &mut self.aliases,
                        (namespace.provider.clone(), id),
                        Ghost(with_aliases(earlier, one, namespaces.take(i as int), *vocabulary)),
                    );
                }
            }
            i = i + 1;
        }
        assert(namespaces.take(namespaces.len() as int) =~= namespaces);
    }
}

fn identifier_item(type_id: &str, value: &str, field: &str) -> (item: Json)
    ensures
        item@ == JsonModel::Object(
            map![
                "type"@ => JsonModel::Text(type_id@),
                "value"@ => JsonModel::Text(value@),
                "description"@ => JsonModel::Null,
                "source"@ => JsonModel::Object(
                    map![
                        "provider"@ => JsonModel::Text("musicbrainz"@),
                        "type"@ => JsonModel::Null,
                        "field"@ => JsonModel::Text(field@),
                    ],
                ),
            ],
        ),
{
    let mut source = no_members();
    set_member(&mut source, "provider", json_text("musicbrainz"));
    set_member(&mut source, "type", Json::Null);
    set_member(&mut source, "field", json_text(field));
    let mut item = no_members();
    set_member(&mut item, "type", json_text(type_id));
    set_member(&mut item, "value", json_text(value));
    set_member(&mut item, "description", Json::Null);
    set_member(&mut item, "source", Json::Object(source));
    Json::Object(item)
}

fn aliases_to_json(aliases: &Vec<(String, String)>) -> (json: Json)
    ensures
        json@ == aliases_json(keys(aliases@)),
{
    let mut items: Vec<Json> = Vec::new();
    let mut i: usize = 0;
    while i < aliases.len()
        invariant
            i <= aliases.len(),
            items@.len() == i,
            forall|j: int|
                0 <= j < i ==> (#[trigger] items@[j])@ == alias_json(
                    (aliases@[j].0@, aliases@[j].1@),
                ),
        decreases aliases.len() - i,
    {
        let mut alias = no_members();
        set_member(&mut alias, "provider", json_text(aliases[i].0.as_str()));
        set_member(&mut alias, "external_id", json_text(aliases[i].1.as_str()));
        items.push(Json::Object(alias));
        i = i + 1;
    }
    proof {
        lemma_list_model(items@);
        assert(list_model(items@) =~= keys(aliases@).map_values(
            |alias: (Seq<char>, Seq<char>)| alias_json(alias),
        ));
    }
    Json::Array(items)
}

/// Map the identifiers of a release, in source order and with the values as they were
/// received but for the whitespace around them.
pub fn map_musicbrainz_identifiers(release: &Json, vocabulary: &Vocabulary) -> (block: Json)
    ensures
        block@ == identifiers_block(release@, *vocabulary),
{
    let mut collected = Collected::new(vocabulary);
    let ghost mut stated = Seq::<StatedModel>::empty();
    if let Some(value) = trimmed(release.get("barcode")) {
        let ghost one = StatedModel {
            raw_type: "barcode"@,
            value: value@,
            field: vocabulary.musicbrainz.barcode_field@,
        };
        collected.add_stated(
            "barcode",
            value,
            vocabulary.musicbrainz.barcode_field.as_str(),
            vocabulary,
            Ghost(stated),
        );
        proof {
            stated = stated.push(one);
        }
    }
    let ghost barcode = stated;
    assert(barcode =~= push_opt(Seq::empty(), stated_barcode(release@, *vocabulary)));
    if let Some(entries) = release.get_array("label-info") {
        let ghost all = list_model(entries@);
        let mut i: usize = 0;
        assert(all.take(0) =~= Seq::<JsonModel>::empty());
        while i < entries.len()
            invariant
                i <= entries.len(),
                all == list_model(entries@),
                stated == with_catalog_numbers(barcode, all.take(i as int), *vocabulary),
                collected.holds(stated, *vocabulary),
            decreases entries.len() - i,
        {
            proof {
                lemma_list_model(entries@);
                assert(all.take(i + 1).drop_last() =~= all.take(i as int));
                assert(all.take(i + 1).last() == entries@[i as int]@);
            }
            if let Some(value) = trimmed(entries[i].get("catalog-number")) {
                let ghost one = StatedModel {
                    raw_type: "catalog-number"@,
                    value: value@,
                    field: vocabulary.musicbrainz.catalog_number_field@,
                };
                collected.add_stated(
                    "catalog-number",
                    value,
                    vocabulary.musicbrainz.catalog_number_field.as_str(),
                    vocabulary,
                    Ghost(stated),
                );
                proof {
                    stated = stated.push(one);
                }
            }
            i = i + 1;
        }
        proof {
            lemma_list_model(entries@);
            assert(all.take(all.len() as int) =~= all);
        }
    }
    assert(stated == stated_identifiers(release@, *vocabulary));
    let mut unmapped = no_members();
    set_member(&mut unmapped, "types", json_texts(&collected.unmapped));
    let mut block = no_members();
    set_member(
        &mut block,
        "identifiers_version",
        json_text(vocabulary.vocabulary_version.as_str()),
    );
    let types = json_texts(&collected.types);
    let aliases = aliases_to_json(&collected.aliases);
    proof {
        assert(views(collected.types@) =~= keys(collected.types@));
        assert(views(collected.unmapped@) =~= keys(collected.unmapped@));
    }
    set_member(&mut block, "items", Json::Array(collected.items));
    set_member(&mut block, "types", types);
    set_member(&mut block, "aliases", aliases);
    set_member(&mut block, "unmapped", Json::Object(unmapped));
    Json::Object(block)
}

/// A record with the identifiers block of a release; what is no object stays as it is.
pub open spec fn with_identifiers_block(
    data: JsonModel,
    release: JsonModel,
    vocabulary: Vocabulary,
) -> JsonModel {
    match data {
        JsonModel::Object(map) => JsonModel::Object(
            map.insert("identifiers"@, identifiers_block(release, vocabulary)),
        ),
        other => other,
    }
}

/// Attach the canonical `identifiers` block to a normalized release record, in place.
pub fn attach_identifiers_block(data: &mut Json, release: &Json, vocabulary: &Vocabulary)
    ensures
        final(data)@ == with_identifiers_block(old(data)@, release@, *vocabulary),
{
    match data {
        Json::Object(map) => set_member(
            map,
            "identifiers",
            map_musicbrainz_identifiers(release, vocabulary),
        ),
        _ => {},
    }
}

} // verus!
