//! What becomes of each part of a release in its media block, read off the release itself.

use crate::json::{
    as_text, has_member, member, member_items, member_text, number_text, JsonModel, NumberModel,
};
use crate::musicbrainz::media::{
    attribute_filled, attribute_text, bare_item, block_json, empty_block, families_by_id, filled,
    finished, format_name, item_json, known_traits, known_value, media_by_id, media_container,
    media_flags, media_items, medium_container, medium_flag, medium_item, names_medium, primary_type,
    release_block, ruled_medium, secondary_types, status_edition, unknown_facts, unknown_format, unknown_value,
    view_of_record, with_entry, with_media_block, with_release_facts, BlockModel, FamilyDefinition,
    FormatEntry, ItemModel, MediumDefinition, Taxonomy,
};
use crate::musicbrainz::media_laws::{
    items_keep_source_order, lemma_sorted_texts, the_view_reads_the_record,
    unknown_formats_are_kept, unknown_release_values_are_kept,
};
use crate::ordered::{lemma_sorted_set_of_none, sorted_texts, Ranked};
use crate::text::{lemma_push_opt, opt_view, push_opt};
use vstd::prelude::*;

verus! {

// ── Items ───────────────────────────────────────────────────────────

/// Whether a medium states a format name: a string that is not empty.
pub open spec fn states_format(medium: JsonModel, name: Seq<char>) -> bool {
    has_member(medium, "format"@, JsonModel::Text(name)) && name.len() > 0
}

/// Whether a medium is defined with a number as the default of an attribute.
pub open spec fn defaults_to_number(
    taxonomy: Taxonomy,
    medium: Seq<char>,
    attribute: Seq<char>,
    number: NumberModel,
) -> bool {
    &&& taxonomy.media@.contains_key(medium)
    &&& taxonomy.media@[medium].defaults@.contains_key(attribute)
    &&& taxonomy.media@[medium].defaults@[attribute]@ == JsonModel::Number(number)
}

/// Whether a medium is defined with a string as the default of an attribute.
pub open spec fn defaults_to_text(
    taxonomy: Taxonomy,
    medium: Seq<char>,
    attribute: Seq<char>,
    text: Seq<char>,
) -> bool {
    &&& taxonomy.media@.contains_key(medium)
    &&& taxonomy.media@[medium].defaults@.contains_key(attribute)
    &&& taxonomy.media@[medium].defaults@[attribute]@ == JsonModel::Text(text)
}

/// Whether the attributes of an item that states none are the defaults of its medium.
pub open spec fn has_defaults_of(item: ItemModel, medium: Seq<char>, taxonomy: Taxonomy) -> bool {
    &&& forall|n: NumberModel|
        item.size_inches == Some(n) <==> #[trigger] defaults_to_number(
            taxonomy,
            medium,
            "size_inches"@,
            n,
        )
    &&& forall|n: NumberModel|
        item.speed_rpm == Some(n) <==> #[trigger] defaults_to_number(
            taxonomy,
            medium,
            "speed_rpm"@,
            n,
        )
    &&& forall|t: Seq<char>|
        item.channels == Some(t) <==> #[trigger] defaults_to_text(
            taxonomy,
            medium,
            "channels"@,
            t,
        )
    &&& forall|t: Seq<char>|
        item.codec == Some(t) <==> #[trigger] defaults_to_text(taxonomy, medium, "codec"@, t)
}

/// Whether an item is one unit that carries what a medium states of itself.
pub open spec fn carries_medium(
    item: ItemModel,
    medium: JsonModel,
    name: Option<Seq<char>>,
) -> bool {
    &&& item.qty == 1
    &&& item.source.provider == "musicbrainz"@
    &&& item.source.name == name
    &&& item.source.descriptions.len() == 0
    &&& item.source.text is None
    &&& item.appearance.len() == 0
    &&& forall|n: i64|
        item.position == Some(n) <==> #[trigger] has_member(
            medium,
            "position"@,
            JsonModel::Number(NumberModel::Integer(n as int)),
        )
    &&& forall|n: i64|
        item.track_count == Some(n) <==> #[trigger] has_member(
            medium,
            "track_count"@,
            JsonModel::Number(NumberModel::Integer(n as int)),
        )
}

/// The number of items that a medium list makes before a place.
pub open spec fn items_before(first: Seq<JsonModel>, taxonomy: Taxonomy) -> int {
    media_items(first, taxonomy).len() as int
}

proof fn lemma_sorted_one(text: Seq<char>)
    ensures
        sorted_texts(seq![text]) == seq![text],
{
    lemma_sorted_texts(seq![text]);
    let sorted = sorted_texts(seq![text]);
    assert(seq![text][0] == text);
    assert(seq![text].contains(text));
    assert(sorted.contains(text));
    if sorted.len() > 1 {
        assert(seq![text].contains(sorted[0]) && seq![text].contains(sorted[1])) by {
            assert(sorted.contains(sorted[0]) && sorted.contains(sorted[1]));
        }
        assert(<String as Ranked>::before(sorted[0], sorted[1]));
        <String as Ranked>::irreflexive(text);
    }
    assert(sorted =~= seq![text]);
}

proof fn lemma_one_medium(
    release: JsonModel,
    first: Seq<JsonModel>,
    medium: JsonModel,
    second: Seq<JsonModel>,
    taxonomy: Taxonomy,
)
    requires
        has_member(release, "media"@, JsonModel::Array(first + seq![medium] + second)),
    ensures
        release_block(release, taxonomy).items == media_items(first, taxonomy) + media_items(
            seq![medium],
            taxonomy,
        ) + media_items(second, taxonomy),
{
    items_keep_source_order(first, seq![medium], taxonomy);
    items_keep_source_order(first + seq![medium], second, taxonomy);
}

/// A medium whose format the vocabulary knows as a medium or a family makes one item, in the
/// place of the medium. The item has the medium of the format, else the unspecified medium of
/// its family; the family of the format, else that of the definition of its medium, whatever
/// the defaults of the medium are; the variant of the format; and the defaults of its medium.
pub proof fn a_known_format_makes_its_item(
    release: JsonModel,
    first: Seq<JsonModel>,
    medium: JsonModel,
    second: Seq<JsonModel>,
    name: Seq<char>,
    taxonomy: Taxonomy,
)
    requires
        has_member(release, "media"@, JsonModel::Array(first + seq![medium] + second)),
        states_format(medium, name),
        taxonomy.musicbrainz.formats@.contains_key(name),
        taxonomy.musicbrainz.formats@[name].family is Some
            || taxonomy.musicbrainz.formats@[name].medium is Some,
    ensures
        ({
            let entry = taxonomy.musicbrainz.formats@[name];
            let items = release_block(release, taxonomy).items;
            let item = items[items_before(first, taxonomy)];
            &&& items == media_items(first, taxonomy) + seq![item] + media_items(second, taxonomy)
            &&& carries_medium(item, medium, Some(name))
            &&& entry.medium matches Some(id) ==> item.medium == Some(id@)
            &&& entry.medium is None ==> item.medium == Some(
                entry.family->0@ + "_unspecified"@,
            )
            &&& entry.family matches Some(id) ==> item.family == Some(id@)
            &&& entry.family is None && taxonomy.media@.contains_key(entry.medium->0@)
                ==> item.family == Some(taxonomy.media@[entry.medium->0@].family@)
            &&& entry.family is None && !taxonomy.media@.contains_key(entry.medium->0@)
                ==> item.family is None
            &&& entry.variant matches Some(variant) ==> item.variants == seq![variant@]
            &&& entry.variant is None ==> item.variants.len() == 0
            &&& has_defaults_of(item, item.medium->0, taxonomy)
        }),
{
    let entry = taxonomy.musicbrainz.formats@[name];
    lemma_one_medium(release, first, medium, second, taxonomy);
    let one = seq![medium];
    assert(one.drop_last() =~= Seq::<JsonModel>::empty());
    assert(one.last() == medium);
    assert(media_items(one.drop_last(), taxonomy) == Seq::<ItemModel>::empty());
    let made = media_items(one, taxonomy);
    assert(made.len() == 1);
    let items = release_block(release, taxonomy).items;
    let item = items[items_before(first, taxonomy)];
    assert(item == made[0]);
    assert(items =~= media_items(first, taxonomy) + seq![item] + media_items(second, taxonomy));
    lemma_sorted_set_of_none::<String>();
    if let Some(variant) = entry.variant {
        lemma_sorted_one(variant@);
        assert(Seq::<Seq<char>>::empty().push(variant@) =~= seq![variant@]);
    }
}

/// A medium that is an object and states no format makes one item, in its place: a medium of
/// an unspecified kind, with the family and the defaults of that kind.
pub proof fn a_medium_without_a_format_makes_an_unspecified_item(
    release: JsonModel,
    first: Seq<JsonModel>,
    medium: JsonModel,
    second: Seq<JsonModel>,
    taxonomy: Taxonomy,
)
    requires
        has_member(release, "media"@, JsonModel::Array(first + seq![medium] + second)),
        medium is Object,
        forall|name: Seq<char>| !#[trigger] states_format(medium, name),
    ensures
        ({
            let items = release_block(release, taxonomy).items;
            let item = items[items_before(first, taxonomy)];
            let kind = "other_unspecified"@;
            &&& items == media_items(first, taxonomy) + seq![item] + media_items(second, taxonomy)
            &&& carries_medium(item, medium, None)
            &&& item.medium == Some(kind)
            &&& taxonomy.media@.contains_key(kind) ==> item.family == Some(
                taxonomy.media@[kind].family@,
            )
            &&& !taxonomy.media@.contains_key(kind) ==> item.family is None
            &&& item.variants.len() == 0
            &&& has_defaults_of(item, kind, taxonomy)
        }),
{
    lemma_one_medium(release, first, medium, second, taxonomy);
    let one = seq![medium];
    assert(one.drop_last() =~= Seq::<JsonModel>::empty());
    assert(one.last() == medium);
    assert(media_items(one.drop_last(), taxonomy) == Seq::<ItemModel>::empty());
    if let Some(JsonModel::Text(name)) = member(medium, "format"@) {
        assert(!states_format(medium, name));
    }
    let made = media_items(one, taxonomy);
    assert(made.len() == 1);
    let items = release_block(release, taxonomy).items;
    let item = items[items_before(first, taxonomy)];
    assert(item == made[0]);
    assert(items =~= media_items(first, taxonomy) + seq![item] + media_items(second, taxonomy));
    lemma_sorted_set_of_none::<String>();
}

/// What is no object makes no item, nor does a medium whose format the vocabulary does not
/// know or knows as neither a medium nor a family; the items around it stay as they are.
pub proof fn other_mediums_make_no_item(
    release: JsonModel,
    first: Seq<JsonModel>,
    medium: JsonModel,
    second: Seq<JsonModel>,
    name: Seq<char>,
    taxonomy: Taxonomy,
)
    requires
        has_member(release, "media"@, JsonModel::Array(first + seq![medium] + second)),
        !(medium is Object) || (states_format(medium, name)
            && (taxonomy.musicbrainz.formats@.contains_key(name)
            ==> taxonomy.musicbrainz.formats@[name].family is None
            && taxonomy.musicbrainz.formats@[name].medium is None)),
    ensures
        release_block(release, taxonomy).items == media_items(first, taxonomy) + media_items(
            second,
            taxonomy,
        ),
{
    lemma_one_medium(release, first, medium, second, taxonomy);
    let one = seq![medium];
    assert(one.drop_last() =~= Seq::<JsonModel>::empty());
    assert(one.last() == medium);
    assert(media_items(one.drop_last(), taxonomy) == Seq::<ItemModel>::empty());
    assert(media_items(one, taxonomy) =~= Seq::<ItemModel>::empty());
    assert(release_block(release, taxonomy).items =~= media_items(first, taxonomy) + media_items(
        second,
        taxonomy,
    ));
}

/// A release without mediums has no items, flags, container or unmapped formats.
pub proof fn without_mediums_there_are_no_items(release: JsonModel, taxonomy: Taxonomy)
    requires
        forall|media: Seq<JsonModel>| #[trigger]
            has_member(release, "media"@, JsonModel::Array(media)) ==> media.len() == 0,
    ensures
        ({
            let block = release_block(release, taxonomy);
            &&& block.items.len() == 0
            &&& block.families.len() == 0
            &&& block.flags.len() == 0
            &&& block.container is None
            &&& block.unmapped_formats.len() == 0
        }),
{
    let media = member_items(release, "media"@);
    if media.len() > 0 {
        assert(has_member(release, "media"@, JsonModel::Array(media)));
    }
    assert(media_items(media, taxonomy) == Seq::<ItemModel>::empty());
    lemma_sorted_set_of_none::<String>();
}

// ── Facts of the release ────────────────────────────────────────────

proof fn lemma_flag_members(media: Seq<JsonModel>, taxonomy: Taxonomy, flag: Seq<char>)
    ensures
        media_flags(media, taxonomy).contains(flag) <==> exists|i: int|
            0 <= i < media.len() && #[trigger] states_flag(media[i], taxonomy, flag),
    decreases media.len(),
{
    if media.len() > 0 {
        let rest = media.drop_last();
        lemma_flag_members(rest, taxonomy, flag);
        lemma_push_opt(
            media_flags(rest, taxonomy),
            medium_flag(media.last(), taxonomy),
            flag,
        );
        let last = media[media.len() - 1];
        assert(states_flag(last, taxonomy, flag) <==> medium_flag(
            last,
            taxonomy,
        ) == Some(flag)) by {
            if states_flag(last, taxonomy, flag) {
                let name = choose|name: Seq<char>| #[trigger]
                    states_format(last, name) && taxonomy.musicbrainz.formats@.contains_key(name)
                        && taxonomy.musicbrainz.formats@[name].flag is Some
            && taxonomy.musicbrainz.formats@[name].flag->0@ == flag;
                assert(states_format(last, name));
            }
            if medium_flag(last, taxonomy) == Some(flag) {
                let name = format_name(last)->0;
                assert(states_format(last, name));
            }
        }
        if media_flags(rest, taxonomy).contains(flag) {
            let i = choose|i: int|
                0 <= i < rest.len() && #[trigger] states_flag(rest[i], taxonomy, flag);
            assert(states_flag(media[i], taxonomy, flag));
        }
        if exists|i: int| 0 <= i < media.len() && #[trigger] states_flag(media[i], taxonomy, flag) {
            let i = choose|i: int|
                0 <= i < media.len() && #[trigger] states_flag(media[i], taxonomy, flag);
            if i < rest.len() {
                assert(states_flag(rest[i], taxonomy, flag));
            }
        }
    }
}

/// Whether a medium states a format that the vocabulary knows as a release flag.
pub open spec fn states_flag(medium: JsonModel, taxonomy: Taxonomy, flag: Seq<char>) -> bool {
    exists|name: Seq<char>| #[trigger]
        states_format(medium, name) && taxonomy.musicbrainz.formats@.contains_key(name)
            && taxonomy.musicbrainz.formats@[name].flag is Some
            && taxonomy.musicbrainz.formats@[name].flag->0@ == flag
}

/// Whether a medium states a format that the vocabulary knows as a container.
pub open spec fn states_container(
    medium: JsonModel,
    taxonomy: Taxonomy,
    container: Seq<char>,
) -> bool {
    exists|name: Seq<char>| #[trigger]
        states_format(medium, name) && taxonomy.musicbrainz.formats@.contains_key(name)
            && taxonomy.musicbrainz.formats@[name].container is Some
            && taxonomy.musicbrainz.formats@[name].container->0@ == container
}

/// The flags of a block are exactly those of the formats that its mediums state.
pub proof fn flags_are_those_of_the_formats(
    release: JsonModel,
    media: Seq<JsonModel>,
    taxonomy: Taxonomy,
    flag: Seq<char>,
)
    requires
        has_member(release, "media"@, JsonModel::Array(media)),
    ensures
        release_block(release, taxonomy).flags.contains(flag) <==> exists|i: int|
            0 <= i < media.len() && #[trigger] states_flag(media[i], taxonomy, flag),
{
    lemma_sorted_texts(media_flags(media, taxonomy));
    lemma_flag_members(media, taxonomy, flag);
}

/// The container of a block is that of the last medium whose format is one.
pub proof fn the_last_container_counts(
    release: JsonModel,
    media: Seq<JsonModel>,
    taxonomy: Taxonomy,
    at: int,
    container: Seq<char>,
)
    requires
        has_member(release, "media"@, JsonModel::Array(media)),
        0 <= at < media.len(),
        states_container(media[at], taxonomy, container),
        forall|i: int, other: Seq<char>|
            at < i < media.len() ==> !#[trigger] states_container(media[i], taxonomy, other),
    ensures
        release_block(release, taxonomy).container == Some(container),
{
    lemma_last_container(media, taxonomy, at, container);
}

proof fn lemma_container_of(medium: JsonModel, taxonomy: Taxonomy, container: Seq<char>)
    ensures
        states_container(medium, taxonomy, container)
            <==> medium_container(medium, taxonomy) == Some(container),
{
    if states_container(medium, taxonomy, container) {
        let name = choose|name: Seq<char>| #[trigger]
            states_format(medium, name) && taxonomy.musicbrainz.formats@.contains_key(name)
                && taxonomy.musicbrainz.formats@[name].container is Some
            && taxonomy.musicbrainz.formats@[name].container->0@ == container;
        assert(states_format(medium, name));
    }
    if medium_container(medium, taxonomy) == Some(container) {
        let name = format_name(medium)->0;
        assert(states_format(medium, name));
    }
}

proof fn lemma_last_container(
    media: Seq<JsonModel>,
    taxonomy: Taxonomy,
    at: int,
    container: Seq<char>,
)
    requires
        0 <= at < media.len(),
        states_container(media[at], taxonomy, container),
        forall|i: int, other: Seq<char>|
            at < i < media.len() ==> !#[trigger] states_container(media[i], taxonomy, other),
    ensures
        media_container(media, taxonomy) == Some(container),
    decreases media.len(),
{
    let last = media[media.len() - 1];
    assert(media.last() == last);
    if at == media.len() - 1 {
        lemma_container_of(last, taxonomy, container);
    } else {
        let rest = media.drop_last();
        assert(rest[at] == media[at]);
        assert forall|i: int, other: Seq<char>| at < i < rest.len() implies !#[trigger]
            states_container(rest[i], taxonomy, other) by {
            assert(!states_container(media[i], taxonomy, other));
        }
        lemma_last_container(rest, taxonomy, at, container);
        if let Some(other) = medium_container(last, taxonomy) {
            lemma_container_of(last, taxonomy, other);
            assert(!states_container(media[media.len() - 1], taxonomy, other));
        }
    }
}

/// A release none of whose mediums states a container has none.
pub proof fn without_a_container_there_is_none(
    release: JsonModel,
    media: Seq<JsonModel>,
    taxonomy: Taxonomy,
)
    requires
        has_member(release, "media"@, JsonModel::Array(media)),
        forall|i: int, other: Seq<char>|
            0 <= i < media.len() ==> !#[trigger] states_container(media[i], taxonomy, other),
    ensures
        release_block(release, taxonomy).container is None,
{
    lemma_no_container(media, taxonomy);
}

proof fn lemma_no_container(media: Seq<JsonModel>, taxonomy: Taxonomy)
    requires
        forall|i: int, other: Seq<char>|
            0 <= i < media.len() ==> !#[trigger] states_container(media[i], taxonomy, other),
    ensures
        media_container(media, taxonomy) is None,
    decreases media.len(),
{
    if media.len() > 0 {
        let rest = media.drop_last();
        let last = media[media.len() - 1];
        assert forall|i: int, other: Seq<char>| 0 <= i < rest.len() implies !#[trigger]
            states_container(rest[i], taxonomy, other) by {
            assert(!states_container(media[i], taxonomy, other));
        }
        lemma_no_container(rest, taxonomy);
        if let Some(other) = medium_container(last, taxonomy) {
            lemma_container_of(last, taxonomy, other);
            assert(!states_container(media[media.len() - 1], taxonomy, other));
        }
    }
}

/// Whether a release states a string under a key.
pub open spec fn states(release: JsonModel, key: Seq<char>, text: Seq<char>) -> bool {
    has_member(release, key, JsonModel::Text(text))
}

/// Whether the release group of a release holds a value under a key.
pub open spec fn group_holds(release: JsonModel, key: Seq<char>, found: JsonModel) -> bool {
    release matches JsonModel::Object(map) && map.contains_key("release_group"@) && has_member(
        map["release_group"@],
        key,
        found,
    )
}

/// The edition of a block is what the vocabulary makes of the status of the release: an
/// edition, or nothing for a status that adds none or is not stated or known.
pub proof fn the_edition_is_that_of_the_status(
    release: JsonModel,
    taxonomy: Taxonomy,
    edition: Seq<char>,
)
    ensures
        release_block(release, taxonomy).edition.contains(edition) <==> exists|status: Seq<char>|
            #[trigger]
            states(release, "status"@, status) && taxonomy.musicbrainz.status@.contains_key(status)
                && taxonomy.musicbrainz.status@[status] is Some
                && taxonomy.musicbrainz.status@[status]->0@ == edition,
        release_block(release, taxonomy).edition.len() <= 1,
{
    let found = status_edition(member_text(release, "status"@), taxonomy);
    let none = Seq::<Seq<char>>::empty();
    lemma_push_opt(none, found, edition);
    lemma_sorted_texts(push_opt(none, found));
    lemma_sorted_set_of_none::<String>();
    if let Some(one) = found {
        lemma_sorted_one(one);
        assert(none.push(one) =~= seq![one]);
        assert(states(release, "status"@, member_text(release, "status"@)->0));
    }
    assert(!none.contains(edition));
    if exists|status: Seq<char>| #[trigger]
        states(release, "status"@, status) && taxonomy.musicbrainz.status@.contains_key(status)
            && taxonomy.musicbrainz.status@[status] is Some
            && taxonomy.musicbrainz.status@[status]->0@ == edition {
        let status = choose|status: Seq<char>| #[trigger]
            states(release, "status"@, status) && taxonomy.musicbrainz.status@.contains_key(status)
                && taxonomy.musicbrainz.status@[status] is Some
                && taxonomy.musicbrainz.status@[status]->0@ == edition;
        assert(member_text(release, "status"@) == Some(status));
    }
}

/// The packaging of a block is what the vocabulary makes of that of the release, and nothing
/// where it is not stated or not known.
pub proof fn the_packaging_is_that_of_the_release(
    release: JsonModel,
    taxonomy: Taxonomy,
    packaging: Seq<char>,
)
    ensures
        release_block(release, taxonomy).packaging == Some(packaging) <==> exists|text: Seq<char>|
            #[trigger]
            states(release, "packaging"@, text) && taxonomy.musicbrainz.packaging@.contains_key(
                text,
            ) && taxonomy.musicbrainz.packaging@[text]@ == packaging,
{
    if let Some(text) = member_text(release, "packaging"@) {
        assert(states(release, "packaging"@, text));
    }
    if exists|text: Seq<char>| #[trigger] states(release, "packaging"@, text) {
        let text = choose|text: Seq<char>| #[trigger] states(release, "packaging"@, text);
        assert(member_text(release, "packaging"@) == Some(text));
    }
}

/// The kind of a release is what the vocabulary makes of the primary type of its release
/// group, and nothing where that is not stated or not known.
pub proof fn the_kind_is_that_of_the_primary_type(
    release: JsonModel,
    taxonomy: Taxonomy,
    kind: Seq<char>,
)
    ensures
        release_block(release, taxonomy).release_kind == Some(kind) <==> exists|text: Seq<char>|
            #[trigger]
            group_holds(release, "primary_type"@, JsonModel::Text(text))
                && taxonomy.musicbrainz.primary_types@.contains_key(text)
                && taxonomy.musicbrainz.primary_types@[text]@ == kind,
{
    if let Some(text) = primary_type(release) {
        assert(group_holds(release, "primary_type"@, JsonModel::Text(text)));
    }
    if exists|text: Seq<char>| #[trigger]
        group_holds(release, "primary_type"@, JsonModel::Text(text)) {
        let text = choose|text: Seq<char>| #[trigger]
            group_holds(release, "primary_type"@, JsonModel::Text(text));
        assert(primary_type(release) == Some(text));
    }
}

/// Whether one of a list of secondary types is a string that the vocabulary knows as a trait.
pub open spec fn has_trait(
    types: Seq<JsonModel>,
    taxonomy: Taxonomy,
    found: Seq<char>,
) -> bool {
    exists|i: int| 0 <= i < types.len() && #[trigger] is_trait(types[i], taxonomy, found)
}

/// Whether a secondary type is a string that the vocabulary knows as a trait.
pub open spec fn is_trait(value: JsonModel, taxonomy: Taxonomy, found: Seq<char>) -> bool {
    &&& value matches JsonModel::Text(text)
    &&& taxonomy.musicbrainz.secondary_types@.contains_key(text)
    &&& taxonomy.musicbrainz.secondary_types@[text]@ == found
}

proof fn lemma_trait_members(types: Seq<JsonModel>, taxonomy: Taxonomy, found: Seq<char>)
    ensures
        known_traits(types, taxonomy).contains(found) <==> has_trait(types, taxonomy, found),
    decreases types.len(),
{
    if types.len() > 0 {
        let rest = types.drop_last();
        lemma_trait_members(rest, taxonomy, found);
        lemma_push_opt(
            known_traits(rest, taxonomy),
            known_value(as_text(types.last()), taxonomy.musicbrainz.secondary_types@),
            found,
        );
        let last = types[types.len() - 1];
        assert(is_trait(last, taxonomy, found) <==> known_value(
            as_text(last),
            taxonomy.musicbrainz.secondary_types@,
        ) == Some(found));
        if has_trait(rest, taxonomy, found) {
            let i = choose|i: int|
                0 <= i < rest.len() && #[trigger] is_trait(rest[i], taxonomy, found);
            assert(is_trait(types[i], taxonomy, found));
        }
        if has_trait(types, taxonomy, found) {
            let i = choose|i: int|
                0 <= i < types.len() && #[trigger] is_trait(types[i], taxonomy, found);
            if i < rest.len() {
                assert(is_trait(rest[i], taxonomy, found));
            }
        }
    }
}

/// The traits of a block are exactly those that the vocabulary makes of the secondary types
/// of the release group.
pub proof fn traits_are_those_of_the_secondary_types(
    release: JsonModel,
    taxonomy: Taxonomy,
    types: Seq<JsonModel>,
    found: Seq<char>,
)
    requires
        group_holds(release, "secondary_types"@, JsonModel::Array(types)),
    ensures
        release_block(release, taxonomy).traits.contains(found) <==> has_trait(
            types,
            taxonomy,
            found,
        ),
{
    lemma_sorted_texts(known_traits(types, taxonomy));
    lemma_trait_members(types, taxonomy, found);
}

/// A release whose group states no list of secondary types has no traits.
pub proof fn without_secondary_types_there_are_no_traits(release: JsonModel, taxonomy: Taxonomy)
    requires
        forall|types: Seq<JsonModel>| #[trigger]
            group_holds(release, "secondary_types"@, JsonModel::Array(types)) ==> types.len() == 0,
    ensures
        release_block(release, taxonomy).traits.len() == 0,
{
    let types = secondary_types(release);
    if types.len() > 0 {
        assert(group_holds(release, "secondary_types"@, JsonModel::Array(types)));
    }
    lemma_sorted_set_of_none::<String>();
    assert(known_traits(types, taxonomy) == Seq::<Seq<char>>::empty());
}

/// A string that a release states as its status, its packaging, its primary type or one of
/// its secondary types is kept as unmapped where the vocabulary does not know it there, and
/// nothing else is.
pub proof fn unmapped_descriptions_are_what_the_vocabulary_does_not_know(
    release: JsonModel,
    taxonomy: Taxonomy,
    value: Seq<char>,
)
    ensures
        release_block(release, taxonomy).unmapped_descriptions.contains(value) <==> {
            ||| states(release, "status"@, value)
                && !taxonomy.musicbrainz.status@.contains_key(value)
            ||| states(release, "packaging"@, value)
                && !taxonomy.musicbrainz.packaging@.contains_key(value)
            ||| group_holds(release, "primary_type"@, JsonModel::Text(value))
                && !taxonomy.musicbrainz.primary_types@.contains_key(value)
            ||| !taxonomy.musicbrainz.secondary_types@.contains_key(value)
                && exists|types: Seq<JsonModel>| #[trigger]
                group_holds(release, "secondary_types"@, JsonModel::Array(types))
                    && types.contains(JsonModel::Text(value))
        },
{
    unknown_release_values_are_kept(release, taxonomy, value);
    let table = taxonomy.musicbrainz.secondary_types@;
    let list = secondary_types(release);
    assert(unknown_value(primary_type(release), taxonomy.musicbrainz.primary_types@) == Some(value)
        <==> group_holds(release, "primary_type"@, JsonModel::Text(value))
        && !taxonomy.musicbrainz.primary_types@.contains_key(value));
    if exists|i: int|
        0 <= i < list.len() && unknown_value(as_text(#[trigger] list[i]), table) == Some(value) {
        let i = choose|i: int|
            0 <= i < list.len() && unknown_value(as_text(#[trigger] list[i]), table) == Some(value);
        assert(list[i] == JsonModel::Text(value));
        assert(group_holds(release, "secondary_types"@, JsonModel::Array(list)));
    }
    if exists|types: Seq<JsonModel>| #[trigger]
        group_holds(release, "secondary_types"@, JsonModel::Array(types)) && types.contains(
            JsonModel::Text(value),
        ) {
        let types = choose|types: Seq<JsonModel>| #[trigger]
            group_holds(release, "secondary_types"@, JsonModel::Array(types)) && types.contains(
                JsonModel::Text(value),
            );
        assert(types == list);
        let i = choose|i: int| 0 <= i < types.len() && types[i] == JsonModel::Text(value);
        if !table.contains_key(value) {
            assert(unknown_value(as_text(list[i]), table) == Some(value));
        }
    }
}

/// A format name is kept as unmapped exactly where a medium states it and the vocabulary does
/// not know it, and the block names the version of the vocabulary.
pub proof fn unmapped_formats_are_what_the_vocabulary_does_not_know(
    release: JsonModel,
    media: Seq<JsonModel>,
    taxonomy: Taxonomy,
    name: Seq<char>,
)
    requires
        has_member(release, "media"@, JsonModel::Array(media)),
    ensures
        release_block(release, taxonomy).unmapped_formats.contains(name) <==> (exists|i: int|
            0 <= i < media.len() && #[trigger] states_format(media[i], name))
            && !taxonomy.musicbrainz.formats@.contains_key(name),
        release_block(release, taxonomy).taxonomy_version == taxonomy.taxonomy_version@,
{
    unknown_formats_are_kept(release, taxonomy, name);
    if exists|i: int| 0 <= i < media.len() && #[trigger] states_format(media[i], name) {
        let i = choose|i: int| 0 <= i < media.len() && #[trigger] states_format(media[i], name);
        assert(format_name(media[i]) == Some(name));
    }
    if exists|i: int| 0 <= i < media.len() && format_name(#[trigger] media[i]) == Some(name) {
        let i = choose|i: int|
            0 <= i < media.len() && format_name(#[trigger] media[i]) == Some(name);
        assert(states_format(media[i], name));
    }
}

// ── Finishing an item ───────────────────────────────────────────────

/// Whether a family is defined with a rule that picks a medium by the text of an attribute.
pub open spec fn rule_picks(
    taxonomy: Taxonomy,
    family: Seq<char>,
    attribute: Seq<char>,
    text: Seq<char>,
    medium: Seq<char>,
) -> bool {
    &&& taxonomy.families@.contains_key(family)
    &&& taxonomy.families@[family].resolve is Some
    &&& taxonomy.families@[family].resolve->0.attribute@ == attribute
    &&& taxonomy.families@[family].resolve->0.map@.contains_key(text)
    &&& taxonomy.families@[family].resolve->0.map@[text]@ == medium
}

/// Whether an item states an attribute with a text.
pub open spec fn states_attribute(
    item: ItemModel,
    attribute: Seq<char>,
    text: Seq<char>,
) -> bool {
    ||| attribute == "size_inches"@ && item.size_inches is Some && number_text(item.size_inches->0)
        == text
    ||| attribute == "speed_rpm"@ && item.speed_rpm is Some && number_text(item.speed_rpm->0)
        == text
    ||| attribute == "channels"@ && item.channels == Some(text)
    ||| attribute == "codec"@ && item.codec == Some(text)
}

/// An item that names a medium keeps it, and has the family that it names, else that of the
/// definition of its medium, whatever the defaults of that medium are.
pub proof fn a_named_medium_gives_its_family(
    item: ItemModel,
    taxonomy: Taxonomy,
    medium: Seq<char>,
)
    requires
        item.medium == Some(medium),
    ensures
        finished(item, taxonomy).medium == Some(medium),
        item.family is Some ==> finished(item, taxonomy).family == item.family,
        item.family is None && taxonomy.media@.contains_key(medium) ==> finished(
            item,
            taxonomy,
        ).family == Some(taxonomy.media@[medium].family@),
        item.family is None && !taxonomy.media@.contains_key(medium) ==> finished(
            item,
            taxonomy,
        ).family is None,
{
}

/// An item that names a family and no medium keeps the family. Its medium is what the rule of
/// the family picks by the attribute that the item states, and the unspecified medium of the
/// family where the rule picks none.
pub proof fn a_named_family_gives_a_medium(
    item: ItemModel,
    taxonomy: Taxonomy,
    family: Seq<char>,
)
    requires
        item.medium is None,
        item.family == Some(family),
    ensures
        finished(item, taxonomy).family == Some(family),
        forall|attribute: Seq<char>, text: Seq<char>, medium: Seq<char>|
            states_attribute(item, attribute, text) && #[trigger] rule_picks(
                taxonomy,
                family,
                attribute,
                text,
                medium,
            ) ==> finished(item, taxonomy).medium == Some(medium),
        (forall|attribute: Seq<char>, text: Seq<char>, medium: Seq<char>|
            states_attribute(item, attribute, text) ==> !#[trigger] rule_picks(
                taxonomy,
                family,
                attribute,
                text,
                medium,
            )) ==> finished(item, taxonomy).medium == Some(family + "_unspecified"@),
{
    reveal_strlit("size_inches");
    reveal_strlit("speed_rpm");
    reveal_strlit("channels");
    reveal_strlit("codec");
    assert("size_inches"@.len() == 11 && "speed_rpm"@.len() == 9 && "channels"@.len() == 8
        && "codec"@.len() == 5);
    if let Some(medium) = ruled_medium(item, family, taxonomy) {
        let rule = taxonomy.families@[family].resolve->0;
        let text = attribute_text(item, rule.attribute@)->0;
        assert(states_attribute(item, rule.attribute@, text));
        assert(rule_picks(taxonomy, family, rule.attribute@, text, medium));
    }
}

/// A finished item has the attributes that it stated, and else the defaults of its medium: a
/// default of the wrong kind, or of another attribute, changes nothing. Its lists are put in
/// order, and everything else stays.
pub proof fn a_finished_item_has_the_defaults_of_its_medium(
    item: ItemModel,
    taxonomy: Taxonomy,
    medium: Seq<char>,
)
    requires
        finished(item, taxonomy).medium == Some(medium),
    ensures
        ({
            let done = finished(item, taxonomy);
            &&& item.size_inches is Some ==> done.size_inches == item.size_inches
            &&& item.speed_rpm is Some ==> done.speed_rpm == item.speed_rpm
            &&& item.channels is Some ==> done.channels == item.channels
            &&& item.codec is Some ==> done.codec == item.codec
            &&& item.size_inches is None && item.speed_rpm is None && item.channels is None
                && item.codec is None ==> has_defaults_of(done, medium, taxonomy)
            &&& item.size_inches is None ==> forall|n: NumberModel|
                done.size_inches == Some(n) <==> #[trigger] defaults_to_number(
                    taxonomy,
                    medium,
                    "size_inches"@,
                    n,
                )
            &&& item.speed_rpm is None ==> forall|n: NumberModel|
                done.speed_rpm == Some(n) <==> #[trigger] defaults_to_number(
                    taxonomy,
                    medium,
                    "speed_rpm"@,
                    n,
                )
            &&& item.channels is None ==> forall|t: Seq<char>|
                done.channels == Some(t) <==> #[trigger] defaults_to_text(
                    taxonomy,
                    medium,
                    "channels"@,
                    t,
                )
            &&& item.codec is None ==> forall|t: Seq<char>|
                done.codec == Some(t) <==> #[trigger] defaults_to_text(
                    taxonomy,
                    medium,
                    "codec"@,
                    t,
                )
            &&& done.variants == sorted_texts(item.variants)
            &&& done.appearance == sorted_texts(item.appearance)
            &&& done.qty == item.qty
            &&& done.position == item.position
            &&& done.track_count == item.track_count
            &&& done.source == item.source
        }),
{
}

/// An item that names neither a medium nor a family is finished without either, and without
/// defaults.
pub proof fn an_item_without_a_medium_gets_no_defaults(item: ItemModel, taxonomy: Taxonomy)
    requires
        item.medium is None,
        item.family is None,
    ensures
        finished(item, taxonomy) == (ItemModel {
            variants: sorted_texts(item.variants),
            appearance: sorted_texts(item.appearance),
            ..item
        }),
{
}

/// A slot keeps the first value that it is offered.
pub proof fn the_first_value_wins<T>(slot: Option<T>, value: Option<T>, later: Option<T>)
    ensures
        slot is Some ==> filled(slot, value) == slot,
        slot is None ==> filled(slot, value) == value,
        value is Some ==> filled(filled(slot, value), later) == filled(slot, value),
{
}

/// Offering a value to an attribute sets that attribute where it was not stated and the value
/// is of its kind, a number for sizes and speeds and a string for the others, and changes
/// nothing else.
pub proof fn an_attribute_takes_a_value_of_its_kind(
    item: ItemModel,
    attribute: Seq<char>,
    value: JsonModel,
)
    ensures
        ({
            let done = attribute_filled(item, attribute, value);
            &&& done.size_inches == if attribute == "size_inches"@ && item.size_inches is None
                && value is Number {
                Some(value->Number_0)
            } else {
                item.size_inches
            }
            &&& done.speed_rpm == if attribute == "speed_rpm"@ && item.speed_rpm is None
                && value is Number {
                Some(value->Number_0)
            } else {
                item.speed_rpm
            }
            &&& done.channels == if attribute == "channels"@ && item.channels is None
                && value is Text {
                Some(value->Text_0)
            } else {
                item.channels
            }
            &&& done.codec == if attribute == "codec"@ && item.codec is None && value is Text {
                Some(value->Text_0)
            } else {
                item.codec
            }
            &&& done == (ItemModel {
                size_inches: done.size_inches,
                speed_rpm: done.speed_rpm,
                channels: done.channels,
                codec: done.codec,
                ..item
            })
        }),
{
    reveal_strlit("size_inches");
    reveal_strlit("speed_rpm");
    reveal_strlit("channels");
    reveal_strlit("codec");
    assert("size_inches"@.len() == 11 && "speed_rpm"@.len() == 9 && "channels"@.len() == 8
        && "codec"@.len() == 5);
}

/// The text of an attribute is what the item states for it, and nothing else has one.
pub proof fn an_attribute_has_the_text_that_is_stated(
    item: ItemModel,
    attribute: Seq<char>,
    text: Seq<char>,
)
    ensures
        attribute_text(item, attribute) == Some(text) <==> states_attribute(item, attribute, text),
{
    reveal_strlit("size_inches");
    reveal_strlit("speed_rpm");
    reveal_strlit("channels");
    reveal_strlit("codec");
    assert("size_inches"@.len() == 11 && "speed_rpm"@.len() == 9 && "channels"@.len() == 8
        && "codec"@.len() == 5);
}

/// A format entry overrides the medium and the family of an item where it names one, adds its
/// variant, and changes nothing else.
pub proof fn an_entry_overrides_what_it_names(item: ItemModel, entry: FormatEntry)
    ensures
        ({
            let done = with_entry(item, entry);
            &&& entry.medium is Some ==> done.medium == Some(entry.medium->0@)
            &&& entry.medium is None ==> done.medium == item.medium
            &&& entry.family is Some ==> done.family == Some(entry.family->0@)
            &&& entry.family is None ==> done.family == item.family
            &&& entry.variant is Some ==> done.variants == item.variants.push(entry.variant->0@)
            &&& entry.variant is None ==> done.variants == item.variants
            &&& done == (ItemModel {
                medium: done.medium,
                family: done.family,
                variants: done.variants,
                ..item
            })
            &&& names_medium(entry) <==> entry.medium is Some || entry.family is Some
        }),
{
}

// ── The vocabulary ──────────────────────────────────────────────────

/// A family is found under its id, the later of two with one id, and nothing else is found.
#[verifier::rlimit(60)]
pub proof fn families_are_found_by_their_id(families: Seq<FamilyDefinition>, id: Seq<char>)
    ensures
        families_by_id(families).contains_key(id) <==> exists|i: int|
            0 <= i < families.len() && (#[trigger] families[i]).id@ == id,
        forall|i: int|
            0 <= i < families.len() && (#[trigger] families[i]).id@ == id && (forall|j: int|
                i < j < families.len() ==> (#[trigger] families[j]).id@ != id) ==> families_by_id(
                families,
            )[id] == families[i],
    decreases families.len(),
{
    if families.len() > 0 {
        let rest = families.drop_last();
        let last = families[families.len() - 1];
        families_are_found_by_their_id(rest, id);
        assert(families.last() == last);
        if exists|i: int| 0 <= i < families.len() && (#[trigger] families[i]).id@ == id {
            let i = choose|i: int| 0 <= i < families.len() && (#[trigger] families[i]).id@ == id;
            if i < rest.len() {
                assert(rest[i].id@ == id);
            }
        }
        if families_by_id(rest).contains_key(id) {
            let i = choose|i: int| 0 <= i < rest.len() && (#[trigger] rest[i]).id@ == id;
            assert(families[i].id@ == id);
        }
        assert forall|i: int|
            0 <= i < families.len() && (#[trigger] families[i]).id@ == id && (forall|j: int|
                i < j < families.len() ==> (#[trigger] families[j]).id@
                    != id) implies families_by_id(families)[id] == families[i] by {
            if i < rest.len() {
                assert(rest[i].id@ == id);
                assert(families[families.len() - 1].id@ != id);
                assert forall|j: int| i < j < rest.len() implies (#[trigger] rest[j]).id@ != id by {
                    assert(families[j].id@ != id);
                }
            }
        }
    }
}

/// A medium is found under its id, the later of two with one id, and nothing else is found.
#[verifier::rlimit(60)]
pub proof fn media_are_found_by_their_id(media: Seq<MediumDefinition>, id: Seq<char>)
    ensures
        media_by_id(media).contains_key(id) <==> exists|i: int|
            0 <= i < media.len() && (#[trigger] media[i]).id@ == id,
        forall|i: int|
            0 <= i < media.len() && (#[trigger] media[i]).id@ == id && (forall|j: int|
                i < j < media.len() ==> (#[trigger] media[j]).id@ != id) ==> media_by_id(
                media,
            )[id] == media[i],
    decreases media.len(),
{
    if media.len() > 0 {
        let rest = media.drop_last();
        let last = media[media.len() - 1];
        media_are_found_by_their_id(rest, id);
        assert(media.last() == last);
        if exists|i: int| 0 <= i < media.len() && (#[trigger] media[i]).id@ == id {
            let i = choose|i: int| 0 <= i < media.len() && (#[trigger] media[i]).id@ == id;
            if i < rest.len() {
                assert(rest[i].id@ == id);
            }
        }
        if media_by_id(rest).contains_key(id) {
            let i = choose|i: int| 0 <= i < rest.len() && (#[trigger] rest[i]).id@ == id;
            assert(media[i].id@ == id);
        }
        assert forall|i: int|
            0 <= i < media.len() && (#[trigger] media[i]).id@ == id && (forall|j: int|
                i < j < media.len() ==> (#[trigger] media[j]).id@ != id) implies media_by_id(
            media,
        )[id] == media[i] by {
            if i < rest.len() {
                assert(rest[i].id@ == id);
                assert(media[media.len() - 1].id@ != id);
                assert forall|j: int| i < j < rest.len() implies (#[trigger] rest[j]).id@ != id by {
                    assert(media[j].id@ != id);
                }
            }
        }
    }
}

// ── The block as JSON ───────────────────────────────────────────────

/// Whether a JSON value is a list of exactly these strings.
pub open spec fn lists(value: JsonModel, texts: Seq<Seq<char>>) -> bool {
    &&& value is Array
    &&& value->Array_0.len() == texts.len()
    &&& forall|i: int| 0 <= i < texts.len() ==> #[trigger] value->Array_0[i] == JsonModel::Text(
        texts[i],
    )
}

/// Whether a JSON value is this string, or `null` where there is none.
pub open spec fn shows(value: JsonModel, text: Option<Seq<char>>) -> bool {
    &&& text is Some ==> value == JsonModel::Text(text->0)
    &&& text is None ==> value == JsonModel::Null
}

/// Whether a JSON value is this number, or `null` where there is none.
pub open spec fn shows_number(value: JsonModel, number: Option<NumberModel>) -> bool {
    &&& number is Some ==> value == JsonModel::Number(number->0)
    &&& number is None ==> value == JsonModel::Null
}

/// Whether a JSON value is this integer, or `null` where there is none.
pub open spec fn shows_integer(value: JsonModel, n: Option<i64>) -> bool {
    &&& n is Some ==> value == JsonModel::Number(NumberModel::Integer(n->0 as int))
    &&& n is None ==> value == JsonModel::Null
}

/// The value that an object holds under a key.
pub open spec fn under(value: JsonModel, key: Seq<char>) -> JsonModel {
    value->Object_0[key]
}

/// Whether `keys` are exactly the keys of an object.
pub open spec fn has_keys(value: JsonModel, keys: Set<Seq<char>>) -> bool {
    value is Object && value->Object_0.dom() == keys
}

/// Every field of an item stands in its JSON under its own name, and nothing else does.
#[verifier::rlimit(40)]
pub proof fn an_item_is_written_field_by_field(item: ItemModel)
    ensures
        ({
            let json = item_json(item);
            let source = under(json, "source"@);
            &&& has_keys(
                json,
                set![
                    "family"@, "medium"@, "qty"@, "size_inches"@, "speed_rpm"@, "channels"@,
                    "codec"@, "variants"@, "appearance"@, "position"@, "track_count"@, "source"@,
                ],
            )
            &&& shows(under(json, "family"@), item.family)
            &&& shows(under(json, "medium"@), item.medium)
            &&& under(json, "qty"@) == JsonModel::Number(NumberModel::Integer(item.qty as int))
            &&& shows_number(under(json, "size_inches"@), item.size_inches)
            &&& shows_number(under(json, "speed_rpm"@), item.speed_rpm)
            &&& shows(under(json, "channels"@), item.channels)
            &&& shows(under(json, "codec"@), item.codec)
            &&& lists(under(json, "variants"@), item.variants)
            &&& lists(under(json, "appearance"@), item.appearance)
            &&& shows_integer(under(json, "position"@), item.position)
            &&& shows_integer(under(json, "track_count"@), item.track_count)
            &&& has_keys(source, set!["provider"@, "name"@, "descriptions"@, "text"@])
            &&& under(source, "provider"@) == JsonModel::Text(item.source.provider)
            &&& shows(under(source, "name"@), item.source.name)
            &&& lists(under(source, "descriptions"@), item.source.descriptions)
            &&& shows(under(source, "text"@), item.source.text)
        }),
{
    reveal_strlit("family");
    reveal_strlit("medium");
    reveal_strlit("qty");
    reveal_strlit("size_inches");
    reveal_strlit("speed_rpm");
    reveal_strlit("channels");
    reveal_strlit("codec");
    reveal_strlit("variants");
    reveal_strlit("appearance");
    reveal_strlit("position");
    reveal_strlit("track_count");
    reveal_strlit("source");
    reveal_strlit("provider");
    reveal_strlit("name");
    reveal_strlit("descriptions");
    reveal_strlit("text");
    assert("family"@.len() == 6 && "family"@[0] == 'f');
    assert("medium"@.len() == 6 && "medium"@[0] == 'm');
    assert("qty"@.len() == 3 && "qty"@[0] == 'q');
    assert("size_inches"@.len() == 11 && "size_inches"@[0] == 's');
    assert("speed_rpm"@.len() == 9 && "speed_rpm"@[0] == 's');
    assert("channels"@.len() == 8 && "channels"@[0] == 'c');
    assert("codec"@.len() == 5 && "codec"@[0] == 'c');
    assert("variants"@.len() == 8 && "variants"@[0] == 'v');
    assert("appearance"@.len() == 10 && "appearance"@[0] == 'a');
    assert("position"@.len() == 8 && "position"@[0] == 'p');
    assert("track_count"@.len() == 11 && "track_count"@[0] == 't');
    assert("source"@.len() == 6 && "source"@[0] == 's');
    assert("provider"@.len() == 8 && "provider"@[0] == 'p');
    assert("name"@.len() == 4 && "name"@[0] == 'n');
    assert("descriptions"@.len() == 12 && "descriptions"@[0] == 'd');
    assert("text"@.len() == 4 && "text"@[0] == 't');
    let json = item_json(item);
    assert(json->Object_0.dom() =~= set![
        "family"@, "medium"@, "qty"@, "size_inches"@, "speed_rpm"@, "channels"@, "codec"@,
        "variants"@, "appearance"@, "position"@, "track_count"@, "source"@,
    ]);
    assert(under(json, "source"@)->Object_0.dom() =~= set![
        "provider"@, "name"@, "descriptions"@, "text"@,
    ]);
}

/// Every field of a block stands in its JSON under its own name, and nothing else does; its
/// items stand there in order.
#[verifier::rlimit(40)]
pub proof fn a_block_is_written_field_by_field(block: BlockModel)
    ensures
        ({
            let json = block_json(block);
            let items = under(json, "items"@);
            let unmapped = under(json, "unmapped"@);
            &&& has_keys(
                json,
                set![
                    "taxonomy_version"@, "items"@, "families"@, "release_kind"@, "traits"@,
                    "edition"@, "packaging"@, "container"@, "flags"@, "unmapped"@,
                ],
            )
            &&& under(json, "taxonomy_version"@) == JsonModel::Text(block.taxonomy_version)
            &&& items is Array
            &&& items->Array_0.len() == block.items.len()
            &&& forall|i: int|
                0 <= i < block.items.len() ==> #[trigger] items->Array_0[i] == item_json(
                    block.items[i],
                )
            &&& lists(under(json, "families"@), block.families)
            &&& shows(under(json, "release_kind"@), block.release_kind)
            &&& lists(under(json, "traits"@), block.traits)
            &&& lists(under(json, "edition"@), block.edition)
            &&& shows(under(json, "packaging"@), block.packaging)
            &&& shows(under(json, "container"@), block.container)
            &&& lists(under(json, "flags"@), block.flags)
            &&& has_keys(unmapped, set!["formats"@, "descriptions"@])
            &&& lists(under(unmapped, "formats"@), block.unmapped_formats)
            &&& lists(under(unmapped, "descriptions"@), block.unmapped_descriptions)
        }),
{
    reveal_strlit("taxonomy_version");
    reveal_strlit("items");
    reveal_strlit("families");
    reveal_strlit("release_kind");
    reveal_strlit("traits");
    reveal_strlit("edition");
    reveal_strlit("packaging");
    reveal_strlit("container");
    reveal_strlit("flags");
    reveal_strlit("unmapped");
    reveal_strlit("formats");
    reveal_strlit("descriptions");
    assert("taxonomy_version"@.len() == 16 && "taxonomy_version"@[0] == 't');
    assert("items"@.len() == 5 && "items"@[0] == 'i');
    assert("families"@.len() == 8 && "families"@[0] == 'f');
    assert("release_kind"@.len() == 12 && "release_kind"@[0] == 'r');
    assert("traits"@.len() == 6 && "traits"@[0] == 't');
    assert("edition"@.len() == 7 && "edition"@[0] == 'e');
    assert("packaging"@.len() == 9 && "packaging"@[0] == 'p');
    assert("container"@.len() == 9 && "container"@[0] == 'c');
    assert("flags"@.len() == 5 && "flags"@[0] == 'f');
    assert("unmapped"@.len() == 8 && "unmapped"@[0] == 'u');
    assert("formats"@.len() == 7 && "formats"@[0] == 'f');
    assert("descriptions"@.len() == 12 && "descriptions"@[0] == 'd');
    let json = block_json(block);
    assert(json->Object_0.dom() =~= set![
        "taxonomy_version"@, "items"@, "families"@, "release_kind"@, "traits"@, "edition"@,
        "packaging"@, "container"@, "flags"@, "unmapped"@,
    ]);
    assert(under(json, "unmapped"@)->Object_0.dom() =~= set!["formats"@, "descriptions"@]);
}

/// What is attached to a record under `media` is the block of a release with the medium list
/// of the record and with the status, the packaging and the release-group types of the raw
/// line, whatever spelling the group has there. What is no object is not touched.
pub proof fn the_attached_block_is_that_of_the_record(
    data: JsonModel,
    record: JsonModel,
    taxonomy: Taxonomy,
    view: JsonModel,
)
    requires
        data is Object,
        member_items(view, "media"@) == member_items(data, "media_raw"@),
        forall|t: Seq<char>| #[trigger] states(view, "status"@, t) <==> states(record, "status"@, t),
        forall|t: Seq<char>| #[trigger]
            states(view, "packaging"@, t) <==> states(record, "packaging"@, t),
        forall|t: Seq<char>| #[trigger]
            group_holds(view, "primary_type"@, JsonModel::Text(t)) <==> raw_group_holds(
                record,
                "primary-type"@,
                JsonModel::Text(t),
            ),
        forall|types: Seq<JsonModel>| #[trigger]
            group_holds(view, "secondary_types"@, JsonModel::Array(types)) <==> raw_group_holds(
                record,
                "secondary-types"@,
                JsonModel::Array(types),
            ),
    ensures
        member(with_media_block(data, record, taxonomy), "media"@) == Some(
            block_json(release_block(view, taxonomy)),
        ),
{
    let made = view_of_record(record, member_items(data, "media_raw"@));
    the_view_reads_the_record(record, member_items(data, "media_raw"@));
    lemma_same_text(view, made, "status"@);
    lemma_same_text(view, made, "packaging"@);
    assert(primary_type(view) == primary_type(made)) by {
        if let Some(t) = primary_type(view) {
            assert(group_holds(view, "primary_type"@, JsonModel::Text(t)));
        }
        if let Some(t) = primary_type(made) {
            assert(raw_group_holds(record, "primary-type"@, JsonModel::Text(t)));
            assert(group_holds(view, "primary_type"@, JsonModel::Text(t)));
        }
    }
    assert(secondary_types(view) == secondary_types(made)) by {
        let a = secondary_types(view);
        let b = secondary_types(made);
        if a.len() > 0 {
            assert(group_holds(view, "secondary_types"@, JsonModel::Array(a)));
        }
        if b.len() > 0 {
            assert(raw_group_holds(record, "secondary-types"@, JsonModel::Array(b)));
            assert(group_holds(view, "secondary_types"@, JsonModel::Array(b)));
        }
        assert(a =~= b);
    }
    assert(release_block(view, taxonomy) == release_block(made, taxonomy));
}

/// Whether the release group of a raw line holds a value under a key.
pub open spec fn raw_group_holds(record: JsonModel, key: Seq<char>, found: JsonModel) -> bool {
    record matches JsonModel::Object(map) && map.contains_key("release-group"@) && has_member(
        map["release-group"@],
        key,
        found,
    )
}

proof fn lemma_same_text(one: JsonModel, other: JsonModel, key: Seq<char>)
    requires
        forall|t: Seq<char>| #[trigger] states(one, key, t) <==> states(other, key, t),
    ensures
        member_text(one, key) == member_text(other, key),
{
    if let Some(t) = member_text(one, key) {
        assert(states(one, key, t));
    }
    if let Some(t) = member_text(other, key) {
        assert(states(one, key, t));
    }
}

/// Attaching the block to what is no object does nothing.
pub proof fn only_objects_get_a_media_block(
    data: JsonModel,
    record: JsonModel,
    taxonomy: Taxonomy,
)
    requires
        !(data is Object),
    ensures
        with_media_block(data, record, taxonomy) == data,
{
}

/// An item begins with where it comes from, as it was told, as one piece, and with nothing
/// else.
pub proof fn an_item_begins_with_its_source(
    name: Option<Seq<char>>,
    descriptions: Seq<Seq<char>>,
    text: Option<Seq<char>>,
)
    ensures
        ({
            let item = bare_item(name, descriptions, text);
            &&& item.source.name == name
            &&& item.source.descriptions == descriptions
            &&& item.source.text == text
            &&& item.source.provider == "musicbrainz"@
            &&& item.qty == 1
            &&& item.family is None && item.medium is None
            &&& item.size_inches is None && item.speed_rpm is None
            &&& item.channels is None && item.codec is None
            &&& item.variants.len() == 0 && item.appearance.len() == 0
            &&& item.position is None && item.track_count is None
        }),
{
}

/// What a release states of itself is added to a block behind what it holds: the lists go on,
/// a packaging and a kind that are stated take the place of those that were there, and nothing
/// else changes. Added to an empty block it is what the block of the release holds.
pub proof fn release_facts_are_added_to_a_block(
    block: BlockModel,
    release: JsonModel,
    taxonomy: Taxonomy,
    version: Seq<char>,
)
    ensures
        ({
            let whole = release_block(release, taxonomy);
            let alone = with_release_facts(empty_block(version), release, taxonomy);
            let added = with_release_facts(block, release, taxonomy);
            &&& added.edition == block.edition + alone.edition
            &&& added.traits == block.traits + alone.traits
            &&& added.unmapped_descriptions == block.unmapped_descriptions
                + alone.unmapped_descriptions
            &&& added.packaging == if alone.packaging is Some {
                alone.packaging
            } else {
                block.packaging
            }
            &&& added.release_kind == if alone.release_kind is Some {
                alone.release_kind
            } else {
                block.release_kind
            }
            &&& added.taxonomy_version == block.taxonomy_version
            &&& added.items == block.items
            &&& added.families == block.families
            &&& added.container == block.container
            &&& added.flags == block.flags
            &&& added.unmapped_formats == block.unmapped_formats
            &&& sorted_texts(alone.edition) == whole.edition
            &&& sorted_texts(alone.traits) == whole.traits
            &&& sorted_texts(alone.unmapped_descriptions) == whole.unmapped_descriptions
            &&& alone.packaging == whole.packaging
            &&& alone.release_kind == whole.release_kind
        }),
{
    let none = Seq::<Seq<char>>::empty();
    let alone = with_release_facts(empty_block(version), release, taxonomy);
    let added = with_release_facts(block, release, taxonomy);
    let traits = known_traits(secondary_types(release), taxonomy);
    assert(alone.traits =~= traits);
    assert(alone.unmapped_descriptions =~= unknown_facts(release, taxonomy));
    assert(added.edition =~= block.edition + alone.edition);
}

/// Whether a medium states an integer under a key.
pub open spec fn states_integer(medium: JsonModel, key: Seq<char>, n: i64) -> bool {
    has_member(medium, key, JsonModel::Number(NumberModel::Integer(n as int)))
}

/// A medium that states a format makes an item exactly where the vocabulary knows the format
/// with a family or a medium, and the item has what the entry names. A medium that states no
/// format always makes one, of an unspecified kind. Either has the place and the number of
/// tracks that the medium states, and nothing else.
pub proof fn a_medium_is_mapped_by_its_format(
    medium: JsonModel,
    taxonomy: Taxonomy,
    name: Seq<char>,
    n: i64,
)
    ensures
        ({
            let item = medium_item(medium, taxonomy);
            let formats = taxonomy.musicbrainz.formats@;
            let nameless = forall|other: Seq<char>| !#[trigger] states_format(medium, other);
            &&& states_format(medium, name) ==> (item is Some <==> formats.contains_key(name) && (
            formats[name].family is Some || formats[name].medium is Some))
            &&& states_format(medium, name) && item is Some ==> item->0.family == opt_view(
                formats[name].family,
            ) && item->0.medium == opt_view(formats[name].medium) && item->0.source.name == Some(
                name,
            ) && item->0.variants == if formats[name].variant is Some {
                seq![formats[name].variant->0@]
            } else {
                Seq::empty()
            }
            &&& nameless ==> item is Some && item->0.family is None && item->0.medium == Some(
                "other_unspecified"@,
            ) && item->0.source.name is None && item->0.variants.len() == 0
            &&& item is Some ==> {
                &&& item->0.position == Some(n) <==> states_integer(medium, "position"@, n)
                &&& item->0.track_count == Some(n) <==> states_integer(medium, "track_count"@, n)
                &&& item->0.qty == 1
                &&& item->0.size_inches is None && item->0.speed_rpm is None
                &&& item->0.channels is None && item->0.codec is None
                &&& item->0.appearance.len() == 0
                &&& item->0.source.provider == "musicbrainz"@
                &&& item->0.source.descriptions.len() == 0
                &&& item->0.source.text is None
            }
        }),
{
    let item = medium_item(medium, taxonomy);
    if let Some(found) = format_name(medium) {
        assert(states_format(medium, found));
    }
    if states_format(medium, name) && item is Some {
        let variant = opt_view(taxonomy.musicbrainz.formats@[name].variant);
        assert(push_opt(Seq::<Seq<char>>::empty(), variant) =~= item->0.variants);
    }
}

/// A medium that states a known format shows its flag and its container, one that states an
/// unknown format is kept by its name, and no other shows or keeps anything.
pub proof fn a_format_shows_its_flag_and_container(
    medium: JsonModel,
    taxonomy: Taxonomy,
    name: Seq<char>,
)
    ensures
        ({
            let formats = taxonomy.musicbrainz.formats@;
            let known = states_format(medium, name) && formats.contains_key(name);
            let nameless = forall|other: Seq<char>| !#[trigger] states_format(medium, other);
            &&& known ==> medium_flag(medium, taxonomy) == opt_view(formats[name].flag)
                && medium_container(medium, taxonomy) == opt_view(formats[name].container)
                && unknown_format(medium, taxonomy) is None
            &&& states_format(medium, name) && !known ==> medium_flag(medium, taxonomy) is None
                && medium_container(medium, taxonomy) is None && unknown_format(medium, taxonomy)
                == Some(name)
            &&& nameless ==> medium_flag(medium, taxonomy) is None && medium_container(
                medium,
                taxonomy,
            ) is None && unknown_format(medium, taxonomy) is None
        }),
{
    if let Some(found) = format_name(medium) {
        assert(states_format(medium, found));
    }
}

} // verus!
