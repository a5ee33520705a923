//! What holds of the media block of every release.

use crate::json::{
    as_text, member, member_items, member_or_null, member_text, JsonModel,
};
use crate::musicbrainz::media::{
    empty_block, finished, format_name, item_families, known_traits, media_flags, media_items,
    media_unknown, medium_item, primary_type, release_block, release_group, secondary_types,
    status_edition, unknown_facts, unknown_format, unknown_traits, unknown_value, view_of_record,
    with_media_block, ItemModel, Taxonomy,
};
use crate::ordered::{
    lemma_sorted_set_of_none, sorted_set_holds_each_member_once, sorted_texts, strictly_sorted,
};
use crate::text::{lemma_push_opt, push_opt};
use vstd::prelude::*;

verus! {

pub proof fn lemma_sorted_texts(list: Seq<Seq<char>>)
    ensures
        strictly_sorted::<String>(sorted_texts(list)),
        forall|text: Seq<char>| sorted_texts(list).contains(text) <==> list.contains(text),
{
    sorted_set_holds_each_member_once::<String>(list);
    assert forall|text: Seq<char>| sorted_texts(list).contains(text) <==> list.contains(text) by {
        assert(sorted_texts(list).to_set().contains(text) <==> list.to_set().contains(text));
    }
}

/// Every list of a block but its items is sorted and without repetition.
pub proof fn lists_are_sorted_and_without_repetition(release: JsonModel, taxonomy: Taxonomy)
    ensures
        strictly_sorted::<String>(release_block(release, taxonomy).families),
        strictly_sorted::<String>(release_block(release, taxonomy).traits),
        strictly_sorted::<String>(release_block(release, taxonomy).edition),
        strictly_sorted::<String>(release_block(release, taxonomy).flags),
        strictly_sorted::<String>(release_block(release, taxonomy).unmapped_formats),
        strictly_sorted::<String>(release_block(release, taxonomy).unmapped_descriptions),
        forall|i: int|
            0 <= i < release_block(release, taxonomy).items.len() ==> strictly_sorted::<String>(
                (#[trigger] release_block(release, taxonomy).items[i]).variants,
            ),
{
    let media = member_items(release, "media"@);
    let block = release_block(release, taxonomy);
    lemma_sorted_texts(item_families(block.items));
    lemma_sorted_texts(known_traits(secondary_types(release), taxonomy));
    lemma_sorted_texts(
        push_opt(Seq::empty(), status_edition(member_text(release, "status"@), taxonomy)),
    );
    lemma_sorted_texts(media_flags(media, taxonomy));
    lemma_sorted_texts(media_unknown(media, taxonomy));
    lemma_sorted_texts(unknown_facts(release, taxonomy));
    lemma_item_origin(media, taxonomy);
    assert forall|i: int| 0 <= i < block.items.len() implies strictly_sorted::<String>(
        (#[trigger] block.items[i]).variants,
    ) by {
        assert(has_origin(media, block.items[i], taxonomy));
        let at = choose|at: int|
            0 <= at < media.len() && #[trigger] makes_item(media[at], block.items[i], taxonomy);
        lemma_sorted_texts(medium_item(media[at], taxonomy)->0.variants);
    }
}

/// Whether `item` is the finished item of `medium`.
pub open spec fn makes_item(medium: JsonModel, item: ItemModel, taxonomy: Taxonomy) -> bool {
    &&& medium is Object
    &&& medium_item(medium, taxonomy) is Some
    &&& item == finished(medium_item(medium, taxonomy)->0, taxonomy)
}

/// Whether `item` is the finished item of one of the mediums.
pub open spec fn has_origin(media: Seq<JsonModel>, item: ItemModel, taxonomy: Taxonomy) -> bool {
    exists|at: int| 0 <= at < media.len() && #[trigger] makes_item(media[at], item, taxonomy)
}

proof fn lemma_item_origin(media: Seq<JsonModel>, taxonomy: Taxonomy)
    ensures
        forall|i: int|
            0 <= i < media_items(media, taxonomy).len() ==> has_origin(
                media,
                #[trigger] media_items(media, taxonomy)[i],
                taxonomy,
            ),
    decreases media.len(),
{
    if media.len() > 0 {
        let rest = media.drop_last();
        let before = media_items(rest, taxonomy);
        let items = media_items(media, taxonomy);
        lemma_item_origin(rest, taxonomy);
        assert forall|i: int| 0 <= i < items.len() implies has_origin(
            media,
            #[trigger] items[i],
            taxonomy,
        ) by {
            if i < before.len() {
                assert(items[i] == before[i]);
                let at = choose|at: int|
                    0 <= at < rest.len() && #[trigger] makes_item(rest[at], before[i], taxonomy);
                assert(rest[at] == media[at]);
                assert(makes_item(media[at], items[i], taxonomy));
            } else {
                assert(makes_item(media[media.len() - 1], items[i], taxonomy));
            }
        }
    }
}

/// Items keep source order: the items of two medium lists, one behind the other, are the
/// items of the first and then those of the second.
pub proof fn items_keep_source_order(
    first: Seq<JsonModel>,
    second: Seq<JsonModel>,
    taxonomy: Taxonomy,
)
    ensures
        media_items(first + second, taxonomy) == media_items(first, taxonomy) + media_items(
            second,
            taxonomy,
        ),
    decreases second.len(),
{
    if second.len() == 0 {
        assert(first + second =~= first);
        assert(media_items(first, taxonomy) + media_items(second, taxonomy) =~= media_items(
            first,
            taxonomy,
        ));
    } else {
        items_keep_source_order(first, second.drop_last(), taxonomy);
        assert((first + second).drop_last() =~= first + second.drop_last());
        assert((first + second).last() == second.last());
        assert(media_items(first + second, taxonomy) =~= media_items(first, taxonomy)
            + media_items(second, taxonomy));
    }
}

proof fn lemma_unknown_members(media: Seq<JsonModel>, taxonomy: Taxonomy, name: Seq<char>)
    ensures
        media_unknown(media, taxonomy).contains(name) <==> exists|i: int|
            0 <= i < media.len() && unknown_format(#[trigger] media[i], taxonomy) == Some(name),
    decreases media.len(),
{
    if media.len() > 0 {
        let rest = media.drop_last();
        let before = media_unknown(rest, taxonomy);
        let list = media_unknown(media, taxonomy);
        lemma_unknown_members(rest, taxonomy, name);
        lemma_push_opt(before, unknown_format(media.last(), taxonomy), name);
        if list.contains(name) {
            if before.contains(name) {
                let i = choose|i: int|
                    0 <= i < rest.len() && unknown_format(#[trigger] rest[i], taxonomy) == Some(
                        name,
                    );
                assert(media[i] == rest[i]);
            } else {
                assert(unknown_format(media[media.len() - 1], taxonomy) == Some(name));
            }
        }
        if exists|i: int|
            0 <= i < media.len() && unknown_format(#[trigger] media[i], taxonomy) == Some(name) {
            let i = choose|i: int|
                0 <= i < media.len() && unknown_format(#[trigger] media[i], taxonomy) == Some(
                    name,
                );
            if i < rest.len() {
                assert(rest[i] == media[i]);
            }
        }
    }
}

/// A format name is kept as unmapped exactly where a medium states it and the vocabulary does
/// not know it: nothing unknown is dropped, and nothing known is listed.
pub proof fn unknown_formats_are_kept(release: JsonModel, taxonomy: Taxonomy, name: Seq<char>)
    ensures
        release_block(release, taxonomy).unmapped_formats.contains(name) <==> (exists|i: int|
            0 <= i < member_items(release, "media"@).len() && format_name(
                #[trigger] member_items(release, "media"@)[i],
            ) == Some(name)) && !taxonomy.musicbrainz.formats@.contains_key(name),
{
    let media = member_items(release, "media"@);
    lemma_sorted_texts(media_unknown(media, taxonomy));
    lemma_unknown_members(media, taxonomy, name);
    if exists|i: int| 0 <= i < media.len() && format_name(#[trigger] media[i]) == Some(name) {
        let i = choose|i: int|
            0 <= i < media.len() && format_name(#[trigger] media[i]) == Some(name);
        if !taxonomy.musicbrainz.formats@.contains_key(name) {
            assert(unknown_format(media[i], taxonomy) == Some(name));
        }
    }
    if exists|i: int|
        0 <= i < media.len() && unknown_format(#[trigger] media[i], taxonomy) == Some(name) {
        let i = choose|i: int|
            0 <= i < media.len() && unknown_format(#[trigger] media[i], taxonomy) == Some(name);
        assert(format_name(media[i]) == Some(name));
    }
}

/// A medium whose format the vocabulary does not know makes no item.
pub proof fn unknown_formats_make_no_item(medium: JsonModel, taxonomy: Taxonomy)
    requires
        unknown_format(medium, taxonomy) is Some,
    ensures
        media_items(seq![medium], taxonomy) == Seq::<ItemModel>::empty(),
{
    assert(seq![medium].drop_last() =~= Seq::<JsonModel>::empty());
    assert(seq![medium].last() == medium);
    assert(media_items(seq![medium].drop_last(), taxonomy) == Seq::<ItemModel>::empty());
}

/// A medium that states no format makes one item, and is no unmapped value.
pub proof fn a_medium_without_format_makes_an_item(medium: JsonModel, taxonomy: Taxonomy)
    requires
        medium is Object,
        format_name(medium) is None,
    ensures
        media_items(seq![medium], taxonomy).len() == 1,
        media_items(seq![medium], taxonomy)[0].medium == Some("other_unspecified"@),
        media_items(seq![medium], taxonomy)[0].source.name is None,
        unknown_format(medium, taxonomy) is None,
{
    assert(seq![medium].drop_last() =~= Seq::<JsonModel>::empty());
    assert(seq![medium].last() == medium);
    assert(media_items(seq![medium].drop_last(), taxonomy) == Seq::<ItemModel>::empty());
}

/// Every item names a medium, is one unit, and has a bare format name for its source.
pub proof fn every_item_is_one_unit_of_a_medium(release: JsonModel, taxonomy: Taxonomy)
    ensures
        forall|i: int|
            #![trigger release_block(release, taxonomy).items[i]]
            0 <= i < release_block(release, taxonomy).items.len() ==> {
                let item = release_block(release, taxonomy).items[i];
                &&& item.medium is Some
                &&& item.qty == 1
                &&& item.appearance.len() == 0
                &&& item.source.provider == "musicbrainz"@
                &&& item.source.descriptions.len() == 0
                &&& item.source.text is None
            },
{
    let media = member_items(release, "media"@);
    let block = release_block(release, taxonomy);
    lemma_item_origin(media, taxonomy);
    lemma_sorted_set_of_none::<String>();
    assert forall|i: int| 0 <= i < block.items.len() implies {
        let item = #[trigger] block.items[i];
        &&& item.medium is Some
        &&& item.qty == 1
        &&& item.appearance.len() == 0
        &&& item.source.provider == "musicbrainz"@
        &&& item.source.descriptions.len() == 0
        &&& item.source.text is None
    } by {
        assert(has_origin(media, block.items[i], taxonomy));
        let at = choose|at: int|
            0 <= at < media.len() && #[trigger] makes_item(media[at], block.items[i], taxonomy);
    }
}

/// A finished item has every attribute that it stated before: defaults only fill the gaps.
pub proof fn defaults_never_overwrite(item: ItemModel, taxonomy: Taxonomy)
    ensures
        item.size_inches is Some ==> finished(item, taxonomy).size_inches == item.size_inches,
        item.speed_rpm is Some ==> finished(item, taxonomy).speed_rpm == item.speed_rpm,
        item.channels is Some ==> finished(item, taxonomy).channels == item.channels,
        item.codec is Some ==> finished(item, taxonomy).codec == item.codec,
        item.medium is Some ==> finished(item, taxonomy).medium == item.medium,
        item.family is Some ==> finished(item, taxonomy).family == item.family,
        finished(item, taxonomy).qty == item.qty,
        finished(item, taxonomy).position == item.position,
        finished(item, taxonomy).track_count == item.track_count,
        finished(item, taxonomy).source == item.source,
{
}

/// An item that names a medium or a family is finished with a medium.
pub proof fn a_finished_item_names_a_medium(item: ItemModel, taxonomy: Taxonomy)
    requires
        item.medium is Some || item.family is Some,
    ensures
        finished(item, taxonomy).medium is Some,
{
}

proof fn lemma_family_members(items: Seq<ItemModel>, family: Seq<char>)
    ensures
        item_families(items).contains(family) <==> exists|i: int|
            0 <= i < items.len() && (#[trigger] items[i]).family == Some(family),
    decreases items.len(),
{
    if items.len() > 0 {
        let rest = items.drop_last();
        lemma_family_members(rest, family);
        lemma_push_opt(item_families(rest), items.last().family, family);
        if exists|i: int| 0 <= i < items.len() && (#[trigger] items[i]).family == Some(family) {
            let i = choose|i: int|
                0 <= i < items.len() && (#[trigger] items[i]).family == Some(family);
            if i < rest.len() {
                assert(rest[i] == items[i]);
            }
        }
        if item_families(items).contains(family) {
            if item_families(rest).contains(family) {
                let i = choose|i: int|
                    0 <= i < rest.len() && (#[trigger] rest[i]).family == Some(family);
                assert(items[i] == rest[i]);
            } else {
                assert(items[items.len() - 1].family == Some(family));
            }
        }
    }
}

/// The families of a block are exactly those that its items name.
pub proof fn families_are_those_of_the_items(
    release: JsonModel,
    taxonomy: Taxonomy,
    family: Seq<char>,
)
    ensures
        release_block(release, taxonomy).families.contains(family) <==> exists|i: int|
            0 <= i < release_block(release, taxonomy).items.len() && (
            #[trigger] release_block(release, taxonomy).items[i]).family == Some(family),
{
    let items = release_block(release, taxonomy).items;
    lemma_sorted_texts(item_families(items));
    lemma_family_members(items, family);
}

/// What a release states beside its medium list does not depend on that list, nor the other
/// way round.
pub proof fn release_facts_and_media_are_independent(
    one: JsonModel,
    other: JsonModel,
    taxonomy: Taxonomy,
)
    ensures
        member_items(one, "media"@) == member_items(other, "media"@) ==> {
            let a = release_block(one, taxonomy);
            let b = release_block(other, taxonomy);
            &&& a.items == b.items
            &&& a.families == b.families
            &&& a.container == b.container
            &&& a.flags == b.flags
            &&& a.unmapped_formats == b.unmapped_formats
        },
        (member_text(one, "status"@) == member_text(other, "status"@) && member_text(
            one,
            "packaging"@,
        ) == member_text(other, "packaging"@) && release_group(one) == release_group(other)) ==> {
            let a = release_block(one, taxonomy);
            let b = release_block(other, taxonomy);
            &&& a.release_kind == b.release_kind
            &&& a.traits == b.traits
            &&& a.edition == b.edition
            &&& a.packaging == b.packaging
            &&& a.unmapped_descriptions == b.unmapped_descriptions
        },
{
}

/// A release that states nothing has the empty block.
pub proof fn an_empty_release_has_the_empty_block(release: JsonModel, taxonomy: Taxonomy)
    requires
        member_items(release, "media"@).len() == 0,
        member_text(release, "status"@) is None,
        member_text(release, "packaging"@) is None,
        primary_type(release) is None,
        secondary_types(release).len() == 0,
    ensures
        release_block(release, taxonomy) == empty_block(taxonomy.taxonomy_version@),
{
    let media = member_items(release, "media"@);
    lemma_sorted_set_of_none::<String>();
    assert(media_items(media, taxonomy) == Seq::<ItemModel>::empty());
    assert(unknown_facts(release, taxonomy) =~= Seq::<Seq<char>>::empty());
    assert(release_block(release, taxonomy) =~= empty_block(taxonomy.taxonomy_version@));
}

proof fn lemma_unknown_trait_members(
    types: Seq<JsonModel>,
    taxonomy: Taxonomy,
    name: Seq<char>,
)
    ensures
        unknown_traits(types, taxonomy).contains(name) <==> exists|i: int|
            0 <= i < types.len() && unknown_value(
                as_text(#[trigger] types[i]),
                taxonomy.musicbrainz.secondary_types@,
            ) == Some(name),
    decreases types.len(),
{
    if types.len() > 0 {
        let table = taxonomy.musicbrainz.secondary_types@;
        let rest = types.drop_last();
        lemma_unknown_trait_members(rest, taxonomy, name);
        lemma_push_opt(
            unknown_traits(rest, taxonomy),
            unknown_value(as_text(types.last()), table),
            name,
        );
        if exists|i: int|
            0 <= i < types.len() && unknown_value(as_text(#[trigger] types[i]), table) == Some(
                name,
            ) {
            let i = choose|i: int|
                0 <= i < types.len() && unknown_value(as_text(#[trigger] types[i]), table) == Some(
                    name,
                );
            if i < rest.len() {
                assert(rest[i] == types[i]);
            }
        }
        if unknown_traits(types, taxonomy).contains(name) {
            if unknown_traits(rest, taxonomy).contains(name) {
                let i = choose|i: int|
                    0 <= i < rest.len() && unknown_value(as_text(#[trigger] rest[i]), table)
                        == Some(name);
                assert(types[i] == rest[i]);
            } else {
                assert(unknown_value(as_text(types[types.len() - 1]), table) == Some(name));
            }
        }
    }
}

/// A value beside the medium list is kept as unmapped exactly where the release states it
/// and the vocabulary does not know it.
pub proof fn unknown_release_values_are_kept(
    release: JsonModel,
    taxonomy: Taxonomy,
    value: Seq<char>,
)
    ensures
        release_block(release, taxonomy).unmapped_descriptions.contains(value) <==> {
            ||| unknown_value(member_text(release, "status"@), taxonomy.musicbrainz.status@)
                == Some(value)
            ||| unknown_value(
                member_text(release, "packaging"@),
                taxonomy.musicbrainz.packaging@,
            ) == Some(value)
            ||| unknown_value(primary_type(release), taxonomy.musicbrainz.primary_types@) == Some(
                value,
            )
            ||| exists|i: int|
                0 <= i < secondary_types(release).len() && unknown_value(
                    as_text(#[trigger] secondary_types(release)[i]),
                    taxonomy.musicbrainz.secondary_types@,
                ) == Some(value)
        },
{
    let none = Seq::<Seq<char>>::empty();
    let status = unknown_value(member_text(release, "status"@), taxonomy.musicbrainz.status@);
    let packaging = unknown_value(
        member_text(release, "packaging"@),
        taxonomy.musicbrainz.packaging@,
    );
    let primary = unknown_value(primary_type(release), taxonomy.musicbrainz.primary_types@);
    let facts = push_opt(push_opt(push_opt(none, status), packaging), primary);
    let types = unknown_traits(secondary_types(release), taxonomy);
    lemma_push_opt(none, status, value);
    lemma_push_opt(push_opt(none, status), packaging, value);
    lemma_push_opt(push_opt(push_opt(none, status), packaging), primary, value);
    lemma_unknown_trait_members(secondary_types(release), taxonomy, value);
    lemma_sorted_texts(unknown_facts(release, taxonomy));
    let all = facts + types;
    if facts.contains(value) {
        let i = choose|i: int| 0 <= i < facts.len() && facts[i] == value;
        assert(all[i] == value);
    }
    if types.contains(value) {
        let i = choose|i: int| 0 <= i < types.len() && types[i] == value;
        assert(all[facts.len() + i] == value);
    }
    if all.contains(value) {
        let i = choose|i: int| 0 <= i < all.len() && all[i] == value;
        if i < facts.len() {
            assert(facts[i] == value);
        } else {
            assert(types[i - facts.len()] == value);
        }
    }
    assert(!none.contains(value));
}

/// Attaching the block changes the member `media` and no other; the raw medium list, among
/// the rest, stays as it was.
pub proof fn attaching_changes_only_the_media_member(
    data: JsonModel,
    record: JsonModel,
    taxonomy: Taxonomy,
    key: Seq<char>,
)
    requires
        key != "media"@,
    ensures
        member(with_media_block(data, record, taxonomy), key) == member(data, key),
{
}

/// Attaching the block a second time changes nothing.
pub proof fn attaching_twice_is_attaching_once(
    data: JsonModel,
    record: JsonModel,
    taxonomy: Taxonomy,
)
    ensures
        with_media_block(with_media_block(data, record, taxonomy), record, taxonomy)
            == with_media_block(data, record, taxonomy),
{
    reveal_strlit("media");
    reveal_strlit("media_raw");
    assert("media"@.len() == 5 && "media_raw"@.len() == 9);
    attaching_changes_only_the_media_member(data, record, taxonomy, "media_raw"@);
    if let JsonModel::Object(map) = data {
        let once = with_media_block(data, record, taxonomy);
        assert(once matches JsonModel::Object(changed) && changed.insert(
            "media"@,
            changed["media"@],
        ) =~= changed);
    }
}

/// The view of a raw record gives the mapper the medium list, the status, the packaging and
/// the hyphenated release-group types of the record.
pub proof fn the_view_reads_the_record(record: JsonModel, media_raw: Seq<JsonModel>)
    ensures
        member_items(view_of_record(record, media_raw), "media"@) == media_raw,
        member_text(view_of_record(record, media_raw), "status"@) == member_text(
            record,
            "status"@,
        ),
        member_text(view_of_record(record, media_raw), "packaging"@) == member_text(
            record,
            "packaging"@,
        ),
        primary_type(view_of_record(record, media_raw)) == member_text(
            member_or_null(record, "release-group"@),
            "primary-type"@,
        ),
        secondary_types(view_of_record(record, media_raw)) == member_items(
            member_or_null(record, "release-group"@),
            "secondary-types"@,
        ),
{
    reveal_strlit("media");
    reveal_strlit("status");
    reveal_strlit("packaging");
    reveal_strlit("release_group");
    reveal_strlit("primary_type");
    reveal_strlit("secondary_types");
    assert("media"@.len() == 5 && "status"@.len() == 6 && "packaging"@.len() == 9
        && "release_group"@.len() == 13 && "primary_type"@.len() == 12
        && "secondary_types"@.len() == 15);
}

} // verus!
