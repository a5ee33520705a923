//! The canonical media block of a release.
//!
//! MusicBrainz describes the media of a release as a list of mediums that name a format,
//! and beside it the release `status`, its `packaging`, and the primary and secondary types
//! of its release group. This module maps those onto a provider-neutral vocabulary and
//! builds the `media` block that every `releases` event carries.
//!
//! The vocabulary decides every route. A value that it does not know is kept under
//! `unmapped`.

use crate::json::{
    as_text, copy_items, json_opt_integer, json_opt_number, json_opt_text, json_text, json_texts,
    lemma_list_model, list_model, member_integer, member_items, member_or_null, member_text,
    no_members, number_text, opt_integer_json, opt_number_json, opt_number_model, opt_text_json,
    set_member, texts_json, Json, JsonModel, Number, NumberModel,
};
use crate::ordered::{sorted_texts, sorted_unique};
use crate::table::Table;
use crate::text::{copy_opt, is_empty, join_two, opt_view, push_opt, same_text, views};
use vstd::prelude::*;

verus! {

// ── The vocabulary ──────────────────────────────────────────────────

/// A media family: the closed top-level grouping (`vinyl`, `optical`, `digital`, …).
///
/// `resolve` lets a family that a source names without a medium pick one from an attribute
/// of the item.
#[derive(Debug)]
pub struct FamilyDefinition {
    pub id: String,
    pub resolve: Option<ResolveRule>,
}

/// How a family resolves to a medium: look the text of `attribute` up in `map`.
#[derive(Debug)]
pub struct ResolveRule {
    pub attribute: String,
    pub map: Table<String>,
}

/// A canonical medium of a family (`vinyl_12`, `optical_cd`, `digital_file`).
///
/// `defaults` fill the attributes that the source never stated.
#[derive(Debug)]
pub struct MediumDefinition {
    pub id: String,
    pub family: String,
    pub defaults: Table<Json>,
}

/// What a format name means: a medium, a family, a container, or a release flag.
#[derive(Debug)]
pub struct FormatEntry {
    pub family: Option<String>,
    pub medium: Option<String>,
    pub variant: Option<String>,
    pub container: Option<String>,
    pub flag: Option<String>,
}

/// The MusicBrainz half of the vocabulary: one table per upstream enumeration.
///
/// A `status` maps to an edition or to nothing: `Official` is the unmarked default.
#[derive(Debug)]
pub struct MusicBrainzVocabulary {
    pub formats: Table<FormatEntry>,
    pub status: Table<Option<String>>,
    pub packaging: Table<String>,
    pub primary_types: Table<String>,
    pub secondary_types: Table<String>,
}

/// The vocabulary as it is written down: lists of families and media.
#[derive(Debug)]
pub struct TaxonomyDocument {
    pub taxonomy_version: String,
    pub families: Vec<FamilyDefinition>,
    pub media: Vec<MediumDefinition>,
    pub musicbrainz: MusicBrainzVocabulary,
}

/// The vocabulary indexed for lookup.
#[derive(Debug)]
pub struct Taxonomy {
    pub taxonomy_version: String,
    pub families: Table<FamilyDefinition>,
    pub media: Table<MediumDefinition>,
    pub musicbrainz: MusicBrainzVocabulary,
}

/// The families of a list by their id; of two with one id the later counts.
pub open spec fn families_by_id(families: Seq<FamilyDefinition>) -> Map<
    Seq<char>,
    FamilyDefinition,
>
    decreases families.len(),
{
    if families.len() == 0 {
        Map::empty()
    } else {
        families_by_id(families.drop_last()).insert(families.last().id@, families.last())
    }
}

/// The media of a list by their id; of two with one id the later counts.
pub open spec fn media_by_id(media: Seq<MediumDefinition>) -> Map<Seq<char>, MediumDefinition>
    decreases media.len(),
{
    if media.len() == 0 {
        Map::empty()
    } else {
        media_by_id(media.drop_last()).insert(media.last().id@, media.last())
    }
}

impl Taxonomy {
    /// Index the families and media of a vocabulary by their ids.
    pub fn from(document: TaxonomyDocument) -> (taxonomy: Taxonomy)
        ensures
            taxonomy.taxonomy_version == document.taxonomy_version,
            taxonomy.families@ == families_by_id(document.families@),
            taxonomy.media@ == media_by_id(document.media@),
            taxonomy.musicbrainz == document.musicbrainz,
    {
        let TaxonomyDocument { taxonomy_version, families: family_list, media: media_list, musicbrainz } =
            document;
        let mut families: Table<FamilyDefinition> = Table::new();
        let ghost all_families = family_list@;
        assert(all_families.take(0) =~= Seq::<FamilyDefinition>::empty());
        for family in it: family_list
            invariant
                it.seq() == all_families,
                families@ == families_by_id(all_families.take(it.index())),
        {
            proof {
                assert(all_families.take(it.index() + 1).drop_last() =~= all_families.take(
                    it.index(),
                ));
                assert(all_families.take(it.index() + 1).last() == family);
            }
            families.insert(family.id.clone(), family);
        }
        assert(all_families.take(all_families.len() as int) =~= all_families);
        let mut media: Table<MediumDefinition> = Table::new();
        let ghost all_media = media_list@;
        assert(all_media.take(0) =~= Seq::<MediumDefinition>::empty());
        for medium in it: media_list
            invariant
                it.seq() == all_media,
                media@ == media_by_id(all_media.take(it.index())),
        {
            proof {
                assert(all_media.take(it.index() + 1).drop_last() =~= all_media.take(it.index()));
                assert(all_media.take(it.index() + 1).last() == medium);
            }
            media.insert(medium.id.clone(), medium);
        }
        assert(all_media.take(all_media.len() as int) =~= all_media);
        Taxonomy { taxonomy_version, families, media, musicbrainz }
    }
}

// ── The canonical block ─────────────────────────────────────────────

/// The provider fields exactly as received.
///
/// `descriptions` and `text` are part of the shared shape and stay empty here.
#[derive(Debug, Clone, PartialEq, Eq)]
pub struct ItemSource {
    pub provider: String,
    pub name: Option<String>,
    pub descriptions: Vec<String>,
    pub text: Option<String>,
}

/// One entry per source medium entry, in source order.
#[derive(Debug, Clone, PartialEq, Eq)]
pub struct MediaItem {
    pub family: Option<String>,
    pub medium: Option<String>,
    pub qty: u64,
    pub size_inches: Option<Number>,
    pub speed_rpm: Option<Number>,
    pub channels: Option<String>,
    pub codec: Option<String>,
    pub variants: Vec<String>,
    pub appearance: Vec<String>,
    pub position: Option<i64>,
    pub track_count: Option<i64>,
    pub source: ItemSource,
}

/// The raw values that the vocabulary did not know, sorted and without repetition.
#[derive(Debug, Clone, PartialEq, Eq)]
pub struct Unmapped {
    pub formats: Vec<String>,
    pub descriptions: Vec<String>,
}

/// The canonical `media` block of a release.
///
/// Every field is always present: nothing or an empty list where a value is unknown. Every
/// list but `items` and `source.descriptions` is sorted and without repetition.
#[derive(Debug, Clone, PartialEq, Eq)]
pub struct MediaBlock {
    pub taxonomy_version: String,
    pub items: Vec<MediaItem>,
    pub families: Vec<String>,
    pub release_kind: Option<String>,
    pub traits: Vec<String>,
    pub edition: Vec<String>,
    pub packaging: Option<String>,
    pub container: Option<String>,
    pub flags: Vec<String>,
    pub unmapped: Unmapped,
}

/// What an [`ItemSource`] stands for.
#[verifier::ext_equal]
pub struct SourceModel {
    pub provider: Seq<char>,
    pub name: Option<Seq<char>>,
    pub descriptions: Seq<Seq<char>>,
    pub text: Option<Seq<char>>,
}

/// What a [`MediaItem`] stands for.
#[verifier::ext_equal]
pub struct ItemModel {
    pub family: Option<Seq<char>>,
    pub medium: Option<Seq<char>>,
    pub qty: u64,
    pub size_inches: Option<NumberModel>,
    pub speed_rpm: Option<NumberModel>,
    pub channels: Option<Seq<char>>,
    pub codec: Option<Seq<char>>,
    pub variants: Seq<Seq<char>>,
    pub appearance: Seq<Seq<char>>,
    pub position: Option<i64>,
    pub track_count: Option<i64>,
    pub source: SourceModel,
}

/// What a [`MediaBlock`] stands for.
#[verifier::ext_equal]
pub struct BlockModel {
    pub taxonomy_version: Seq<char>,
    pub items: Seq<ItemModel>,
    pub families: Seq<Seq<char>>,
    pub release_kind: Option<Seq<char>>,
    pub traits: Seq<Seq<char>>,
    pub edition: Seq<Seq<char>>,
    pub packaging: Option<Seq<char>>,
    pub container: Option<Seq<char>>,
    pub flags: Seq<Seq<char>>,
    pub unmapped_formats: Seq<Seq<char>>,
    pub unmapped_descriptions: Seq<Seq<char>>,
}

impl View for ItemSource {
    type V = SourceModel;

    open spec fn view(&self) -> SourceModel {
        SourceModel {
            provider: self.provider@,
            name: opt_view(self.name),
            descriptions: views(self.descriptions@),
            text: opt_view(self.text),
        }
    }
}

impl View for MediaItem {
    type V = ItemModel;

    open spec fn view(&self) -> ItemModel {
        ItemModel {
            family: opt_view(self.family),
            medium: opt_view(self.medium),
            qty: self.qty,
            size_inches: opt_number_model(self.size_inches),
            speed_rpm: opt_number_model(self.speed_rpm),
            channels: opt_view(self.channels),
            codec: opt_view(self.codec),
            variants: views(self.variants@),
            appearance: views(self.appearance@),
            position: self.position,
            track_count: self.track_count,
            source: self.source@,
        }
    }
}

/// What the items of a block stand for, in order.
pub open spec fn item_models(items: Seq<MediaItem>) -> Seq<ItemModel> {
    items.map_values(|item: MediaItem| item@)
}

impl View for MediaBlock {
    type V = BlockModel;

    open spec fn view(&self) -> BlockModel {
        BlockModel {
            taxonomy_version: self.taxonomy_version@,
            items: item_models(self.items@),
            families: views(self.families@),
            release_kind: opt_view(self.release_kind),
            traits: views(self.traits@),
            edition: views(self.edition@),
            packaging: opt_view(self.packaging),
            container: opt_view(self.container),
            flags: views(self.flags@),
            unmapped_formats: views(self.unmapped.formats@),
            unmapped_descriptions: views(self.unmapped.descriptions@),
        }
    }
}

// ── Filling slots ───────────────────────────────────────────────────

/// What a slot holds after a value was offered to it: what it held, else the value.
pub open spec fn filled<T>(slot: Option<T>, value: Option<T>) -> Option<T> {
    if slot is Some {
        slot
    } else {
        value
    }
}

/// Fill a slot only where it is still unset: the first value that the source states wins.
pub fn fill<T>(slot: &mut Option<T>, value: Option<T>)
    ensures
        *final(slot) == filled(*old(slot), value),
{
    if slot.is_none() {
        *slot = value;
    }
}

/// The number that a default states, if it states one.
pub open spec fn default_number(defaults: Map<Seq<char>, Json>, attribute: Seq<char>) -> Option<
    NumberModel,
> {
    if defaults.contains_key(attribute) {
        match defaults[attribute]@ {
            JsonModel::Number(number) => Some(number),
            _ => None,
        }
    } else {
        None
    }
}

/// The string that a default states, if it states one.
pub open spec fn default_text(defaults: Map<Seq<char>, Json>, attribute: Seq<char>) -> Option<
    Seq<char>,
> {
    if defaults.contains_key(attribute) {
        as_text(defaults[attribute]@)
    } else {
        None
    }
}

/// The item with each attribute that it does not state taken from the defaults.
pub open spec fn with_defaults(item: ItemModel, defaults: Map<Seq<char>, Json>) -> ItemModel {
    ItemModel {
        size_inches: filled(item.size_inches, default_number(defaults, "size_inches"@)),
        speed_rpm: filled(item.speed_rpm, default_number(defaults, "speed_rpm"@)),
        channels: filled(item.channels, default_text(defaults, "channels"@)),
        codec: filled(item.codec, default_text(defaults, "codec"@)),
        ..item
    }
}

/// The item with one attribute offered a value.
pub open spec fn attribute_filled(item: ItemModel, attribute: Seq<char>, value: JsonModel) -> ItemModel {
    let number = match value {
        JsonModel::Number(number) => Some(number),
        _ => None,
    };
    let text = as_text(value);
    if attribute == "size_inches"@ {
        ItemModel { size_inches: filled(item.size_inches, number), ..item }
    } else if attribute == "speed_rpm"@ {
        ItemModel { speed_rpm: filled(item.speed_rpm, number), ..item }
    } else if attribute == "channels"@ {
        ItemModel { channels: filled(item.channels, text), ..item }
    } else if attribute == "codec"@ {
        ItemModel { codec: filled(item.codec, text), ..item }
    } else {
        item
    }
}

/// The text of the attribute by which a family resolves a medium, if the item states it.
pub open spec fn attribute_text(item: ItemModel, attribute: Seq<char>) -> Option<Seq<char>> {
    if attribute == "size_inches"@ {
        match item.size_inches {
            Some(number) => Some(number_text(number)),
            None => None,
        }
    } else if attribute == "speed_rpm"@ {
        match item.speed_rpm {
            Some(number) => Some(number_text(number)),
            None => None,
        }
    } else if attribute == "channels"@ {
        item.channels
    } else if attribute == "codec"@ {
        item.codec
    } else {
        None
    }
}

fn number_of(value: &Json) -> (number: Option<Number>)
    ensures
        opt_number_model(number) == match value@ {
            JsonModel::Number(number) => Some(number),
            _ => None,
        },
{
    match value {
        Json::Number(number) => Some(number.copy()),
        _ => None,
    }
}

fn text_of(value: &Json) -> (text: Option<String>)
    ensures
        opt_view(text) == as_text(value@),
{
    match value {
        Json::Text(text) => Some(text.clone()),
        _ => None,
    }
}

fn opt_number_text(number: &Option<Number>) -> (text: Option<String>)
    ensures
        opt_view(text) == match opt_number_model(*number) {
            Some(number) => Some(number_text(number)),
            None => None,
        },
{
    match number {
        Some(number) => Some(number.text()),
        None => None,
    }
}

/// An item of one unit that states nothing but its source.
pub open spec fn bare_item(
    name: Option<Seq<char>>,
    descriptions: Seq<Seq<char>>,
    text: Option<Seq<char>>,
) -> ItemModel {
    ItemModel {
        family: None,
        medium: None,
        qty: 1,
        size_inches: None,
        speed_rpm: None,
        channels: None,
        codec: None,
        variants: Seq::empty(),
        appearance: Seq::empty(),
        position: None,
        track_count: None,
        source: SourceModel { provider: "musicbrainz"@, name, descriptions, text },
    }
}

impl MediaItem {
    /// An item of one unit that states nothing but its source.
    pub fn new(name: Option<String>, descriptions: Vec<String>, text: Option<String>) -> (item: MediaItem)
        ensures
            item@ == bare_item(opt_view(name), views(descriptions@), opt_view(text)),
    {
        let item = MediaItem {
            family: None,
            medium: None,
            qty: 1,
            size_inches: None,
            speed_rpm: None,
            channels: None,
            codec: None,
            variants: Vec::new(),
            appearance: Vec::new(),
            position: None,
            track_count: None,
            source: ItemSource { provider: "musicbrainz".to_owned(), name, descriptions, text },
        };
        assert(item@ =~= bare_item(opt_view(name), views(descriptions@), opt_view(text)));
        item
    }

    /// Set an attribute only where the source has not stated it.
    pub fn fill_attribute(&mut self, attribute: &str, value: &Json)
        ensures
            final(self)@ == attribute_filled(old(self)@, attribute@, value@),
    {
        if same_text(attribute, "size_inches") {
            fill(&mut self.size_inches, number_of(value));
        } else if same_text(attribute, "speed_rpm") {
            fill(&mut self.speed_rpm, number_of(value));
        } else if same_text(attribute, "channels") {
            fill(&mut self.channels, text_of(value));
        } else if same_text(attribute, "codec") {
            fill(&mut self.codec, text_of(value));
        }
    }

    /// The text of the attribute by which a family resolves a medium, if it is set.
    pub fn attribute_key(&self, attribute: &str) -> (text: Option<String>)
        ensures
            opt_view(text) == attribute_text(self@, attribute@),
    {
        if same_text(attribute, "size_inches") {
            opt_number_text(&self.size_inches)
        } else if same_text(attribute, "speed_rpm") {
            opt_number_text(&self.speed_rpm)
        } else if same_text(attribute, "channels") {
            copy_opt(&self.channels)
        } else if same_text(attribute, "codec") {
            copy_opt(&self.codec)
        } else {
            None
        }
    }
}

/// The block of a release that states nothing.
pub open spec fn empty_block(taxonomy_version: Seq<char>) -> BlockModel {
    BlockModel {
        taxonomy_version,
        items: Seq::empty(),
        families: Seq::empty(),
        release_kind: None,
        traits: Seq::empty(),
        edition: Seq::empty(),
        packaging: None,
        container: None,
        flags: Seq::empty(),
        unmapped_formats: Seq::empty(),
        unmapped_descriptions: Seq::empty(),
    }
}

impl MediaBlock {
    /// The block of a release that states nothing.
    pub fn empty(taxonomy: &Taxonomy) -> (block: MediaBlock)
        ensures
            block@ == empty_block(taxonomy.taxonomy_version@),
    {
        let block = MediaBlock {
            taxonomy_version: taxonomy.taxonomy_version.clone(),
            items: Vec::new(),
            families: Vec::new(),
            release_kind: None,
            traits: Vec::new(),
            edition: Vec::new(),
            packaging: None,
            container: None,
            flags: Vec::new(),
            unmapped: Unmapped { formats: Vec::new(), descriptions: Vec::new() },
        };
        assert(block@ =~= empty_block(taxonomy.taxonomy_version@));
        block
    }
}

// ── One medium ──────────────────────────────────────────────────────

/// The format name that a medium states: a string that is not empty.
pub open spec fn format_name(medium: JsonModel) -> Option<Seq<char>> {
    match member_text(medium, "format"@) {
        Some(name) => if name.len() == 0 {
            None
        } else {
            Some(name)
        },
        None => None,
    }
}

/// The item that holds what a medium states of itself.
pub open spec fn stated_item(medium: JsonModel) -> ItemModel {
    ItemModel {
        position: member_integer(medium, "position"@),
        track_count: member_integer(medium, "track_count"@),
        ..bare_item(format_name(medium), Seq::empty(), None)
    }
}

/// Whether a format entry names a medium or a family, and so makes an item.
pub open spec fn names_medium(entry: FormatEntry) -> bool {
    entry.family is Some || entry.medium is Some
}

/// The item with what a format entry says of it.
pub open spec fn with_entry(item: ItemModel, entry: FormatEntry) -> ItemModel {
    ItemModel {
        medium: filled(opt_view(entry.medium), item.medium),
        family: filled(opt_view(entry.family), item.family),
        variants: push_opt(item.variants, opt_view(entry.variant)),
        ..item
    }
}

/// What the vocabulary says of the format that a medium states.
pub open spec fn format_entry(medium: JsonModel, taxonomy: Taxonomy) -> Option<FormatEntry> {
    match format_name(medium) {
        Some(name) => if taxonomy.musicbrainz.formats@.contains_key(name) {
            Some(taxonomy.musicbrainz.formats@[name])
        } else {
            None
        },
        None => None,
    }
}

/// The item that a medium makes before it is finished.
///
/// A medium that states no format is a real medium of an unknown kind. One whose format the
/// vocabulary does not know, or knows as a fact of the release, makes no item.
pub open spec fn medium_item(medium: JsonModel, taxonomy: Taxonomy) -> Option<ItemModel> {
    if format_name(medium) is None {
        Some(ItemModel { medium: Some("other_unspecified"@), ..stated_item(medium) })
    } else {
        match format_entry(medium, taxonomy) {
            Some(entry) => if names_medium(entry) {
                Some(with_entry(stated_item(medium), entry))
            } else {
                None
            },
            None => None,
        }
    }
}

/// The container that the format of a medium stands for, if it stands for one.
pub open spec fn medium_container(medium: JsonModel, taxonomy: Taxonomy) -> Option<Seq<char>> {
    match format_entry(medium, taxonomy) {
        Some(entry) => opt_view(entry.container),
        None => None,
    }
}

/// The release flag that the format of a medium stands for, if it stands for one.
pub open spec fn medium_flag(medium: JsonModel, taxonomy: Taxonomy) -> Option<Seq<char>> {
    match format_entry(medium, taxonomy) {
        Some(entry) => opt_view(entry.flag),
        None => None,
    }
}

/// The format name that a medium states and the vocabulary does not know.
pub open spec fn unknown_format(medium: JsonModel, taxonomy: Taxonomy) -> Option<Seq<char>> {
    if format_entry(medium, taxonomy) is None {
        format_name(medium)
    } else {
        None
    }
}

/// Apply a format entry: the item where the entry names a medium or a family.
///
/// A container or a flag is a fact of the release and makes no item.
pub fn apply_format_entry(
    block: &mut MediaBlock,
    entry: &FormatEntry,
    mut item: MediaItem,
) -> (applied: Option<MediaItem>)
    ensures
        final(block)@ == (BlockModel {
            container: filled(opt_view(entry.container), old(block)@.container),
            flags: push_opt(old(block)@.flags, opt_view(entry.flag)),
            ..old(block)@
        }),
        applied is Some <==> names_medium(*entry),
        applied matches Some(found) ==> found@ == with_entry(item@, *entry),
{
    if let Some(container) = &entry.container {
        block.container = Some(container.clone());
    }
    if let Some(flag) = &entry.flag {
        block.flags.push(flag.clone());
        assert(views(block.flags@) =~= views(old(block).flags@).push(flag@));
    }
    if entry.family.is_none() && entry.medium.is_none() {
        return None;
    }
    let ghost stated = item@;
    if let Some(medium) = &entry.medium {
        item.medium = Some(medium.clone());
    }
    if let Some(family) = &entry.family {
        item.family = Some(family.clone());
    }
    if let Some(variant) = &entry.variant {
        let ghost before = item.variants@;
        item.variants.push(variant.clone());
        assert(views(item.variants@) =~= views(before).push(variant@));
    }
    assert(item@ =~= with_entry(stated, *entry));
    Some(item)
}

// ── Finishing ───────────────────────────────────────────────────────

/// The family of an item: what it states, else that of its medium.
pub open spec fn resolved_family(item: ItemModel, taxonomy: Taxonomy) -> Option<Seq<char>> {
    match (item.family, item.medium) {
        (None, Some(medium)) => if taxonomy.media@.contains_key(medium) {
            Some(taxonomy.media@[medium].family@)
        } else {
            None
        },
        (family, _) => family,
    }
}

/// The medium that the rule of a family picks for an item, if it picks one.
pub open spec fn ruled_medium(item: ItemModel, family: Seq<char>, taxonomy: Taxonomy) -> Option<
    Seq<char>,
> {
    if taxonomy.families@.contains_key(family) {
        match taxonomy.families@[family].resolve {
            Some(rule) => match attribute_text(item, rule.attribute@) {
                Some(key) => if rule.map@.contains_key(key) {
                    Some(rule.map@[key]@)
                } else {
                    None
                },
                None => None,
            },
            None => None,
        }
    } else {
        None
    }
}

/// The medium of an item: what it states, else what the rule of its family picks, else the
/// unspecified medium of that family.
pub open spec fn resolved_medium(item: ItemModel, taxonomy: Taxonomy) -> Option<Seq<char>> {
    match (item.medium, item.family) {
        (None, Some(family)) => match ruled_medium(item, family, taxonomy) {
            Some(medium) => Some(medium),
            None => Some(family + "_unspecified"@),
        },
        (medium, _) => medium,
    }
}

/// The item with its family, its medium and the defaults of that medium, its lists in order.
pub open spec fn finished(item: ItemModel, taxonomy: Taxonomy) -> ItemModel {
    let placed = ItemModel {
        family: resolved_family(item, taxonomy),
        medium: resolved_medium(item, taxonomy),
        variants: sorted_texts(item.variants),
        appearance: sorted_texts(item.appearance),
        ..item
    };
    match placed.medium {
        Some(medium) => if taxonomy.media@.contains_key(medium) {
            with_defaults(placed, taxonomy.media@[medium].defaults@)
        } else {
            placed
        },
        None => placed,
    }
}

fn fill_default(item: &mut MediaItem, defaults: &Table<Json>, attribute: &str)
    ensures
        final(item)@ == if defaults@.contains_key(attribute@) {
            attribute_filled(old(item)@, attribute@, defaults@[attribute@]@)
        } else {
            old(item)@
        },
{
    if let Some(value) = defaults.get(attribute) {
        item.fill_attribute(attribute, value);
    }
}

/// Fill the attributes that an item does not state from the defaults of its medium.
fn fill_defaults(item: &mut MediaItem, defaults: &Table<Json>)
    ensures
        final(item)@ == with_defaults(old(item)@, defaults@),
{
    let ghost stated = item@;
    proof {
        reveal_strlit("size_inches");
        reveal_strlit("speed_rpm");
        reveal_strlit("channels");
        reveal_strlit("codec");
        assert("size_inches"@.len() == 11 && "speed_rpm"@.len() == 9 && "channels"@.len() == 8
            && "codec"@.len() == 5);
    }
    fill_default(item, defaults, "size_inches");
    fill_default(item, defaults, "speed_rpm");
    fill_default(item, defaults, "channels");
    fill_default(item, defaults, "codec");
    assert(item@ =~= with_defaults(stated, defaults@));
}

/// Resolve the medium and the family of an item, fill the defaults of its medium, and put
/// its lists in order.
pub fn finish_item(mut item: MediaItem, taxonomy: &Taxonomy) -> (done: MediaItem)
    ensures
        done@ == finished(item@, *taxonomy),
{
    let ghost stated = item@;
    let medium = copy_opt(&item.medium);
    let family = copy_opt(&item.family);
    match (medium, family) {
        (Some(medium), None) => {
            if let Some(definition) = taxonomy.media.get(medium.as_str()) {
                item.family = Some(definition.family.clone());
            }
        },
        (None, Some(family)) => {
            let mut ruled: Option<String> = None;
            if let Some(definition) = taxonomy.families.get(family.as_str()) {
                if let Some(rule) = &definition.resolve {
                    if let Some(key) = item.attribute_key(rule.attribute.as_str()) {
                        if let Some(medium) = rule.map.get(key.as_str()) {
                            ruled = Some(medium.clone());
                        }
                    }
                }
            }
            assert(opt_view(ruled) == ruled_medium(stated, family@, *taxonomy));
            item.medium = match ruled {
                Some(medium) => Some(medium),
                None => Some(join_two(family.as_str(), "_unspecified")),
            };
        },
        _ => {},
    }
    item.variants = sorted_unique(item.variants);
    item.appearance = sorted_unique(item.appearance);
    let ghost placed = ItemModel {
        family: resolved_family(stated, *taxonomy),
        medium: resolved_medium(stated, *taxonomy),
        variants: sorted_texts(stated.variants),
        appearance: sorted_texts(stated.appearance),
        ..stated
    };
    assert(item@ =~= placed);
    if let Some(medium) = copy_opt(&item.medium) {
        if let Some(definition) = taxonomy.media.get(medium.as_str()) {
            fill_defaults(&mut item, &definition.defaults);
        }
    }
    item
}

// ── The media of a release ──────────────────────────────────────────

/// The items of a list of mediums, in source order. What is no object is passed over.
pub open spec fn media_items(media: Seq<JsonModel>, taxonomy: Taxonomy) -> Seq<ItemModel>
    decreases media.len(),
{
    if media.len() == 0 {
        Seq::empty()
    } else {
        let before = media_items(media.drop_last(), taxonomy);
        match medium_item(media.last(), taxonomy) {
            Some(item) => if media.last() is Object {
                before.push(finished(item, taxonomy))
            } else {
                before
            },
            None => before,
        }
    }
}

/// The release flags that a list of mediums states, in source order.
pub open spec fn media_flags(media: Seq<JsonModel>, taxonomy: Taxonomy) -> Seq<Seq<char>>
    decreases media.len(),
{
    if media.len() == 0 {
        Seq::empty()
    } else {
        push_opt(
            media_flags(media.drop_last(), taxonomy),
            medium_flag(media.last(), taxonomy),
        )
    }
}

/// The format names of a list of mediums that the vocabulary does not know, in source order.
pub open spec fn media_unknown(media: Seq<JsonModel>, taxonomy: Taxonomy) -> Seq<Seq<char>>
    decreases media.len(),
{
    if media.len() == 0 {
        Seq::empty()
    } else {
        push_opt(
            media_unknown(media.drop_last(), taxonomy),
            unknown_format(media.last(), taxonomy),
        )
    }
}

/// The container that a list of mediums states; the last one counts.
pub open spec fn media_container(media: Seq<JsonModel>, taxonomy: Taxonomy) -> Option<Seq<char>>
    decreases media.len(),
{
    if media.len() == 0 {
        None
    } else {
        filled(
            medium_container(media.last(), taxonomy),
            media_container(media.drop_last(), taxonomy),
        )
    }
}

/// The families that the items name, in item order.
pub open spec fn item_families(items: Seq<ItemModel>) -> Seq<Seq<char>>
    decreases items.len(),
{
    if items.len() == 0 {
        Seq::empty()
    } else {
        push_opt(item_families(items.drop_last()), items.last().family)
    }
}

/// Map one medium onto an item, or onto nothing.
///
/// A medium without a format becomes an item of an unspecified medium. A format that the
/// vocabulary does not know is recorded as unmapped and makes no item.
pub fn map_medium(block: &mut MediaBlock, medium: &Json, taxonomy: &Taxonomy) -> (item: Option<
    MediaItem,
>)
    ensures
        match item {
            Some(item) => medium_item(medium@, *taxonomy) == Some(item@),
            None => medium_item(medium@, *taxonomy) is None,
        },
        final(block)@ == (BlockModel {
            container: filled(medium_container(medium@, *taxonomy), old(block)@.container),
            flags: push_opt(old(block)@.flags, medium_flag(medium@, *taxonomy)),
            unmapped_formats: push_opt(
                old(block)@.unmapped_formats,
                unknown_format(medium@, *taxonomy),
            ),
            ..old(block)@
        }),
{
    let mut name: Option<String> = None;
    if let Some(format) = medium.get_str("format") {
        let owned = format.to_owned();
        if !is_empty(owned.as_str()) {
            name = Some(owned);
        }
    }
    assert(opt_view(name) == format_name(medium@));
    let mut item = MediaItem::new(copy_opt(&name), Vec::new(), None);
    item.position = medium.get_i64("position");
    item.track_count = medium.get_i64("track_count");
    proof {
        assert(views(Seq::<String>::empty()) =~= Seq::<Seq<char>>::empty());
        assert(item@ =~= stated_item(medium@));
    }
    let Some(name) = name else {
        item.medium = Some("other_unspecified".to_owned());
        assert(item@ =~= (ItemModel {
            medium: Some("other_unspecified"@),
            ..stated_item(medium@)
        }));
        assert(block@ =~= old(block)@);
        return Some(item);
    };
    match taxonomy.musicbrainz.formats.get(name.as_str()) {
        None => {
            let ghost unknown = name@;
            block.unmapped.formats.push(name);
            assert(views(block.unmapped.formats@) =~= views(old(block).unmapped.formats@).push(
                unknown,
            ));
            None
        },
        Some(entry) => apply_format_entry(block, entry, item),
    }
}

// ── The facts of a release ──────────────────────────────────────────

/// What a table gives for a stated value, if it is stated and known.
pub open spec fn known_value(stated: Option<Seq<char>>, table: Map<Seq<char>, String>) -> Option<
    Seq<char>,
> {
    match stated {
        Some(text) => if table.contains_key(text) {
            Some(table[text]@)
        } else {
            None
        },
        None => None,
    }
}

/// The stated value where a table does not know it.
pub open spec fn unknown_value<V>(stated: Option<Seq<char>>, table: Map<Seq<char>, V>) -> Option<
    Seq<char>,
> {
    match stated {
        Some(text) => if table.contains_key(text) {
            None
        } else {
            Some(text)
        },
        None => None,
    }
}

/// The edition that the status of a release stands for, if it stands for one.
pub open spec fn status_edition(status: Option<Seq<char>>, taxonomy: Taxonomy) -> Option<
    Seq<char>,
> {
    match status {
        Some(text) => if taxonomy.musicbrainz.status@.contains_key(text) {
            opt_view(taxonomy.musicbrainz.status@[text])
        } else {
            None
        },
        None => None,
    }
}

/// The release group of a release.
pub open spec fn release_group(release: JsonModel) -> JsonModel {
    member_or_null(release, "release_group"@)
}

/// The primary type that a release states, if it states one.
pub open spec fn primary_type(release: JsonModel) -> Option<Seq<char>> {
    member_text(release_group(release), "primary_type"@)
}

/// The secondary types that a release states, as they stand.
pub open spec fn secondary_types(release: JsonModel) -> Seq<JsonModel> {
    member_items(release_group(release), "secondary_types"@)
}

/// The traits that a list of secondary types stands for, in source order.
pub open spec fn known_traits(types: Seq<JsonModel>, taxonomy: Taxonomy) -> Seq<Seq<char>>
    decreases types.len(),
{
    if types.len() == 0 {
        Seq::empty()
    } else {
        push_opt(
            known_traits(types.drop_last(), taxonomy),
            known_value(as_text(types.last()), taxonomy.musicbrainz.secondary_types@),
        )
    }
}

/// The secondary types that the vocabulary does not know, in source order.
pub open spec fn unknown_traits(types: Seq<JsonModel>, taxonomy: Taxonomy) -> Seq<Seq<char>>
    decreases types.len(),
{
    if types.len() == 0 {
        Seq::empty()
    } else {
        push_opt(
            unknown_traits(types.drop_last(), taxonomy),
            unknown_value(as_text(types.last()), taxonomy.musicbrainz.secondary_types@),
        )
    }
}

/// The values beside the medium list that the vocabulary does not know, in source order.
pub open spec fn unknown_facts(release: JsonModel, taxonomy: Taxonomy) -> Seq<Seq<char>> {
    let status = unknown_value(member_text(release, "status"@), taxonomy.musicbrainz.status@);
    let packaging = unknown_value(
        member_text(release, "packaging"@),
        taxonomy.musicbrainz.packaging@,
    );
    let primary = unknown_value(primary_type(release), taxonomy.musicbrainz.primary_types@);
    push_opt(push_opt(push_opt(Seq::empty(), status), packaging), primary) + unknown_traits(
        secondary_types(release),
        taxonomy,
    )
}

/// The block with the facts that a release states beside its medium list.
pub open spec fn with_release_facts(
    block: BlockModel,
    release: JsonModel,
    taxonomy: Taxonomy,
) -> BlockModel {
    BlockModel {
        edition: push_opt(
            block.edition,
            status_edition(member_text(release, "status"@), taxonomy),
        ),
        packaging: filled(
            known_value(member_text(release, "packaging"@), taxonomy.musicbrainz.packaging@),
            block.packaging,
        ),
        release_kind: filled(
            known_value(primary_type(release), taxonomy.musicbrainz.primary_types@),
            block.release_kind,
        ),
        traits: block.traits + known_traits(secondary_types(release), taxonomy),
        unmapped_descriptions: block.unmapped_descriptions + unknown_facts(release, taxonomy),
        ..block
    }
}

fn push_text(list: &mut Vec<String>, text: &str)
    ensures
        views(final(list)@) == views(old(list)@).push(text@),
{
    list.push(text.to_owned());
    assert(views(list@) =~= views(old(list)@).push(text@));
}

/// Route the secondary types of a release: to a trait where the vocabulary knows the type,
/// to the unmapped values where it does not.
fn map_secondary_types(block: &mut MediaBlock, types: &Vec<Json>, taxonomy: &Taxonomy)
    ensures
        final(block)@ == (BlockModel {
            traits: old(block)@.traits + known_traits(list_model(types@), *taxonomy),
            unmapped_descriptions: old(block)@.unmapped_descriptions + unknown_traits(
                list_model(types@),
                *taxonomy,
            ),
            ..old(block)@
        }),
{
    let ghost before = block@;
    let ghost all = list_model(types@);
    let mut i: usize = 0;
    proof {
        lemma_list_model(types@);
        assert(all.take(0) =~= Seq::<JsonModel>::empty());
    }
    assert(block@ =~= (BlockModel {
        traits: before.traits + known_traits(all.take(0), *taxonomy),
        unmapped_descriptions: before.unmapped_descriptions + unknown_traits(
            all.take(0),
            *taxonomy,
        ),
        ..before
    }));
    while i < types.len()
        invariant
            i <= types@.len(),
            all == list_model(types@),
            block@ == (BlockModel {
                traits: before.traits + known_traits(all.take(i as int), *taxonomy),
                unmapped_descriptions: before.unmapped_descriptions + unknown_traits(
                    all.take(i as int),
                    *taxonomy,
                ),
                ..before
            }),
        decreases types.len() - i,
    {
        let ghost at = block@;
        proof {
            lemma_list_model(types@);
            assert(all.take(i + 1).drop_last() =~= all.take(i as int));
            assert(all.take(i + 1).last() == types@[i as int]@);
        }
        if let Some(secondary) = types[i].as_str() {
            match taxonomy.musicbrainz.secondary_types.get(secondary) {
                None => push_text(&mut block.unmapped.descriptions, secondary),
                Some(known) => push_text(&mut block.traits, known.as_str()),
            }
        }
        i = i + 1;
        assert(block@ =~= (BlockModel {
            traits: before.traits + known_traits(all.take(i as int), *taxonomy),
            unmapped_descriptions: before.unmapped_descriptions + unknown_traits(
                all.take(i as int),
                *taxonomy,
            ),
            ..before
        }));
    }
    assert(all.take(all.len() as int) =~= all) by {
        lemma_list_model(types@);
    }
    proof {
        lemma_list_model(types@);
    }
}

/// Route the facts that a release states beside its medium list.
///
/// Each is one table lookup: a value that the vocabulary knows lands on its one target, and
/// one that it does not know is kept as unmapped. A status may be known and add nothing.
pub fn map_release_facts(block: &mut MediaBlock, release: &Json, taxonomy: &Taxonomy)
    ensures
        final(block)@ == with_release_facts(old(block)@, release@, *taxonomy),
{
    let ghost before = block@;
    if let Some(status) = release.get_str("status") {
        match taxonomy.musicbrainz.status.get(status) {
            None => push_text(&mut block.unmapped.descriptions, status),
            Some(None) => {},
            Some(Some(edition)) => push_text(&mut block.edition, edition.as_str()),
        }
    }
    if let Some(packaging) = release.get_str("packaging") {
        match taxonomy.musicbrainz.packaging.get(packaging) {
            None => push_text(&mut block.unmapped.descriptions, packaging),
            Some(mapped) => {
                block.packaging = Some(mapped.clone());
            },
        }
    }
    if let Some(group) = release.get("release_group") {
        if let Some(primary) = group.get_str("primary_type") {
            match taxonomy.musicbrainz.primary_types.get(primary) {
                None => push_text(&mut block.unmapped.descriptions, primary),
                Some(kind) => {
                    block.release_kind = Some(kind.clone());
                },
            }
        }
        if let Some(types) = group.get_array("secondary_types") {
            map_secondary_types(block, types, taxonomy);
        }
    }
    assert(block@ =~= with_release_facts(before, release@, *taxonomy));
}

// ── The whole block ─────────────────────────────────────────────────

/// The block of a release.
pub open spec fn release_block(release: JsonModel, taxonomy: Taxonomy) -> BlockModel {
    let media = member_items(release, "media"@);
    let items = media_items(media, taxonomy);
    BlockModel {
        taxonomy_version: taxonomy.taxonomy_version@,
        items,
        families: sorted_texts(item_families(items)),
        release_kind: known_value(primary_type(release), taxonomy.musicbrainz.primary_types@),
        traits: sorted_texts(known_traits(secondary_types(release), taxonomy)),
        edition: sorted_texts(
            push_opt(Seq::empty(), status_edition(member_text(release, "status"@), taxonomy)),
        ),
        packaging: known_value(
            member_text(release, "packaging"@),
            taxonomy.musicbrainz.packaging@,
        ),
        container: media_container(media, taxonomy),
        flags: sorted_texts(media_flags(media, taxonomy)),
        unmapped_formats: sorted_texts(media_unknown(media, taxonomy)),
        unmapped_descriptions: sorted_texts(unknown_facts(release, taxonomy)),
    }
}

/// The families that the items name, in item order.
fn families_of(items: &Vec<MediaItem>) -> (families: Vec<String>)
    ensures
        views(families@) == item_families(item_models(items@)),
{
    let ghost all = item_models(items@);
    let mut families: Vec<String> = Vec::new();
    let mut i: usize = 0;
    assert(all.take(0) =~= Seq::<ItemModel>::empty());
    assert(views(families@) =~= Seq::<Seq<char>>::empty());
    while i < items.len()
        invariant
            i <= items@.len(),
            all == item_models(items@),
            views(families@) == item_families(all.take(i as int)),
        decreases items.len() - i,
    {
        proof {
            assert(all.take(i + 1).drop_last() =~= all.take(i as int));
            assert(all.take(i + 1).last() == items@[i as int]@);
        }
        if let Some(family) = &items[i].family {
            push_text(&mut families, family.as_str());
        }
        i = i + 1;
    }
    assert(all.take(all.len() as int) =~= all);
    families
}

/// List the families of the items, and put every list of the block in order.
pub fn finish_block(mut block: MediaBlock) -> (done: MediaBlock)
    ensures
        done@ == (BlockModel {
            families: sorted_texts(item_families(block@.items)),
            traits: sorted_texts(block@.traits),
            edition: sorted_texts(block@.edition),
            flags: sorted_texts(block@.flags),
            unmapped_formats: sorted_texts(block@.unmapped_formats),
            unmapped_descriptions: sorted_texts(block@.unmapped_descriptions),
            ..block@
        }),
{
    block.families = sorted_unique(families_of(&block.items));
    block.traits = sorted_unique(block.traits);
    block.edition = sorted_unique(block.edition);
    block.flags = sorted_unique(block.flags);
    block.unmapped.formats = sorted_unique(block.unmapped.formats);
    block.unmapped.descriptions = sorted_unique(block.unmapped.descriptions);
    block
}

/// Map every medium of a list.
fn map_media(block: &mut MediaBlock, media: &Vec<Json>, taxonomy: &Taxonomy)
    requires
        old(block)@ == empty_block(taxonomy.taxonomy_version@),
    ensures
        final(block)@ == (BlockModel {
            items: media_items(list_model(media@), *taxonomy),
            container: media_container(list_model(media@), *taxonomy),
            flags: media_flags(list_model(media@), *taxonomy),
            unmapped_formats: media_unknown(list_model(media@), *taxonomy),
            ..empty_block(taxonomy.taxonomy_version@)
        }),
{
    let ghost all = list_model(media@);
    let mut i: usize = 0;
    proof {
        assert(all.take(0) =~= Seq::<JsonModel>::empty());
    }
    while i < media.len()
        invariant
            i <= media@.len(),
            all == list_model(media@),
            block@ == (BlockModel {
                items: media_items(all.take(i as int), *taxonomy),
                container: media_container(all.take(i as int), *taxonomy),
                flags: media_flags(all.take(i as int), *taxonomy),
                unmapped_formats: media_unknown(all.take(i as int), *taxonomy),
                ..empty_block(taxonomy.taxonomy_version@)
            }),
        decreases media.len() - i,
    {
        proof {
            lemma_list_model(media@);
            assert(all.take(i + 1).drop_last() =~= all.take(i as int));
            assert(all.take(i + 1).last() == media@[i as int]@);
        }
        if media[i].is_object() {
            if let Some(item) = map_medium(block, &media[i], taxonomy) {
                let done = finish_item(item, taxonomy);
                let ghost before = block.items@;
                block.items.push(done);
                assert(item_models(block.items@) =~= item_models(before).push(done@));
            }
        } else {
            assert(format_name(media@[i as int]@) is None);
        }
        i = i + 1;
        assert(block@ =~= (BlockModel {
            items: media_items(all.take(i as int), *taxonomy),
            container: media_container(all.take(i as int), *taxonomy),
            flags: media_flags(all.take(i as int), *taxonomy),
            unmapped_formats: media_unknown(all.take(i as int), *taxonomy),
            ..empty_block(taxonomy.taxonomy_version@)
        }));
    }
    proof {
        lemma_list_model(media@);
        assert(all.take(all.len() as int) =~= all);
    }
}

/// Map a release view onto the canonical media block.
///
/// The view is the shape that [`release_view`] builds: `media`, `status`, `packaging`, and
/// the `primary_type` and `secondary_types` of `release_group`. A release without media
/// yields the empty block, so that every release carries the same shape.
pub fn map_musicbrainz_release(release: &Json, taxonomy: &Taxonomy) -> (block: MediaBlock)
    ensures
        block@ == release_block(release@, *taxonomy),
{
    let mut block = MediaBlock::empty(taxonomy);
    if let Some(media) = release.get_array("media") {
        map_media(&mut block, media, taxonomy);
    }
    let ghost mapped = block@;
    map_release_facts(&mut block, release, taxonomy);
    let ghost stated = block@;
    let done = finish_block(block);
    proof {
        let media = member_items(release@, "media"@);
        assert(mapped =~= (BlockModel {
            items: media_items(media, *taxonomy),
            container: media_container(media, *taxonomy),
            flags: media_flags(media, *taxonomy),
            unmapped_formats: media_unknown(media, *taxonomy),
            ..empty_block(taxonomy.taxonomy_version@)
        }));
        assert(stated.traits =~= known_traits(secondary_types(release@), *taxonomy));
        assert(stated.unmapped_descriptions =~= unknown_facts(release@, *taxonomy));
        assert(done@ =~= release_block(release@, *taxonomy));
    }
    done
}

// ── The block as JSON ───────────────────────────────────────────────

/// The source of an item as JSON.
pub open spec fn source_json(source: SourceModel) -> JsonModel {
    JsonModel::Object(
        map![
            "provider"@ => JsonModel::Text(source.provider),
            "name"@ => opt_text_json(source.name),
            "descriptions"@ => texts_json(source.descriptions),
            "text"@ => opt_text_json(source.text),
        ],
    )
}

/// An item as JSON.
pub open spec fn item_json(item: ItemModel) -> JsonModel {
    JsonModel::Object(
        map![
            "family"@ => opt_text_json(item.family),
            "medium"@ => opt_text_json(item.medium),
            "qty"@ => JsonModel::Number(NumberModel::Integer(item.qty as int)),
            "size_inches"@ => opt_number_json(item.size_inches),
            "speed_rpm"@ => opt_number_json(item.speed_rpm),
            "channels"@ => opt_text_json(item.channels),
            "codec"@ => opt_text_json(item.codec),
            "variants"@ => texts_json(item.variants),
            "appearance"@ => texts_json(item.appearance),
            "position"@ => opt_integer_json(item.position),
            "track_count"@ => opt_integer_json(item.track_count),
            "source"@ => source_json(item.source),
        ],
    )
}

/// The items of a block as JSON.
pub open spec fn items_json(items: Seq<ItemModel>) -> JsonModel {
    JsonModel::Array(items.map_values(|item: ItemModel| item_json(item)))
}

/// A block as JSON: every field is there, `null` or an empty list where it is unknown.
pub open spec fn block_json(block: BlockModel) -> JsonModel {
    JsonModel::Object(
        map![
            "taxonomy_version"@ => JsonModel::Text(block.taxonomy_version),
            "items"@ => items_json(block.items),
            "families"@ => texts_json(block.families),
            "release_kind"@ => opt_text_json(block.release_kind),
            "traits"@ => texts_json(block.traits),
            "edition"@ => texts_json(block.edition),
            "packaging"@ => opt_text_json(block.packaging),
            "container"@ => opt_text_json(block.container),
            "flags"@ => texts_json(block.flags),
            "unmapped"@ => JsonModel::Object(
                map![
                    "formats"@ => texts_json(block.unmapped_formats),
                    "descriptions"@ => texts_json(block.unmapped_descriptions),
                ],
            ),
        ],
    )
}

impl ItemSource {
    /// This source as JSON.
    pub fn to_json(&self) -> (json: Json)
        ensures
            json@ == source_json(self@),
    {
        let mut map = no_members();
        set_member(&mut map, "provider", json_text(self.provider.as_str()));
        set_member(&mut map, "name", json_opt_text(&self.name));
        set_member(&mut map, "descriptions", json_texts(&self.descriptions));
        set_member(&mut map, "text", json_opt_text(&self.text));
        Json::Object(map)
    }
}

impl MediaItem {
    /// This item as JSON.
    pub fn to_json(&self) -> (json: Json)
        ensures
            json@ == item_json(self@),
    {
        let mut map = no_members();
        set_member(&mut map, "family", json_opt_text(&self.family));
        set_member(&mut map, "medium", json_opt_text(&self.medium));
        set_member(&mut map, "qty", Json::Number(Number::PosInt(self.qty)));
        set_member(&mut map, "size_inches", json_opt_number(&self.size_inches));
        set_member(&mut map, "speed_rpm", json_opt_number(&self.speed_rpm));
        set_member(&mut map, "channels", json_opt_text(&self.channels));
        set_member(&mut map, "codec", json_opt_text(&self.codec));
        set_member(&mut map, "variants", json_texts(&self.variants));
        set_member(&mut map, "appearance", json_texts(&self.appearance));
        set_member(&mut map, "position", json_opt_integer(self.position));
        set_member(&mut map, "track_count", json_opt_integer(self.track_count));
        set_member(&mut map, "source", self.source.to_json());
        Json::Object(map)
    }
}

impl MediaBlock {
    fn items_to_json(&self) -> (json: Json)
        ensures
            json@ == items_json(self@.items),
    {
        let mut items: Vec<Json> = Vec::new();
        let mut i: usize = 0;
        while i < self.items.len()
            invariant
                i <= self.items@.len(),
                items@.len() == i,
                forall|j: int| 0 <= j < i ==> (#[trigger] items@[j])@ == item_json(self.items@[j]@),
            decreases self.items.len() - i,
        {
            items.push(self.items[i].to_json());
            i = i + 1;
        }
        proof {
            lemma_list_model(items@);
            assert(list_model(items@) =~= self@.items.map_values(
                |item: ItemModel| item_json(item),
            ));
        }
        Json::Array(items)
    }

    /// This block as JSON.
    pub fn to_json(&self) -> (json: Json)
        ensures
            json@ == block_json(self@),
    {
        let mut unmapped = no_members();
        set_member(&mut unmapped, "formats", json_texts(&self.unmapped.formats));
        set_member(&mut unmapped, "descriptions", json_texts(&self.unmapped.descriptions));
        let mut map = no_members();
        set_member(&mut map, "taxonomy_version", json_text(self.taxonomy_version.as_str()));
        set_member(&mut map, "items", self.items_to_json());
        set_member(&mut map, "families", json_texts(&self.families));
        set_member(&mut map, "release_kind", json_opt_text(&self.release_kind));
        set_member(&mut map, "traits", json_texts(&self.traits));
        set_member(&mut map, "edition", json_texts(&self.edition));
        set_member(&mut map, "packaging", json_opt_text(&self.packaging));
        set_member(&mut map, "container", json_opt_text(&self.container));
        set_member(&mut map, "flags", json_texts(&self.flags));
        set_member(&mut map, "unmapped", Json::Object(unmapped));
        Json::Object(map)
    }
}

// ── Raw records ─────────────────────────────────────────────────────

/// The mapper's view of a raw release record with its normalized medium list.
pub open spec fn view_of_record(record: JsonModel, media_raw: Seq<JsonModel>) -> JsonModel {
    let group = member_or_null(record, "release-group"@);
    JsonModel::Object(
        map![
            "media"@ => JsonModel::Array(media_raw),
            "status"@ => member_or_null(record, "status"@),
            "packaging"@ => member_or_null(record, "packaging"@),
            "release_group"@ => JsonModel::Object(
                map![
                    "primary_type"@ => member_or_null(group, "primary-type"@),
                    "secondary_types"@ => member_or_null(group, "secondary-types"@),
                ],
            ),
        ],
    )
}

/// Build the mapper's view of a raw release record.
///
/// The dump hyphenates its release-group keys. This is the one place where the two spellings
/// meet, and only the values that the vocabulary reads are copied.
pub fn release_view(record: &Json, media_raw: &Vec<Json>) -> (view: Json)
    ensures
        view@ == view_of_record(record@, list_model(media_raw@)),
{
    let raw_group = record.member_copy("release-group");
    let mut group = no_members();
    set_member(&mut group, "primary_type", raw_group.member_copy("primary-type"));
    set_member(&mut group, "secondary_types", raw_group.member_copy("secondary-types"));
    let mut view = no_members();
    set_member(&mut view, "media", Json::Array(copy_items(media_raw)));
    set_member(&mut view, "status", record.member_copy("status"));
    set_member(&mut view, "packaging", record.member_copy("packaging"));
    set_member(&mut view, "release_group", Json::Object(group));
    Json::Object(view)
}

/// A record with the media block of a raw release record; what is no object stays as it is.
pub open spec fn with_media_block(
    data: JsonModel,
    record: JsonModel,
    taxonomy: Taxonomy,
) -> JsonModel {
    match data {
        JsonModel::Object(map) => JsonModel::Object(
            map.insert(
                "media"@,
                block_json(
                    release_block(
                        view_of_record(record, member_items(data, "media_raw"@)),
                        taxonomy,
                    ),
                ),
            ),
        ),
        other => other,
    }
}

/// Attach the canonical `media` block to a normalized release record, in place.
///
/// `data` is the record that is being assembled and `record` the raw dump line that it came
/// from. The list under `media_raw` stays as it is: it is the record of provenance.
pub fn attach_media_block(data: &mut Json, record: &Json, taxonomy: &Taxonomy)
    ensures
        final(data)@ == with_media_block(old(data)@, record@, *taxonomy),
{
    let media_raw: Vec<Json> = match data.get_array("media_raw") {
        Some(items) => copy_items(items),
        None => Vec::new(),
    };
    assert(list_model(media_raw@) == member_items(data@, "media_raw"@));
    if data.is_object() {
        let block = map_musicbrainz_release(&release_view(record, &media_raw), taxonomy);
        match data {
            Json::Object(map) => set_member(map, "media", block.to_json()),
            _ => {},
        }
    }
}

} // verus!
