//! JSON values: what the records of a dump and the events of the catalog are made of.

use crate::table::{entries_map, Table};
use crate::text::{
    decimal, decimal_text, is_digit, lemma_decimal_text, opt_str_view, opt_view, unsigned_value,
    views,
};
use vstd::prelude::*;

verus! {

/// A JSON number. A number with a fraction or an exponent is kept as the text that writes it.
#[derive(Debug, Clone, PartialEq, Eq)]
pub enum Number {
    PosInt(u64),
    NegInt(i64),
    Float(String),
}

/// What a [`Number`] stands for.
pub enum NumberModel {
    Integer(int),
    Real(Seq<char>),
}

impl View for Number {
    type V = NumberModel;

    open spec fn view(&self) -> NumberModel {
        match self {
            Number::PosInt(value) => NumberModel::Integer(*value as int),
            Number::NegInt(value) => NumberModel::Integer(*value as int),
            Number::Float(text) => NumberModel::Real(text@),
        }
    }
}

/// The text that writes an integer: its digits, after a minus sign where it is negative.
pub open spec fn integer_text(value: int) -> Seq<char> {
    if value < 0 {
        seq!['-'] + decimal_text((-value) as nat)
    } else {
        decimal_text(value as nat)
    }
}

/// The text that writes a number.
pub open spec fn number_text(number: NumberModel) -> Seq<char> {
    match number {
        NumberModel::Integer(value) => integer_text(value),
        NumberModel::Real(text) => text,
    }
}

/// The 64-bit signed integer that a number is, if it is one.
pub open spec fn number_as_i64(number: NumberModel) -> Option<i64> {
    match number {
        NumberModel::Integer(value) => if i64::MIN <= value <= i64::MAX {
            Some(value as i64)
        } else {
            None
        },
        NumberModel::Real(_) => None,
    }
}

impl Number {
    /// A copy of this number.
    pub fn copy(&self) -> (number: Number)
        ensures
            number@ == self@,
    {
        match self {
            Number::PosInt(value) => Number::PosInt(*value),
            Number::NegInt(value) => Number::NegInt(*value),
            Number::Float(text) => Number::Float(text.clone()),
        }
    }

    /// The text that writes this number.
    pub fn text(&self) -> (text: String)
        ensures
            text@ == number_text(self@),
    {
        match self {
            Number::PosInt(value) => decimal(*value),
            Number::NegInt(value) => {
                if *value < 0 {
                    let magnitude: u64 = if *value == i64::MIN {
                        0x8000_0000_0000_0000
                    } else {
                        (-*value) as u64
                    };
                    let digits = decimal(magnitude);
                    let mut text = String::new();
                    text.push('-');
                    assert(text@ =~= seq!['-']);
                    text.append(digits.as_str());
                    text
                } else {
                    decimal(*value as u64)
                }
            },
            Number::Float(text) => text.clone(),
        }
    }

    /// The 64-bit signed integer that this number is, if it is one.
    pub fn as_i64(&self) -> (value: Option<i64>)
        ensures
            value == number_as_i64(self@),
    {
        match self {
            Number::PosInt(value) => if *value <= 0x7fff_ffff_ffff_ffff {
                Some(*value as i64)
            } else {
                None
            },
            Number::NegInt(value) => Some(*value),
            Number::Float(_) => None,
        }
    }
}

/// A JSON value.
#[derive(Debug)]
pub enum Json {
    Null,
    Bool(bool),
    Number(Number),
    Text(String),
    Array(Vec<Json>),
    Object(Table<Json>),
}

/// What a [`Json`] value stands for.
pub enum JsonModel {
    Null,
    Bool(bool),
    Number(NumberModel),
    Text(Seq<char>),
    Array(Seq<JsonModel>),
    Object(Map<Seq<char>, JsonModel>),
}

/// What a JSON value stands for, down to its innermost parts.
pub open spec fn json_model(value: Json) -> JsonModel
    decreases value,
{
    match value {
        Json::Null => JsonModel::Null,
        Json::Bool(flag) => JsonModel::Bool(flag),
        Json::Number(number) => JsonModel::Number(number@),
        Json::Text(text) => JsonModel::Text(text@),
        Json::Array(items) => JsonModel::Array(list_model(items@)),
        Json::Object(table) => JsonModel::Object(object_model(table.entries@)),
    }
}

/// What the values of a list stand for, in order.
pub open spec fn list_model(items: Seq<Json>) -> Seq<JsonModel>
    decreases items,
{
    if items.len() == 0 {
        Seq::empty()
    } else {
        list_model(items.drop_last()).push(json_model(items.last()))
    }
}

/// What the entries of an object stand for.
pub open spec fn object_model(entries: Seq<(String, Json)>) -> Map<Seq<char>, JsonModel>
    decreases entries,
{
    if entries.len() == 0 {
        Map::empty()
    } else {
        object_model(entries.drop_last()).insert(
            entries.last().0@,
            json_model(entries.last().1),
        )
    }
}

impl View for Json {
    type V = JsonModel;

    open spec fn view(&self) -> JsonModel {
        json_model(*self)
    }
}

pub proof fn lemma_list_model(items: Seq<Json>)
    ensures
        list_model(items).len() == items.len(),
        forall|i: int| 0 <= i < items.len() ==> #[trigger] list_model(items)[i] == items[i]@,
    decreases items.len(),
{
    if items.len() > 0 {
        lemma_list_model(items.drop_last());
        assert forall|i: int| 0 <= i < items.len() implies #[trigger] list_model(items)[i]
            == items[i]@ by {
            if i < items.len() - 1 {
                assert(items.drop_last()[i] == items[i]);
                assert(list_model(items)[i] == list_model(items.drop_last())[i]);
            }
        }
    }
}

pub proof fn lemma_object_model(entries: Seq<(String, Json)>, key: Seq<char>)
    ensures
        object_model(entries).contains_key(key) == entries_map(entries).contains_key(key),
        entries_map(entries).contains_key(key) ==> object_model(entries)[key]
            == entries_map(entries)[key]@,
    decreases entries.len(),
{
    if entries.len() > 0 {
        lemma_object_model(entries.drop_last(), key);
    }
}

// ── Reading ─────────────────────────────────────────────────────────

/// The value under `key` where `value` is an object that has one.
pub open spec fn member(value: JsonModel, key: Seq<char>) -> Option<JsonModel> {
    match value {
        JsonModel::Object(map) => if map.contains_key(key) {
            Some(map[key])
        } else {
            None
        },
        _ => None,
    }
}

/// The value under `key`, or `null` where there is none.
pub open spec fn member_or_null(value: JsonModel, key: Seq<char>) -> JsonModel {
    match member(value, key) {
        Some(found) => found,
        None => JsonModel::Null,
    }
}

/// The string that `value` is, if it is one.
pub open spec fn as_text(value: JsonModel) -> Option<Seq<char>> {
    match value {
        JsonModel::Text(text) => Some(text),
        _ => None,
    }
}

/// The string under `key` where `value` is an object that has one.
pub open spec fn member_text(value: JsonModel, key: Seq<char>) -> Option<Seq<char>> {
    match member(value, key) {
        Some(found) => as_text(found),
        None => None,
    }
}

/// The list that `value` is; the empty list where it is none.
pub open spec fn items_of(value: JsonModel) -> Seq<JsonModel> {
    match value {
        JsonModel::Array(items) => items,
        _ => Seq::empty(),
    }
}

/// The list under `key`; the empty list where there is none.
pub open spec fn member_items(value: JsonModel, key: Seq<char>) -> Seq<JsonModel> {
    match member(value, key) {
        Some(found) => items_of(found),
        None => Seq::empty(),
    }
}

/// The 64-bit signed integer that `value` is, if it is one.
pub open spec fn as_integer(value: JsonModel) -> Option<i64> {
    match value {
        JsonModel::Number(number) => number_as_i64(number),
        _ => None,
    }
}

/// The 64-bit signed integer under `key`, if there is one.
pub open spec fn member_integer(value: JsonModel, key: Seq<char>) -> Option<i64> {
    match member(value, key) {
        Some(found) => as_integer(found),
        None => None,
    }
}

/// Whether `value` is an object that holds `found` under `key`.
pub open spec fn has_member(value: JsonModel, key: Seq<char>, found: JsonModel) -> bool {
    value matches JsonModel::Object(map) && map.contains_key(key) && map[key] == found
}

/// A member is read as it stands in the object, and as a string, a list or an integer exactly
/// where it is one. What is no object has no members.
pub proof fn members_are_read_as_they_stand(
    value: JsonModel,
    key: Seq<char>,
    found: JsonModel,
    text: Seq<char>,
    items: Seq<JsonModel>,
    n: i64,
)
    ensures
        member(value, key) == Some(found) <==> has_member(value, key, found),
        member_or_null(value, key) == found <==> has_member(value, key, found) || (found
            == JsonModel::Null && member(value, key) is None),
        member_text(value, key) == Some(text) <==> has_member(value, key, JsonModel::Text(text)),
        member_integer(value, key) == Some(n) <==> has_member(
            value,
            key,
            JsonModel::Number(NumberModel::Integer(n as int)),
        ),
        has_member(value, key, JsonModel::Array(items)) ==> member_items(value, key) == items,
        member_items(value, key).len() > 0 ==> has_member(
            value,
            key,
            JsonModel::Array(member_items(value, key)),
        ),
        as_text(found) == Some(text) <==> found == JsonModel::Text(text),
{
}

/// A list of strings, an optional string, an optional number and an optional integer are
/// written so that they can be read back, and as `null` where there is nothing.
pub proof fn written_values_are_read_back(
    list: Seq<Seq<char>>,
    i: int,
    text: Seq<char>,
    number: NumberModel,
    n: i64,
)
    ensures
        items_of(texts_json(list)).len() == list.len(),
        0 <= i < list.len() ==> items_of(texts_json(list))[i] == JsonModel::Text(list[i]),
        texts_json(list) is Array,
        as_text(opt_text_json(Some(text))) == Some(text),
        opt_text_json(None) == JsonModel::Null,
        opt_number_json(Some(number)) == JsonModel::Number(number),
        opt_number_json(None) == JsonModel::Null,
        as_integer(opt_integer_json(Some(n))) == Some(n),
        opt_integer_json(None) == JsonModel::Null,
{
}

/// The text of an integer is read back: its digits write its magnitude, and a minus sign
/// stands before them exactly where it is negative. The text of any other number is its own.
pub proof fn written_integers_are_read_back(value: int, text: Seq<char>)
    ensures
        value >= 0 ==> unsigned_value(number_text(NumberModel::Integer(value))) == Some(
            value as nat,
        ),
        value >= 0 ==> is_digit(number_text(NumberModel::Integer(value))[0]),
        value < 0 ==> number_text(NumberModel::Integer(value)).len() > 1 && number_text(
            NumberModel::Integer(value),
        )[0] == '-' && unsigned_value(number_text(NumberModel::Integer(value)).skip(1)) == Some(
            (-value) as nat,
        ),
        number_text(NumberModel::Real(text)) == text,
{
    let magnitude = if value < 0 { (-value) as nat } else { value as nat };
    lemma_decimal_text(magnitude);
    assert(is_digit(decimal_text(magnitude)[0]));
    if value < 0 {
        assert(number_text(NumberModel::Integer(value)).skip(1) =~= decimal_text(magnitude));
    }
}

/// What an optional JSON value stands for.
pub open spec fn opt_model(value: Option<&Json>) -> Option<JsonModel> {
    match value {
        Some(value) => Some(value@),
        None => None,
    }
}

impl Json {
    /// The value under `key` where this is an object that has one.
    pub fn get(&self, key: &str) -> (value: Option<&Json>)
        ensures
            opt_model(value) == member(self@, key@),
    {
        match self {
            Json::Object(table) => {
                proof {
                    lemma_object_model(table.entries@, key@);
                }
                table.get(key)
            },
            _ => None,
        }
    }

    /// The string that this value is, if it is one.
    pub fn as_str(&self) -> (text: Option<&str>)
        ensures
            opt_str_view(text) == as_text(self@),
    {
        match self {
            Json::Text(text) => Some(text.as_str()),
            _ => None,
        }
    }

    /// The string under `key`, if there is one.
    pub fn get_str(&self, key: &str) -> (text: Option<&str>)
        ensures
            opt_str_view(text) == member_text(self@, key@),
    {
        match self.get(key) {
            Some(value) => value.as_str(),
            None => None,
        }
    }

    /// The list that this value is, if it is one.
    pub fn as_array(&self) -> (items: Option<&Vec<Json>>)
        ensures
            match items {
                Some(items) => self@ == JsonModel::Array(list_model(items@)),
                None => !(self@ is Array),
            },
    {
        match self {
            Json::Array(items) => Some(items),
            _ => None,
        }
    }

    /// The list under `key`, if there is one.
    pub fn get_array(&self, key: &str) -> (items: Option<&Vec<Json>>)
        ensures
            match items {
                Some(items) => member(self@, key@) == Some(JsonModel::Array(list_model(items@))),
                None => match member(self@, key@) {
                    Some(found) => !(found is Array),
                    None => true,
                },
            },
    {
        match self.get(key) {
            Some(value) => value.as_array(),
            None => None,
        }
    }

    /// The 64-bit signed integer under `key`, if there is one.
    pub fn get_i64(&self, key: &str) -> (value: Option<i64>)
        ensures
            value == member_integer(self@, key@),
    {
        match self.get(key) {
            Some(Json::Number(number)) => number.as_i64(),
            _ => None,
        }
    }

    /// Whether this value is an object.
    pub fn is_object(&self) -> (object: bool)
        ensures
            object == (self@ is Object),
    {
        match self {
            Json::Object(_) => true,
            _ => false,
        }
    }

    /// A copy of this value.
    pub fn copy(&self) -> (value: Json)
        ensures
            value@ == self@,
        decreases self,
    {
        match self {
            Json::Null => Json::Null,
            Json::Bool(flag) => Json::Bool(*flag),
            Json::Number(number) => Json::Number(number.copy()),
            Json::Text(text) => Json::Text(text.clone()),
            Json::Array(items) => Json::Array(copy_items(items)),
            Json::Object(table) => Json::Object(Table { entries: copy_entries(&table.entries) }),
        }
    }

    /// A copy of the value under `key`, or `null` where there is none.
    pub fn member_copy(&self, key: &str) -> (value: Json)
        ensures
            value@ == member_or_null(self@, key@),
    {
        match self.get(key) {
            Some(value) => value.copy(),
            None => Json::Null,
        }
    }
}

/// The members of an object that has none.
pub fn no_members() -> (object: Table<Json>)
    ensures
        object_model(object.entries@) == Map::<Seq<char>, JsonModel>::empty(),
{
    Table { entries: Vec::new() }
}

/// Put `value` under `key` in an object, in place of what stood there.
pub fn set_member(object: &mut Table<Json>, key: &str, value: Json)
    ensures
        object_model(final(object).entries@) == object_model(old(object).entries@).insert(
            key@,
            value@,
        ),
{
    let ghost before = object.entries@;
    object.insert(key.to_owned(), value);
    proof {
        let after = object_model(object.entries@);
        let expected = object_model(before).insert(key@, value@);
        assert forall|k: Seq<char>|
            #![trigger after.contains_key(k)]
            #![trigger expected.contains_key(k)]
            after.contains_key(k) == expected.contains_key(k) && (expected.contains_key(k)
                ==> after[k] == expected[k]) by {
            lemma_object_model(before, k);
            lemma_object_model(object.entries@, k);
        }
        assert(after =~= expected);
    }
}

/// The list of strings as a JSON array.
pub open spec fn texts_json(list: Seq<Seq<char>>) -> JsonModel {
    JsonModel::Array(list.map_values(|text: Seq<char>| JsonModel::Text(text)))
}

/// An optional string as JSON: `null` where there is none.
pub open spec fn opt_text_json(text: Option<Seq<char>>) -> JsonModel {
    match text {
        Some(text) => JsonModel::Text(text),
        None => JsonModel::Null,
    }
}

/// An optional number as JSON: `null` where there is none.
pub open spec fn opt_number_json(number: Option<NumberModel>) -> JsonModel {
    match number {
        Some(number) => JsonModel::Number(number),
        None => JsonModel::Null,
    }
}

/// An optional integer as JSON: `null` where there is none.
pub open spec fn opt_integer_json(value: Option<i64>) -> JsonModel {
    match value {
        Some(value) => JsonModel::Number(NumberModel::Integer(value as int)),
        None => JsonModel::Null,
    }
}

/// The list of strings as a JSON array.
pub fn json_texts(list: &Vec<String>) -> (value: Json)
    ensures
        value@ == texts_json(views(list@)),
{
    let mut items: Vec<Json> = Vec::new();
    let mut i: usize = 0;
    while i < list.len()
        invariant
            i <= list.len(),
            items@.len() == i,
            forall|j: int| 0 <= j < i ==> (#[trigger] items@[j])@ == JsonModel::Text(list@[j]@),
        decreases list.len() - i,
    {
        items.push(Json::Text(list[i].clone()));
        i = i + 1;
    }
    proof {
        lemma_list_model(items@);
        assert(list_model(items@) =~= views(list@).map_values(
            |text: Seq<char>| JsonModel::Text(text),
        ));
    }
    Json::Array(items)
}

/// A string as JSON.
pub fn json_text(text: &str) -> (value: Json)
    ensures
        value@ == JsonModel::Text(text@),
{
    Json::Text(text.to_owned())
}

/// An optional string as JSON: `null` where there is none.
pub fn json_opt_text(text: &Option<String>) -> (value: Json)
    ensures
        value@ == opt_text_json(opt_view(*text)),
{
    match text {
        Some(text) => Json::Text(text.clone()),
        None => Json::Null,
    }
}

/// What an optional number stands for.
pub open spec fn opt_number_model(number: Option<Number>) -> Option<NumberModel> {
    match number {
        Some(number) => Some(number@),
        None => None,
    }
}

/// An optional number as JSON: `null` where there is none.
pub fn json_opt_number(number: &Option<Number>) -> (value: Json)
    ensures
        value@ == opt_number_json(opt_number_model(*number)),
{
    match number {
        Some(number) => Json::Number(number.copy()),
        None => Json::Null,
    }
}

/// An integer as JSON.
pub fn json_integer(value: i64) -> (json: Json)
    ensures
        json@ == JsonModel::Number(NumberModel::Integer(value as int)),
{
    if value < 0 {
        Json::Number(Number::NegInt(value))
    } else {
        Json::Number(Number::PosInt(value as u64))
    }
}

/// An optional integer as JSON: `null` where there is none.
pub fn json_opt_integer(value: Option<i64>) -> (json: Json)
    ensures
        json@ == opt_integer_json(value),
{
    match value {
        Some(value) => json_integer(value),
        None => Json::Null,
    }
}

/// Copies of the values of a list, in order.
pub fn copy_items(items: &Vec<Json>) -> (copies: Vec<Json>)
    ensures
        list_model(copies@) == list_model(items@),
    decreases items,
{
    let mut copies: Vec<Json> = Vec::new();
    let mut i: usize = 0;
    assert(items@.take(0) =~= Seq::<Json>::empty());
    while i < items.len()
        invariant
            i <= items@.len(),
            copies@.len() == i,
            list_model(copies@) == list_model(items@.take(i as int)),
        decreases items.len() - i,
    {
        let ghost before = copies@;
        assert(decreases_to!(items => items@));
        assert(decreases_to!(items@ => items@[i as int]));
        copies.push(items[i].copy());
        proof {
            assert(copies@.drop_last() =~= before);
            assert(items@.take(i + 1).drop_last() =~= items@.take(i as int));
            assert(items@.take(i + 1).last() == items@[i as int]);
        }
        i = i + 1;
    }
    assert(items@.take(items@.len() as int) =~= items@);
    copies
}

/// Copies of the entries of an object, in order.
fn copy_entries(entries: &Vec<(String, Json)>) -> (copies: Vec<(String, Json)>)
    ensures
        object_model(copies@) == object_model(entries@),
    decreases entries,
{
    let mut copies: Vec<(String, Json)> = Vec::new();
    let mut i: usize = 0;
    assert(entries@.take(0) =~= Seq::<(String, Json)>::empty());
    while i < entries.len()
        invariant
            i <= entries@.len(),
            copies@.len() == i,
            object_model(copies@) == object_model(entries@.take(i as int)),
        decreases entries.len() - i,
    {
        let ghost before = copies@;
        assert(decreases_to!(entries => entries@));
        assert(decreases_to!(entries@ => entries@[i as int]));
        assert(decreases_to!(entries@[i as int] => entries@[i as int].1));
        let key = entries[i].0.clone();
        let value = entries[i].1.copy();
        copies.push((key, value));
        proof {
            assert(copies@.drop_last() =~= before);
            assert(entries@.take(i + 1).drop_last() =~= entries@.take(i as int));
            assert(entries@.take(i + 1).last() == entries@[i as int]);
        }
        i = i + 1;
    }
    assert(entries@.take(entries@.len() as int) =~= entries@);
    copies
}

/// A number is a 64-bit signed integer exactly where it is an integer that fits.
pub proof fn integers_that_fit_are_taken(value: int, n: i64, text: Seq<char>)
    ensures
        number_as_i64(NumberModel::Integer(n as int)) == Some(n),
        value < i64::MIN || value > i64::MAX ==> number_as_i64(NumberModel::Integer(value)) is None,
        number_as_i64(NumberModel::Real(text)) is None,
{
}

} // verus!
