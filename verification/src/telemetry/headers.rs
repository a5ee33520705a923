//! Message headers that carry a trace across the broker.

use crate::ordered::strictly_sorted;
use crate::text::{opt_view, views};
use vstd::prelude::*;
use vstd::utf8::{decode_utf8, encode_utf8, valid_utf8};

verus! {

/// The header table of a message.
#[verifier::external_type_specification]
#[verifier::external_body]
pub struct ExFieldTable(lapin::types::FieldTable);

/// The entries of a header table: under each key the bytes of its value where that is a long
/// or a short string, and nothing where it is of another kind.
pub uninterp spec fn header_entries(headers: lapin::types::FieldTable) -> Map<
    Seq<char>,
    Option<Seq<u8>>,
>;

/// The longest key of a header, in bytes.
pub const MAX_HEADER_KEY_BYTES: u64 = 255;

/// `lapin::types::FieldTable::insert` with a value of the kind `LongString`. The contract says
/// that the key then has the UTF-8 bytes of `value`, in place of what it had, and that no
/// other entry changes. A key of more than 255 bytes panics, and is left out.
#[verifier::external_body]
fn insert_long_string(headers: &mut lapin::types::FieldTable, key: &str, value: String)
    requires
        encode_utf8(key@).len() <= MAX_HEADER_KEY_BYTES,
    ensures
        header_entries(*final(headers)) == header_entries(*old(headers)).insert(
            key@,
            Some(encode_utf8(value@)),
        ),
{
    headers.insert(key.into(), lapin::types::AMQPValue::LongString(value.into()));
}

/// `lapin::types::FieldTable::inner`, looked up by key. The contract says that it gives the
/// bytes of a value that is a long or a short string, and nothing for a value of another kind
/// or for a key without one.
#[verifier::external_body]
fn string_bytes(headers: &lapin::types::FieldTable, key: &str) -> (bytes: Option<Vec<u8>>)
    ensures
        match bytes {
            Some(bytes) => header_entries(*headers).contains_key(key@) && header_entries(
                *headers,
            )[key@] == Some(bytes@),
            None => header_entries(*headers).contains_key(key@) ==> header_entries(
                *headers,
            )[key@] is None,
        },
{
    match headers.inner().get(key) {
        Some(lapin::types::AMQPValue::LongString(value)) => Some(value.as_bytes().to_vec()),
        Some(lapin::types::AMQPValue::ShortString(value)) => Some(value.as_str().into()),
        _ => None,
    }
}

/// The keys of `lapin::types::FieldTable::inner`. The contract says that each key of the
/// table is listed once, in ascending order.
#[verifier::external_body]
fn table_keys(headers: &lapin::types::FieldTable) -> (keys: Vec<String>)
    ensures
        views(keys@).to_set() == header_entries(*headers).dom(),
        strictly_sorted::<String>(views(keys@)),
{
    headers.inner().keys().map(|key| key.as_str().to_owned()).collect()
}

/// `String::from_utf8`. The contract says that bytes which are valid UTF-8 become the string
/// that they encode, and that others become nothing.
#[verifier::external_body]
fn utf8_text(bytes: Vec<u8>) -> (text: Option<String>)
    ensures
        match text {
            Some(text) => valid_utf8(bytes@) && text@ == decode_utf8(bytes@),
            None => !valid_utf8(bytes@),
        },
{
    String::from_utf8(bytes).ok()
}

/// The text of a header: the string that its bytes encode.
pub open spec fn header_text(
    entries: Map<Seq<char>, Option<Seq<u8>>>,
    key: Seq<char>,
) -> Option<Seq<char>> {
    if entries.contains_key(key) {
        match entries[key] {
            Some(bytes) => if valid_utf8(bytes) {
                Some(decode_utf8(bytes))
            } else {
                None
            },
            None => None,
        }
    } else {
        None
    }
}

/// The entries with a header set to a text.
pub open spec fn with_header(
    entries: Map<Seq<char>, Option<Seq<u8>>>,
    key: Seq<char>,
    value: Seq<char>,
) -> Map<Seq<char>, Option<Seq<u8>>> {
    entries.insert(key, Some(encode_utf8(value)))
}

/// Set a header to a text, as a long string.
pub fn set_header(headers: &mut lapin::types::FieldTable, key: &str, value: String)
    requires
        encode_utf8(key@).len() <= MAX_HEADER_KEY_BYTES,
    ensures
        header_entries(*final(headers)) == with_header(header_entries(*old(headers)), key@, value@),
{
    insert_long_string(headers, key, value);
}

/// The text of a header, if it has one.
pub fn get_header(headers: &lapin::types::FieldTable, key: &str) -> (value: Option<String>)
    ensures
        opt_view(value) == header_text(header_entries(*headers), key@),
{
    match string_bytes(headers, key) {
        Some(bytes) => utf8_text(bytes),
        None => None,
    }
}

/// The keys of the headers, in ascending order.
pub fn header_keys(headers: &lapin::types::FieldTable) -> (keys: Vec<String>)
    ensures
        views(keys@).to_set() == header_entries(*headers).dom(),
        strictly_sorted::<String>(views(keys@)),
{
    table_keys(headers)
}

/// A header that was set is read back as it was, and setting it changes no other.
pub proof fn a_header_is_read_back(
    entries: Map<Seq<char>, Option<Seq<u8>>>,
    key: Seq<char>,
    value: Seq<char>,
    other: Seq<char>,
)
    ensures
        header_text(with_header(entries, key, value), key) == Some(value),
        other != key ==> header_text(with_header(entries, key, value), other) == header_text(
            entries,
            other,
        ),
        with_header(entries, key, value).dom() == entries.dom().insert(key),
{
    vstd::utf8::encode_utf8_valid_utf8(value);
    vstd::utf8::encode_utf8_decode_utf8(value);
}

} // verus!
