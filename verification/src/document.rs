//! Stored documents.
//!
//! A stored document is a `bson::Document`, which is opaque to proofs. This
//! module names what a document holds, as a map from field name to
//! [`FieldValue`], and gives each operation of `bson` that the crate calls a
//! contract over that map. These contracts are taken on trust from the `bson`
//! crate; everything built on them is proved.

use bson::document::ValueAccessError;
use bson::Document;
use vstd::prelude::*;

verus! {

/// What a field of a stored document holds, as far as this crate tells
/// values apart: the kinds that it writes or reads, and `Other` for every
/// kind that it does neither with.
pub enum FieldValue {
    /// A 32-bit signed integer.
    Int32(i32),
    /// A UTF-8 string.
    Text(Seq<char>),
    /// An array of values.
    List(Seq<FieldValue>),
    /// An embedded document.
    Nested(Map<Seq<char>, FieldValue>),
    /// Any other kind of value.
    Other,
}

/// Why a field could not be read from a stored document.
#[derive(Clone, Copy, Debug, PartialEq, Eq, Structural)]
pub enum DecodeReason {
    /// The document has no field of that name.
    Missing,
    /// The field is there, but holds a value of another type.
    Mistyped,
}

/// `bson::Document`, an ordered map from field names to BSON values, as an
/// opaque type: nothing is known of a document but what the contracts below
/// state over [`document_fields`].
#[verifier::external_type_specification]
#[verifier::external_body]
pub struct ExDocument(bson::Document);

/// The fields of a document: each key with the value stored under it. The
/// order of the fields is left out: nothing here depends on it.
pub uninterp spec fn document_fields(doc: bson::Document) -> Map<Seq<char>, FieldValue>;

/// The field `key` read as a 32-bit integer.
pub open spec fn field_as_i32(fields: Map<Seq<char>, FieldValue>, key: Seq<char>) -> Result<
    i32,
    DecodeReason,
> {
    if !fields.contains_key(key) {
        Err(DecodeReason::Missing)
    } else {
        match fields[key] {
            FieldValue::Int32(v) => Ok(v),
            _ => Err(DecodeReason::Mistyped),
        }
    }
}

/// The field `key` read as a string.
pub open spec fn field_as_text(fields: Map<Seq<char>, FieldValue>, key: Seq<char>) -> Result<
    Seq<char>,
    DecodeReason,
> {
    if !fields.contains_key(key) {
        Err(DecodeReason::Missing)
    } else {
        match fields[key] {
            FieldValue::Text(s) => Ok(s),
            _ => Err(DecodeReason::Mistyped),
        }
    }
}

/// A value read as a 32-bit integer, `None` where it is of another type.
pub open spec fn value_as_i32(value: FieldValue) -> Option<i32> {
    match value {
        FieldValue::Int32(v) => Some(v),
        _ => None,
    }
}

/// The field `key` read as an array, each element as a 32-bit integer where
/// it is one.
pub open spec fn field_as_i32_items(fields: Map<Seq<char>, FieldValue>, key: Seq<char>) -> Result<
    Seq<Option<i32>>,
    DecodeReason,
> {
    if !fields.contains_key(key) {
        Err(DecodeReason::Missing)
    } else {
        match fields[key] {
            FieldValue::List(items) => Ok(items.map_values(|v: FieldValue| value_as_i32(v))),
            _ => Err(DecodeReason::Mistyped),
        }
    }
}

/// What was read as text, as a mathematical value.
pub open spec fn text_read_view(read: Result<String, DecodeReason>) -> Result<
    Seq<char>,
    DecodeReason,
> {
    match read {
        Ok(text) => Ok(text@),
        Err(reason) => Err(reason),
    }
}

/// What was read as array elements, as a mathematical value.
pub open spec fn items_read_view(read: Result<Vec<Option<i32>>, DecodeReason>) -> Result<
    Seq<Option<i32>>,
    DecodeReason,
> {
    match read {
        Ok(items) => Ok(items@),
        Err(reason) => Err(reason),
    }
}

/// The fields of a document that has none.
pub open spec fn no_fields() -> Map<Seq<char>, FieldValue> {
    Map::empty()
}

/// `Document::new`: the document without fields.
#[verifier::external_body]
pub(crate) fn empty_document() -> (doc: Document)
    ensures
        document_fields(doc) == no_fields(),
{
    Document::new()
}

/// `Document::insert` of an `i32`: the value is stored under `key` as a
/// 32-bit integer; a value already under `key` is replaced, every other
/// field stays.
#[verifier::external_body]
pub(crate) fn put_i32(doc: &mut Document, key: &str, value: i32)
    ensures
        document_fields(*final(doc)) == document_fields(*old(doc)).insert(
            key@,
            FieldValue::Int32(value),
        ),
{
    doc.insert(key, value);
}

/// `Document::insert` of a string: the text is stored under `key` as a
/// string value; every other field stays.
#[verifier::external_body]
pub(crate) fn put_text(doc: &mut Document, key: &str, value: &str)
    ensures
        document_fields(*final(doc)) == document_fields(*old(doc)).insert(
            key@,
            FieldValue::Text(value@),
        ),
{
    doc.insert(key, value);
}

/// `Document::insert` of a `Vec<i32>`: an array is stored under `key` that
/// holds the values in order, each as a 32-bit integer; every other field
/// stays.
#[verifier::external_body]
pub(crate) fn put_i32_list(doc: &mut Document, key: &str, values: &Vec<i32>)
    ensures
        document_fields(*final(doc)) == document_fields(*old(doc)).insert(
            key@,
            FieldValue::List(values@.map_values(|v: i32| FieldValue::Int32(v))),
        ),
{
    doc.insert(key, values.clone());
}

/// `Document::insert` of a document: it is stored under `key` as an embedded
/// document with the fields it has; every other field stays.
#[verifier::external_body]
pub(crate) fn put_document(doc: &mut Document, key: &str, value: Document)
    ensures
        document_fields(*final(doc)) == document_fields(*old(doc)).insert(
            key@,
            FieldValue::Nested(document_fields(value)),
        ),
{
    doc.insert(key, value);
}

/// `Document::get_i32`: the value under `key` where it is a 32-bit integer;
/// otherwise whether the field is missing or of another type.
#[verifier::external_body]
pub(crate) fn read_i32(doc: &Document, key: &str) -> (read: Result<i32, DecodeReason>)
    ensures
        read == field_as_i32(document_fields(*doc), key@),
{
    match doc.get_i32(key) {
        Ok(v) => Ok(v),
        Err(ValueAccessError::NotPresent) => Err(DecodeReason::Missing),
        Err(_) => Err(DecodeReason::Mistyped),
    }
}

/// `Document::get_str`: a copy of the text under `key` where it is a string;
/// otherwise whether the field is missing or of another type.
#[verifier::external_body]
pub(crate) fn read_text(doc: &Document, key: &str) -> (read: Result<String, DecodeReason>)
    ensures
        text_read_view(read) == field_as_text(document_fields(*doc), key@),
{
    match doc.get_str(key) {
        Ok(text) => Ok(text.to_string()),
        Err(ValueAccessError::NotPresent) => Err(DecodeReason::Missing),
        Err(_) => Err(DecodeReason::Mistyped),
    }
}

/// `Document::get_array` with `Bson::as_i32` on each element: where the
/// value under `key` is an array, its elements in order, each as its number
/// where it is a 32-bit integer and as `None` where it is not; otherwise
/// whether the field is missing or of another type.
#[verifier::external_body]
pub(crate) fn read_i32_items(doc: &Document, key: &str) -> (read: Result<
    Vec<Option<i32>>,
    DecodeReason,
>)
    ensures
        items_read_view(read) == field_as_i32_items(document_fields(*doc), key@),
{
    match doc.get_array(key) {
        Ok(array) => Ok(array.iter().map(|element| element.as_i32()).collect()),
        Err(ValueAccessError::NotPresent) => Err(DecodeReason::Missing),
        Err(_) => Err(DecodeReason::Mistyped),
    }
}

} // verus!
