//! Documents of the pipeline backend.
//!
//! The documents are those of the `bson` crate. What a value of that crate holds is known
//! here by name only: the functions of this module state what the crate's constructors and
//! `Document::insert` do, and nothing of it is proved.

use vstd::prelude::*;

verus! {

/// A value of a document, as plain values.
pub enum BsonSpec {
    Null,
    Bool(bool),
    Int32(i32),
    Int64(i64),
    Text(Seq<char>),
    Array(Seq<BsonSpec>),
    Document(Seq<(Seq<char>, BsonSpec)>),
}

/// `bson::Bson`, a value of a document. Nothing of its inside is known here.
#[verifier::external_type_specification]
#[verifier::external_body]
pub struct ExBson(bson::Bson);

/// `bson::Document`, an ordered map from keys to values. Nothing of its inside is known
/// here.
#[verifier::external_type_specification]
#[verifier::external_body]
pub struct ExDocument(bson::Document);

/// What a `bson::Bson` holds.
pub uninterp spec fn bson_value(b: bson::Bson) -> BsonSpec;

/// The entries of a `bson::Document`, in its order.
pub uninterp spec fn document_entries(d: bson::Document) -> Seq<(Seq<char>, BsonSpec)>;

/// Whether a key is among the entries.
pub open spec fn has_key(entries: Seq<(Seq<char>, BsonSpec)>, key: Seq<char>) -> bool {
    exists|i: int| 0 <= i < entries.len() && (#[trigger] entries[i]).0 == key
}

/// The entries after a value is put under a key: where the key is there already, its value
/// is replaced in its place; where not, the entry is added last.
pub open spec fn with_entry(entries: Seq<(Seq<char>, BsonSpec)>, key: Seq<char>, value: BsonSpec) -> Seq<
    (Seq<char>, BsonSpec),
> {
    if has_key(entries, key) {
        let i = choose|i: int| 0 <= i < entries.len() && (#[trigger] entries[i]).0 == key;
        entries.update(i, (key, value))
    } else {
        entries.push((key, value))
    }
}

/// The entries of a document with one entry.
pub open spec fn one_entry(key: Seq<char>, value: BsonSpec) -> Seq<(Seq<char>, BsonSpec)> {
    seq![(key, value)]
}

/// What a list of `bson::Bson` holds.
pub open spec fn bson_values(v: Seq<bson::Bson>) -> Seq<BsonSpec> {
    v.map_values(|b: bson::Bson| bson_value(b))
}

/// Makes `bson::Bson::Null`. Trusted: the value holds null.
#[verifier::external_body]
pub(crate) fn null() -> (r: bson::Bson)
    ensures
        bson_value(r) == BsonSpec::Null,
{
    bson::Bson::Null
}

/// Makes a `bson::Bson::Boolean`. Trusted: the value holds the boolean.
#[verifier::external_body]
pub(crate) fn boolean(b: bool) -> (r: bson::Bson)
    ensures
        bson_value(r) == BsonSpec::Bool(b),
{
    bson::Bson::Boolean(b)
}

/// Makes a `bson::Bson::Int32`. Trusted: the value holds the number.
#[verifier::external_body]
pub(crate) fn int32(i: i32) -> (r: bson::Bson)
    ensures
        bson_value(r) == BsonSpec::Int32(i),
{
    bson::Bson::Int32(i)
}

/// Makes a `bson::Bson::Int64`. Trusted: the value holds the number.
#[verifier::external_body]
pub(crate) fn int64(i: i64) -> (r: bson::Bson)
    ensures
        bson_value(r) == BsonSpec::Int64(i),
{
    bson::Bson::Int64(i)
}

/// Makes a `bson::Bson::String`. Trusted: the value holds the text.
#[verifier::external_body]
pub(crate) fn text(s: &str) -> (r: bson::Bson)
    ensures
        bson_value(r) == BsonSpec::Text(s@),
{
    bson::Bson::String(s.to_string())
}

/// Makes a `bson::Bson::Array`. Trusted: the value holds what the items hold, in order.
#[verifier::external_body]
pub(crate) fn array(items: Vec<bson::Bson>) -> (r: bson::Bson)
    ensures
        bson_value(r) == BsonSpec::Array(bson_values(items@)),
{
    bson::Bson::Array(items)
}

/// Makes a `bson::Bson::Document`. Trusted: the value holds the entries of the document.
#[verifier::external_body]
pub(crate) fn embedded(d: bson::Document) -> (r: bson::Bson)
    ensures
        bson_value(r) == BsonSpec::Document(document_entries(d)),
{
    bson::Bson::Document(d)
}

/// Calls `bson::Document::new`. Trusted: the document has no entry.
#[verifier::external_body]
pub(crate) fn new_document() -> (r: bson::Document)
    ensures
        document_entries(r) == Seq::<(Seq<char>, BsonSpec)>::empty(),
{
    bson::Document::new()
}

/// Calls `bson::Document::insert`. Trusted: the value of a key that is there already is
/// replaced in its place, and a new key is added last with its value.
#[verifier::external_body]
pub(crate) fn put(d: &mut bson::Document, key: &str, value: bson::Bson)
    ensures
        document_entries(*final(d)) == with_entry(
            document_entries(*old(d)),
            key@,
            bson_value(value),
        ),
{
    d.insert(key, value);
}

/// A document with one entry.
pub fn single(key: &str, value: bson::Bson) -> (r: bson::Document)
    ensures
        document_entries(r) == one_entry(key@, bson_value(value)),
{
    let mut d = new_document();
    put(&mut d, key, value);
    assert(!has_key(Seq::<(Seq<char>, BsonSpec)>::empty(), key@));
    assert(document_entries(d) =~= one_entry(key@, bson_value(value)));
    d
}

} // verus!
