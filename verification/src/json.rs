//! Trusted boundary to the JSON parser.
//!
//! A wire document's syntax is serde_json's; all the dispatch ever needs of
//! a document is its integer `type` field and up to three string fields.
//! Each extraction is a function of the bytes (and the key) alone, so its
//! result carries a name — [`doc_type`], [`doc_str_field`] — which the
//! decoder's exact contract speaks of.  Every decision over the extracted
//! plain values is verified in [`crate::wire`].

use vstd::prelude::*;

verus! {

/// The value of the `type` field of the JSON document encoded in `bytes`:
/// `Some` exactly when the bytes parse as one object whose `type` field is
/// a number representable as `u64`.
pub uninterp spec fn doc_type(bytes: Seq<u8>) -> Option<u64>;

/// The text under `key` in the JSON document encoded in `bytes`: `Some`
/// exactly when the bytes parse as one object holding a string there.
pub uninterp spec fn doc_str_field(bytes: Seq<u8>, key: Seq<char>) -> Option<Seq<char>>;

/// Relies on serde_json::from_slice, Value::get and Value::as_u64: parses
/// the document and reads its `type` field as an unsigned integer.  The
/// parse and the lookup are deterministic in the bytes alone.
#[verifier::external_body]
pub(crate) fn doc_type_field(bytes: &[u8]) -> (r: Option<u64>)
    ensures
        r == doc_type(bytes@),
{
    let doc: serde_json::Value = serde_json::from_slice(bytes).ok()?;
    doc.get("type")?.as_u64()
}

/// Relies on serde_json::from_slice, Value::get and Value::as_str: parses
/// the document and reads the string under `key`.  The parse and the
/// lookup are deterministic in the bytes and the key alone.
#[verifier::external_body]
pub(crate) fn doc_string_field(bytes: &[u8], key: &str) -> (r: Option<String>)
    ensures
        r.deep_view() == doc_str_field(bytes@, key@),
{
    let doc: serde_json::Value = serde_json::from_slice(bytes).ok()?;
    Some(doc.get(key)?.as_str()?.to_owned())
}

} // verus!
