//! Trusted boundary to `serde_json`.
//!
//! The bridge forwards message bodies opaquely; it only ever asks a decoded
//! body for its `method` and `id` members and patches a missing `jsonrpc`
//! member.  Those calls go through the items here.  What each call yields
//! is a function of the body bytes alone — the decoder holds its objects
//! in ordered maps, so decoding and re-encoding depend on nothing but the
//! input — and is therefore given a name, so that the pipeline functions
//! downstream can be held to exact contracts over those names.

use vstd::prelude::*;

use crate::ids::{IdView, RequestId};

verus! {

/// Declares `serde_json::Value` so it can appear in signatures; the value
/// itself stays opaque to the verifier.
#[verifier::external_type_specification]
#[verifier::external_body]
pub struct ExJsonValue(serde_json::Value);

/// Relies on `serde_json`'s `Clone` for `Value`: the copy is the same
/// value.
pub assume_specification[ <serde_json::Value as Clone>::clone ](v: &serde_json::Value) -> (r:
    serde_json::Value)
    ensures
        r == *v,
;

/// The `method` member the decoder finds in a body.  `None` when the body
/// is not JSON or carries no string `method`.
pub uninterp spec fn decoded_method(body: Seq<u8>) -> Option<Seq<char>>;

/// The request id the decoder finds in a body.  `None` when the body is
/// not JSON, has no `id` member, or its `id` is neither an integer in
/// range nor a string.
pub uninterp spec fn decoded_id(body: Seq<u8>) -> Option<IdView>;

/// The re-encoding of a body that lacked the `jsonrpc` member, with the
/// member added.  `None` when the body already carries the member, is not
/// JSON, or is not an object — the body is then forwarded unchanged.
pub uninterp spec fn patched_body(body: Seq<u8>) -> Option<Seq<u8>>;

/// Decode a message body and pick out its `method` and `id` members.
///
/// Relies on `serde_json::from_slice` to decode, `Value::get` and
/// `Value::as_str` to read the members, and [`RequestId::from_json`] for
/// the id.  A body that is not JSON, or has no string `method`, yields
/// `None`; a missing or malformed `id` yields a method with no id.
#[verifier::external_body]
pub fn parse_json_method_id(body: &[u8]) -> (r: Option<(String, Option<RequestId>)>)
    ensures
        match r {
            Some(info) => {
                &&& decoded_method(body@) == Some(info.0@)
                &&& decoded_id(body@) == match info.1 {
                    Some(id) => Some(id@),
                    None => None::<IdView>,
                }
            },
            None => decoded_method(body@) is None,
        },
{
    let value: serde_json::Value = serde_json::from_slice(body).ok()?;
    let method = value.get("method")?.as_str()?.to_string();
    let id = value.get("id").and_then(RequestId::from_json);
    Some((method, id))
}

/// Extract the request id of a decoded response body.
///
/// Relies on `serde_json::from_slice` and `Value::get`, with
/// [`RequestId::from_json`] for the id itself; anything without a
/// well-formed `id` member has none.
#[verifier::external_body]
pub fn parse_json_id(body: &[u8]) -> (r: Option<RequestId>)
    ensures
        match r {
            Some(id) => decoded_id(body@) == Some(id@),
            None => decoded_id(body@) is None,
        },
{
    let value: serde_json::Value = serde_json::from_slice(body).ok()?;
    RequestId::from_json(value.get("id")?)
}

/// Add the `"jsonrpc": "2.0"` member to a response object that lacks it.
///
/// Relies on `serde_json::from_slice`, `Value::get`, `Map::insert` and
/// `serde_json::to_vec`.  Returns the re-encoded body only when the member
/// was missing and the body is a JSON object; `None` means the body is to
/// be forwarded unchanged.
#[verifier::external_body]
pub fn patch_jsonrpc_version(body: &[u8]) -> (r: Option<Vec<u8>>)
    ensures
        match r {
            Some(p) => patched_body(body@) == Some(p@),
            None => patched_body(body@) is None,
        },
{
    let mut value: serde_json::Value = serde_json::from_slice(body).ok()?;
    if value.get("jsonrpc").is_some() {
        return None;
    }
    let serde_json::Value::Object(ref mut map) = value else {
        return None;
    };
    map.insert("jsonrpc".to_string(), serde_json::Value::String("2.0".to_string()));
    serde_json::to_vec(&value).ok()
}

} // verus!
