//! Wallpaper sources on the web.
use vstd::prelude::*;

pub mod bing_wpod;
pub mod reddit;
pub mod wallhaven;
pub mod wallhaven_api;

verus! {

/// Name, version and author of a wallpaper source.
#[derive(Clone, Debug)]
pub struct PluginDetails {
    pub name: String,
    pub version: String,
    pub author: String,
}

/// A decoded JSON document, as the `serde_json` crate holds it.
#[verifier::external_type_specification]
#[verifier::external_body]
pub struct ExJsonValue(serde_json::Value);

/// Whether `text` is one JSON document as `serde_json` reads it: a single
/// value, with nothing but white space after it.
pub uninterp spec fn is_json(text: Seq<char>) -> bool;

/// `serde_json::from_str` into a `serde_json::Value`. It succeeds exactly on
/// the texts that are JSON documents, which depends on the text alone; the
/// source turns every failure, a nesting deeper than its limit included,
/// into an error and never panics. Which value a document decodes to is not
/// stated: the library only hands it on.
#[verifier::external_body]
fn decode_json(text: &str) -> (v: Option<serde_json::Value>)
    ensures
        v is Some <==> is_json(text@),
{
    serde_json::from_str(text).ok()
}

/// The decoded reply of a web API, such as the wallhaven.cc API or Bing's
/// picture archive: `None` when the reply is not a JSON document.
pub fn json_reply(text: &str) -> (v: Option<serde_json::Value>)
    ensures
        v is Some <==> is_json(text@),
{
    decode_json(text)
}

} // verus!
