//! Request addresses of the wallhaven.cc web API (https://wallhaven.cc/help/api).
//! The application sends the requests and decodes the replies.
use vstd::prelude::*;

use crate::text::append_str;

verus! {

/// One search parameter: its key, `=` and its value.
pub open spec fn query_pair(pair: (String, String)) -> Seq<char> {
    pair.0@ + "="@ + pair.1@
}

/// The search parameters as they follow the fixed part of a search address:
/// the pairs in the order given, joined by `&`.
pub open spec fn query_text(query: Seq<(String, String)>) -> Seq<char>
    decreases query.len(),
{
    if query.len() == 0 {
        seq![]
    } else if query.len() == 1 {
        query_pair(query[0])
    } else {
        query_text(query.drop_last()) + "&"@ + query_pair(query.last())
    }
}

/// Address of the information on wallpaper `id`.
pub fn wallhaven_wallpaperinfo(apikey: &str, id: &str) -> (url: String)
    ensures
        url@ == "https://wallhaven.cc/api/v1/w/"@ + id@ + "?apikey="@ + apikey@,
{
    let mut url = String::new();
    append_str(&mut url, "https://wallhaven.cc/api/v1/w/");
    append_str(&mut url, id);
    append_str(&mut url, "?apikey=");
    append_str(&mut url, apikey);
    url
}

/// Address of a search with the parameters `query`, taken in the order given
/// (the order in which the caller's map was walked).
pub fn wallhaven_search(apikey: &str, query: &Vec<(String, String)>) -> (url: String)
    ensures
        url@ == "https://wallhaven.cc/api/v1/search?apikey="@ + apikey@ + "&"@ + query_text(query@),
{
    let mut url = String::new();
    append_str(&mut url, "https://wallhaven.cc/api/v1/search?apikey=");
    append_str(&mut url, apikey);
    append_str(&mut url, "&");
    let ghost base = url@;
    let n = query.len();
    let mut i: usize = 0;
    while i < n
        invariant
            n == query@.len(),
            i <= n,
            url@ == base + query_text(query@.take(i as int)),
        decreases n - i,
    {
        if i > 0 {
            append_str(&mut url, "&");
        }
        append_str(&mut url, query[i].0.as_str());
        append_str(&mut url, "=");
        append_str(&mut url, query[i].1.as_str());
        assert(query@.take(i + 1).drop_last() =~= query@.take(i as int));
        assert(url@ =~= base + query_text(query@.take(i + 1)));
        i = i + 1;
    }
    assert(query@.take(n as int) =~= query@);
    url
}

/// Address of the information on tag `id`.
pub fn wallhaven_taginfo(id: &str) -> (url: String)
    ensures
        url@ == "https://wallhaven.cc/api/v1/tag/"@ + id@,
{
    let mut url = String::new();
    append_str(&mut url, "https://wallhaven.cc/api/v1/tag/");
    append_str(&mut url, id);
    url
}

/// Address of the settings of the user owning `apikey`.
pub fn wallhaven_usersettings(apikey: &str) -> (url: String)
    ensures
        url@ == "https://wallhaven.cc/api/v1/settings?apikey="@ + apikey@,
{
    let mut url = String::new();
    append_str(&mut url, "https://wallhaven.cc/api/v1/settings?apikey=");
    append_str(&mut url, apikey);
    url
}

/// Address of the list of collections of the user owning `apikey`.
pub fn wallhaven_getid(apikey: &str) -> (url: String)
    ensures
        url@ == "https://wallhaven.cc/api/v1/collections?apikey="@ + apikey@,
{
    let mut url = String::new();
    append_str(&mut url, "https://wallhaven.cc/api/v1/collections?apikey=");
    append_str(&mut url, apikey);
    url
}

/// Address of the public collection `collid` of `username`.
pub fn wallhaven_getcoll(username: &str, collid: &str) -> (url: String)
    ensures
        url@ == "https://wallhaven.cc/api/v1/collections/"@ + username@ + "/"@ + collid@,
{
    let mut url = String::new();
    append_str(&mut url, "https://wallhaven.cc/api/v1/collections/");
    append_str(&mut url, username);
    append_str(&mut url, "/");
    append_str(&mut url, collid);
    url
}

/// Address of the collection `collid` of `username`, with `api_key` for a
/// private collection.
pub fn wallhaven_getcoll_api(username: &str, collid: &str, api_key: &str) -> (url: String)
    ensures
        url@ == "https://wallhaven.cc/api/v1/collections/"@ + username@ + "/"@ + collid@
            + "?apikey="@ + api_key@,
{
    let mut url = wallhaven_getcoll(username, collid);
    append_str(&mut url, "?apikey=");
    append_str(&mut url, api_key);
    url
}

} // verus!
