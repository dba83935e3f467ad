//! Request addresses of the wallhaven.cc web API, for blocking requests.
use vstd::prelude::*;

use crate::text::{decimal_int, i64_to_string};
use crate::web::wallhaven_api::{self, query_text};

verus! {

/// Address of the information on wallpaper `id`.
pub fn wallheaven_wallpaperinfo(apikey: &str, id: &str) -> (url: String)
    ensures
        url@ == "https://wallhaven.cc/api/v1/w/"@ + id@ + "?apikey="@ + apikey@,
{
    wallhaven_api::wallhaven_wallpaperinfo(apikey, id)
}

/// Address of a search with the parameters `query`, taken in the order given.
pub fn wallheaven_search(apikey: &str, query: &Vec<(String, String)>) -> (url: String)
    ensures
        url@ == "https://wallhaven.cc/api/v1/search?apikey="@ + apikey@ + "&"@ + query_text(query@),
{
    wallhaven_api::wallhaven_search(apikey, query)
}

/// Address of the information on tag `id`.
pub fn wallheaven_taginfo(id: &str) -> (url: String)
    ensures
        url@ == "https://wallhaven.cc/api/v1/tag/"@ + id@,
{
    wallhaven_api::wallhaven_taginfo(id)
}

/// Address of the settings of the user owning `apikey`.
pub fn wallheaven_usersettings(apikey: &str) -> (url: String)
    ensures
        url@ == "https://wallhaven.cc/api/v1/settings?apikey="@ + apikey@,
{
    wallhaven_api::wallhaven_usersettings(apikey)
}

/// Address of the list of collections of the user owning `apikey`.
pub fn wallheaven_getid(apikey: &str) -> (url: String)
    ensures
        url@ == "https://wallhaven.cc/api/v1/collections?apikey="@ + apikey@,
{
    wallhaven_api::wallhaven_getid(apikey)
}

/// Address of the public collection number `collid` of `username`.
pub fn wallheaven_getcoll(username: &str, collid: i64) -> (url: String)
    ensures
        url@ == "https://wallhaven.cc/api/v1/collections/"@ + username@ + "/"@ + decimal_int(
            collid as int,
        ),
{
    let id = i64_to_string(collid);
    wallhaven_api::wallhaven_getcoll(username, id.as_str())
}

} // verus!
