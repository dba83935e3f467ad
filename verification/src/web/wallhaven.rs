//! Wallpapers from a wallhaven.cc collection.
use vstd::prelude::*;

use super::wallhaven_api::wallhaven_getcoll_api;
use super::PluginDetails;
use crate::settings::WPCSettings;
use crate::text::owned;

verus! {

/// The wallhaven.cc source: whose collection, which one, and the key for a
/// private collection.
#[derive(Clone, Debug, Default)]
pub struct WallHaven {
    pub username: String,
    pub collection_id: String,
    pub api_key: String,
}

/// One wallpaper of a collection reply: the address of its picture.
#[derive(Clone, Debug)]
pub struct WallhavenEntry {
    pub path: Option<String>,
}

/// A collection reply: its wallpapers, when the reply has a list of them.
#[derive(Clone, Debug)]
pub struct WallhavenCollection {
    pub data: Option<Vec<WallhavenEntry>>,
}

/// Every wallpaper of the reply has the address of its picture.
pub open spec fn paths_present(c: WallhavenCollection) -> bool {
    c.data matches Some(v) ==> forall|i: int| 0 <= i < v@.len() ==> (#[trigger] v@[i]).path is Some
}

/// The picture addresses of a collection reply, in order; none when the
/// reply has no list.
pub fn collection_paths(collection: &WallhavenCollection) -> (urls: Vec<String>)
    requires
        paths_present(*collection),
    ensures
        collection.data is None ==> urls@.len() == 0,
        collection.data matches Some(v) ==> {
            &&& urls@.len() == v@.len()
            &&& forall|i: int| 0 <= i < v@.len() ==> #[trigger] urls@[i] == v@[i].path->0
        },
{
    let mut urls: Vec<String> = Vec::new();
    if let Some(arr) = &collection.data {
        let n = arr.len();
        let mut i: usize = 0;
        while i < n
            invariant
                collection.data == Some(*arr),
                paths_present(*collection),
                n == arr@.len(),
                i <= n,
                urls@.len() == i,
                forall|k: int| 0 <= k < i ==> #[trigger] urls@[k] == arr@[k].path->0,
            decreases n - i,
        {
            match &arr[i].path {
                Some(p) => urls.push(p.clone()),
                None => {
                    assert(false);
                },
            }
            i = i + 1;
        }
    }
    urls
}

impl WallHaven {
    /// Name, version and author of this source.
    pub fn details(&self) -> (d: PluginDetails)
        ensures
            d.name@ == "WallHaven"@,
            d.version@ == "1.0"@,
            d.author@ == "Jagadeesh Kotra <jagadeesh@stdin.top>"@,
    {
        PluginDetails {
            name: owned("WallHaven"),
            version: owned("1.0"),
            author: owned("Jagadeesh Kotra <jagadeesh@stdin.top>"),
        }
    }

    /// This source takes nothing from the settings: its configuration file
    /// holds all it needs.
    pub fn init_from_settings(&mut self, _settings: WPCSettings)
        ensures
            *final(self) == *old(self),
    {
    }

    /// Address of the collection this source reads.
    pub fn collection_url(&self) -> (url: String)
        ensures
            url@ == "https://wallhaven.cc/api/v1/collections/"@ + self.username@ + "/"@
                + self.collection_id@ + "?apikey="@ + self.api_key@,
    {
        wallhaven_getcoll_api(self.username.as_str(), self.collection_id.as_str(), self.api_key.as_str())
    }
}

} // verus!
