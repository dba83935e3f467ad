//! The Bing picture of the day.
use vstd::prelude::*;

use crate::text::{
    append_str, before_first, before_first_str, first_occurrence_from, occurs_at, replace_all,
    replace_str,
};

verus! {

/// One picture of Bing's archive reply: its address on bing.com, when given.
#[derive(Clone, Debug)]
pub struct BingImage {
    pub url: Option<String>,
}

/// Bing's archive reply: its pictures, newest first.
#[derive(Clone, Debug)]
pub struct BingArchive {
    pub images: Vec<BingImage>,
}

/// The full address of a picture from its address `url` on bing.com:
/// without `&pid=hp`, prefixed with the site, and cut before `&rf=`.
pub open spec fn bing_wallpaper_url(url: Seq<char>) -> Seq<char> {
    before_first("https://bing.com"@ + replace_all(url, "&pid=hp"@, ""@), "&rf="@)
}

/// The addresses to download for the picture of the day: that of the
/// newest picture of the archive reply.
pub fn get_bing_wpod(archive: &BingArchive) -> (urls: Vec<String>)
    requires
        archive.images@.len() > 0,
        archive.images@[0].url is Some,
    ensures
        urls@.len() == 1,
        urls@[0]@ == bing_wallpaper_url(archive.images@[0].url->0@),
{
    let image = &archive.images[0];
    let url = match &image.url {
        Some(u) => u,
        None => {
            assert(false);
            return Vec::new();
        },
    };
    proof {
        reveal_strlit("&pid=hp");
        reveal_strlit("&rf=");
    }
    let cleaned = replace_str(url.as_str(), "&pid=hp", "");
    let mut bing_url = String::new();
    append_str(&mut bing_url, "https://bing.com");
    append_str(&mut bing_url, cleaned.as_str());
    let first = before_first_str(bing_url.as_str(), "&rf=");
    let mut url_vec: Vec<String> = Vec::new();
    url_vec.push(first);
    url_vec
}

proof fn lemma_first_occurrence_bounds(s: Seq<char>, pat: Seq<char>, i: int)
    requires
        0 <= i <= s.len(),
    ensures
        i <= first_occurrence_from(s, pat, i) <= s.len(),
    decreases s.len() - i,
{
    if i < s.len() && i + pat.len() <= s.len() && !occurs_at(s, pat, i) {
        lemma_first_occurrence_bounds(s, pat, i + 1);
    }
}

proof fn lemma_first_occurrence_skips(s: Seq<char>, pat: Seq<char>, i: int, j: int)
    requires
        0 <= i <= j <= s.len(),
        forall|k: int| i <= k < j ==> !occurs_at(s, pat, k),
    ensures
        first_occurrence_from(s, pat, i) >= j,
    decreases j - i,
{
    if i < j {
        if i + pat.len() <= s.len() {
            lemma_first_occurrence_skips(s, pat, i + 1, j);
        }
    } else {
        lemma_first_occurrence_bounds(s, pat, i);
    }
}

/// The address of the picture of the day is always on bing.com: it begins
/// with `https://bing.com`, whatever the archive reply says.
pub proof fn lemma_bing_url_on_bing(url: Seq<char>)
    ensures
        bing_wallpaper_url(url).len() >= "https://bing.com"@.len(),
        bing_wallpaper_url(url).subrange(0, "https://bing.com"@.len() as int) == "https://bing.com"@,
{
    reveal_strlit("https://bing.com");
    reveal_strlit("&rf=");
    let prefix = "https://bing.com"@;
    let s = prefix + replace_all(url, "&pid=hp"@, ""@);
    let pat = "&rf="@;
    assert forall|k: int| 0 <= k < 16 implies !occurs_at(s, pat, k) by {
        if occurs_at(s, pat, k) {
            assert(s.subrange(k, k + pat.len())[0] == pat[0]);
            assert(s[k] == prefix[k]);
        }
    }
    lemma_first_occurrence_skips(s, pat, 0, 16);
    lemma_first_occurrence_bounds(s, pat, 0);
    assert(bing_wallpaper_url(url).subrange(0, 16) =~= prefix);
}

} // verus!
