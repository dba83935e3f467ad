//! Wallpapers from a subreddit: the listing address, and the choice of
//! image links from a listing.
use vstd::prelude::*;

use super::PluginDetails;
use crate::settings::WPCSettings;
use crate::text::{append_str, contains_str, has_infix, owned};

verus! {

/// The order in which a subreddit listing is requested.
#[derive(Clone, Copy, Debug, Default, PartialEq, Eq, Structural)]
pub enum RedditSort {
    #[default]
    Hot,
    Popular,
    New,
    Top,
    Rising,
}

/// One post of a listing: the link it points to, when it has one.
#[derive(Clone, Debug)]
pub struct RedditPost {
    pub url_overridden_by_dest: Option<String>,
}

/// The posts of a subreddit listing, in listing order.
#[derive(Clone, Debug)]
pub struct RedditListing {
    pub children: Vec<RedditPost>,
}

/// The path segment of a listing order; `Popular` has none of its own and is
/// requested as `hot`.
pub open spec fn sort_path(cat: RedditSort) -> Seq<char> {
    match cat {
        RedditSort::Hot => "/hot/"@,
        RedditSort::New => "/new/"@,
        RedditSort::Top => "/top/"@,
        RedditSort::Rising => "/rising/"@,
        RedditSort::Popular => "/hot/"@,
    }
}

/// Address of the JSON listing of `subreddit` in order `cat`.
pub fn subreddit_url(subreddit: &str, cat: RedditSort) -> (url: String)
    ensures
        url@ == "https://reddit.com/r/"@ + subreddit@ + sort_path(cat) + ".json"@,
{
    let mut url = String::new();
    append_str(&mut url, "https://reddit.com/r/");
    append_str(&mut url, subreddit);
    match cat {
        RedditSort::Hot => append_str(&mut url, "/hot/"),
        RedditSort::New => append_str(&mut url, "/new/"),
        RedditSort::Top => append_str(&mut url, "/top/"),
        RedditSort::Rising => append_str(&mut url, "/rising/"),
        _ => append_str(&mut url, "/hot/"),
    }
    append_str(&mut url, ".json");
    url
}

/// A link that names a picture: it mentions `png`, `jpg` or `jpeg`.
pub open spec fn is_image_link(url: Seq<char>) -> bool {
    has_infix(url, "png"@) || has_infix(url, "jpg"@) || has_infix(url, "jpeg"@)
}

pub fn image_link(url: &str) -> (b: bool)
    ensures
        b == is_image_link(url@),
{
    contains_str(url, "png") || contains_str(url, "jpg") || contains_str(url, "jpeg")
}

/// The picture links of the posts from position `i` on, in listing order.
pub open spec fn image_links_from(posts: Seq<RedditPost>, i: int) -> Seq<String>
    decreases posts.len() - i,
{
    if i < 0 || i >= posts.len() {
        seq![]
    } else {
        (match posts[i].url_overridden_by_dest {
            Some(u) => if is_image_link(u@) {
                seq![u]
            } else {
                seq![]
            },
            None => seq![],
        }) + image_links_from(posts, i + 1)
    }
}

/// The picture links of a listing, in listing order.
pub open spec fn image_links(posts: Seq<RedditPost>) -> Seq<String> {
    image_links_from(posts, 0)
}

/// The first link of the posts from position `i` on, picture or not.
pub open spec fn first_link_from(posts: Seq<RedditPost>, i: int) -> Option<String>
    decreases posts.len() - i,
{
    if i < 0 || i >= posts.len() {
        None
    } else if posts[i].url_overridden_by_dest is Some {
        posts[i].url_overridden_by_dest
    } else {
        first_link_from(posts, i + 1)
    }
}

/// What a listing gives for `n` wanted pictures: for `n >= 1` the first `n`
/// picture links (all of them if there are fewer); for `n <= 0`, the first
/// link of the listing if it is a picture, and nothing otherwise.
pub open spec fn pictures_wanted(posts: Seq<RedditPost>, n: int) -> Seq<String> {
    if n >= 1 {
        let all = image_links(posts);
        all.take(if n < all.len() { n } else { all.len() as int })
    } else {
        match first_link_from(posts, 0) {
            Some(u) => if is_image_link(u@) {
                seq![u]
            } else {
                seq![]
            },
            None => seq![],
        }
    }
}

/// The picture links to fetch from a subreddit listing, `n` of them at most.
pub fn get_pictures_from_subreddit(listing: &RedditListing, n: i64) -> (files: Vec<String>)
    ensures
        files@ == pictures_wanted(listing.children@, n as int),
{
    let posts = &listing.children;
    let len = posts.len();
    let mut file_vec: Vec<String> = Vec::new();
    let mut link_count: i64 = 0;
    let mut i: usize = 0;
    while i < len
        invariant
            len == posts@.len(),
            posts@ == listing.children@,
            i <= len,
            link_count == file_vec@.len(),
            n >= 1 ==> file_vec@ + image_links_from(posts@, i as int) == image_links(posts@),
            n >= 1 ==> link_count < n,
            n < 1 ==> file_vec@.len() == 0,
            n < 1 ==> first_link_from(posts@, 0) == first_link_from(posts@, i as int),
        decreases len - i,
    {
        match &posts[i].url_overridden_by_dest {
            None => {
                i = i + 1;
                continue ;
            },
            Some(url) => {
                let ghost prev = file_vec@;
                if image_link(url.as_str()) {
                    file_vec.push(url.clone());
                    link_count = link_count + 1;
                }
                if n >= 1 {
                    assert(prev + image_links_from(posts@, i as int) =~= file_vec@
                        + image_links_from(posts@, i + 1));
                }
                if link_count >= n {
                    proof {
                        if n >= 1 {
                            let all = image_links(posts@);
                            assert(all.take(n as int) =~= file_vec@);
                        } else {
                            assert(first_link_from(posts@, i as int) == Some(*url));
                            if is_image_link(url@) {
                                assert(file_vec@ =~= seq![*url]);
                            } else {
                                assert(file_vec@ =~= seq![]);
                            }
                        }
                    }
                    return file_vec;
                }
            },
        }
        i = i + 1;
    }
    proof {
        if n >= 1 {
            assert(file_vec@ =~= image_links(posts@));
        }
    }
    file_vec
}

proof fn lemma_image_links_from(posts: Seq<RedditPost>, i: int)
    requires
        0 <= i <= posts.len(),
    ensures
        image_links_from(posts, i).len() <= posts.len() - i,
        forall|j: int|
            0 <= j < image_links_from(posts, i).len() ==> is_image_link(
                #[trigger] image_links_from(posts, i)[j]@,
            ),
    decreases posts.len() - i,
{
    if i < posts.len() {
        lemma_image_links_from(posts, i + 1);
        let rest = image_links_from(posts, i + 1);
        let head = match posts[i].url_overridden_by_dest {
            Some(u) => if is_image_link(u@) {
                seq![u]
            } else {
                seq![]
            },
            None => seq![],
        };
        assert(image_links_from(posts, i) == head + rest);
        assert forall|j: int| 0 <= j < image_links_from(posts, i).len() implies is_image_link(
            #[trigger] image_links_from(posts, i)[j]@,
        ) by {
            if j >= head.len() {
                assert(image_links_from(posts, i)[j] == rest[j - head.len()]);
            }
        }
    }
}

/// Asking for `n >= 1` pictures gives at most `n`, asking for fewer gives
/// at most one, and every link given names a picture.
pub proof fn lemma_pictures_wanted_bounds(posts: Seq<RedditPost>, n: int)
    ensures
        n >= 1 ==> pictures_wanted(posts, n).len() <= n,
        n < 1 ==> pictures_wanted(posts, n).len() <= 1,
        forall|j: int|
            0 <= j < pictures_wanted(posts, n).len() ==> is_image_link(
                #[trigger] pictures_wanted(posts, n)[j]@,
            ),
{
    lemma_image_links_from(posts, 0);
    if n >= 1 {
        let all = image_links(posts);
        assert forall|j: int| 0 <= j < pictures_wanted(posts, n).len() implies is_image_link(
            #[trigger] pictures_wanted(posts, n)[j]@,
        ) by {
            assert(pictures_wanted(posts, n)[j] == all[j]);
        }
    }
}

/// The Reddit wallpaper source: which subreddit, in which order, how many pictures.
#[derive(Clone, Debug, Default)]
pub struct Reddit {
    pub subreddit: String,
    pub cat: RedditSort,
    pub n: i64,
}

impl Reddit {
    /// Name, version and author of this source.
    pub fn details(&self) -> (d: PluginDetails)
        ensures
            d.name@ == "Reddit"@,
            d.version@ == "1.0"@,
            d.author@ == "Jagadeesh Kotra <jagadeesh@stdin.top>"@,
    {
        PluginDetails {
            name: owned("Reddit"),
            version: owned("1.0"),
            author: owned("Jagadeesh Kotra <jagadeesh@stdin.top>"),
        }
    }

    /// Takes the subreddit, the number of pictures and the order from the settings.
    pub fn init_from_settings(&mut self, app_settings: WPCSettings)
        ensures
            final(self).subreddit == app_settings.reddit_options.reddit,
            final(self).n == app_settings.reddit_options.reddit_n,
            final(self).cat == app_settings.reddit_options.reddit_sort,
    {
        self.subreddit = app_settings.reddit_options.reddit;
        self.n = app_settings.reddit_options.reddit_n;
        self.cat = app_settings.reddit_options.reddit_sort;
    }

    /// Address of the listing this source reads.
    pub fn listing_url(&self) -> (url: String)
        ensures
            url@ == "https://reddit.com/r/"@ + self.subreddit@ + sort_path(self.cat) + ".json"@,
    {
        subreddit_url(self.subreddit.as_str(), self.cat)
    }
}

} // verus!
