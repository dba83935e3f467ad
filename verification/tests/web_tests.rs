use wpc::api::distro::run;
use wpc::api::os::macos::set_from_path;
use wpc::api::wallheaven::{wallheaven_getcoll, wallheaven_search};
use wpc::settings::{RedditOptions, ThemeOptions, TriggerConfig, WPCSettings};
use wpc::settings::{adjust_settings, parse};
use wpc::web::json_reply;
use wpc::web::bing_wpod::{get_bing_wpod, BingArchive, BingImage};
use wpc::web::reddit::{get_pictures_from_subreddit, subreddit_url, Reddit, RedditListing, RedditPost, RedditSort};
use wpc::web::wallhaven::{collection_paths, WallHaven, WallhavenCollection, WallhavenEntry};
use wpc::web::wallhaven_api::{
    wallhaven_getcoll, wallhaven_getcoll_api, wallhaven_getid, wallhaven_search, wallhaven_taginfo,
    wallhaven_usersettings, wallhaven_wallpaperinfo,
};

fn strings(v: &[&str]) -> Vec<String> {
    v.iter().map(|s| s.to_string()).collect()
}

fn post(url: Option<&str>) -> RedditPost {
    RedditPost { url_overridden_by_dest: url.map(|s| s.to_string()) }
}

#[test]
fn reddit_test_get_image_urls_from_subreddit() {
    let listing = RedditListing {
        children: vec![
            post(Some("https://i.redd.it/1.jpg")),
            post(None),
            post(Some("https://www.reddit.com/gallery/x")),
            post(Some("https://i.redd.it/2.png")),
            post(Some("https://i.imgur.com/3.jpeg")),
            post(Some("https://i.redd.it/4.jpg")),
            post(Some("https://i.redd.it/5.png")),
            post(Some("https://i.redd.it/6.png")),
        ],
    };
    let urls = get_pictures_from_subreddit(&listing, 5);
    assert_eq!(urls.len(), 5);
    assert_eq!(urls[0], "https://i.redd.it/1.jpg");
    assert_eq!(urls[4], "https://i.redd.it/5.png");
    assert_eq!(get_pictures_from_subreddit(&listing, 100).len(), 6);
    assert_eq!(get_pictures_from_subreddit(&listing, 0), strings(&["https://i.redd.it/1.jpg"]));
    let first_not_picture = RedditListing { children: vec![post(None), post(Some("https://x/y")), post(Some("a.png"))] };
    assert!(get_pictures_from_subreddit(&first_not_picture, -3).is_empty());
    assert_eq!(get_pictures_from_subreddit(&first_not_picture, 1), strings(&["a.png"]));
}

#[test]
fn subreddit_addresses() {
    assert_eq!(subreddit_url("art", RedditSort::Hot), "https://reddit.com/r/art/hot/.json");
    assert_eq!(subreddit_url("art", RedditSort::Popular), "https://reddit.com/r/art/hot/.json");
    assert_eq!(subreddit_url("art", RedditSort::New), "https://reddit.com/r/art/new/.json");
    assert_eq!(subreddit_url("art", RedditSort::Top), "https://reddit.com/r/art/top/.json");
    assert_eq!(subreddit_url("art", RedditSort::Rising), "https://reddit.com/r/art/rising/.json");
    let r = Reddit { subreddit: "wallpaper".to_string(), cat: RedditSort::Top, n: 6 };
    assert_eq!(r.listing_url(), "https://reddit.com/r/wallpaper/top/.json");
    let d = r.details();
    assert_eq!(d.name, "Reddit");
    assert_eq!(d.version, "1.0");
    assert_eq!(d.author, "Jagadeesh Kotra <jagadeesh@stdin.top>");
}

fn settings() -> WPCSettings {
    WPCSettings {
        directory: "/w".to_string(),
        interval: 300,
        update: 3600,
        maxage: -1,
        startup: false,
        rm_startup: false,
        background: false,
        theme_options: ThemeOptions::default(),
        trigger_config_file: None,
        trigger_config: TriggerConfig::default(),
        wallhaven: false,
        reddit: false,
        reddit_options: RedditOptions {
            reddit: "art".to_string(),
            reddit_n: 3,
            reddit_sort: RedditSort::New,
            reddit_min_height: 1920,
            reddit_min_width: 1080,
        },
        local: false,
        dynamic_config_file: None,
        dynamic: false,
    }
}

#[test]
fn settings_adjustment() {
    let s = parse(settings());
    assert!(s.local);
    assert!(!s.dynamic);
    assert_eq!(s.update, 3600);
    assert_eq!(s.interval, 300);
    let mut web = settings();
    web.reddit = true;
    assert!(!parse(web).local);
    let mut dynamic = settings();
    dynamic.dynamic_config_file = Some("/w/config.json".to_string());
    let d = adjust_settings(dynamic.clone(), 1200);
    assert!(d.dynamic);
    assert_eq!(d.update, 1200);
    assert_eq!(d.interval, 1200);
    let p = parse(dynamic);
    assert!(p.dynamic && p.update == p.interval && p.update >= 60 && p.update <= 3600 && p.update % 60 == 0);
    let mut r = Reddit::default();
    r.init_from_settings(settings());
    assert_eq!(r.subreddit, "art");
    assert_eq!(r.n, 3);
    assert_eq!(r.cat, RedditSort::New);
}

#[test]
fn wallhaven_info_addresses() {
    assert_eq!(wallhaven_wallpaperinfo("", "q6jvjl"), "https://wallhaven.cc/api/v1/w/q6jvjl?apikey=");
    assert_eq!(wallhaven_taginfo("1"), "https://wallhaven.cc/api/v1/tag/1");
    assert_eq!(wallhaven_usersettings("k"), "https://wallhaven.cc/api/v1/settings?apikey=k");
    assert_eq!(wallhaven_getid("k"), "https://wallhaven.cc/api/v1/collections?apikey=k");
    let q = vec![("q".to_string(), "cats".to_string()), ("page".to_string(), "2".to_string())];
    assert_eq!(wallhaven_search("k", &q), "https://wallhaven.cc/api/v1/search?apikey=k&q=cats&page=2");
    let one = vec![("q".to_string(), "cats".to_string())];
    assert_eq!(wallhaven_search("k", &one), "https://wallhaven.cc/api/v1/search?apikey=k&q=cats");
    assert_eq!(wallheaven_search("k", &vec![]), "https://wallhaven.cc/api/v1/search?apikey=k&");
}

#[test]
fn wallhaven_collection_addresses() {
    assert_eq!(wallhaven_getcoll_api("th4n0s", "803855", ""), "https://wallhaven.cc/api/v1/collections/th4n0s/803855?apikey=");
    assert_eq!(wallhaven_getcoll("th4n0s", "803855"), "https://wallhaven.cc/api/v1/collections/th4n0s/803855");
    assert_eq!(wallheaven_getcoll("th4n0s", 803855), "https://wallhaven.cc/api/v1/collections/th4n0s/803855");
    let wh = WallHaven { username: "u".to_string(), collection_id: "7".to_string(), api_key: "k".to_string() };
    assert_eq!(wh.collection_url(), "https://wallhaven.cc/api/v1/collections/u/7?apikey=k");
    assert_eq!(wh.details().name, "WallHaven");
}

#[test]
fn wallhaven_collection_paths() {
    let c = WallhavenCollection {
        data: Some(vec![
            WallhavenEntry { path: Some("https://w.wallhaven.cc/full/a.jpg".to_string()) },
            WallhavenEntry { path: Some("https://w.wallhaven.cc/full/b.png".to_string()) },
        ]),
    };
    assert_eq!(collection_paths(&c), strings(&["https://w.wallhaven.cc/full/a.jpg", "https://w.wallhaven.cc/full/b.png"]));
    assert!(collection_paths(&WallhavenCollection { data: None }).is_empty());
}

#[test]
fn bing_picture_of_the_day() {
    let archive = BingArchive {
        images: vec![BingImage { url: Some("/th?id=OHR.Foo_EN-US123_1920x1080.jpg&rf=LaDigue_1920x1080.jpg&pid=hp".to_string()) }],
    };
    assert_eq!(get_bing_wpod(&archive), strings(&["https://bing.com/th?id=OHR.Foo_EN-US123_1920x1080.jpg"]));
    let plain = BingArchive { images: vec![BingImage { url: Some("/a.jpg&pid=hp".to_string()) }] };
    assert_eq!(get_bing_wpod(&plain), strings(&["https://bing.com/a.jpg"]));
}

#[test]
fn desktop_commands() {
    let c = run("echo", &["a", "b"]);
    assert_eq!(c.program, "echo");
    assert_eq!(c.args, strings(&["a", "b"]));
    let k = wpc::api::distro::kde::set("/home/u/my \"pic\".jpg");
    assert_eq!(k.program, "qdbus");
    assert_eq!(k.args[0], "org.kde.plasmashell");
    assert_eq!(k.args[1], "/PlasmaShell");
    assert_eq!(k.args[2], "org.kde.PlasmaShell.evaluateScript");
    assert_eq!(
        k.args[3],
        "\nconst monitors = desktops()\nfor (var i = 0; i < monitors.length; i++) {\n    monitors[i].currentConfigGroup = [\"Wallpaper\"]\n    monitors[i].writeConfig(\"Image\", \"file:///home/u/my \\\"pic\\\".jpg\")\n}"
    );
    let m = set_from_path("/a\\b.jpg");
    assert_eq!(m.program, "osascript");
    assert_eq!(m.args, strings(&["-e", "tell application \"Finder\" to set desktop picture to POSIX file \"/a\\\\b.jpg\""]));
}

#[test]
fn json_replies() {
    let v = json_reply(r#"{"data": {"dimension_x": 1920, "dimension_y": 1080, "id": "q6jvjl"}}"#).unwrap();
    assert_eq!(format!("{}", v["data"]["dimension_x"]), "1920");
    assert_eq!(format!("{}", v["data"]["dimension_y"]), "1080");
    assert_eq!(v["data"]["id"].as_str(), Some("q6jvjl"));
    assert_eq!(json_reply(" [1, 2, 3] \n").unwrap().as_array().map(|a| a.len()), Some(3));
    assert!(json_reply("").is_none());
    assert!(json_reply("{\"data\": ").is_none());
    assert!(json_reply("{} {}").is_none());
    assert!(json_reply("<html>rate limited</html>").is_none());
}
