use wpc::changer::windows::wide_path;
use wpc::misc::{filter_image_files, generate_dynamic_config, get_wpc_args, select_dynamic_config};
use wpc::web::bing_wpod::{get_bing_wpod, BingArchive, BingImage};
use wpc::web::reddit::{get_pictures_from_subreddit, image_link, RedditListing, RedditPost};

fn strings(v: &[&str]) -> Vec<String> {
    v.iter().map(|s| s.to_string()).collect()
}

#[test]
fn restart_arguments_are_stable() {
    let (once, _) = get_wpc_args(strings(&["wpc", "-S", "-d", "/p", "--background", "-w", "-s", "-b"])).unwrap();
    let (twice, _) = get_wpc_args(once.clone()).unwrap();
    assert_eq!(once, twice);
    assert_eq!(once, strings(&["wpc", "-d", "/p", "-w"]));
    assert!(!once.iter().any(|a| a == "-S" || a == "-s" || a == "--startup" || a == "--background" || a == "-b"));
}

#[test]
fn picture_filter_is_stable() {
    let once = filter_image_files(strings(&["a.png", "b.txt", "c.jpeg", "d.jpg", "e"]));
    assert_eq!(filter_image_files(once.clone()), once);
}

#[test]
fn generated_configuration_covers_the_day() {
    let files: Vec<String> = (0..23).map(|i| format!("/w/{:02}.jpg", i)).collect();
    let config = generate_dynamic_config(files);
    let resolved: Vec<Option<String>> = config.configs.iter().map(|c| Some(c.path.clone())).collect();
    for w in config.configs.windows(2) {
        assert!(w[0].hour < w[1].hour);
    }
    assert!(config.configs.iter().all(|c| c.hour < 23));
    for hour in 0..24 {
        let c = select_dynamic_config(&config.configs, hour, &resolved).unwrap();
        assert!(c.hour <= hour);
        assert!(config.configs.iter().all(|d| d.hour <= c.hour || d.hour > hour));
    }
}

#[test]
fn wide_path_has_one_terminating_zero() {
    let w = wide_path("C:\\Users\\u\\Pictures\\\u{1F600}.jpg");
    assert_eq!(*w.last().unwrap(), 0);
    assert_eq!(w.iter().filter(|u| **u == 0).count(), 1);
}

#[test]
fn picture_of_the_day_stays_on_bing() {
    let archive = BingArchive { images: vec![BingImage { url: Some("&rf=elsewhere".to_string()) }] };
    let urls = get_bing_wpod(&archive);
    assert_eq!(urls, strings(&["https://bing.com"]));
}

#[test]
fn wanted_pictures_are_bounded() {
    let listing = RedditListing {
        children: (0..10)
            .map(|i| RedditPost { url_overridden_by_dest: Some(format!("https://i/{}.{}", i, if i % 3 == 0 { "gif" } else { "png" })) })
            .collect(),
    };
    for n in -2..12i64 {
        let got = get_pictures_from_subreddit(&listing, n);
        assert!(got.len() as i64 <= n.max(1));
        assert!(got.iter().all(|u| image_link(u)));
    }
}
