use wpc::misc::SingleConfig;
use wpc::schedule::{change_pause, refresh_due, refresh_pause, reload_due, start_refresh};
use wpc::settings::{RedditOptions, ThemeOptions, TriggerConfig, WPCSettings};
use wpc::web::reddit::RedditSort;

fn strings(v: &[&str]) -> Vec<String> {
    v.iter().map(|s| s.to_string()).collect()
}

fn settings(dynamic: bool) -> WPCSettings {
    WPCSettings {
        directory: "/w".to_string(),
        interval: 300,
        update: 3600,
        maxage: -1,
        startup: false,
        rm_startup: false,
        background: false,
        theme_options: ThemeOptions::default(),
        trigger_config_file: None,
        trigger_config: TriggerConfig::default(),
        wallhaven: false,
        reddit: false,
        reddit_options: RedditOptions {
            reddit: "art".to_string(),
            reddit_n: 3,
            reddit_sort: RedditSort::New,
            reddit_min_height: 1920,
            reddit_min_width: 1080,
        },
        local: true,
        dynamic_config_file: if dynamic { Some("/w/config.json".to_string()) } else { None },
        dynamic,
    }
}

#[test]
fn reload_on_directory_change() {
    assert!(reload_due(true, true));
    assert!(!reload_due(true, false));
    assert!(!reload_due(false, true));
    assert!(!reload_due(false, false));
}

#[test]
fn change_and_rest() {
    assert_eq!(change_pause(3, 300), Some(300));
    assert_eq!(change_pause(1, 45), Some(45));
    assert_eq!(change_pause(0, 300), None);
}

#[test]
fn refresh_schedule() {
    assert!(refresh_due(0, 3600, true));
    assert!(!refresh_due(3599, 3600, false));
    assert!(refresh_due(3600, 3600, false));
    assert!(refresh_due(4000, 3600, false));
    assert_eq!(refresh_pause(0, 3600), Some(3600));
    assert_eq!(refresh_pause(2, 3600), None);
}

#[test]
fn refresh_without_dynamic_configuration() {
    let mut s = settings(false);
    let pick = Some(SingleConfig { hour: 3, path: "/w/3.jpg".to_string(), darkmode: Some(true) });
    let r = start_refresh(&mut s, strings(&["/w/a.jpg"]), pick, 120);
    assert_eq!(r, strings(&["/w/a.jpg"]));
    assert_eq!(s.update, 3600);
    assert_eq!(s.interval, 300);
    assert!(!s.theme_options.force_dark_theme);
}

#[test]
fn refresh_with_dynamic_configuration() {
    let mut s = settings(true);
    let pick = Some(SingleConfig { hour: 3, path: "/w/3.jpg".to_string(), darkmode: Some(true) });
    let r = start_refresh(&mut s, strings(&["/w/a.jpg", "/w/b.jpg"]), pick, 1200);
    assert_eq!(r, strings(&["/w/3.jpg"]));
    assert_eq!(s.update, 1200);
    assert_eq!(s.interval, 1200);
    assert!(s.theme_options.force_dark_theme);
    assert_eq!(s.directory, "/w");

    let pick = Some(SingleConfig { hour: 4, path: "/w/4.jpg".to_string(), darkmode: None });
    let r = start_refresh(&mut s, vec![], pick, 60);
    assert_eq!(r, strings(&["/w/4.jpg"]));
    assert!(s.theme_options.force_dark_theme);
    assert_eq!((s.update, s.interval), (60, 60));

    let r = start_refresh(&mut s, strings(&["/w/a.jpg"]), None, 3600);
    assert!(r.is_empty());
    assert_eq!((s.update, s.interval), (3600, 3600));
    // The next refresh falls due when the time left in the hour has passed.
    assert!(!refresh_due(3599, s.update, false));
    assert!(refresh_due(3600, s.update, false));
}
