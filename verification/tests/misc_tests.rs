use wpc::misc::{
    brighness_score, filter_image_files, grayscale_file_name, to_grayscale, generate_dynamic_config, get_dynamic_wp, get_wpc_args,
    is_image_min_dim, is_linux_gnome_de, map_trigger_arg_values, maxage_filter, maxage_filter_at,
    notify_event, random_n, run_in_background, run_trigger, secs_till_next_hour, secs_until_hour,
    select_dynamic_config, update_file_list, wallpaper_file_names, DynamicConfig, SingleConfig,
    WatchEvent,
};
use wpc::settings::{ThemeOptions, TriggerArg, TriggerConfig};

fn strings(v: &[&str]) -> Vec<String> {
    v.iter().map(|s| s.to_string()).collect()
}

#[test]
fn download_file_names() {
    let url = strings(&["https://upload.wikimedia.org/wikipedia/commons/thumb/8/80/Wikipedia-logo-v2.svg/1024px-Wikipedia-logo-v2.svg.png"]);
    let files = wallpaper_file_names(&url);
    assert_eq!(files.len(), 1);
    assert_eq!(files[0], "1024px-Wikipedia-logo-v2.svg.png");
}

#[test]
fn dynamic_wallpaper_test() {
    let files = strings(&["/t/tests/2.jpg", "/t/tests/1.jpg"]);
    let config = generate_dynamic_config(files);
    assert_eq!(config.configs.len(), 2);
    assert_eq!(config.configs[0].hour, 0);
    assert_eq!(config.configs[0].path, "/t/tests/1.jpg");
    assert_eq!(config.configs[0].darkmode, Some(false));
    assert_eq!(config.configs[1].hour, 11);
    assert_eq!(config.configs[1].path, "/t/tests/2.jpg");
    let resolved: Vec<Option<String>> = config.configs.iter().map(|c| Some(c.path.clone())).collect();
    let morning = select_dynamic_config(&config.configs, 5, &resolved).unwrap();
    assert!(morning.path.ends_with("1.jpg"));
    let noon = select_dynamic_config(&config.configs, 11, &resolved).unwrap();
    assert!(noon.path.ends_with("2.jpg"));
    let chosen = get_dynamic_wp(&config, &resolved).unwrap();
    let hour = chrono::Timelike::hour(&chrono::Local::now());
    if hour >= 11 {
        assert!(chosen.path.ends_with("2.jpg"));
    } else {
        assert!(chosen.path.ends_with("1.jpg"));
    }
}

#[test]
fn dynamic_config_spreads_many_files() {
    let names: Vec<String> = (0..30).map(|i| format!("{:02}.png", i)).rev().collect();
    let config = generate_dynamic_config(names);
    for (i, c) in config.configs.iter().enumerate() {
        assert_eq!(c.hour, i as u32);
        assert_eq!(c.path, format!("{:02}.png", i));
    }
    let three = generate_dynamic_config(strings(&["c.jpg", "a.jpg", "b.jpg"]));
    let hours: Vec<u32> = three.configs.iter().map(|c| c.hour).collect();
    assert_eq!(hours, vec![0, 7, 14]);
}

#[test]
fn dynamic_selection_skips_missing_pictures() {
    let configs = vec![
        SingleConfig { hour: 0, path: "a.jpg".to_string(), darkmode: Some(false) },
        SingleConfig { hour: 11, path: "b.jpg".to_string(), darkmode: None },
        SingleConfig { hour: 16, path: "c.jpg".to_string(), darkmode: Some(true) },
        SingleConfig { hour: 18, path: "d.jpg".to_string(), darkmode: Some(true) },
    ];
    let resolved = vec![Some("/w/a.jpg".to_string()), Some("/w/b.jpg".to_string()), Some("/w/c.jpg".to_string()), None];
    let c = select_dynamic_config(&configs, 20, &resolved).unwrap();
    assert_eq!(c.path, "/w/c.jpg");
    assert_eq!(c.hour, 16);
    assert_eq!(c.darkmode, Some(true));
    let c = select_dynamic_config(&configs, 12, &resolved).unwrap();
    assert_eq!(c.path, "/w/b.jpg");
    assert_eq!(c.darkmode, None);
    let none = vec![None, None, None, None];
    assert!(select_dynamic_config(&configs, 20, &none).is_none());
    let late = vec![SingleConfig { hour: 9, path: "x.jpg".to_string(), darkmode: None }];
    assert!(select_dynamic_config(&late, 8, &vec![Some("x".to_string())]).is_none());
    let empty = DynamicConfig { configs: vec![] };
    assert!(get_dynamic_wp(&empty, &vec![]).is_none());
}

#[test]
fn local_mode() {
    let files = strings(&["tests/1.jpg", "tests/2.jpg", "tests/trigger.py", "tests/output.txt"]);
    let created = vec![0u64; files.len()];
    let kept = update_file_list(files, &created, -1).unwrap();
    assert_eq!(kept.len(), 2);
}

#[test]
fn image_filter_by_extension() {
    let files = strings(&["a.png", "b.jpeg", "c.JPG", "d.jpg.txt", "e.jpg", "png"]);
    assert_eq!(filter_image_files(files), strings(&["a.png", "b.jpeg", "e.jpg"]));
}

#[test]
fn age_filter() {
    let files = strings(&["old.jpg", "new.jpg", "edge.jpg"]);
    let created = vec![1_000u64, 100_000, 92_800];
    let now = 100_000i64;
    assert_eq!(maxage_filter_at(files.clone(), &created, now, 2), strings(&["new.jpg", "edge.jpg"]));
    assert_eq!(maxage_filter_at(files.clone(), &created, now, -1), files);
    // A limit before the epoch keeps every file.
    assert_eq!(maxage_filter_at(files.clone(), &created, 10, 5), files);
    // A maximum age of zero or more hours always succeeds.
    assert!(maxage_filter(files.clone(), &created, 5).is_some());
    assert_eq!(maxage_filter(files.clone(), &created, -1), Some(files.clone()));
    let fresh = vec![u64::MAX, 0, u64::MAX];
    assert_eq!(maxage_filter(files.clone(), &fresh, 0), Some(strings(&["old.jpg", "edge.jpg"])));
    assert_eq!(maxage_filter(vec![], &vec![], 3), Some(vec![]));
}

#[test]
fn wpc_arguments() {
    let args = strings(&["wpc", "-d", "pics", "--startup", "-c", "60", "-S", "--trigger", "t.json", "--background", "-s", "-b"]);
    let (kept, positions) = get_wpc_args(args).unwrap();
    assert_eq!(kept, strings(&["wpc", "-d", "pics", "-c", "60", "--trigger", "t.json"]));
    assert_eq!(positions, vec![2, 6]);
    assert!(get_wpc_args(strings(&["wpc", "-c", "60", "--dynamic"])).is_none());
    let (_, positions) = get_wpc_args(strings(&["wpc", "-d", "-d", "x"])).unwrap();
    assert_eq!(positions, vec![2]);
    assert_eq!(run_in_background(strings(&["wpc", "-d", "/p"])), strings(&["-d", "/p"]));
}

#[test]
fn watch_events() {
    assert!(notify_event(WatchEvent::Create));
    assert!(notify_event(WatchEvent::Remove));
    assert!(notify_event(WatchEvent::Rename));
    assert!(!notify_event(WatchEvent::Other));
}

#[test]
fn brightness_scores() {
    let black = vec![0u8, 0, 0, 255].repeat(128 * 128);
    assert_eq!(brighness_score(&black), 0);
    let white = vec![255u8; 16];
    assert_eq!(brighness_score(&white), 100);
    let grey = vec![128u8, 128, 128, 0, 0, 0, 0, 0];
    // (384 + 0) / 2 = 192; 192 * 100 / 765 = 25
    assert_eq!(brighness_score(&grey), 25);
}

#[test]
fn picture_size_and_session() {
    assert!(is_image_min_dim((1920, 1080), Some(1080), Some(1920)));
    assert!(!is_image_min_dim((1920, 1079), Some(1080), None));
    assert!(!is_image_min_dim((1919, 1080), None, Some(1920)));
    assert!(is_image_min_dim((1, 1), None, None));
    assert!(is_linux_gnome_de("gnome-xorg"));
    assert!(is_linux_gnome_de("ubuntu:gnome"));
    assert!(!is_linux_gnome_de("plasma"));
}

#[test]
fn random_positions() {
    assert_eq!(random_n(1), 0);
    for _ in 0..200 {
        assert!(random_n(5) < 5);
    }
}

#[test]
fn time_to_next_hour() {
    assert_eq!(secs_until_hour(0), 3600);
    assert_eq!(secs_until_hour(59), 60);
    assert_eq!(secs_until_hour(15), 2700);
    let before = chrono::Timelike::minute(&chrono::Local::now());
    let s = secs_till_next_hour();
    let after = chrono::Timelike::minute(&chrono::Local::now());
    assert!(s == (60 - before as u64) * 60 || s == (60 - after as u64) * 60);
}

#[test]
fn trigger_on_wallpaper_change() {
    let black = vec![0u8, 0, 0, 255].repeat(128 * 128);
    let tc = TriggerConfig {
        enabled: true,
        bin: "/usr/bin/python3".to_string(),
        file: "/t/tests/trigger.py".to_string(),
        args: vec![TriggerArg::Brightness],
    };
    let to = ThemeOptions { ..Default::default() };
    let cmd = run_trigger(Some(brighness_score(&black)), &to, &tc).unwrap();
    assert_eq!(cmd.program, "/usr/bin/python3");
    assert_eq!(cmd.args, strings(&["/t/tests/trigger.py", "0"]));
}

#[test]
fn trigger_argument_values() {
    let to = ThemeOptions { grayscale: true, theme_dark_only: false, theme_light_only: true, ..Default::default() };
    assert_eq!(map_trigger_arg_values(TriggerArg::Brightness, Some(-7), &to), "-7");
    assert_eq!(map_trigger_arg_values(TriggerArg::Grayscale, None, &to), "true");
    assert_eq!(map_trigger_arg_values(TriggerArg::ThemeDarkOnly, None, &to), "false");
    assert_eq!(map_trigger_arg_values(TriggerArg::ThemeLightOnly, None, &to), "true");
    let off = TriggerConfig { enabled: false, bin: "x".to_string(), file: "y".to_string(), args: vec![] };
    assert!(run_trigger(None, &to, &off).is_none());
    let off_bright = TriggerConfig { enabled: false, bin: "x".to_string(), file: "y".to_string(), args: vec![TriggerArg::Brightness] };
    assert!(run_trigger(None, &to, &off_bright).is_none());
    let many = TriggerConfig {
        enabled: true,
        bin: "/bin/sh".to_string(),
        file: "hook.sh".to_string(),
        args: vec![TriggerArg::Grayscale, TriggerArg::Brightness, TriggerArg::ThemeLightOnly],
    };
    let cmd = run_trigger(Some(42), &to, &many).unwrap();
    assert_eq!(cmd.args, strings(&["hook.sh", "true", "42", "true"]));
}

#[test]
fn grayscale_conversion() {
    // White stays white, black stays black, alpha plays no part.
    assert_eq!(to_grayscale(1, 1, vec![255, 255, 255, 0]), Some(vec![255]));
    assert_eq!(to_grayscale(1, 1, vec![0, 0, 0, 255]), Some(vec![0]));
    // (2126 r + 7152 g + 722 b) / 10000, rounded down, pixel by pixel in order.
    let rgba = vec![10, 20, 30, 255, 255, 0, 0, 255, 0, 255, 0, 255, 0, 0, 255, 255, 100, 150, 200, 7, 1, 1, 1, 1];
    let expected: Vec<u8> = rgba
        .chunks(4)
        .map(|p| ((2126 * p[0] as u32 + 7152 * p[1] as u32 + 722 * p[2] as u32) / 10000) as u8)
        .collect();
    assert_eq!(expected, vec![18, 54, 182, 18, 142, 1]);
    assert_eq!(to_grayscale(3, 2, rgba.clone()), Some(expected.clone()));
    assert_eq!(to_grayscale(2, 3, rgba.clone()), Some(expected));
    // The buffer must hold exactly four bytes per pixel.
    assert_eq!(to_grayscale(2, 2, rgba.clone()), None);
    assert_eq!(to_grayscale(1, 1, vec![1, 2, 3]), None);
    // A picture without pixels has an empty grayscale version.
    assert_eq!(to_grayscale(0, 5, vec![]), Some(vec![]));
    assert_eq!(to_grayscale(5, 0, vec![]), Some(vec![]));
    assert_eq!(to_grayscale(0, 1, vec![]), Some(vec![]));
}

#[test]
fn grayscale_names() {
    assert_eq!(grayscale_file_name("jpg"), "gs.jpg");
    assert_eq!(grayscale_file_name("png"), "gs.png");
    assert_eq!(grayscale_file_name(""), "gs.");
}
