use wpc::changer::autostart::{add_to_startup_gnome as desktop_entry, autostart_entry_path};
use wpc::change::{change_wallpaper_gnome as gsettings_wallpaper, change_wallpaper_windows};
use wpc::changer::gnome::{
    add_to_startup_gnome, change_wallpaper_gnome, enable_unit_outcome, get_systemd_unit_path,
    rm_startup, systemctl_user,
};
use wpc::changer::windows::{add_to_startup_reg, set_wallpaper_win, wide_path};
use wpc::changer::{add_to_startup, change_wallpaper, Platform, StartupEntry, WallpaperChange};
use wpc::settings::ThemeOptions;

fn strings(v: &[&str]) -> Vec<String> {
    v.iter().map(|s| s.to_string()).collect()
}

fn theme(set_theme: bool, th: i64, dark_only: bool, light_only: bool) -> ThemeOptions {
    ThemeOptions {
        set_theme,
        grayscale: false,
        force_dark_theme: false,
        theme_th: th,
        theme_dark_only: dark_only,
        theme_light_only: light_only,
    }
}

fn applied(c: WallpaperChange) -> Option<Option<String>> {
    match c {
        WallpaperChange::Skip => None,
        WallpaperChange::Apply { theme } => Some(theme),
    }
}

#[test]
fn theme_follows_brightness() {
    assert_eq!(applied(change_wallpaper(90, theme(false, 50, true, false))), Some(None));
    assert_eq!(applied(change_wallpaper(50, theme(true, 50, false, false))), Some(Some("prefer-light".to_string())));
    assert_eq!(applied(change_wallpaper(49, theme(true, 50, false, false))), Some(Some("prefer-dark".to_string())));
    assert_eq!(applied(change_wallpaper(80, theme(true, 50, true, false))), None);
    assert_eq!(applied(change_wallpaper(20, theme(true, 50, true, false))), Some(Some("prefer-dark".to_string())));
    assert_eq!(applied(change_wallpaper(20, theme(true, 50, false, true))), None);
    assert_eq!(applied(change_wallpaper(80, theme(true, 50, false, true))), Some(Some("prefer-light".to_string())));
}

#[test]
fn gnome_settings() {
    let u = change_wallpaper_gnome("/home/u/a.jpg", Some("prefer-dark".to_string()));
    assert_eq!(u.picture_uri, "file:///home/u/a.jpg");
    assert_eq!(u.color_scheme, Some("prefer-dark".to_string()));
    let c = gsettings_wallpaper("/home/u/a.jpg");
    assert_eq!(c.program, "gsettings");
    assert_eq!(c.args, strings(&["set", "org.gnome.desktop.background", "picture-uri", "file:///home/u/a.jpg"]));
}

#[test]
fn systemd_unit() {
    assert_eq!(get_systemd_unit_path("/home/u"), "/home/u/.config/systemd/user/");
    assert_eq!(get_systemd_unit_path("/home/u/"), "/home/u/.config/systemd/user/");
    assert_eq!(get_systemd_unit_path(""), ".config/systemd/user/");
    let text = add_to_startup_gnome("/usr/bin/wpc", strings(&["wpc", "-d", "/p", "-c", "60"]));
    let expected = " [Unit] \nDescription=Wallpaper Changer \nRequires=graphical-session.target \n\n [Service] \nEnvironment='RUST_LOG=info' \nExecStart=/usr/bin/wpc -d /p -c 60 \nRestart=on-failure \nRestartSec=30 \n\n [Install] \nWantedBy=default.target\n    ";
    assert_eq!(text, expected);
    let c = systemctl_user("enable");
    assert_eq!(c.program, "systemctl");
    assert_eq!(c.args, strings(&["--user", "enable", "wpc"]));
    assert_eq!(enable_unit_outcome(Some(1), "x".to_string()), Ok(true));
    assert_eq!(enable_unit_outcome(None, "out".to_string()), Err("out".to_string()));
    assert!(rm_startup(Some(0)));
    assert!(!rm_startup(Some(3)));
    assert!(!rm_startup(None));
}

#[test]
fn startup_entries() {
    match add_to_startup(Platform::Linux, "/bin/wpc", strings(&["wpc", "-d", "/p"])) {
        StartupEntry::SystemdUnit { text } => assert!(text.contains("\nExecStart=/bin/wpc -d /p \n")),
        _ => panic!("expected a unit"),
    }
    match add_to_startup(Platform::Windows, "C:\\wpc.exe", strings(&["C:\\wpc.exe", "-d", "C:\\p"])) {
        StartupEntry::RegistryRun { command } => assert_eq!(command, "C:\\wpc.exe -d C:\\p --background"),
        _ => panic!("expected a registry value"),
    }
    assert_eq!(add_to_startup_reg(vec![]), "--background");
}

#[test]
fn windows_wallpaper() {
    let u = set_wallpaper_win("C:\\a.jpg", Some("prefer-dark".to_string()));
    let mut expected: Vec<u16> = "C:\\a.jpg".encode_utf16().collect();
    expected.push(0);
    assert_eq!(u.wide_path, expected);
    assert_eq!(u.light_theme, Some(0));
    assert_eq!(set_wallpaper_win("x", Some("prefer-light".to_string())).light_theme, Some(1));
    assert_eq!(set_wallpaper_win("x", None).light_theme, None);
    assert_eq!(wide_path("\u{1F600}"), vec![0xD83D, 0xDE00, 0]);
    assert_eq!(change_wallpaper_windows("ab"), vec![97, 98, 0]);
}

#[test]
fn autostart_desktop_entry() {
    assert_eq!(autostart_entry_path("/home/u"), "/home/u/.config/autostart/wpc.desktop");
    assert_eq!(
        desktop_entry("/usr/bin/wpc", strings(&["wpc", "-d", "/p"])),
        "\n[Desktop Entry]\nType=Application\nName=WPC\nExec=/usr/bin/wpc -d /p\nIcon=\nComment=\nX-GNOME-Autostart-enabled=true\n"
    );
}
