//! Changing the wallpaper and the desktop theme, and starting with the session.
use vstd::prelude::*;

use crate::settings::ThemeOptions;
use crate::text::{joined, owned, views};

pub mod autostart;
pub mod gnome;
pub mod windows;

verus! {

/// The platforms the program changes wallpapers on.
#[derive(Clone, Copy, Debug, PartialEq, Eq, Structural)]
pub enum Platform {
    Linux,
    Windows,
}

/// What to do with a new wallpaper: leave everything as it is, or set it,
/// with the colour scheme to switch to, if any.
#[derive(Clone, Debug)]
pub enum WallpaperChange {
    Skip,
    Apply { theme: Option<String> },
}

/// How a brightness score decides the change: without theme setting, the
/// wallpaper is set and the theme left alone; a bright picture (score at
/// least the threshold) asks for the light scheme, a dark one for the dark
/// scheme, and a picture of the wrong kind for a "dark only" or "light
/// only" setting is not shown at all.
pub open spec fn wallpaper_change_ok(score: int, options: ThemeOptions, c: WallpaperChange) -> bool {
    if !options.set_theme {
        c matches WallpaperChange::Apply { theme } && theme is None
    } else if score >= options.theme_th {
        if options.theme_dark_only {
            c is Skip
        } else {
            c matches WallpaperChange::Apply { theme } && theme matches Some(t) && t@ == "prefer-light"@
        }
    } else {
        if options.theme_light_only {
            c is Skip
        } else {
            c matches WallpaperChange::Apply { theme } && theme matches Some(t) && t@ == "prefer-dark"@
        }
    }
}

/// Decides how to apply a wallpaper whose brightness score is `brightness`.
pub fn change_wallpaper(brightness: i64, theme_options: ThemeOptions) -> (c: WallpaperChange)
    ensures
        wallpaper_change_ok(brightness as int, theme_options, c),
{
    let mut theme: Option<String> = None;
    if theme_options.set_theme {
        if brightness >= theme_options.theme_th {
            if theme_options.theme_dark_only {
                return WallpaperChange::Skip;
            }
            theme = Some(owned("prefer-light"));
        } else {
            if theme_options.theme_light_only {
                return WallpaperChange::Skip;
            }
            theme = Some(owned("prefer-dark"));
        }
    }
    WallpaperChange::Apply { theme }
}

/// With "dark only", a wallpaper is shown only together with the dark
/// scheme; with "light only", only together with the light scheme.
pub proof fn lemma_theme_only_settings(score: int, options: ThemeOptions, c: WallpaperChange)
    requires
        wallpaper_change_ok(score, options, c),
        options.set_theme,
    ensures
        options.theme_dark_only ==> (c matches WallpaperChange::Apply { theme } ==> (theme matches Some(
            t,
        ) && t@ == "prefer-dark"@)),
        options.theme_light_only ==> (c matches WallpaperChange::Apply { theme } ==> (theme matches Some(
            t,
        ) && t@ == "prefer-light"@)),
{
}

/// Without theme setting the desktop's colour scheme is never touched: for
/// every brightness score the wallpaper is set and no scheme is chosen.
pub proof fn lemma_theme_left_alone_without_set_theme(score: int, options: ThemeOptions, c: WallpaperChange)
    requires
        wallpaper_change_ok(score, options, c),
        !options.set_theme,
    ensures
        c matches WallpaperChange::Apply { theme } && theme is None,
{
}

/// A colour scheme is chosen exactly when theme setting is asked for, and it
/// follows the brightness: the light scheme exactly for a score at least the
/// threshold, the dark one below it. A wallpaper is skipped only when theme
/// setting is asked for and the picture is of the kind the setting excludes.
pub proof fn lemma_scheme_follows_brightness(score: int, options: ThemeOptions, c: WallpaperChange)
    requires
        wallpaper_change_ok(score, options, c),
    ensures
        c matches WallpaperChange::Apply { theme } ==> (theme is Some <==> options.set_theme),
        c matches WallpaperChange::Apply { theme } ==> (theme matches Some(t) ==> (t@ == "prefer-light"@
            <==> score >= options.theme_th)),
        c matches WallpaperChange::Apply { theme } ==> (theme matches Some(t) ==> (t@ == "prefer-dark"@
            <==> score < options.theme_th)),
        c is Skip ==> options.set_theme && ((options.theme_dark_only && score >= options.theme_th) || (
        options.theme_light_only && score < options.theme_th)),
{
    reveal_strlit("prefer-light");
    reveal_strlit("prefer-dark");
    assert("prefer-light"@[7] != "prefer-dark"@[7]);
    assert("prefer-light"@ != "prefer-dark"@);
    if let WallpaperChange::Apply { theme: Some(t) } = c {
        if score >= options.theme_th {
            assert(t@ == "prefer-light"@);
        } else {
            assert(t@ == "prefer-dark"@);
        }
    }
}

/// How the program starts with the session: a systemd user unit on Linux,
/// a value under the `Run` key of the registry on Windows.
#[derive(Clone, Debug)]
pub enum StartupEntry {
    SystemdUnit { text: String },
    RegistryRun { command: String },
}

/// The startup entry for `platform`, running `exe` with the program's
/// arguments `args` (as `get_wpc_args` prepared them, the program's name first).
pub fn add_to_startup(platform: Platform, exe: &str, args: Vec<String>) -> (e: StartupEntry)
    requires
        platform == Platform::Linux ==> args@.len() > 0,
    ensures
        platform == Platform::Linux ==> (e matches StartupEntry::SystemdUnit { text } && text@
            == gnome::unit_text(exe@, joined(views(args@.drop_first()), " "@))),
        platform == Platform::Windows ==> (e matches StartupEntry::RegistryRun { command }
            && command@ == joined(views(args@).push("--background"@), " "@)),
{
    match platform {
        Platform::Windows => StartupEntry::RegistryRun { command: windows::add_to_startup_reg(args) },
        Platform::Linux => StartupEntry::SystemdUnit { text: gnome::add_to_startup_gnome(exe, args) },
    }
}

} // verus!
