//! The decisions of the main loop: when to reload the local pictures, when to
//! change the wallpaper and how long to rest after it, when to look for new
//! pictures, and how a dynamic configuration sets the pace. The application
//! runs the loop: it watches the directory, reads the clock, sleeps and fetches,
//! and hands each outcome back here.
use vstd::prelude::*;

use crate::misc::SingleConfig;
use crate::settings::{ThemeOptions, WPCSettings};

verus! {

/// The local pictures are listed again when the directory is used as a
/// source and the watcher has reported a change in it.
pub fn reload_due(local: bool, dir_changed: bool) -> (b: bool)
    ensures
        b == (local && dir_changed),
{
    local && dir_changed
}

/// The rest after a wallpaper change: with a candidate to change to, the
/// wallpaper changes and the loop rests for the change interval; with none,
/// nothing changes and the loop goes on at once.
pub fn change_pause(n_candidates: usize, interval: u64) -> (p: Option<u64>)
    ensures
        n_candidates > 0 ==> p == Some(interval),
        n_candidates == 0 ==> p is None,
{
    if n_candidates > 0 {
        Some(interval)
    } else {
        None
    }
}

/// Whether a refresh is due, `elapsed` seconds after the last one.
pub open spec fn refresh_is_due(elapsed: int, update: int, initial: bool) -> bool {
    elapsed >= update || initial
}

/// New pictures are looked for on the first pass, and afterwards once the
/// refresh interval has passed since the last refresh.
pub fn refresh_due(elapsed: u64, update: u64, initial: bool) -> (b: bool)
    ensures
        b == refresh_is_due(elapsed as int, update as int, initial),
{
    elapsed >= update || initial
}

/// The settings after a refresh has consulted a dynamic configuration: both
/// intervals become `secs`, the time left in the hour, and the theme follows
/// the chosen entry's dark mode where it has one.
pub open spec fn paced(s: WPCSettings, pick: Option<SingleConfig>, secs: u64) -> WPCSettings {
    let dark = match pick {
        Some(p) => match p.darkmode {
            Some(d) => d,
            None => s.theme_options.force_dark_theme,
        },
        None => s.theme_options.force_dark_theme,
    };
    WPCSettings {
        interval: secs,
        update: secs,
        theme_options: ThemeOptions { force_dark_theme: dark, ..s.theme_options },
        ..s
    }
}

/// The candidates with which a refresh starts, before the sources add what
/// they found. Without a dynamic configuration they are the current ones and
/// the settings stay as they are. With one, they are the path of the entry
/// chosen for this hour (none when no entry applies), and the settings are
/// paced by it, `secs` being the time left in the hour.
pub fn start_refresh(
    settings: &mut WPCSettings,
    candidates: Vec<String>,
    pick: Option<SingleConfig>,
    secs: u64,
) -> (r: Vec<String>)
    ensures
        !old(settings).dynamic ==> *final(settings) == *old(settings) && r@ == candidates@,
        old(settings).dynamic ==> *final(settings) == paced(*old(settings), pick, secs),
        old(settings).dynamic ==> r@ == (match pick {
            Some(p) => seq![p.path],
            None => Seq::<String>::empty(),
        }),
{
    if !settings.dynamic {
        return candidates;
    }
    let mut r: Vec<String> = Vec::new();
    match pick {
        Some(p) => {
            match p.darkmode {
                Some(d) => {
                    settings.theme_options.force_dark_theme = d;
                },
                None => {},
            }
            r.push(p.path);
        },
        None => {},
    }
    settings.update = secs;
    settings.interval = secs;
    r
}

/// The rest after a refresh: when no candidate is available, the loop rests
/// for the refresh interval before it tries again; otherwise it goes on.
pub fn refresh_pause(n_candidates: usize, update: u64) -> (p: Option<u64>)
    ensures
        n_candidates == 0 ==> p == Some(update),
        n_candidates > 0 ==> p is None,
{
    if n_candidates == 0 {
        Some(update)
    } else {
        None
    }
}

/// With a dynamic configuration the wallpaper changes and new pictures are
/// looked for at one pace: after a refresh both intervals are the time left
/// in the hour, and the next refresh falls due exactly when that time has
/// passed. Every other setting but the theme's dark mode stays as it was.
pub proof fn lemma_dynamic_pace(s: WPCSettings, pick: Option<SingleConfig>, secs: u64, elapsed: u64)
    requires
        s.dynamic,
    ensures
        paced(s, pick, secs).interval == paced(s, pick, secs).update,
        refresh_is_due(elapsed as int, paced(s, pick, secs).update as int, false) <==> elapsed >= secs,
        paced(s, pick, secs).directory == s.directory,
        paced(s, pick, secs).maxage == s.maxage,
        paced(s, pick, secs).local == s.local,
        paced(s, pick, secs).dynamic,
{
}

} // verus!
