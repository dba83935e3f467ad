//! The settings of a run, and the adjustments made to them after the
//! command line has been read.
use vstd::prelude::*;

use crate::misc::secs_till_next_hour;
use crate::web::reddit::RedditSort;

verus! {

/// Which subreddit to read, and how.
#[derive(Clone, Debug, Default)]
pub struct RedditOptions {
    pub reddit: String,
    pub reddit_n: i64,
    pub reddit_sort: RedditSort,
    pub reddit_min_height: u32,
    pub reddit_min_width: u32,
}

/// How the desktop theme follows the wallpaper.
#[derive(Clone, Copy, Debug, Default)]
pub struct ThemeOptions {
    pub set_theme: bool,
    pub grayscale: bool,
    pub force_dark_theme: bool,
    /// The brightness threshold, rounded up to a whole number: a brightness
    /// score (itself a whole number) reaches the threshold exactly when it
    /// reaches this value.
    pub theme_th: i64,
    pub theme_dark_only: bool,
    pub theme_light_only: bool,
}

/// A value handed to the trigger command.
#[derive(Clone, Copy, Debug, PartialEq, Eq, Structural)]
pub enum TriggerArg {
    Grayscale,
    Brightness,
    ThemeDarkOnly,
    ThemeLightOnly,
}

/// The command run after each wallpaper change.
#[derive(Clone, Debug, Default)]
pub struct TriggerConfig {
    pub enabled: bool,
    pub bin: String,
    pub file: String,
    pub args: Vec<TriggerArg>,
}

/// The settings of a run.
#[derive(Clone, Debug)]
pub struct WPCSettings {
    pub directory: String,
    pub interval: u64,
    pub update: u64,
    pub maxage: i64,
    pub startup: bool,
    pub rm_startup: bool,
    pub background: bool,
    pub theme_options: ThemeOptions,
    pub trigger_config_file: Option<String>,
    pub trigger_config: TriggerConfig,
    pub wallhaven: bool,
    pub reddit: bool,
    pub reddit_options: RedditOptions,
    pub local: bool,
    pub dynamic_config_file: Option<String>,
    pub dynamic: bool,
}

/// The settings after adjustment, with `secs` seconds left until the next
/// full hour: local files are used when no web source is chosen; with a
/// dynamic configuration, both intervals become the time left in the hour.
pub open spec fn adjusted(cli: WPCSettings, secs: u64) -> WPCSettings {
    let local = if !cli.wallhaven && !cli.reddit {
        true
    } else {
        cli.local
    };
    let dynamic = cli.dynamic_config_file is Some;
    let update = if dynamic {
        secs
    } else {
        cli.update
    };
    let interval = if dynamic {
        secs
    } else {
        cli.interval
    };
    WPCSettings { local, dynamic, update, interval, ..cli }
}

/// Adjusts settings read from the command line, with `secs` seconds left
/// until the next full hour.
pub fn adjust_settings(cli: WPCSettings, secs: u64) -> (s: WPCSettings)
    ensures
        s == adjusted(cli, secs),
{
    let mut cli = cli;
    if !cli.wallhaven && !cli.reddit {
        cli.local = true;
    }
    match cli.dynamic_config_file {
        Some(_) => {
            cli.dynamic = true;
            cli.update = secs;
            cli.interval = cli.update;
        },
        None => cli.dynamic = false,
    }
    cli
}

/// Adjusts settings read from the command line. With a dynamic
/// configuration the clock is read for the time left until the next full
/// hour, a whole number of minutes between one and sixty.
pub fn parse(cli: WPCSettings) -> (s: WPCSettings)
    ensures
        cli.dynamic_config_file is None ==> s == adjusted(cli, cli.update),
        cli.dynamic_config_file is Some ==> exists|secs: u64|
            60 <= secs <= 3600 && secs % 60 == 0 && s == adjusted(cli, secs),
{
    if cli.dynamic_config_file.is_some() {
        let secs = secs_till_next_hour();
        adjust_settings(cli, secs)
    } else {
        let update = cli.update;
        adjust_settings(cli, update)
    }
}

/// Without a web source, wallpapers come from the local directory; with a
/// dynamic configuration, the program changes and refreshes at the same
/// pace, once per remaining hour.
pub proof fn lemma_adjusted_settings(cli: WPCSettings, secs: u64)
    ensures
        !cli.wallhaven && !cli.reddit ==> adjusted(cli, secs).local,
        cli.local ==> adjusted(cli, secs).local,
        adjusted(cli, secs).dynamic <==> cli.dynamic_config_file is Some,
        adjusted(cli, secs).dynamic ==> adjusted(cli, secs).update == adjusted(cli, secs).interval
            && adjusted(cli, secs).update == secs,
        adjusted(cli, secs).directory == cli.directory,
{
}

} // verus!
