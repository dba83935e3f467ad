//! GNOME: the settings that show a wallpaper, and the systemd user unit that
//! starts the program with the session.
use vstd::prelude::*;

use crate::api::distro::run;
use crate::command::ProcessCommand;
use crate::text::{append_str, ends_with_str, joined, join_strings, views};

verus! {

/// The values written to GNOME's settings: the colour scheme of
/// `org.gnome.desktop.interface` when there is one, and the picture address
/// given to both `picture-uri` and `picture-uri-dark` of
/// `org.gnome.desktop.background`.
#[derive(Clone, Debug)]
pub struct GnomeSettingsUpdate {
    pub color_scheme: Option<String>,
    pub picture_uri: String,
}

/// The settings that show the picture `file` with colour scheme `theme`.
pub fn change_wallpaper_gnome(file: &str, theme: Option<String>) -> (u: GnomeSettingsUpdate)
    ensures
        u.picture_uri@ == "file://"@ + file@,
        u.color_scheme == theme,
{
    let mut wp = String::new();
    append_str(&mut wp, "file://");
    append_str(&mut wp, file);
    GnomeSettingsUpdate { color_scheme: theme, picture_uri: wp }
}

/// `rel` added to the path `base` as `PathBuf::push` does on Unix for a
/// relative `rel`: with a `/` between them unless `base` is empty or
/// already ends with one.
pub open spec fn pushed(base: Seq<char>, rel: Seq<char>) -> Seq<char> {
    if base.len() == 0 || base.last() == '/' {
        base + rel
    } else {
        base + "/"@ + rel
    }
}

/// The directory of the user's systemd units under the home directory `home`.
pub fn get_systemd_unit_path(home: &str) -> (p: String)
    ensures
        p@ == pushed(home@, ".config/systemd/user/"@),
{
    let needs_sep = !home.is_empty() && !ends_with_str(home, "/");
    proof {
        reveal_strlit("/");
        assert("/"@ =~= seq!['/']);
        if home@.len() > 0 {
            assert(home@.subrange(home@.len() - 1, home@.len() as int) =~= seq![home@.last()]);
            if crate::text::has_suffix(home@, "/"@) {
                assert(seq![home@.last()][0] == seq!['/'][0]);
            }
            if home@.last() == '/' {
                assert(crate::text::has_suffix(home@, "/"@));
            }
        }
        assert(needs_sep == !(home@.len() == 0 || home@.last() == '/'));
    }
    let mut p = String::new();
    append_str(&mut p, home);
    if needs_sep {
        append_str(&mut p, "/");
    }
    append_str(&mut p, ".config/systemd/user/");
    p
}

/// The text of the unit file that starts `exe` with the arguments `args`
/// (already joined by spaces) with the graphical session.
pub open spec fn unit_text(exe: Seq<char>, args: Seq<char>) -> Seq<char> {
    " [Unit] \nDescription=Wallpaper Changer \nRequires=graphical-session.target \n\n [Service] \nEnvironment='RUST_LOG=info' \nExecStart="@
        + exe + " "@ + args
        + " \nRestart=on-failure \nRestartSec=30 \n\n [Install] \nWantedBy=default.target\n    "@
}

/// The unit file for starting `exe` with the session; `args` are the
/// program's arguments, its own name first, which the unit leaves out.
pub fn add_to_startup_gnome(exe: &str, args: Vec<String>) -> (text: String)
    requires
        args@.len() > 0,
    ensures
        text@ == unit_text(exe@, joined(views(args@.drop_first()), " "@)),
{
    let mut args = args;
    args.remove(0);
    let joined_args = join_strings(&args, " ");
    let mut text = String::new();
    append_str(
        &mut text,
        " [Unit] \nDescription=Wallpaper Changer \nRequires=graphical-session.target \n\n [Service] \nEnvironment='RUST_LOG=info' \nExecStart=",
    );
    append_str(&mut text, exe);
    append_str(&mut text, " ");
    append_str(&mut text, joined_args.as_str());
    append_str(
        &mut text,
        " \nRestart=on-failure \nRestartSec=30 \n\n [Install] \nWantedBy=default.target\n    ",
    );
    text
}

/// The `systemctl --user` invocation that applies `action` to the unit `wpc`.
pub fn systemctl_user(action: &str) -> (c: ProcessCommand)
    ensures
        c.program@ == "systemctl"@,
        views(c.args@) == seq!["--user"@, action@, "wpc"@],
{
    let args: [&str; 3] = ["--user", action, "wpc"];
    let c = run("systemctl", &args);
    assert(crate::api::distro::str_views(args@) =~= seq!["--user"@, action@, "wpc"@]);
    c
}

/// The outcome of enabling the unit, from the exit code of `systemctl`
/// (none when it was ended by a signal) and what it wrote: success whenever
/// there is an exit code, else the output as the error.
pub fn enable_unit_outcome(code: Option<i32>, stdout: String) -> (r: Result<bool, String>)
    ensures
        code is Some ==> r == Ok::<bool, String>(true),
        code is None ==> r == Err::<bool, String>(stdout),
{
    match code {
        Some(_) => Ok(true),
        None => Err(stdout),
    }
}

/// Whether disabling the unit succeeded, from the exit code of `systemctl`.
pub fn rm_startup(code: Option<i32>) -> (ok: bool)
    ensures
        ok == (code == Some(0i32)),
{
    match code {
        Some(c) => c == 0,
        None => false,
    }
}

} // verus!
