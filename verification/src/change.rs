//! Setting a wallpaper without theme handling: through `gsettings` on GNOME,
//! through the Windows API.
use vstd::prelude::*;

use crate::api::distro::{run, str_views};
use crate::changer::windows::{wide, wide_path};
use crate::command::ProcessCommand;
use crate::text::{append_str, views};

verus! {

/// The `gsettings` invocation that shows the picture `file` on GNOME.
pub fn change_wallpaper_gnome(file: &str) -> (c: ProcessCommand)
    ensures
        c.program@ == "gsettings"@,
        views(c.args@) == seq![
            "set"@,
            "org.gnome.desktop.background"@,
            "picture-uri"@,
            "file://"@ + file@,
        ],
{
    let mut wp = String::new();
    append_str(&mut wp, "file://");
    append_str(&mut wp, file);
    let args: [&str; 4] = ["set", "org.gnome.desktop.background", "picture-uri", wp.as_str()];
    let c = run("gsettings", &args);
    assert(str_views(args@) =~= seq![
        "set"@,
        "org.gnome.desktop.background"@,
        "picture-uri"@,
        "file://"@ + file@,
    ]);
    c
}

/// The wide path that the Windows API takes to show the picture `file`.
pub fn change_wallpaper_windows(file: &str) -> (w: Vec<u16>)
    ensures
        w@ == wide(file@),
{
    wide_path(file)
}

} // verus!
