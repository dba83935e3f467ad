//! The macOS wallpaper command.
use vstd::prelude::*;

use crate::api::distro::{enquote_str, enquoted, run, str_views};
use crate::command::ProcessCommand;
use crate::text::{append_str, views};

verus! {

/// The `osascript` invocation that has the Finder set the desktop picture to `path`.
pub fn set_from_path(path: &str) -> (c: ProcessCommand)
    ensures
        c.program@ == "osascript"@,
        views(c.args@) == seq![
            "-e"@,
            "tell application \"Finder\" to set desktop picture to POSIX file "@ + enquoted(
                '"',
                path@,
            ),
        ],
{
    let quoted = enquote_str('"', path);
    let mut script = String::new();
    append_str(&mut script, "tell application \"Finder\" to set desktop picture to POSIX file ");
    append_str(&mut script, quoted.as_str());
    let args: [&str; 2] = ["-e", script.as_str()];
    let c = run("osascript", &args);
    assert(str_views(args@) =~= seq![
        "-e"@,
        "tell application \"Finder\" to set desktop picture to POSIX file "@ + enquoted('"', path@),
    ]);
    c
}

} // verus!
