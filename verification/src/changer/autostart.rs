//! GNOME's autostart directory: a desktop entry that starts the program
//! with the session.
use vstd::prelude::*;

use crate::text::{append_str, join_strings, joined, views};

verus! {

/// The desktop entry that starts `exe` with the arguments `args` (already
/// joined by spaces).
pub open spec fn desktop_entry(exe: Seq<char>, args: Seq<char>) -> Seq<char> {
    "\n[Desktop Entry]\nType=Application\nName=WPC\nExec="@ + exe + " "@ + args
        + "\nIcon=\nComment=\nX-GNOME-Autostart-enabled=true\n"@
}

/// Where the desktop entry goes under the home directory `home`.
pub fn autostart_entry_path(home: &str) -> (p: String)
    ensures
        p@ == home@ + "/.config/autostart/wpc.desktop"@,
{
    let mut p = String::new();
    append_str(&mut p, home);
    append_str(&mut p, "/.config/autostart/wpc.desktop");
    p
}

/// The desktop entry for starting `exe` with the session; `args` are the
/// program's arguments, its own name first, which the entry leaves out.
pub fn add_to_startup_gnome(exe: &str, args: Vec<String>) -> (text: String)
    requires
        args@.len() > 0,
    ensures
        text@ == desktop_entry(exe@, joined(views(args@.drop_first()), " "@)),
{
    let mut args = args;
    args.remove(0);
    let joined_args = join_strings(&args, " ");
    let mut text = String::new();
    append_str(&mut text, "\n[Desktop Entry]\nType=Application\nName=WPC\nExec=");
    append_str(&mut text, exe);
    append_str(&mut text, " ");
    append_str(&mut text, joined_args.as_str());
    append_str(&mut text, "\nIcon=\nComment=\nX-GNOME-Autostart-enabled=true\n");
    text
}

} // verus!
