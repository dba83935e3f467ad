//! The KDE Plasma wallpaper command.
use vstd::prelude::*;

use super::{enquote_str, enquoted, run, str_views};
use crate::command::ProcessCommand;
use crate::text::{append_str, views};

verus! {

/// The Plasma shell script that sets `path` as the wallpaper of every desktop.
pub open spec fn kde_script(path: Seq<char>) -> Seq<char> {
    "\nconst monitors = desktops()\nfor (var i = 0; i < monitors.length; i++) {\n    monitors[i].currentConfigGroup = [\"Wallpaper\"]\n    monitors[i].writeConfig(\"Image\", "@
        + enquoted('"', "file://"@ + path) + ")\n}"@
}

/// The `qdbus` invocation that sets the wallpaper of KDE Plasma to `path`.
pub fn set(path: &str) -> (c: ProcessCommand)
    ensures
        c.program@ == "qdbus"@,
        views(c.args@) == seq![
            "org.kde.plasmashell"@,
            "/PlasmaShell"@,
            "org.kde.PlasmaShell.evaluateScript"@,
            kde_script(path@),
        ],
{
    let mut uri = String::new();
    append_str(&mut uri, "file://");
    append_str(&mut uri, path);
    let quoted = enquote_str('"', uri.as_str());
    let mut script = String::new();
    append_str(
        &mut script,
        "\nconst monitors = desktops()\nfor (var i = 0; i < monitors.length; i++) {\n    monitors[i].currentConfigGroup = [\"Wallpaper\"]\n    monitors[i].writeConfig(\"Image\", ",
    );
    append_str(&mut script, quoted.as_str());
    append_str(&mut script, ")\n}");
    let args: [&str; 4] = [
        "org.kde.plasmashell",
        "/PlasmaShell",
        "org.kde.PlasmaShell.evaluateScript",
        script.as_str(),
    ];
    let c = run("qdbus", &args);
    assert(str_views(args@) =~= seq![
        "org.kde.plasmashell"@,
        "/PlasmaShell"@,
        "org.kde.PlasmaShell.evaluateScript"@,
        kde_script(path@),
    ]);
    c
}

} // verus!
