//! Windows: the wide path handed to `SystemParametersInfoW`, the theme
//! value written to the registry, and the startup command.
use vstd::prelude::*;

use crate::text::{encode_utf16, join_strings, joined, owned, same_text, utf16, utf16_of_char, views};

verus! {

/// A path as the Windows API takes it: its UTF-16 code units, then a zero.
pub open spec fn wide(path: Seq<char>) -> Seq<u16> {
    utf16(path).push(0u16)
}

/// The path `path` as a zero-terminated UTF-16 string.
pub fn wide_path(path: &str) -> (w: Vec<u16>)
    ensures
        w@ == wide(path@),
{
    let mut w = encode_utf16(path);
    w.push(0);
    w
}

/// What setting a wallpaper on Windows writes: the wide path of the
/// picture, and the `AppsUseLightTheme` value when a theme is chosen.
#[derive(Clone, Debug)]
pub struct WindowsWallpaperUpdate {
    pub wide_path: Vec<u16>,
    pub light_theme: Option<u32>,
}

/// The `AppsUseLightTheme` value for a colour scheme: 0 for `prefer-dark`,
/// 1 for any other.
pub open spec fn light_theme_value(theme: Seq<char>) -> u32 {
    if theme == "prefer-dark"@ {
        0
    } else {
        1
    }
}

/// What to write to show the picture `path` with colour scheme `theme`.
pub fn set_wallpaper_win(path: &str, theme: Option<String>) -> (u: WindowsWallpaperUpdate)
    ensures
        u.wide_path@ == wide(path@),
        theme is None ==> u.light_theme is None,
        theme matches Some(t) ==> u.light_theme == Some(light_theme_value(t@)),
{
    let light_theme = match theme {
        Some(t) => {
            if same_text(t.as_str(), "prefer-dark") {
                Some(0u32)
            } else {
                Some(1u32)
            }
        },
        None => None,
    };
    WindowsWallpaperUpdate { wide_path: wide_path(path), light_theme }
}

/// The command stored under the `Run` key: the program's arguments, its own
/// name first, followed by `--background`, joined by spaces.
pub fn add_to_startup_reg(args: Vec<String>) -> (cmd: String)
    ensures
        cmd@ == joined(views(args@).push("--background"@), " "@),
{
    let mut cmd = args;
    let ghost prev = views(cmd@);
    cmd.push(owned("--background"));
    assert(views(cmd@) =~= prev.push("--background"@));
    join_strings(&cmd, " ")
}

/// A joined list ends with its last item.
pub proof fn lemma_joined_ends_with_last(items: Seq<Seq<char>>, sep: Seq<char>)
    requires
        items.len() > 0,
    ensures
        crate::text::has_suffix(joined(items, sep), items.last()),
{
    let j = joined(items, sep);
    if items.len() == 1 {
        assert(j.subrange(0, j.len() as int) =~= j);
    } else {
        let pre = joined(items.drop_last(), sep) + sep;
        assert(j == pre + items.last());
        assert(j.subrange(pre.len() as int, j.len() as int) =~= items.last());
    }
}

/// The startup command always ends with `--background`: the started copy
/// runs without a window.
pub proof fn lemma_startup_command_runs_in_background(args: Seq<String>)
    ensures
        crate::text::has_suffix(joined(views(args).push("--background"@), " "@), "--background"@),
{
    lemma_joined_ends_with_last(views(args).push("--background"@), " "@);
}

/// For a path of characters below U+10000, the wide path has one unit per
/// character, equal to the character's value, and then the terminating zero.
pub proof fn lemma_wide_path_of_bmp_text(path: Seq<char>)
    requires
        forall|i: int| 0 <= i < path.len() ==> (#[trigger] path[i] as u32) < 0x10000,
    ensures
        wide(path).len() == path.len() + 1,
        forall|i: int| 0 <= i < path.len() ==> #[trigger] wide(path)[i] as u32 == path[i] as u32,
        wide(path)[path.len() as int] == 0,
{
    lemma_utf16_of_bmp_text(path);
}

proof fn lemma_utf16_of_bmp_text(path: Seq<char>)
    requires
        forall|i: int| 0 <= i < path.len() ==> (#[trigger] path[i] as u32) < 0x10000,
    ensures
        utf16(path).len() == path.len(),
        forall|i: int| 0 <= i < path.len() ==> #[trigger] utf16(path)[i] as u32 == path[i] as u32,
    decreases path.len(),
{
    if path.len() > 0 {
        let rest = path.drop_last();
        assert forall|i: int| 0 <= i < rest.len() implies (#[trigger] rest[i] as u32) < 0x10000 by {
            assert(rest[i] == path[i]);
        }
        lemma_utf16_of_bmp_text(rest);
        assert(path.last() as u32 == path[path.len() - 1] as u32);
        assert forall|i: int| 0 <= i < path.len() implies #[trigger] utf16(path)[i] as u32 == path[i] as u32 by {
            if i < rest.len() {
                assert(utf16(path)[i] == utf16(rest)[i]);
                assert(rest[i] == path[i]);
            }
        }
    }
}

proof fn lemma_utf16_nonzero(path: Seq<char>)
    requires
        forall|i: int| 0 <= i < path.len() ==> #[trigger] path[i] != '\0',
    ensures
        forall|k: int| 0 <= k < utf16(path).len() ==> #[trigger] utf16(path)[k] != 0,
    decreases path.len(),
{
    if path.len() > 0 {
        let rest = path.drop_last();
        assert forall|i: int| 0 <= i < rest.len() implies #[trigger] rest[i] != '\0' by {
            assert(rest[i] == path[i]);
        }
        lemma_utf16_nonzero(rest);
        let c = path.last();
        assert(c == path[path.len() - 1]);
        vstd::utf8::char_is_scalar(c);
        vstd::utf8::char_u32_cast(c, c as u32);
        let head = utf16(rest);
        let tail = utf16_of_char(c);
        assert forall|k: int| 0 <= k < tail.len() implies #[trigger] tail[k] != 0 by {
            if (c as u32) < 0x10000 {
                assert((c as u32) != 0u32) by {
                    if (c as u32) == 0u32 {
                        vstd::utf8::char_u32_cast('\0', 0u32);
                    }
                }
            }
        }
        assert(utf16(path) == head + tail);
        assert forall|k: int| 0 <= k < utf16(path).len() implies #[trigger] utf16(path)[k] != 0 by {
            if k < head.len() {
                assert(utf16(path)[k] == head[k]);
            } else {
                assert(utf16(path)[k] == tail[k - head.len()]);
            }
        }
    }
}

/// The wide path handed to the Windows API is terminated by a zero, and
/// when the path holds no NUL character that zero is its only one: the API
/// reads the whole path and nothing more.
pub proof fn lemma_wide_path_terminated(path: Seq<char>)
    ensures
        wide(path).len() > 0,
        wide(path).last() == 0,
        (forall|i: int| 0 <= i < path.len() ==> #[trigger] path[i] != '\0') ==> forall|k: int|
            0 <= k < wide(path).len() - 1 ==> #[trigger] wide(path)[k] != 0,
{
    if forall|i: int| 0 <= i < path.len() ==> #[trigger] path[i] != '\0' {
        lemma_utf16_nonzero(path);
        assert forall|k: int| 0 <= k < wide(path).len() - 1 implies #[trigger] wide(path)[k] != 0 by {
            assert(wide(path)[k] == utf16(path)[k]);
        }
    }
}

} // verus!
