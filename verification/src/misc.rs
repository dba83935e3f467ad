//! File lists, dynamic wallpapers, brightness, arguments and triggers.
use vstd::prelude::*;

use crate::clock::local_now;
use crate::command::ProcessCommand;
use crate::settings::{ThemeOptions, TriggerArg, TriggerConfig};
use crate::text::{
    after_last, after_last_char, append_str, bool_text, bool_to_string, contains_str, decimal_int,
    ends_with_str, has_infix, has_suffix, i64_to_string, lex_sorted, owned, same_text,
    sort_strings, views,
};

verus! {

// ---------------------------------------------------------------------------
// Dynamic configuration
// ---------------------------------------------------------------------------

/// One entry of a dynamic configuration: from `hour` on, show `path`.
#[derive(Clone, Debug)]
pub struct SingleConfig {
    pub hour: u32,
    pub path: String,
    pub darkmode: Option<bool>,
}

/// A dynamic configuration: wallpapers by hour of the day.
#[derive(Clone, Debug)]
pub struct DynamicConfig {
    pub configs: Vec<SingleConfig>,
}

// ---------------------------------------------------------------------------
// Watching the wallpaper directory
// ---------------------------------------------------------------------------

/// What the directory watcher reports.
#[derive(Clone, Copy, Debug, PartialEq, Eq, Structural)]
pub enum WatchEvent {
    Create,
    Remove,
    Rename,
    Other,
}

/// Whether an event from the directory watcher means the list of files
/// must be read again: a file was created, removed or renamed.
pub fn notify_event(event: WatchEvent) -> (refresh: bool)
    ensures
        refresh == (event == WatchEvent::Create || event == WatchEvent::Remove || event
            == WatchEvent::Rename),
{
    match event {
        WatchEvent::Create | WatchEvent::Remove | WatchEvent::Rename => true,
        WatchEvent::Other => false,
    }
}

// ---------------------------------------------------------------------------
// The program's own arguments
// ---------------------------------------------------------------------------

/// Arguments that a restarted copy of the program must not receive: the
/// startup and background flags, in their long and short forms.
pub open spec fn is_prohibited(a: Seq<char>) -> bool {
    a == "--startup"@ || a == "-s"@ || a == "-S"@ || a == "--background"@ || a == "-b"@
}

/// Options whose value is a path, made absolute before it is handed on.
pub open spec fn takes_path(a: Seq<char>) -> bool {
    a == "-d"@ || a == "--directory"@ || a == "--trigger"@ || a == "--dynamic"@
}

/// The arguments without the prohibited ones, in order.
pub open spec fn kept_args(args: Seq<String>) -> Seq<String>
    decreases args.len(),
{
    if args.len() == 0 {
        seq![]
    } else {
        kept_args(args.drop_last()) + if is_prohibited(args.last()@) {
            seq![]
        } else {
            seq![args.last()]
        }
    }
}

/// Position `i` holds the value of a path option. Positions are rewritten
/// from left to right, and a rewritten value (an absolute path) is never an
/// option itself.
pub open spec fn rewritten(args: Seq<String>, i: int) -> bool
    decreases i,
{
    if i <= 0 {
        false
    } else {
        takes_path(args[i - 1]@) && !rewritten(args, i - 1)
    }
}

/// The rewritten positions below `k`, ascending.
pub open spec fn rewritten_below(args: Seq<String>, k: int) -> Seq<usize>
    decreases k,
{
    if k <= 0 {
        seq![]
    } else {
        rewritten_below(args, k - 1) + if rewritten(args, k - 1) {
            seq![(k - 1) as usize]
        } else {
            seq![]
        }
    }
}

/// A path option stands last, with no value after it.
pub open spec fn value_missing(args: Seq<String>) -> bool {
    args.len() > 0 && rewritten(args, args.len() as int)
}

pub fn is_prohibited_arg(a: &str) -> (b: bool)
    ensures
        b == is_prohibited(a@),
{
    same_text(a, "--startup") || same_text(a, "-s") || same_text(a, "-S") || same_text(a, "--background")
        || same_text(a, "-b")
}

pub fn takes_path_arg(a: &str) -> (b: bool)
    ensures
        b == takes_path(a@),
{
    same_text(a, "-d") || same_text(a, "--directory") || same_text(a, "--trigger")
        || same_text(a, "--dynamic")
}

/// The program's arguments as a restarted copy receives them: without the
/// prohibited ones, and with the positions whose values must be made
/// absolute. `None` when a path option stands last with no value.
pub fn get_wpc_args(args: Vec<String>) -> (r: Option<(Vec<String>, Vec<usize>)>)
    ensures
        r is None <==> value_missing(kept_args(args@)),
        r matches Some((kept, positions)) ==> {
            &&& kept@ == kept_args(args@)
            &&& positions@ == rewritten_below(kept@, kept@.len() as int)
        },
{
    let n = args.len();
    let mut kept: Vec<String> = Vec::new();
    let mut i: usize = 0;
    while i < n
        invariant
            n == args@.len(),
            i <= n,
            kept@ == kept_args(args@.take(i as int)),
        decreases n - i,
    {
        assert(args@.take(i + 1).drop_last() =~= args@.take(i as int));
        if !is_prohibited_arg(args[i].as_str()) {
            kept.push(args[i].clone());
        }
        assert(kept@ =~= kept_args(args@.take(i + 1)));
        i = i + 1;
    }
    assert(args@.take(n as int) =~= args@);
    let m = kept.len();
    let mut positions: Vec<usize> = Vec::new();
    let mut cur: bool = false;
    let mut k: usize = 0;
    while k < m
        invariant
            m == kept@.len(),
            k <= m,
            positions@ == rewritten_below(kept@, k as int),
            cur == rewritten(kept@, k as int),
        decreases m - k,
    {
        if cur {
            positions.push(k);
        }
        assert(positions@ =~= rewritten_below(kept@, k + 1));
        cur = takes_path_arg(kept[k].as_str()) && !cur;
        k = k + 1;
    }
    if m > 0 && cur {
        return None;
    }
    Some((kept, positions))
}

/// The arguments of a copy of the program started in the background: all
/// but the first (the program's own name).
pub fn run_in_background(args: Vec<String>) -> (r: Vec<String>)
    requires
        args@.len() > 0,
    ensures
        r@ == args@.drop_first(),
{
    let mut args = args;
    args.remove(0);
    args
}

// ---------------------------------------------------------------------------
// Wallpaper files
// ---------------------------------------------------------------------------

/// The names under which downloaded wallpapers are saved: the last
/// `/`-separated piece of each address, in order.
pub fn wallpaper_file_names(urls: &Vec<String>) -> (names: Vec<String>)
    ensures
        names@.len() == urls@.len(),
        forall|i: int| 0 <= i < urls@.len() ==> #[trigger] names@[i]@ == after_last(urls@[i]@, '/'),
{
    let n = urls.len();
    let mut names: Vec<String> = Vec::new();
    let mut i: usize = 0;
    while i < n
        invariant
            n == urls@.len(),
            i <= n,
            names@.len() == i,
            forall|j: int| 0 <= j < i ==> #[trigger] names@[j]@ == after_last(urls@[j]@, '/'),
        decreases n - i,
    {
        names.push(after_last_char(urls[i].as_str(), '/'));
        i = i + 1;
    }
    names
}

/// A file name that the program shows: a PNG or JPEG picture by its extension.
pub open spec fn is_image_name(f: Seq<char>) -> bool {
    has_suffix(f, ".png"@) || has_suffix(f, ".jpg"@) || has_suffix(f, ".jpeg"@)
}

/// The picture files among `files`, in order.
pub open spec fn image_files(files: Seq<String>) -> Seq<String>
    decreases files.len(),
{
    if files.len() == 0 {
        seq![]
    } else {
        image_files(files.drop_last()) + if is_image_name(files.last()@) {
            seq![files.last()]
        } else {
            seq![]
        }
    }
}

/// The picture files among `files`, in order.
pub fn filter_image_files(files: Vec<String>) -> (r: Vec<String>)
    ensures
        r@ == image_files(files@),
{
    let n = files.len();
    let mut r: Vec<String> = Vec::new();
    let mut i: usize = 0;
    while i < n
        invariant
            n == files@.len(),
            i <= n,
            r@ == image_files(files@.take(i as int)),
        decreases n - i,
    {
        assert(files@.take(i + 1).drop_last() =~= files@.take(i as int));
        let f = files[i].as_str();
        if ends_with_str(f, ".png") || ends_with_str(f, ".jpg") || ends_with_str(f, ".jpeg") {
            r.push(files[i].clone());
        }
        assert(r@ =~= image_files(files@.take(i + 1)));
        i = i + 1;
    }
    assert(files@.take(n as int) =~= files@);
    r
}

// ---------------------------------------------------------------------------
// Age of files
// ---------------------------------------------------------------------------

/// The moment before which files count as too old: `maxage` hours before `now`.
pub open spec fn age_limit(now: int, maxage: int) -> int {
    now - maxage * 3600
}

/// The files among the first `k` whose creation time is not before `limit`,
/// in order. A limit before the epoch keeps them all.
pub open spec fn young_files(files: Seq<String>, created: Seq<u64>, limit: int, k: int) -> Seq<String>
    decreases k,
{
    if k <= 0 {
        seq![]
    } else {
        young_files(files, created, limit, k - 1) + if limit > created[k - 1] {
            seq![]
        } else {
            seq![files[k - 1]]
        }
    }
}

/// What the age filter keeps of `files` at time `now`: everything when
/// `maxage` is -1, else the files created no earlier than `maxage` hours
/// before `now` (all of them when that moment is before the epoch).
pub open spec fn age_filtered(files: Seq<String>, created: Seq<u64>, now: int, maxage: int) -> Seq<String> {
    if maxage == -1 {
        files
    } else {
        young_files(files, created, age_limit(now, maxage), files.len() as int)
    }
}

/// `maxage` hours fit in an `i64` count of seconds.
pub open spec fn maxage_in_range(maxage: int) -> bool {
    i64::MIN <= maxage * 3600 <= i64::MAX
}

/// The files that are at most `maxage` hours old at time `now` (seconds
/// since the epoch), given their creation times; all of them when `maxage` is -1.
pub fn maxage_filter_at(file_list: Vec<String>, created: &Vec<u64>, now: i64, maxage: i64) -> (r: Vec<String>)
    requires
        created@.len() == file_list@.len(),
        maxage == -1 || (maxage_in_range(maxage as int) && i64::MIN <= age_limit(now as int, maxage as int) <= i64::MAX),
    ensures
        r@ == age_filtered(file_list@, created@, now as int, maxage as int),
{
    if maxage == -1 {
        return file_list;
    }
    let maxage_time: i64 = now - maxage * 60 * 60;
    let limit: i128 = maxage_time as i128;
    let n = file_list.len();
    let mut filtered: Vec<String> = Vec::new();
    let mut i: usize = 0;
    while i < n
        invariant
            n == file_list@.len(),
            n == created@.len(),
            i <= n,
            limit == age_limit(now as int, maxage as int),
            filtered@ == young_files(file_list@, created@, limit as int, i as int),
        decreases n - i,
    {
        if !(limit > created[i] as i128) {
            filtered.push(file_list[i].clone());
        }
        i = i + 1;
    }
    filtered
}

/// The files that are at most `maxage` hours old by the local clock, given
/// their creation times; all of them when `maxage` is -1. The clock reads
/// a time since the epoch. Succeeds for every `maxage` from -1 on; `None`
/// only for a negative `maxage` whose limit, that many hours after the
/// clock's reading, leaves the range of an `i64`.
pub fn maxage_filter(file_list: Vec<String>, created: &Vec<u64>, maxage: i64) -> (r: Option<Vec<String>>)
    requires
        created@.len() == file_list@.len(),
        maxage_in_range(maxage as int),
    ensures
        maxage == -1 ==> r == Some(file_list),
        maxage >= -1 ==> r is Some,
        file_list@.len() == 0 ==> (r matches Some(v) && v@.len() == 0),
        r matches Some(v) ==> exists|now: i64|
            now >= 0 && v@ == age_filtered(file_list@, created@, now as int, maxage as int),
        r is None ==> maxage < -1 && exists|now: i64|
            now >= 0 && !(i64::MIN <= #[trigger] age_limit(now as int, maxage as int) <= i64::MAX),
{
    if maxage == -1 || file_list.len() == 0 {
        assert(file_list@ =~= age_filtered(file_list@, created@, 0, maxage as int));
        return Some(file_list);
    }
    let now = local_now().timestamp;
    let limit: i128 = now as i128 - (maxage as i128) * 3600;
    if limit < i64::MIN as i128 || limit > i64::MAX as i128 {
        assert(!(i64::MIN <= age_limit(now as int, maxage as int) <= i64::MAX));
        return None;
    }
    let r = maxage_filter_at(file_list, created, now, maxage);
    Some(r)
}

/// The picture files of a directory listing that pass the age filter.
/// `None` when the age filter cannot compare (see `maxage_filter`).
pub fn update_file_list(file_list: Vec<String>, created: &Vec<u64>, maxage: i64) -> (r: Option<Vec<String>>)
    requires
        created@.len() == file_list@.len(),
        maxage_in_range(maxage as int),
    ensures
        maxage == -1 ==> (r matches Some(v) && v@ == image_files(file_list@)),
        maxage >= -1 ==> r is Some,
        r matches Some(v) ==> exists|now: i64|
            now >= 0 && v@ == image_files(age_filtered(file_list@, created@, now as int, maxage as int)),
        r is None ==> maxage < -1 && exists|now: i64|
            now >= 0 && !(i64::MIN <= #[trigger] age_limit(now as int, maxage as int) <= i64::MAX),
{
    let files = if maxage != -1 {
        match maxage_filter(file_list, created, maxage) {
            Some(f) => f,
            None => return None,
        }
    } else {
        file_list
    };
    let r = filter_image_files(files);
    proof {
        if maxage == -1 {
            assert(r@ == image_files(age_filtered(file_list@, created@, 0i64 as int, maxage as int)));
        }
    }
    Some(r)
}

// ---------------------------------------------------------------------------
// Pictures
// ---------------------------------------------------------------------------

/// Whether a picture of `dimensions` (width, height) is at least `height`
/// high and `width` wide, where those are given.
pub fn is_image_min_dim(dimensions: (u32, u32), height: Option<u32>, width: Option<u32>) -> (b: bool)
    ensures
        b == ((height matches Some(h) ==> dimensions.1 >= h) && (width matches Some(w)
            ==> dimensions.0 >= w)),
{
    let (i_width, i_height) = dimensions;
    if let Some(h) = height {
        if i_height < h {
            return false;
        }
    }
    if let Some(w) = width {
        if i_width < w {
            return false;
        }
    }
    true
}

/// Whether the desktop session is GNOME: its name mentions `gnome`.
pub fn is_linux_gnome_de(desktop_session: &str) -> (b: bool)
    ensures
        b == has_infix(desktop_session@, "gnome"@),
{
    contains_str(desktop_session, "gnome")
}

/// The luma of a pixel by the sRGB weights (0.2126, 0.7152, 0.0722), rounded
/// down; alpha plays no part.
pub open spec fn luma(r: u8, g: u8, b: u8) -> int {
    (2126 * r + 7152 * g + 722 * b) / 10000
}

/// The grayscale picture of the first `n` pixels of an RGBA buffer: one luma
/// byte per pixel, in the same order.
pub open spec fn grayscale_of(rgba: Seq<u8>, n: int) -> Seq<u8> {
    Seq::new(n as nat, |i: int| luma(rgba[4 * i], rgba[4 * i + 1], rgba[4 * i + 2]) as u8)
}

/// `image::imageops::grayscale` on the RGBA picture `rgba` of `width` by
/// `height` pixels, stored row by row. The crate's source takes each pixel's
/// luma as `(2126 r + 7152 g + 722 b) / 10000` in `u32` arithmetic (never above
/// 255), writes it at the pixel's place in a new buffer of one byte per
/// pixel, and drops alpha. `ImageBuffer::from_raw` accepts the buffer because
/// its length is exactly four bytes per pixel. The crate's pixel iterator
/// panics on a picture of width 0 and two or more rows, which `requires`
/// leaves out.
#[verifier::external_body]
fn grayscale_pixels(width: u32, height: u32, rgba: Vec<u8>) -> (gray: Vec<u8>)
    requires
        rgba@.len() == 4 * (width as int) * (height as int),
        width > 0 || height <= 1,
    ensures
        gray@ == grayscale_of(rgba@, (width as int) * (height as int)),
{
    let img: image::RgbaImage = image::ImageBuffer::from_raw(width, height, rgba).unwrap();
    image::imageops::grayscale(&img).into_raw()
}

/// The grayscale version of a wallpaper of `width` by `height` pixels, given
/// as RGBA bytes row by row: one luma byte per pixel. `None` when the buffer
/// does not hold exactly four bytes per pixel.
pub fn to_grayscale(width: u32, height: u32, rgba: Vec<u8>) -> (r: Option<Vec<u8>>)
    ensures
        r is Some <==> rgba@.len() == 4 * (width as int) * (height as int),
        r matches Some(gray) ==> gray@ == grayscale_of(rgba@, (width as int) * (height as int)),
{
    assert(4 * (width as int) * (height as int) <= 4 * 0xffff_ffffint * 0xffff_ffffint) by (nonlinear_arith)
        requires
            width <= 0xffff_ffff,
            height <= 0xffff_ffff,
    ;
    let expected: u128 = 4 * (width as u128) * (height as u128);
    if rgba.len() as u128 != expected {
        return None;
    }
    if width == 0 {
        assert((width as int) * (height as int) == 0) by (nonlinear_arith)
            requires
                width == 0,
        ;
        assert(grayscale_of(rgba@, 0) =~= Seq::<u8>::empty());
        return Some(Vec::new());
    }
    Some(grayscale_pixels(width, height, rgba))
}

/// The name of the grayscale copy of a wallpaper whose file extension is `ext`.
pub fn grayscale_file_name(ext: &str) -> (n: String)
    ensures
        n@ == "gs."@ + ext@,
{
    let mut n = String::new();
    append_str(&mut n, "gs.");
    append_str(&mut n, ext);
    n
}

/// The sum of the red, green and blue values of the first `k` pixels of an
/// RGBA buffer.
pub open spec fn rgb_sum(px: Seq<u8>, k: int) -> int
    decreases k,
{
    if k <= 0 {
        0
    } else {
        rgb_sum(px, k - 1) + px[4 * (k - 1)] + px[4 * (k - 1) + 1] + px[4 * (k - 1) + 2]
    }
}

/// The brightness of an RGBA picture, from 0 to 100: the mean of the summed
/// colour values per pixel, as a percentage of its largest possible value
/// (765), rounded down at each division.
pub open spec fn brightness(px: Seq<u8>) -> int {
    let n = px.len() / 4;
    let mean = rgb_sum(px, n as int) / (n as int);
    if mean == 0 {
        0
    } else {
        mean * 100 / 765
    }
}

proof fn lemma_rgb_sum_bounds(px: Seq<u8>, k: int)
    requires
        0 <= k,
        4 * k <= px.len(),
    ensures
        0 <= rgb_sum(px, k) <= 765 * k,
    decreases k,
{
    if k > 0 {
        lemma_rgb_sum_bounds(px, k - 1);
    }
}

/// The brightness score of a picture, given its pixels as RGBA bytes.
pub fn brighness_score(rgba: &Vec<u8>) -> (score: i64)
    requires
        rgba@.len() % 4 == 0,
        rgba@.len() >= 4,
        (rgba@.len() / 4) * 765 <= i64::MAX,
    ensures
        score == brightness(rgba@),
        0 <= score <= 100,
{
    let bytes = rgba.len();
    let len = bytes / 4;
    let mut total: i64 = 0;
    let mut k: usize = 0;
    while k < len
        invariant
            bytes == rgba@.len(),
            len == rgba@.len() / 4,
            rgba@.len() % 4 == 0,
            len * 765 <= i64::MAX,
            k <= len,
            total == rgb_sum(rgba@, k as int),
        decreases len - k,
    {
        proof {
            lemma_rgb_sum_bounds(rgba@, k as int);
        }
        assert(4 * k + 3 < bytes) by (nonlinear_arith)
            requires
                k < len,
                len == bytes / 4,
        ;
        total = total + rgba[4 * k] as i64;
        total = total + rgba[4 * k + 1] as i64;
        total = total + rgba[4 * k + 2] as i64;
        k = k + 1;
    }
    proof {
        lemma_rgb_sum_bounds(rgba@, len as int);
        vstd::arithmetic::div_mod::lemma_div_is_ordered(total as int, 765 * len, len as int);
        vstd::arithmetic::div_mod::lemma_div_multiples_vanish(765, len as int);
        assert(765 * len == len * 765);
    }
    let mean = total / (len as i64);
    if mean == 0 {
        return 0;
    }
    mean * 100 / (255 * 3)
}

/// Asks the thread's random number generator for a number below `len_max`.
/// Calls `rand::Rng::gen_range(0, len_max)` on `rand::thread_rng()`, which
/// its documentation says returns a value in `[0, len_max)` and panics when
/// `len_max` is 0 (left out by `requires`). Which value comes is chance.
#[verifier::external_body]
fn random_below(len_max: usize) -> (r: usize)
    requires
        len_max > 0,
    ensures
        r < len_max,
{
    rand::Rng::gen_range(&mut rand::thread_rng(), 0, len_max)
}

/// A random position in a list of `len_max` items.
pub fn random_n(len_max: usize) -> (r: usize)
    requires
        len_max > 0,
    ensures
        r < len_max,
{
    if len_max == 1 {
        return 0;
    }
    random_below(len_max)
}

// ---------------------------------------------------------------------------
// Dynamic wallpapers
// ---------------------------------------------------------------------------

/// The hours between neighbouring entries of a generated configuration of
/// `n` pictures: 23 divided by `n`, but at least one.
pub open spec fn hour_step(n: int) -> int {
    if 23int / n < 1 {
        1
    } else {
        23int / n
    }
}

/// `configs` is the configuration generated from `files`: the same
/// pictures in lexicographic order, the `i`-th shown from hour
/// `i * hour_step(n)` on (as a `u32`), none of them dark.
pub open spec fn generated_from(files: Seq<String>, configs: Seq<SingleConfig>) -> bool {
    let paths = configs.map_values(|c: SingleConfig| c.path);
    &&& configs.len() == files.len()
    &&& lex_sorted(views(paths))
    &&& paths.to_multiset() == files.to_multiset()
    &&& forall|i: int|
        0 <= i < configs.len() ==> (#[trigger] configs[i]).hour == (i * hour_step(
            files.len() as int,
        )) as u32 && configs[i].darkmode == Some(false)
}

proof fn lemma_step_bound(n: int, i: int)
    requires
        n > 0,
        0 <= i < n,
    ensures
        1 <= hour_step(n) <= 23,
        (i + 1) * hour_step(n) <= if n <= 23 { 23 } else { n },
{
    if n > 23 {
        assert(23int / n == 0) by (nonlinear_arith)
            requires
                n > 23,
        ;
    } else {
        assert(23int / n >= 1) by (nonlinear_arith)
            requires
                0 < n <= 23,
        ;
        assert((i + 1) * (23int / n) <= 23) by (nonlinear_arith)
            requires
                0 <= i < n,
                n > 0,
        {
            assert((i + 1) * (23int / n) <= n * (23int / n));
        }
    }
}

/// The configuration generated from the pictures of a directory that has
/// none: sorted, spread over the day from midnight on.
pub fn generate_dynamic_config(files: Vec<String>) -> (config: DynamicConfig)
    requires
        files@.len() > 0,
    ensures
        generated_from(files@, config.configs@),
{
    let sorted = sort_strings(files);
    let n = sorted.len();
    let mut interval: usize = 23 / n;
    if interval < 1 {
        interval = 1;
    }
    let mut hour: usize = 0;
    let mut generated: Vec<SingleConfig> = Vec::new();
    let mut i: usize = 0;
    while i < n
        invariant
            n == sorted@.len(),
            n > 0,
            interval == hour_step(n as int),
            i <= n,
            hour == i * interval,
            generated@.len() == i,
            forall|k: int| 0 <= k < i ==> (#[trigger] generated@[k]).path == sorted@[k],
            forall|k: int|
                0 <= k < i ==> (#[trigger] generated@[k]).hour == (k * hour_step(n as int)) as u32
                    && generated@[k].darkmode == Some(false),
        decreases n - i,
    {
        proof {
            lemma_step_bound(n as int, i as int);
            assert((i + 1) * interval == i * interval + interval) by (nonlinear_arith);
        }
        let c = SingleConfig { hour: hour as u32, path: sorted[i].clone(), darkmode: Some(false) };
        generated.push(c);
        hour = hour + interval;
        i = i + 1;
    }
    let ghost paths = generated@.map_values(|c: SingleConfig| c.path);
    assert(paths =~= sorted@);
    DynamicConfig { configs: generated }
}

/// The position of the last of the first `k` entries that applies at `hour`
/// and whose picture was found, or -1.
pub open spec fn last_fit(configs: Seq<SingleConfig>, hour: u32, resolved: Seq<Option<String>>, k: int) -> int
    decreases k,
{
    if k <= 0 {
        -1
    } else if configs[k - 1].hour <= hour && resolved[k - 1] is Some {
        k - 1
    } else {
        last_fit(configs, hour, resolved, k - 1)
    }
}

/// The entry chosen among the first `k` at `hour`: the last one whose hour
/// has come and whose picture exists, with the picture's full path.
pub open spec fn chosen_below(configs: Seq<SingleConfig>, hour: u32, resolved: Seq<Option<String>>, k: int) -> Option<SingleConfig> {
    let i = last_fit(configs, hour, resolved, k);
    if i < 0 {
        None
    } else {
        Some(SingleConfig { hour: configs[i].hour, path: resolved[i]->0, darkmode: configs[i].darkmode })
    }
}

pub open spec fn chosen(configs: Seq<SingleConfig>, hour: u32, resolved: Seq<Option<String>>) -> Option<SingleConfig> {
    chosen_below(configs, hour, resolved, configs.len() as int)
}

/// The entry of a dynamic configuration to show at `hour`. `resolved[i]` is
/// the full path of the picture of entry `i` when that picture exists.
pub fn select_dynamic_config(configs: &Vec<SingleConfig>, hour: u32, resolved: &Vec<Option<String>>) -> (wp: Option<SingleConfig>)
    requires
        resolved@.len() == configs@.len(),
    ensures
        wp == chosen(configs@, hour, resolved@),
{
    let n = configs.len();
    let mut wp: Option<SingleConfig> = None;
    let mut i: usize = 0;
    while i < n
        invariant
            n == configs@.len(),
            n == resolved@.len(),
            i <= n,
            wp == chosen_below(configs@, hour, resolved@, i as int),
        decreases n - i,
    {
        if configs[i].hour <= hour {
            if let Some(p) = &resolved[i] {
                wp = Some(SingleConfig { hour: configs[i].hour, path: p.clone(), darkmode: configs[i].darkmode });
            }
        }
        i = i + 1;
    }
    wp
}

/// The entry of a dynamic configuration to show now, by the hour of the
/// local clock. `resolved[i]` is the full path of the picture of entry `i`
/// when that picture exists.
pub fn get_dynamic_wp(config: &DynamicConfig, resolved: &Vec<Option<String>>) -> (wp: Option<SingleConfig>)
    requires
        resolved@.len() == config.configs@.len(),
    ensures
        exists|h: u32| h < 24 && wp == chosen(config.configs@, h, resolved@),
{
    let t = local_now();
    select_dynamic_config(&config.configs, t.hour, resolved)
}

// ---------------------------------------------------------------------------
// Trigger command
// ---------------------------------------------------------------------------

/// The text handed to the trigger command for `arg`.
pub open spec fn trigger_value(arg: TriggerArg, brightness: Option<i64>, options: ThemeOptions) -> Seq<char> {
    match arg {
        TriggerArg::Brightness => decimal_int(brightness->0 as int),
        TriggerArg::Grayscale => bool_text(options.grayscale),
        TriggerArg::ThemeDarkOnly => bool_text(options.theme_dark_only),
        TriggerArg::ThemeLightOnly => bool_text(options.theme_light_only),
    }
}

/// The text handed to the trigger command for `arg`; `brightness` is the
/// brightness score of the new wallpaper, needed for `Brightness`.
pub fn map_trigger_arg_values(arg: TriggerArg, brightness: Option<i64>, theme_options: &ThemeOptions) -> (v: String)
    requires
        arg == TriggerArg::Brightness ==> brightness is Some,
    ensures
        v@ == trigger_value(arg, brightness, *theme_options),
{
    match arg {
        TriggerArg::Brightness => i64_to_string(brightness.unwrap()),
        TriggerArg::Grayscale => bool_to_string(theme_options.grayscale),
        TriggerArg::ThemeDarkOnly => bool_to_string(theme_options.theme_dark_only),
        TriggerArg::ThemeLightOnly => bool_to_string(theme_options.theme_light_only),
    }
}

/// The texts handed to the trigger command for `args`, in order.
pub open spec fn trigger_values(args: Seq<TriggerArg>, brightness: Option<i64>, options: ThemeOptions) -> Seq<Seq<char>>
    decreases args.len(),
{
    if args.len() == 0 {
        seq![]
    } else {
        trigger_values(args.drop_last(), brightness, options).push(
            trigger_value(args.last(), brightness, options),
        )
    }
}

/// The trigger command wants the brightness of the wallpaper.
pub open spec fn wants_brightness(config: TriggerConfig) -> bool {
    exists|k: int| 0 <= k < config.args@.len() && config.args@[k] == TriggerArg::Brightness
}

/// The command to run after a wallpaper change, if the trigger is enabled:
/// its program, then its file and the values of its arguments in order.
pub fn run_trigger(brightness: Option<i64>, theme_options: &ThemeOptions, config: &TriggerConfig) -> (c: Option<ProcessCommand>)
    requires
        config.enabled && wants_brightness(*config) ==> brightness is Some,
    ensures
        !config.enabled ==> c is None,
        config.enabled ==> (c matches Some(cmd) && {
            &&& cmd.program@ == config.bin@
            &&& views(cmd.args@) == seq![config.file@] + trigger_values(
                config.args@,
                brightness,
                *theme_options,
            )
        }),
{
    if !config.enabled {
        return None;
    }
    let mut args: Vec<String> = Vec::new();
    args.push(owned(config.file.as_str()));
    let n = config.args.len();
    let mut i: usize = 0;
    while i < n
        invariant
            n == config.args@.len(),
            i <= n,
            wants_brightness(*config) ==> brightness is Some,
            views(args@) == seq![config.file@] + trigger_values(
                config.args@.take(i as int),
                brightness,
                *theme_options,
            ),
        decreases n - i,
    {
        let arg = config.args[i];
        let v = map_trigger_arg_values(arg, brightness, theme_options);
        let ghost prev = views(args@);
        args.push(v);
        assert(views(args@) =~= prev.push(v@));
        assert(config.args@.take(i + 1).last() == arg);
        assert(config.args@.take(i + 1).drop_last() =~= config.args@.take(i as int));
        assert(views(args@) =~= seq![config.file@] + trigger_values(
            config.args@.take(i + 1),
            brightness,
            *theme_options,
        ));
        i = i + 1;
    }
    assert(config.args@.take(n as int) =~= config.args@);
    Some(ProcessCommand { program: owned(config.bin.as_str()), args })
}

// ---------------------------------------------------------------------------
// Laws
// ---------------------------------------------------------------------------
/// Each flag handed to the trigger command reports its own option and
/// nothing else: its text is `true` exactly when that option is set and
/// `false` otherwise, whatever the other options and the brightness are.
pub proof fn lemma_trigger_flags_report_their_option(
    b1: Option<i64>,
    b2: Option<i64>,
    o1: ThemeOptions,
    o2: ThemeOptions,
)
    ensures
        trigger_value(TriggerArg::Grayscale, b1, o1) == bool_text(o1.grayscale),
        trigger_value(TriggerArg::ThemeDarkOnly, b1, o1) == bool_text(o1.theme_dark_only),
        trigger_value(TriggerArg::ThemeLightOnly, b1, o1) == bool_text(o1.theme_light_only),
        bool_text(true) != bool_text(false),
        (o1.grayscale == o2.grayscale) <==> (trigger_value(TriggerArg::Grayscale, b1, o1)
            == trigger_value(TriggerArg::Grayscale, b2, o2)),
        (o1.theme_dark_only == o2.theme_dark_only) <==> (trigger_value(TriggerArg::ThemeDarkOnly, b1, o1)
            == trigger_value(TriggerArg::ThemeDarkOnly, b2, o2)),
        (o1.theme_light_only == o2.theme_light_only) <==> (trigger_value(TriggerArg::ThemeLightOnly, b1, o1)
            == trigger_value(TriggerArg::ThemeLightOnly, b2, o2)),
        b1 == b2 ==> trigger_value(TriggerArg::Brightness, b1, o1) == trigger_value(
            TriggerArg::Brightness,
            b2,
            o2,
        ),
        b1 matches Some(x) ==> trigger_value(TriggerArg::Brightness, b1, o1) == decimal_int(x as int),
{
    assert(bool_text(true).len() != bool_text(false).len());
}

/// The short and long forms of the directory option are treated alike: in
/// any argument list, writing one in place of the other leaves every
/// position's rewriting as it was, so the value after either is made absolute.
pub proof fn lemma_directory_forms_alike(args: Seq<String>, p: int, s: String)
    requires
        0 <= p < args.len(),
        args[p]@ == "-d"@ || args[p]@ == "--directory"@,
        s@ == "-d"@ || s@ == "--directory"@,
    ensures
        forall|i: int| 0 <= i <= args.len() ==> #[trigger] rewritten(args.update(p, s), i) == rewritten(args, i),
        forall|k: int|
            0 <= k <= args.len() ==> #[trigger] rewritten_below(args.update(p, s), k) == rewritten_below(args, k),
{
    let other = args.update(p, s);
    assert forall|i: int| 0 <= i <= args.len() implies #[trigger] rewritten(other, i) == rewritten(args, i) by {
        lemma_rewritten_same_options(args, other, i);
    }
    assert forall|k: int| 0 <= k <= args.len() implies #[trigger] rewritten_below(other, k) == rewritten_below(
        args,
        k,
    ) by {
        lemma_rewritten_below_same(args, other, k);
    }
}

/// Each of the four path options, `-d`, `--directory`, `--trigger` and
/// `--dynamic`, marks the argument after it as a path to make absolute,
/// unless the option itself stands as the value of another one.
pub proof fn lemma_path_options_mark_their_value(args: Seq<String>, p: int)
    requires
        0 <= p < args.len(),
        args[p]@ == "-d"@ || args[p]@ == "--directory"@ || args[p]@ == "--trigger"@ || args[p]@
            == "--dynamic"@,
        !rewritten(args, p),
    ensures
        rewritten(args, p + 1),
{
}

proof fn lemma_rewritten_same_options(a: Seq<String>, b: Seq<String>, i: int)
    requires
        a.len() == b.len(),
        forall|j: int| 0 <= j < a.len() ==> takes_path(#[trigger] a[j]@) == takes_path(b[j]@),
        i <= a.len(),
    ensures
        rewritten(a, i) == rewritten(b, i),
    decreases i,
{
    if i > 0 {
        lemma_rewritten_same_options(a, b, i - 1);
        assert(takes_path(a[i - 1]@) == takes_path(b[i - 1]@));
    }
}

proof fn lemma_rewritten_below_same(a: Seq<String>, b: Seq<String>, k: int)
    requires
        a.len() == b.len(),
        forall|j: int| 0 <= j < a.len() ==> takes_path(#[trigger] a[j]@) == takes_path(b[j]@),
        k <= a.len(),
    ensures
        rewritten_below(a, k) == rewritten_below(b, k),
    decreases k,
{
    if k > 0 {
        lemma_rewritten_below_same(a, b, k - 1);
        lemma_rewritten_same_options(a, b, k - 1);
    }
}

/// The RGBA bytes `px` with colour channels `a` and `b` (0 red, 1 green,
/// 2 blue) exchanged in every pixel.
pub open spec fn swap_channels(px: Seq<u8>, a: int, b: int) -> Seq<u8> {
    Seq::new(
        px.len(),
        |j: int|
            if j % 4 == a {
                px[j - a + b]
            } else if j % 4 == b {
                px[j - b + a]
            } else {
                px[j]
            },
    )
}

proof fn lemma_rgb_sum_swapped(px: Seq<u8>, a: int, b: int, k: int)
    requires
        0 <= a < b <= 2,
        0 <= k,
        4 * k <= px.len(),
    ensures
        rgb_sum(swap_channels(px, a, b), k) == rgb_sum(px, k),
    decreases k,
{
    if k > 0 {
        lemma_rgb_sum_swapped(px, a, b, k - 1);
        let q = swap_channels(px, a, b);
        let m = 4 * (k - 1);
        assert(m % 4 == 0 && (m + 1) % 4 == 1 && (m + 2) % 4 == 2);
        assert(q[m] + q[m + 1] + q[m + 2] == px[m] + px[m + 1] + px[m + 2]);
    }
}

/// The brightness score treats red, green and blue alike: exchanging two
/// colour channels in every pixel leaves it unchanged.
pub proof fn lemma_brightness_channel_symmetric(px: Seq<u8>, a: int, b: int)
    requires
        0 <= a < b <= 2,
        px.len() % 4 == 0,
    ensures
        brightness(swap_channels(px, a, b)) == brightness(px),
{
    lemma_rgb_sum_swapped(px, a, b, (px.len() / 4) as int);
}

proof fn lemma_rgb_sum_update(px: Seq<u8>, i: int, c: int, v: u8, k: int)
    requires
        0 <= c <= 2,
        0 <= i < px.len() / 4,
        0 <= k,
        4 * k <= px.len(),
    ensures
        rgb_sum(px.update(4 * i + c, v), k) == rgb_sum(px, k) + if i < k {
            v - px[4 * i + c]
        } else {
            0
        },
    decreases k,
{
    if k > 0 {
        lemma_rgb_sum_update(px, i, c, v, k - 1);
        let q = px.update(4 * i + c, v);
        let m = 4 * (k - 1);
        if i == k - 1 {
            assert(q[m] + q[m + 1] + q[m + 2] == px[m] + px[m + 1] + px[m + 2] + v - px[4 * i + c]);
        } else {
            assert(q[m] == px[m] && q[m + 1] == px[m + 1] && q[m + 2] == px[m + 2]);
        }
    }
}

/// The brightness score depends on the pixels only through their total of
/// red, green and blue: taking one unit of colour from any channel of one
/// pixel and giving it to any channel of another leaves the score unchanged.
pub proof fn lemma_brightness_depends_on_total(px: Seq<u8>, i: int, c: int, j: int, d: int)
    requires
        px.len() % 4 == 0,
        0 <= i < px.len() / 4,
        0 <= j < px.len() / 4,
        i != j,
        0 <= c <= 2,
        0 <= d <= 2,
        px[4 * i + c] >= 1,
        px[4 * j + d] <= 254,
    ensures
        brightness(
            px.update(4 * i + c, (px[4 * i + c] - 1) as u8).update(4 * j + d, (px[4 * j + d] + 1) as u8),
        ) == brightness(px),
{
    let n = (px.len() / 4) as int;
    let q = px.update(4 * i + c, (px[4 * i + c] - 1) as u8);
    lemma_rgb_sum_update(px, i, c, (px[4 * i + c] - 1) as u8, n);
    assert(q[4 * j + d] == px[4 * j + d]);
    lemma_rgb_sum_update(q, j, d, (px[4 * j + d] + 1) as u8, n);
}

proof fn lemma_rgb_sum_alpha(px: Seq<u8>, i: int, v: u8, k: int)
    requires
        0 <= i < px.len() / 4,
        0 <= k,
        4 * k <= px.len(),
    ensures
        rgb_sum(px.update(4 * i + 3, v), k) == rgb_sum(px, k),
    decreases k,
{
    if k > 0 {
        lemma_rgb_sum_alpha(px, i, v, k - 1);
        let q = px.update(4 * i + 3, v);
        let m = 4 * (k - 1);
        assert(q[m] == px[m] && q[m + 1] == px[m + 1] && q[m + 2] == px[m + 2]);
    }
}

/// The alpha byte of a pixel plays no part in the brightness score.
pub proof fn lemma_brightness_ignores_alpha(px: Seq<u8>, i: int, v: u8)
    requires
        px.len() % 4 == 0,
        0 <= i < px.len() / 4,
    ensures
        brightness(px.update(4 * i + 3, v)) == brightness(px),
{
    lemma_rgb_sum_alpha(px, i, v, (px.len() / 4) as int);
}

proof fn lemma_rgb_sum_even(px: Seq<u8>, s: int, k: int)
    requires
        0 <= k,
        4 * k <= px.len(),
        forall|i: int| 0 <= i < k ==> #[trigger] px[4 * i] + px[4 * i + 1] + px[4 * i + 2] == s,
    ensures
        rgb_sum(px, k) == s * k,
    decreases k,
{
    if k > 0 {
        lemma_rgb_sum_even(px, s, k - 1);
        assert(px[4 * (k - 1)] + px[4 * (k - 1) + 1] + px[4 * (k - 1) + 2] == s);
        assert(s * (k - 1) + s == s * k) by (nonlinear_arith);
    } else {
        assert(s * k == 0) by (nonlinear_arith)
            requires
                k == 0,
        ;
    }
}

/// On a picture whose pixels all have the same sum `s` of red, green and
/// blue, the brightness score is that sum as a percentage of its largest
/// value, 765, rounded down.
pub proof fn lemma_brightness_of_even_picture(px: Seq<u8>, s: int)
    requires
        px.len() % 4 == 0,
        px.len() >= 4,
        forall|i: int| 0 <= i < px.len() / 4 ==> #[trigger] px[4 * i] + px[4 * i + 1] + px[4 * i + 2] == s,
    ensures
        brightness(px) == s * 100 / 765,
{
    let n = px.len() / 4;
    lemma_rgb_sum_even(px, s, n as int);
    vstd::arithmetic::div_mod::lemma_div_multiples_vanish(s, n as int);
    assert(s * n == n * s) by (nonlinear_arith);
}


/// No argument handed on to a restarted copy is one that it must not receive.
pub proof fn lemma_kept_args_exclude_prohibited(args: Seq<String>)
    ensures
        forall|i: int| 0 <= i < kept_args(args).len() ==> !is_prohibited(#[trigger] kept_args(args)[i]@),
        kept_args(args).len() <= args.len(),
    decreases args.len(),
{
    if args.len() > 0 {
        lemma_kept_args_exclude_prohibited(args.drop_last());
        let prev = kept_args(args.drop_last());
        assert forall|i: int| 0 <= i < kept_args(args).len() implies !is_prohibited(
            #[trigger] kept_args(args)[i]@,
        ) by {
            if i < prev.len() {
                assert(kept_args(args)[i] == prev[i]);
            }
        }
    }
}

/// A copy started in the background receives the arguments handed on, without
/// the first (the program): none of them asks for the background again, in
/// either form, so the copy starts no further copy.
pub proof fn lemma_background_copy_not_backgrounded(args: Seq<String>)
    ensures
        forall|i: int|
            1 <= i < kept_args(args).len() ==> #[trigger] kept_args(args)[i]@ != "--background"@
                && kept_args(args)[i]@ != "-b"@,
{
    lemma_kept_args_exclude_prohibited(args);
}

/// Removing the prohibited arguments twice removes nothing more.
pub proof fn lemma_kept_args_idempotent(args: Seq<String>)
    ensures
        kept_args(kept_args(args)) == kept_args(args),
    decreases args.len(),
{
    if args.len() > 0 {
        let rest = args.drop_last();
        lemma_kept_args_idempotent(rest);
        let prev = kept_args(rest);
        if is_prohibited(args.last()@) {
            assert(kept_args(args) =~= prev);
        } else {
            let all = kept_args(args);
            assert(all.drop_last() =~= prev);
            assert(all.last() == args.last());
            assert(kept_args(all) == kept_args(prev) + seq![args.last()]);
        }
    }
}

/// Every file that the picture filter keeps is a PNG or JPEG file, and
/// filtering twice keeps the same files as filtering once.
pub proof fn lemma_image_files_filter(files: Seq<String>)
    ensures
        forall|i: int| 0 <= i < image_files(files).len() ==> is_image_name(#[trigger] image_files(files)[i]@),
        image_files(image_files(files)) == image_files(files),
    decreases files.len(),
{
    if files.len() > 0 {
        let rest = files.drop_last();
        lemma_image_files_filter(rest);
        let prev = image_files(rest);
        assert forall|i: int| 0 <= i < image_files(files).len() implies is_image_name(
            #[trigger] image_files(files)[i]@,
        ) by {
            if i < prev.len() {
                assert(image_files(files)[i] == prev[i]);
            }
        }
        if is_image_name(files.last()@) {
            let all = image_files(files);
            assert(all.drop_last() =~= prev);
            assert(all.last() == files.last());
            assert(image_files(all) == image_files(prev) + seq![files.last()]);
        } else {
            assert(image_files(files) =~= prev);
        }
    }
}

/// Where the `j`-th file kept among the first `k` stands in `files`.
spec fn young_source(files: Seq<String>, created: Seq<u64>, limit: int, k: int, j: int) -> int
    decreases k,
{
    if k <= 0 {
        0
    } else if j < young_files(files, created, limit, k - 1).len() {
        young_source(files, created, limit, k - 1, j)
    } else {
        k - 1
    }
}

/// The `j`-th file kept among the first `k` comes from a position below `k`
/// whose creation time is not before the limit.
spec fn kept_young(files: Seq<String>, created: Seq<u64>, limit: int, k: int, j: int) -> bool {
    let i = young_source(files, created, limit, k, j);
    &&& 0 <= i < k
    &&& files[i] == young_files(files, created, limit, k)[j]
    &&& created[i] >= limit
}

proof fn lemma_young_source(files: Seq<String>, created: Seq<u64>, limit: int, k: int)
    requires
        0 <= k <= files.len(),
        k <= created.len(),
    ensures
        young_files(files, created, limit, k).len() <= k,
        forall|j: int|
            0 <= j < young_files(files, created, limit, k).len() ==> #[trigger] kept_young(
                files,
                created,
                limit,
                k,
                j,
            ),
    decreases k,
{
    if k > 0 {
        lemma_young_source(files, created, limit, k - 1);
        let prev = young_files(files, created, limit, k - 1);
        let cur = young_files(files, created, limit, k);
        if limit > created[k - 1] {
            assert(cur =~= prev);
        } else {
            assert(cur =~= prev.push(files[k - 1]));
        }
        assert forall|j: int| 0 <= j < cur.len() implies #[trigger] kept_young(files, created, limit, k, j) by {
            if j < prev.len() {
                assert(kept_young(files, created, limit, k - 1, j));
                assert(cur[j] == prev[j]);
            }
        }
    }
}

/// `x` is one of the first `k` files, one created no earlier than `limit`.
pub open spec fn young_among(files: Seq<String>, created: Seq<u64>, limit: int, k: int, x: String) -> bool {
    exists|i: int| 0 <= i < k && files[i] == x && created[i] >= limit
}

/// The age filter keeps no more files than it is given, and only files
/// created no earlier than its limit.
pub proof fn lemma_young_files_are_young(files: Seq<String>, created: Seq<u64>, limit: int, k: int)
    requires
        0 <= k <= files.len(),
        k <= created.len(),
    ensures
        young_files(files, created, limit, k).len() <= k,
        forall|j: int|
            0 <= j < young_files(files, created, limit, k).len() ==> young_among(
                files,
                created,
                limit,
                k,
                #[trigger] young_files(files, created, limit, k)[j],
            ),
{
    lemma_young_source(files, created, limit, k);
    assert forall|j: int| 0 <= j < young_files(files, created, limit, k).len() implies young_among(
        files,
        created,
        limit,
        k,
        #[trigger] young_files(files, created, limit, k)[j],
    ) by {
        assert(kept_young(files, created, limit, k, j));
        let i = young_source(files, created, limit, k, j);
        assert(0 <= i < k && files[i] == young_files(files, created, limit, k)[j] && created[i] >= limit);
    }
}

/// Seconds to the next hour fall between one minute and one hour.
pub proof fn lemma_secs_left_in_hour_range(minute: int)
    requires
        0 <= minute < 60,
    ensures
        60 <= secs_left_in_hour(minute) <= 3600,
        secs_left_in_hour(minute) % 60 == 0,
{
}

/// A configuration generated from a directory starts at midnight, and shows
/// a wallpaper at every hour as long as its first picture is still there.
pub proof fn lemma_generated_config_covers_the_day(
    files: Seq<String>,
    configs: Seq<SingleConfig>,
    resolved: Seq<Option<String>>,
    hour: u32,
)
    requires
        generated_from(files, configs),
        files.len() > 0,
        resolved.len() == configs.len(),
        resolved[0] is Some,
    ensures
        configs[0].hour == 0,
        chosen(configs, hour, resolved) is Some,
{
    assert(configs[0].hour == (0 * hour_step(files.len() as int)) as u32);
    lemma_last_fit_finds_first(configs, hour, resolved, configs.len() as int);
}

proof fn lemma_last_fit_finds_first(configs: Seq<SingleConfig>, hour: u32, resolved: Seq<Option<String>>, k: int)
    requires
        1 <= k <= configs.len(),
        k <= resolved.len(),
        configs[0].hour <= hour,
        resolved[0] is Some,
    ensures
        last_fit(configs, hour, resolved, k) >= 0,
    decreases k,
{
    if k > 1 {
        lemma_last_fit_finds_first(configs, hour, resolved, k - 1);
    }
}

/// In a configuration generated from at most 23 pictures, the entries start
/// at strictly increasing hours, all before 23 o'clock.
pub proof fn lemma_generated_hours_within_day(files: Seq<String>, configs: Seq<SingleConfig>)
    requires
        generated_from(files, configs),
        0 < files.len() <= 23,
    ensures
        forall|i: int| 0 <= i < configs.len() ==> (#[trigger] configs[i]).hour < 23,
        forall|i: int, j: int| 0 <= i < j < configs.len() ==> (#[trigger] configs[i]).hour < (
        #[trigger] configs[j]).hour,
{
    let n = files.len() as int;
    let step = hour_step(n);
    assert forall|i: int| 0 <= i < configs.len() implies (#[trigger] configs[i]).hour == i * step
        && i * step < 23 by {
        lemma_step_bound(n, i);
        assert(i * step + step == (i + 1) * step) by (nonlinear_arith);
        assert(0 <= i * step) by (nonlinear_arith)
            requires
                0 <= i,
                1 <= step,
        ;
    }
    assert forall|i: int, j: int| 0 <= i < j < configs.len() implies (#[trigger] configs[i]).hour < (
    #[trigger] configs[j]).hour by {
        assert(configs[i].hour == i * step);
        assert(configs[j].hour == j * step);
        lemma_step_bound(n, i);
        assert(i * step < j * step) by (nonlinear_arith)
            requires
                0 <= i < j,
                1 <= step,
        ;
    }
}

/// The entry chosen at `hour` is the last one that applies: its hour has
/// come, its picture exists, and no later entry has both; when none is
/// chosen, no entry has both.
pub proof fn lemma_chosen_is_last_applicable(configs: Seq<SingleConfig>, hour: u32, resolved: Seq<Option<String>>)
    requires
        resolved.len() == configs.len(),
    ensures
        chosen(configs, hour, resolved) matches Some(c) ==> exists|i: int|
            0 <= i < configs.len() && #[trigger] configs[i].hour == c.hour && c.hour <= hour
                && resolved[i] == Some(c.path) && c.darkmode == configs[i].darkmode && forall|j: int|
                i < j < configs.len() ==> !(configs[j].hour <= hour && #[trigger] resolved[j] is Some),
        chosen(configs, hour, resolved) is None ==> forall|j: int|
            0 <= j < configs.len() ==> !(configs[j].hour <= hour && #[trigger] resolved[j] is Some),
{
    lemma_last_fit(configs, hour, resolved, configs.len() as int);
    let i = last_fit(configs, hour, resolved, configs.len() as int);
    if i >= 0 {
        assert(configs[i].hour == configs[i].hour);
    }
}

proof fn lemma_last_fit(configs: Seq<SingleConfig>, hour: u32, resolved: Seq<Option<String>>, k: int)
    requires
        0 <= k <= configs.len(),
        k <= resolved.len(),
    ensures
        -1 <= last_fit(configs, hour, resolved, k) < k,
        last_fit(configs, hour, resolved, k) >= 0 ==> {
            let i = last_fit(configs, hour, resolved, k);
            configs[i].hour <= hour && resolved[i] is Some
        },
        forall|j: int|
            last_fit(configs, hour, resolved, k) < j < k ==> !(configs[j].hour <= hour
                && #[trigger] resolved[j] is Some),
    decreases k,
{
    if k > 0 {
        lemma_last_fit(configs, hour, resolved, k - 1);
    }
}

// ---------------------------------------------------------------------------
// Time
// ---------------------------------------------------------------------------

/// Seconds left in the hour when the clock shows `minute` minutes, counted
/// in whole minutes.
pub open spec fn secs_left_in_hour(minute: int) -> int {
    (60 - minute) * 60
}

/// Seconds from a clock showing `minute` to the next full hour, counting
/// whole minutes.
pub fn secs_until_hour(minute: u32) -> (s: u64)
    requires
        minute < 60,
    ensures
        s == secs_left_in_hour(minute as int),
{
    ((60 - minute) as u64) * 60
}

/// Seconds until the next full hour by the local clock, counting whole
/// minutes: between one and sixty minutes.
pub fn secs_till_next_hour() -> (s: u64)
    ensures
        exists|m: int| 0 <= m < 60 && s == secs_left_in_hour(m),
        60 <= s <= 3600,
        s % 60 == 0,
{
    let t = local_now();
    secs_until_hour(t.minute)
}

} // verus!
