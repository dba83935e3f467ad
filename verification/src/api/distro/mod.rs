//! Desktop-environment wallpaper commands, and the quoting they rely on.
use vstd::prelude::*;

use crate::command::ProcessCommand;
use crate::text::{owned, views};

pub mod kde;

verus! {

/// How `enquote` writes one character of the quoted text: the quote and the
/// backslash are escaped with a backslash, other characters stand as they are.
pub open spec fn escape_char(quote: char, c: char) -> Seq<char> {
    if c == quote {
        seq!['\\', quote]
    } else if c == '\\' {
        seq!['\\', '\\']
    } else {
        seq![c]
    }
}

pub open spec fn escaped(quote: char, s: Seq<char>) -> Seq<char>
    decreases s.len(),
{
    if s.len() == 0 {
        seq![]
    } else {
        escaped(quote, s.drop_last()) + escape_char(quote, s.last())
    }
}

/// `s` escaped and put between two `quote` characters.
pub open spec fn enquoted(quote: char, s: Seq<char>) -> Seq<char> {
    seq![quote] + escaped(quote, s) + seq![quote]
}

/// Quotes `s` with `quote`.
/// Calls `enquote::enquote`, whose source maps each character as
/// `escape_char` says and wraps the result in the quote character; the
/// contract states exactly that.
#[verifier::external_body]
pub(crate) fn enquote_str(quote: char, s: &str) -> (r: String)
    ensures
        r@ == enquoted(quote, s@),
{
    enquote::enquote(quote, s)
}

/// The views of a slice of string slices.
pub open spec fn str_views(args: Seq<&str>) -> Seq<Seq<char>> {
    args.map_values(|a: &str| a@)
}

/// The invocation of `command` with `args`: what this helper runs.
pub fn run(command: &str, args: &[&str]) -> (c: ProcessCommand)
    ensures
        c.program@ == command@,
        views(c.args@) == str_views(args@),
{
    let mut v: Vec<String> = Vec::new();
    let n = args.len();
    let mut i: usize = 0;
    while i < n
        invariant
            n == args@.len(),
            i <= n,
            views(v@) == str_views(args@.take(i as int)),
        decreases n - i,
    {
        v.push(owned(args[i]));
        assert(str_views(args@.take(i + 1)) =~= str_views(args@.take(i as int)).push(args@[i as int]@));
        assert(views(v@) =~= views(v@.drop_last()).push(v@.last()@));
        i = i + 1;
    }
    assert(args@.take(n as int) =~= args@);
    ProcessCommand { program: owned(command), args: v }
}

} // verus!
