//! Small pieces of a command's input and output.

use vstd::prelude::*;
use vstd::string::*;
use crate::humanize::{decimal, push_decimal};

verus! {

/// The text argument of a transform: the command's text after its first
/// argument when the image came from that argument, else all of it; a single
/// space when that is empty.
pub open spec fn extra_arg_text(img_resolved: bool, rest: Seq<char>, all: Seq<char>) -> Seq<char> {
    let t = if img_resolved {
        rest
    } else {
        all
    };
    if t.len() == 0 {
        " "@
    } else {
        t
    }
}

/// Picks a transform's text argument (see `extra_arg_text`) from the text
/// after the first argument and the whole argument text.
pub fn resolve_extra_arg(img_resolved: bool, rest: &str, all: &str) -> (r: String)
    ensures
        r@ == extra_arg_text(img_resolved, rest@, all@),
{
    let t = if img_resolved {
        rest
    } else {
        all
    };
    if t.unicode_len() == 0 {
        String::from_str(" ")
    } else {
        String::from_str(t)
    }
}

/// The file name under which the output is sent.
pub open spec fn output_name(is_gif: bool) -> Seq<char> {
    if is_gif {
        "output.gif"@
    } else {
        "output.png"@
    }
}

pub fn output_filename(is_gif: bool) -> (r: String)
    ensures
        r@ == output_name(is_gif),
{
    if is_gif {
        String::from_str("output.gif")
    } else {
        String::from_str("output.png")
    }
}

/// The line that reports how long the processing took.
pub open spec fn process_time_line(elapsed_ms: nat) -> Seq<char> {
    "**Process Time:** `"@ + decimal(elapsed_ms) + " ms`"@
}

pub fn process_time_text(elapsed_ms: u128) -> (r: String)
    ensures
        r@ == process_time_line(elapsed_ms as nat),
{
    let mut s = String::from_str("**Process Time:** `");
    push_decimal(&mut s, elapsed_ms);
    s.append(" ms`");
    s
}

} // verus!
