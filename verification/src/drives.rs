//! Which panes live on a given disk (used before ejecting a removable drive).
use vstd::prelude::*;
use crate::text::{ascii_upper, char_ascii_upper, char_is_ascii_alpha, chars_of, is_ascii_alpha};

verus! {

/// The drive letter of a path written as text: the first character, upper-cased, when it is an
/// ASCII letter followed by `:`. UNC paths and paths without a letter have none.
pub open spec fn drive_letter_of(p: Seq<char>) -> Option<char> {
    if p.len() >= 2 && p[1] == ':' && is_ascii_alpha(p[0]) {
        Some(ascii_upper(p[0]))
    } else {
        None
    }
}

/// `path` is on the disk whose root is `drive_root` when both carry the same drive letter.
pub open spec fn on_drive(path: Seq<char>, drive_root: Seq<char>) -> bool {
    match (drive_letter_of(path), drive_letter_of(drive_root)) {
        (Some(a), Some(b)) => a == b,
        _ => false,
    }
}

fn drive_letter(p: &str) -> (r: Option<char>)
    ensures
        r == drive_letter_of(p@),
{
    let cs = chars_of(p);
    if cs.len() >= 2 && cs[1] == ':' && char_is_ascii_alpha(cs[0]) {
        Some(char_ascii_upper(cs[0]))
    } else {
        None
    }
}

/// Is `path` on the disk whose root is `drive_root`? Compares drive letters, ignoring ASCII case.
pub fn path_is_on_drive(path: &str, drive_root: &str) -> (r: bool)
    ensures
        r == on_drive(path@, drive_root@),
{
    match (drive_letter(path), drive_letter(drive_root)) {
        (Some(a), Some(b)) => a == b,
        _ => false,
    }
}

} // verus!
