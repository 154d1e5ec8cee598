//! The characters a source file may contain.
use vstd::prelude::*;

verus! {

/// A printable ASCII character (space through `~`) or a tab.
pub open spec fn printable(c: char) -> bool {
    (0x20 <= c as u32 && c as u32 <= 0x7E) || c as u32 == 0x09
}

/// Determine if a character is an allowed eye-visible (printable) character: the printable
/// ASCII characters (space through `~`) and tabs.
pub fn is_permitted_printable_char(c: char) -> (r: bool)
    ensures
        r == printable(c),
{
    let x = c as u32;
    let is_above_space = x >= 0x20;
    let is_below_tilde = x <= 0x7E;
    let is_tab = x == 0x09;
    (is_above_space && is_below_tilde) || is_tab
}

/// Determine if a character is the one permitted newline character, `\n`.
pub fn is_permitted_newline_char(c: char) -> (r: bool)
    ensures
        r == (c as u32 == 0x0A),
{
    let x = c as u32;
    x == 0x0A
}

/// Determine if a character may appear in a source file: printable, or a newline.
pub fn is_permitted_char(c: char) -> (r: bool)
    ensures
        r == (printable(c) || c as u32 == 0x0A),
{
    is_permitted_printable_char(c) || is_permitted_newline_char(c)
}

} // verus!
