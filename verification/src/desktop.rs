//! Recognizing and tagging the desktop entries that the refresh pass copies:
//! a copied entry carries a fixed marker as its first line.

use vstd::prelude::*;
use crate::text::{first_line, first_line_of, str_eq_str};

verus! {

/// Whether `contents` is one of the entries the refresh pass wrote: its first
/// line is the fixed marker.
pub fn is_nix_desktop_entry(contents: &str) -> (r: bool)
    ensures
        r == (first_line(contents@) == "# Nix Desktop Entry"@),
{
    let head = first_line_of(contents);
    str_eq_str(head.as_str(), "# Nix Desktop Entry")
}

/// `contents` with the marker line put in front, so that a later refresh
/// recognizes the file as its own.
pub fn tag_desktop_entry(contents: &str) -> (r: String)
    ensures
        r@ == "# Nix Desktop Entry\n"@ + contents@,
{
    String::from_str("# Nix Desktop Entry\n").concat(contents)
}

} // verus!
