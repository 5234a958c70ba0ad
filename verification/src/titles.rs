//! Title normalization: strips parenthesized, bracketed and braced release
//! tags from a raw filename stem and collapses the remaining whitespace.

use vstd::prelude::*;

use crate::chars::chars_of;
use crate::patterns::collapse_ws_exec;
use crate::patterns::spec_collapse_ws;
use crate::patterns::strip_tags_exec;
use crate::patterns::strip_tags_from;

verus! {

/// The display title of a raw stem: every `(...)`, then every `[...]`, then
/// every `{...}` tag removed (each with the whitespace run before it), the
/// remaining words joined by single spaces.
pub open spec fn spec_clean_title(s: Seq<char>) -> Seq<char> {
    let s1 = strip_tags_from(s, 0, '(', ')');
    let s2 = strip_tags_from(s1, 0, '[', ']');
    let s3 = strip_tags_from(s2, 0, '{', '}');
    spec_collapse_ws(s3)
}

/// Cleans common release tags from a ROM title, e.g. region and dump markers,
/// yielding the display title. An all-tag input reduces to the empty string.
pub fn clean_rom_title(title: &str) -> (r: String)
    ensures
        r@ == spec_clean_title(title@),
{
    let v0 = chars_of(title);
    let s1 = strip_tags_exec(title, &v0, 0, '(', ')');
    let v1 = chars_of(s1.as_str());
    let s2 = strip_tags_exec(s1.as_str(), &v1, 0, '[', ']');
    let v2 = chars_of(s2.as_str());
    let s3 = strip_tags_exec(s2.as_str(), &v2, 0, '{', '}');
    let v3 = chars_of(s3.as_str());
    collapse_ws_exec(s3.as_str(), &v3, 0, true)
}

} // verus!
