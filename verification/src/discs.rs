//! Disc-set detection: recognizing disc indicators in filename stems,
//! extracting the disc number, and deriving the disc-less base title used as
//! the grouping key of a multi-disc set.

use vstd::prelude::*;

use crate::chars::chars_of;
use crate::chars::digits_val;
use crate::chars::parse_u32;
use crate::chars::str_eq;
use crate::patterns::find_disc_match;
use crate::patterns::find_disc_match_exec;
use crate::patterns::spec_trim;
use crate::patterns::strip_disc_exec;
use crate::patterns::strip_disc_from;
use crate::patterns::trim_exec;
use crate::patterns::word_cd;
use crate::patterns::word_cd_vec;
use crate::patterns::word_disc;
use crate::patterns::word_disc_vec;
use crate::patterns::word_disk;
use crate::patterns::word_disk_vec;
use crate::patterns::DiscPatternKind;

verus! {

/// A file extension is disc-capable when it names an optical-image container
/// or track format that may represent one disc of a multi-disc title.
pub open spec fn spec_is_disc_extension(ext: Seq<char>) -> bool {
    ||| ext == ".cue"@
    ||| ext == ".iso"@
    ||| ext == ".chd"@
    ||| ext == ".mdf"@
    ||| ext == ".nrg"@
    ||| ext == ".img"@
    ||| ext == ".ccd"@
}

/// Decides whether a normalized extension (lowercase, leading dot) belongs to
/// the fixed closed set of disc-image formats.
pub fn is_disc_extension(ext: &str) -> (r: bool)
    ensures
        r == spec_is_disc_extension(ext@),
{
    str_eq(ext, ".cue") || str_eq(ext, ".iso") || str_eq(ext, ".chd") || str_eq(ext, ".mdf")
        || str_eq(ext, ".nrg") || str_eq(ext, ".img") || str_eq(ext, ".ccd")
}

/// The disc number named by the leftmost match of one disc pattern, provided
/// its digits fit in a `u32`; `None` when there is no match or the digit run
/// overflows.
pub open spec fn pat_u32(
    s: Seq<char>,
    kind: DiscPatternKind,
    w: Seq<char>,
    allow_of: bool,
) -> Option<u32> {
    match find_disc_match(s, 0, kind, w, allow_of) {
        Some(m) => {
            let val = digits_val(s, m.2, m.3);
            if val <= u32::MAX {
                Some(val as u32)
            } else {
                None
            }
        },
        None => None,
    }
}

pub open spec fn or_u32(a: Option<u32>, b: Option<u32>) -> Option<u32> {
    if a is Some {
        a
    } else {
        b
    }
}

/// The disc number of a filename stem: the disc patterns are tried in a fixed
/// order — bracketed `disc`/`disk`/`cd`, hyphen-prefixed `disc`/`disk`/`cd`,
/// trailing-word `disc`/`disk`/`cd`, underscore-infix `disc`/`cd` — and the
/// first pattern whose captured digits fit in a `u32` decides.
pub open spec fn spec_disc_number(s: Seq<char>) -> Option<u32> {
    or_u32(
        pat_u32(s, DiscPatternKind::Bracketed, word_disc(), true),
        or_u32(
            pat_u32(s, DiscPatternKind::Bracketed, word_disk(), true),
            or_u32(
                pat_u32(s, DiscPatternKind::Bracketed, word_cd(), false),
                or_u32(
                    pat_u32(s, DiscPatternKind::Hyphenated, word_disc(), false),
                    or_u32(
                        pat_u32(s, DiscPatternKind::Hyphenated, word_disk(), false),
                        or_u32(
                            pat_u32(s, DiscPatternKind::Hyphenated, word_cd(), false),
                            or_u32(
                                pat_u32(s, DiscPatternKind::Trailing, word_disc(), false),
                                or_u32(
                                    pat_u32(s, DiscPatternKind::Trailing, word_disk(), false),
                                    or_u32(
                                        pat_u32(s, DiscPatternKind::Trailing, word_cd(), false),
                                        or_u32(
                                            pat_u32(s, DiscPatternKind::Infix, word_disc(), false),
                                            pat_u32(s, DiscPatternKind::Infix, word_cd(), false),
                                        ),
                                    ),
                                ),
                            ),
                        ),
                    ),
                ),
            ),
        ),
    )
}

fn try_pat(v: &Vec<char>, kind: DiscPatternKind, w: &Vec<char>, allow_of: bool) -> (r: Option<u32>)
    ensures
        r == pat_u32(v@, kind, w@, allow_of),
{
    match find_disc_match_exec(v, 0, &kind, w, allow_of) {
        Some(m) => parse_u32(v, m.2, m.3),
        None => None,
    }
}

/// Extracts the disc number from a filename stem, trying the disc patterns in
/// their fixed order, case-insensitively — folding single characters as
/// `spec_lower_char` does; multi-character Unicode lowercase expansions are
/// not folded.
pub fn get_disc_number(filename: &str) -> (r: Option<u32>)
    ensures
        r == spec_disc_number(filename@),
{
    let v = chars_of(filename);
    let wdisc = word_disc_vec();
    let wdisk = word_disk_vec();
    let wcd = word_cd_vec();
    if let Some(x) = try_pat(&v, DiscPatternKind::Bracketed, &wdisc, true) {
        return Some(x);
    }
    if let Some(x) = try_pat(&v, DiscPatternKind::Bracketed, &wdisk, true) {
        return Some(x);
    }
    if let Some(x) = try_pat(&v, DiscPatternKind::Bracketed, &wcd, false) {
        return Some(x);
    }
    if let Some(x) = try_pat(&v, DiscPatternKind::Hyphenated, &wdisc, false) {
        return Some(x);
    }
    if let Some(x) = try_pat(&v, DiscPatternKind::Hyphenated, &wdisk, false) {
        return Some(x);
    }
    if let Some(x) = try_pat(&v, DiscPatternKind::Hyphenated, &wcd, false) {
        return Some(x);
    }
    if let Some(x) = try_pat(&v, DiscPatternKind::Trailing, &wdisc, false) {
        return Some(x);
    }
    if let Some(x) = try_pat(&v, DiscPatternKind::Trailing, &wdisk, false) {
        return Some(x);
    }
    if let Some(x) = try_pat(&v, DiscPatternKind::Trailing, &wcd, false) {
        return Some(x);
    }
    if let Some(x) = try_pat(&v, DiscPatternKind::Infix, &wdisc, false) {
        return Some(x);
    }
    if let Some(x) = try_pat(&v, DiscPatternKind::Infix, &wcd, false) {
        return Some(x);
    }
    None
}

/// The base (disc-less) title of a stem: every disc pattern's matches are
/// deleted, in the same fixed order the detector uses, and the result is
/// trimmed of surrounding whitespace.
pub open spec fn spec_base_name(s: Seq<char>) -> Seq<char> {
    let s1 = strip_disc_from(s, 0, DiscPatternKind::Bracketed, word_disc(), true);
    let s2 = strip_disc_from(s1, 0, DiscPatternKind::Bracketed, word_disk(), true);
    let s3 = strip_disc_from(s2, 0, DiscPatternKind::Bracketed, word_cd(), false);
    let s4 = strip_disc_from(s3, 0, DiscPatternKind::Hyphenated, word_disc(), false);
    let s5 = strip_disc_from(s4, 0, DiscPatternKind::Hyphenated, word_disk(), false);
    let s6 = strip_disc_from(s5, 0, DiscPatternKind::Hyphenated, word_cd(), false);
    let s7 = strip_disc_from(s6, 0, DiscPatternKind::Trailing, word_disc(), false);
    let s8 = strip_disc_from(s7, 0, DiscPatternKind::Trailing, word_disk(), false);
    let s9 = strip_disc_from(s8, 0, DiscPatternKind::Trailing, word_cd(), false);
    let s10 = strip_disc_from(s9, 0, DiscPatternKind::Infix, word_disc(), false);
    let s11 = strip_disc_from(s10, 0, DiscPatternKind::Infix, word_cd(), false);
    spec_trim(s11)
}

/// Derives the base game name of a multi-disc filename stem by deleting the
/// disc indicator; meant for stems on which a disc number was detected.
pub fn get_base_game_name(filename: &str) -> (r: String)
    ensures
        r@ == spec_base_name(filename@),
{
    let wdisc = word_disc_vec();
    let wdisk = word_disk_vec();
    let wcd = word_cd_vec();
    let v0 = chars_of(filename);
    let s1 = strip_disc_exec(filename, &v0, 0, &DiscPatternKind::Bracketed, &wdisc, true);
    let v1 = chars_of(s1.as_str());
    let s2 = strip_disc_exec(s1.as_str(), &v1, 0, &DiscPatternKind::Bracketed, &wdisk, true);
    let v2 = chars_of(s2.as_str());
    let s3 = strip_disc_exec(s2.as_str(), &v2, 0, &DiscPatternKind::Bracketed, &wcd, false);
    let v3 = chars_of(s3.as_str());
    let s4 = strip_disc_exec(s3.as_str(), &v3, 0, &DiscPatternKind::Hyphenated, &wdisc, false);
    let v4 = chars_of(s4.as_str());
    let s5 = strip_disc_exec(s4.as_str(), &v4, 0, &DiscPatternKind::Hyphenated, &wdisk, false);
    let v5 = chars_of(s5.as_str());
    let s6 = strip_disc_exec(s5.as_str(), &v5, 0, &DiscPatternKind::Hyphenated, &wcd, false);
    let v6 = chars_of(s6.as_str());
    let s7 = strip_disc_exec(s6.as_str(), &v6, 0, &DiscPatternKind::Trailing, &wdisc, false);
    let v7 = chars_of(s7.as_str());
    let s8 = strip_disc_exec(s7.as_str(), &v7, 0, &DiscPatternKind::Trailing, &wdisk, false);
    let v8 = chars_of(s8.as_str());
    let s9 = strip_disc_exec(s8.as_str(), &v8, 0, &DiscPatternKind::Trailing, &wcd, false);
    let v9 = chars_of(s9.as_str());
    let s10 = strip_disc_exec(s9.as_str(), &v9, 0, &DiscPatternKind::Infix, &wdisc, false);
    let v10 = chars_of(s10.as_str());
    let s11 = strip_disc_exec(s10.as_str(), &v10, 0, &DiscPatternKind::Infix, &wcd, false);
    let v11 = chars_of(s11.as_str());
    trim_exec(s11.as_str(), &v11)
}

} // verus!
