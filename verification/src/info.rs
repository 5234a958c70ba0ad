//! Small lookups over the platform configuration: identifying a single ROM
//! file, and validating cover-art image extensions.

use vstd::prelude::*;

use crate::chars::str_eq;
use crate::models::Platform;
use crate::paths::file_stem_of;
use crate::paths::lower_string;
use crate::paths::normalized_ext_of;
use crate::paths::spec_lower_seq;
use crate::paths::spec_normalized_ext;
use crate::paths::spec_stem;
use crate::titles::clean_rom_title;
use crate::titles::spec_clean_title;

verus! {

/// Some extension of the platform record, from position `j` on, lowercases
/// to `ext`.
pub open spec fn spec_platform_claims(exts: Seq<String>, ext: Seq<char>, j: int) -> bool
    decreases exts.len() - j,
{
    if 0 <= j && j < exts.len() {
        spec_lower_seq(exts[j]@) == ext || spec_platform_claims(exts, ext, j + 1)
    } else {
        false
    }
}

fn platform_claims(exts: &Vec<String>, ext: &str) -> (r: bool)
    ensures
        r == spec_platform_claims(exts@, ext@, 0),
{
    let mut j: usize = 0;
    while j < exts.len()
        invariant
            j <= exts@.len(),
            spec_platform_claims(exts@, ext@, 0) == spec_platform_claims(exts@, ext@, j as int),
        decreases exts@.len() - j,
    {
        let low = lower_string(exts[j].as_str());
        if str_eq(low.as_str(), ext) {
            return true;
        }
        j += 1;
    }
    false
}

/// The first platform record, from position `i` on, that claims the
/// extension; the answer pairs the path's cleaned stem with its identifier.
pub open spec fn spec_rom_info_from(
    path: Seq<char>,
    platforms: Seq<Platform>,
    ext: Seq<char>,
    i: int,
) -> Option<(Seq<char>, Seq<char>)>
    decreases platforms.len() - i,
{
    if 0 <= i && i < platforms.len() {
        if spec_platform_claims(platforms[i].file_extensions@, ext, 0) {
            Some((spec_clean_title(spec_stem(path)), platforms[i].id@))
        } else {
            spec_rom_info_from(path, platforms, ext, i + 1)
        }
    } else {
        None
    }
}

/// What a single ROM file is: `None` when the path has no usable extension or
/// no platform record claims it; otherwise the cleaned title derived from the
/// file stem, with the identifier of the first claiming platform.
pub open spec fn spec_rom_info(path: Seq<char>, platforms: Seq<Platform>) -> Option<
    (Seq<char>, Seq<char>),
> {
    match spec_normalized_ext(path) {
        None => None,
        Some(ext) => spec_rom_info_from(path, platforms, ext, 0),
    }
}

/// Identifies a ROM file by its extension against the platform records, in
/// record order, yielding its cleaned display title and platform identifier.
pub fn rom_info(rom_path: &str, platforms: &Vec<Platform>) -> (r: Option<(String, String)>)
    ensures
        match r {
            Some(p) => spec_rom_info(rom_path@, platforms@) == Some((p.0@, p.1@)),
            None => spec_rom_info(rom_path@, platforms@) is None,
        },
{
    let ext = match normalized_ext_of(rom_path) {
        Some(e) => e,
        None => {
            return None;
        },
    };
    let mut i: usize = 0;
    while i < platforms.len()
        invariant
            i <= platforms@.len(),
            spec_normalized_ext(rom_path@) == Some(ext@),
            spec_rom_info_from(rom_path@, platforms@, ext@, 0) == spec_rom_info_from(
                rom_path@,
                platforms@,
                ext@,
                i as int,
            ),
        decreases platforms@.len() - i,
    {
        if platform_claims(&platforms[i].file_extensions, ext.as_str()) {
            let stem = file_stem_of(rom_path);
            let title = clean_rom_title(stem.as_str());
            return Some((title, platforms[i].id.clone()));
        }
        i += 1;
    }
    None
}

/// An image extension (lowercase, no dot) the cover-art importer accepts.
pub open spec fn spec_is_supported_image_ext(ext: Seq<char>) -> bool {
    ||| ext == "jpg"@
    ||| ext == "jpeg"@
    ||| ext == "png"@
    ||| ext == "webp"@
    ||| ext == "gif"@
}

/// Decides whether a cover-art source file's extension is one of the
/// supported image formats.
pub fn is_supported_image_ext(ext: &str) -> (r: bool)
    ensures
        r == spec_is_supported_image_ext(ext@),
{
    str_eq(ext, "jpg") || str_eq(ext, "jpeg") || str_eq(ext, "png") || str_eq(ext, "webp")
        || str_eq(ext, "gif")
}

} // verus!
