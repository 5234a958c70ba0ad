//! The file discoverer: turns the raw file entries of a directory walk into
//! discovered-file records. Each entry is classified by its normalized
//! extension; raw binary disc tracks are suppressed when a cue sheet sibling
//! exists; playlist files are additionally tracked as pre-existing playlists;
//! the platform is resolved from the override, the extension index and the
//! path hinter; disc-capable files are annotated with disc number and base
//! title.

use vstd::prelude::*;

use crate::chars::str_eq;
use crate::discs::get_base_game_name;
use crate::discs::get_disc_number;
use crate::discs::is_disc_extension;
use crate::discs::spec_base_name;
use crate::discs::spec_disc_number;
use crate::discs::spec_is_disc_extension;
use crate::extensions::assoc_find;
use crate::extensions::ExtensionIndex;
use crate::hints::detect_platform_from_path;
use crate::hints::hints_view;
use crate::hints::spec_detect_platform;
use crate::paths::file_stem_of;
use crate::paths::normalized_ext_of;
use crate::paths::parent_dir_of;
use crate::paths::spec_normalized_ext;
use crate::paths::spec_parent_dir;
use crate::paths::spec_stem;

verus! {

/// One regular file met by the directory walk: its path as walked and its
/// canonicalized form (the path itself when canonicalization failed).
#[derive(Debug, Clone)]
pub struct WalkEntry {
    pub path: String,
    pub canonical: String,
}

/// A candidate game file produced by discovery.
pub struct DiscoveredFile {
    pub path: String,
    pub canonical: String,
    pub extension: String,
    pub platform_id: String,
    pub disc_number: Option<u32>,
    pub base_name: String,
}

/// The mathematical shadow of a discovered file.
pub struct DiscoveredFileV {
    pub path: Seq<char>,
    pub canonical: Seq<char>,
    pub extension: Seq<char>,
    pub platform_id: Seq<char>,
    pub disc_number: Option<u32>,
    pub base_name: Seq<char>,
}

impl View for DiscoveredFile {
    type V = DiscoveredFileV;

    open spec fn view(&self) -> DiscoveredFileV {
        DiscoveredFileV {
            path: self.path@,
            canonical: self.canonical@,
            extension: self.extension@,
            platform_id: self.platform_id@,
            disc_number: self.disc_number,
            base_name: self.base_name@,
        }
    }
}

pub open spec fn files_view(v: Seq<DiscoveredFile>) -> Seq<DiscoveredFileV> {
    v.map_values(|f: DiscoveredFile| f@)
}

pub open spec fn strings_view(v: Seq<String>) -> Seq<Seq<char>> {
    v.map_values(|s: String| s@)
}

pub open spec fn ovr_view(o: Option<String>) -> Option<Seq<char>> {
    match o {
        Some(s) => Some(s@),
        None => None,
    }
}

/// Some walk entry in the given directory is a cue sheet.
pub open spec fn spec_has_cue_sibling(entries: Seq<WalkEntry>, dir: Seq<char>, i: int) -> bool
    decreases entries.len() - i,
{
    if 0 <= i && i < entries.len() {
        (spec_parent_dir(entries[i].path@) == dir && spec_normalized_ext(entries[i].path@) == Some(
            ".cue"@,
        )) || spec_has_cue_sibling(entries, dir, i + 1)
    } else {
        false
    }
}

fn has_cue_sibling(entries: &Vec<WalkEntry>, dir: &str) -> (r: bool)
    ensures
        r == spec_has_cue_sibling(entries@, dir@, 0),
{
    let mut i: usize = 0;
    while i < entries.len()
        invariant
            i <= entries@.len(),
            spec_has_cue_sibling(entries@, dir@, 0) == spec_has_cue_sibling(
                entries@,
                dir@,
                i as int,
            ),
        decreases entries@.len() - i,
    {
        let p = parent_dir_of(entries[i].path.as_str());
        if str_eq(p.as_str(), dir) {
            match normalized_ext_of(entries[i].path.as_str()) {
                Some(e) => {
                    if str_eq(e.as_str(), ".cue") {
                        return true;
                    }
                },
                None => {},
            }
        }
        i += 1;
    }
    false
}

/// Platform resolution policy: a caller-supplied override wins
/// unconditionally; an unambiguous extension decides by itself; otherwise the
/// path hinter is consulted and its answer is used when it belongs to the
/// candidate set, with the first candidate in registration order as the
/// fallback.
pub open spec fn spec_resolve_platform(
    canonical: Seq<char>,
    candidates: Seq<Seq<char>>,
    ovr: Option<Seq<char>>,
    hints: Seq<(Seq<char>, Seq<Seq<char>>)>,
) -> Seq<char>
    recommends
        candidates.len() > 0,
{
    match ovr {
        Some(o) => o,
        None => {
            if candidates.len() == 1 {
                candidates[0]
            } else {
                match spec_detect_platform(canonical, hints, 0) {
                    Some(d) => {
                        if candidates.contains(d) {
                            d
                        } else {
                            candidates[0]
                        }
                    },
                    None => candidates[0],
                }
            }
        },
    }
}

fn contains_string(v: &Vec<String>, s: &str) -> (r: bool)
    ensures
        r == strings_view(v@).contains(s@),
{
    let mut i: usize = 0;
    while i < v.len()
        invariant
            i <= v@.len(),
            forall|l: int| 0 <= l < i ==> strings_view(v@)[l] != s@,
        decreases v@.len() - i,
    {
        if str_eq(v[i].as_str(), s) {
            proof {
                assert(strings_view(v@)[i as int] == s@);
            }
            return true;
        }
        i += 1;
    }
    proof {
        assert(forall|l: int| 0 <= l < strings_view(v@).len() ==> strings_view(v@)[l] != s@);
    }
    false
}

fn resolve_platform(
    canonical: &str,
    candidates: &Vec<String>,
    ovr: &Option<String>,
    hints: &Vec<(String, Vec<String>)>,
) -> (r: String)
    requires
        candidates@.len() > 0,
    ensures
        r@ == spec_resolve_platform(
            canonical@,
            strings_view(candidates@),
            ovr_view(*ovr),
            hints_view(hints@),
        ),
{
    match ovr {
        Some(o) => o.clone(),
        None => {
            if candidates.len() == 1 {
                candidates[0].clone()
            } else {
                match detect_platform_from_path(canonical, hints) {
                    Some(d) => {
                        if contains_string(candidates, d.as_str()) {
                            d
                        } else {
                            candidates[0].clone()
                        }
                    },
                    None => candidates[0].clone(),
                }
            }
        },
    }
}

/// What one walk entry contributes: possibly a discovered file, and possibly
/// a pre-existing-playlist record.
pub open spec fn spec_classify(
    entries: Seq<WalkEntry>,
    i: int,
    index: Seq<(Seq<char>, Seq<Seq<char>>)>,
    hints: Seq<(Seq<char>, Seq<Seq<char>>)>,
    ovr: Option<Seq<char>>,
) -> (Option<DiscoveredFileV>, Option<Seq<char>>)
    recommends
        0 <= i < entries.len(),
{
    let p = entries[i].path@;
    match spec_normalized_ext(p) {
        None => (None, None),
        Some(ext) => {
            let m3u = if ext == ".m3u"@ {
                Some(p)
            } else {
                None
            };
            if ext == ".bin"@ && spec_has_cue_sibling(entries, spec_parent_dir(p), 0) {
                (None, m3u)
            } else {
                let j = assoc_find(index, ext, 0);
                if j >= 0 && index[j].1.len() > 0 {
                    let candidates = index[j].1;
                    let platform = spec_resolve_platform(
                        entries[i].canonical@,
                        candidates,
                        ovr,
                        hints,
                    );
                    let stem = spec_stem(p);
                    let disc = if spec_is_disc_extension(ext) {
                        spec_disc_number(stem)
                    } else {
                        None
                    };
                    let base = if disc is Some {
                        spec_base_name(stem)
                    } else {
                        stem
                    };
                    (
                        Some(
                            DiscoveredFileV {
                                path: p,
                                canonical: entries[i].canonical@,
                                extension: ext,
                                platform_id: platform,
                                disc_number: disc,
                                base_name: base,
                            },
                        ),
                        m3u,
                    )
                } else {
                    (None, m3u)
                }
            }
        },
    }
}

/// Discovery over the first `n` walk entries: the discovered files and the
/// pre-existing playlist paths, both in walk order.
pub open spec fn spec_discover(
    entries: Seq<WalkEntry>,
    n: int,
    index: Seq<(Seq<char>, Seq<Seq<char>>)>,
    hints: Seq<(Seq<char>, Seq<Seq<char>>)>,
    ovr: Option<Seq<char>>,
) -> (Seq<DiscoveredFileV>, Seq<Seq<char>>)
    decreases n,
{
    if 0 < n && n <= entries.len() {
        let prev = spec_discover(entries, n - 1, index, hints, ovr);
        let step = spec_classify(entries, n - 1, index, hints, ovr);
        (
            match step.0 {
                Some(d) => prev.0.push(d),
                None => prev.0,
            },
            match step.1 {
                Some(mp) => prev.1.push(mp),
                None => prev.1,
            },
        )
    } else {
        (Seq::empty(), Seq::empty())
    }
}

/// Cue-sheet suppression: a raw binary disc track with a cue sheet sibling in
/// its directory never becomes a discovered file.
pub proof fn lemma_no_suppressed_bin(
    entries: Seq<WalkEntry>,
    n: int,
    index: Seq<(Seq<char>, Seq<Seq<char>>)>,
    hints: Seq<(Seq<char>, Seq<Seq<char>>)>,
    ovr: Option<Seq<char>>,
)
    requires
        0 <= n <= entries.len(),
    ensures
        forall|k: int|
            0 <= k < spec_discover(entries, n, index, hints, ovr).0.len() ==> !((#[trigger] spec_discover(
                entries,
                n,
                index,
                hints,
                ovr,
            ).0[k]).extension == ".bin"@ && spec_has_cue_sibling(
                entries,
                spec_parent_dir(spec_discover(entries, n, index, hints, ovr).0[k].path),
                0,
            )),
    decreases n,
{
    if 0 < n {
        lemma_no_suppressed_bin(entries, n - 1, index, hints, ovr);
    }
}

/// The platform-resolution policy holds of every discovered file: its
/// platform identifier is what `spec_resolve_platform` names for its
/// extension's candidate list — so a caller-supplied override decides
/// unconditionally, an unambiguous extension decides by itself, a hinter
/// answer inside the candidate set is adopted, and the first candidate in
/// registration order is the fallback.
pub proof fn lemma_discovered_platform(
    entries: Seq<WalkEntry>,
    n: int,
    index: Seq<(Seq<char>, Seq<Seq<char>>)>,
    hints: Seq<(Seq<char>, Seq<Seq<char>>)>,
    ovr: Option<Seq<char>>,
)
    requires
        0 <= n <= entries.len(),
    ensures
        forall|k: int|
            0 <= k < spec_discover(entries, n, index, hints, ovr).0.len() ==> {
                let f = #[trigger] spec_discover(entries, n, index, hints, ovr).0[k];
                let j = assoc_find(index, f.extension, 0);
                &&& j >= 0
                &&& f.platform_id == spec_resolve_platform(f.canonical, index[j].1, ovr, hints)
                &&& (match ovr {
                    Some(o) => f.platform_id == o,
                    None => true,
                })
            },
    decreases n,
{
    if 0 < n {
        lemma_discovered_platform(entries, n - 1, index, hints, ovr);
    }
}

/// Classifies every walk entry, yielding the discovered files and the set of
/// pre-existing playlist paths, in walk order.
pub fn discover_files(
    entries: &Vec<WalkEntry>,
    index: &ExtensionIndex,
    hints: &Vec<(String, Vec<String>)>,
    platform_override: &Option<String>,
) -> (r: (Vec<DiscoveredFile>, Vec<String>))
    ensures
        ({
            let d = spec_discover(
                entries@,
                entries@.len() as int,
                index.view_of(),
                hints_view(hints@),
                ovr_view(*platform_override),
            );
            files_view(r.0@) == d.0 && strings_view(r.1@) == d.1
        }),
{
    let mut found: Vec<DiscoveredFile> = Vec::new();
    let mut m3us: Vec<String> = Vec::new();
    let mut i: usize = 0;
    proof {
        assert(files_view(found@) =~= Seq::<DiscoveredFileV>::empty());
        assert(strings_view(m3us@) =~= Seq::<Seq<char>>::empty());
    }
    while i < entries.len()
        invariant
            i <= entries@.len(),
            files_view(found@) == spec_discover(
                entries@,
                i as int,
                index.view_of(),
                hints_view(hints@),
                ovr_view(*platform_override),
            ).0,
            strings_view(m3us@) == spec_discover(
                entries@,
                i as int,
                index.view_of(),
                hints_view(hints@),
                ovr_view(*platform_override),
            ).1,
        decreases entries@.len() - i,
    {
        let path = &entries[i].path;
        match normalized_ext_of(path.as_str()) {
            None => {},
            Some(ext) => {
                if str_eq(ext.as_str(), ".m3u") {
                    m3us.push(path.clone());
                    proof {
                        assert(strings_view(m3us@) =~= strings_view(m3us@.drop_last()).push(
                            path@,
                        ));
                    }
                }
                let dir = parent_dir_of(path.as_str());
                let suppressed = str_eq(ext.as_str(), ".bin") && has_cue_sibling(
                    entries,
                    dir.as_str(),
                );
                if !suppressed {
                    match index.get(ext.as_str()) {
                        Some(candidates) => {
                            proof {
                                crate::extensions::lemma_assoc_find_bounds(
                                    index.view_of(),
                                    ext@,
                                    0,
                                );
                            }
                            if candidates.len() > 0 {
                                let platform = resolve_platform(
                                    entries[i].canonical.as_str(),
                                    candidates,
                                    platform_override,
                                    hints,
                                );
                                let stem = file_stem_of(path.as_str());
                                let disc: Option<u32> = if is_disc_extension(ext.as_str()) {
                                    get_disc_number(stem.as_str())
                                } else {
                                    None
                                };
                                let base: String = if disc.is_some() {
                                    get_base_game_name(stem.as_str())
                                } else {
                                    stem
                                };
                                let rec = DiscoveredFile {
                                    path: path.clone(),
                                    canonical: entries[i].canonical.clone(),
                                    extension: ext,
                                    platform_id: platform,
                                    disc_number: disc,
                                    base_name: base,
                                };
                                found.push(rec);
                                proof {
                                    assert(files_view(found@) =~= files_view(
                                        found@.drop_last(),
                                    ).push(found@.last()@));
                                }
                            }
                        },
                        None => {},
                    }
                }
            },
        }
        i += 1;
    }
    (found, m3us)
}

} // verus!
