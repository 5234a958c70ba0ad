//! The extension index: a mapping from normalized file extension to the
//! ordered list of platform identifiers that claim it, built from the
//! platform configuration records once per scan. Insertion order is
//! preserved; an extension claimed by several platforms keeps them all, in
//! record order, and ambiguity is resolved later by the path hinter.

use vstd::prelude::*;

use crate::chars::str_eq;
use crate::models::Platform;
use crate::paths::lower_string;
use crate::paths::spec_lower_seq;

verus! {

/// The view of an extension index: each entry an extension with the platform
/// identifiers that registered it.
pub open spec fn index_view(m: Seq<(String, Vec<String>)>) -> Seq<(Seq<char>, Seq<Seq<char>>)> {
    m.map_values(|e: (String, Vec<String>)| (e.0@, e.1@.map_values(|k: String| k@)))
}

/// Index of the first entry with key `k`, searching from `i`; -1 when none.
pub open spec fn assoc_find(m: Seq<(Seq<char>, Seq<Seq<char>>)>, k: Seq<char>, i: int) -> int
    decreases m.len() - i,
{
    if 0 <= i && i < m.len() {
        if m[i].0 == k {
            i
        } else {
            assoc_find(m, k, i + 1)
        }
    } else {
        -1
    }
}

pub proof fn lemma_assoc_find_skip(m: Seq<(Seq<char>, Seq<Seq<char>>)>, k: Seq<char>, i: int, j: int)
    requires
        0 <= i <= j <= m.len(),
        forall|l: int| i <= l < j ==> m[l].0 != k,
    ensures
        assoc_find(m, k, i) == assoc_find(m, k, j),
    decreases j - i,
{
    if i < j {
        lemma_assoc_find_skip(m, k, i + 1, j);
    }
}

pub proof fn lemma_assoc_find_bounds(m: Seq<(Seq<char>, Seq<Seq<char>>)>, k: Seq<char>, i: int)
    requires
        0 <= i <= m.len(),
    ensures
        assoc_find(m, k, i) == -1 || (i <= assoc_find(m, k, i) < m.len() && m[assoc_find(
            m,
            k,
            i,
        )].0 == k),
    decreases m.len() - i,
{
    if i < m.len() && m[i].0 != k {
        lemma_assoc_find_bounds(m, k, i + 1);
    }
}

/// Registers platform `v` under extension `k`: appended to the existing
/// entry's list, or a new entry at the end.
pub open spec fn assoc_add(
    m: Seq<(Seq<char>, Seq<Seq<char>>)>,
    k: Seq<char>,
    v: Seq<char>,
) -> Seq<(Seq<char>, Seq<Seq<char>>)> {
    let j = assoc_find(m, k, 0);
    if j >= 0 {
        m.update(j, (m[j].0, m[j].1.push(v)))
    } else {
        m.push((k, seq![v]))
    }
}

/// All extensions of one platform record registered in order, starting at
/// extension `j`.
pub open spec fn spec_add_platform_exts(
    m: Seq<(Seq<char>, Seq<Seq<char>>)>,
    exts: Seq<String>,
    id: Seq<char>,
    j: int,
) -> Seq<(Seq<char>, Seq<Seq<char>>)>
    decreases exts.len() - j,
{
    if 0 <= j && j < exts.len() {
        spec_add_platform_exts(assoc_add(m, spec_lower_seq(exts[j]@), id), exts, id, j + 1)
    } else {
        m
    }
}

/// All platform records registered in order, starting at record `i`.
pub open spec fn spec_build_index(
    platforms: Seq<Platform>,
    m: Seq<(Seq<char>, Seq<Seq<char>>)>,
    i: int,
) -> Seq<(Seq<char>, Seq<Seq<char>>)>
    decreases platforms.len() - i,
{
    if 0 <= i && i < platforms.len() {
        spec_build_index(
            platforms,
            spec_add_platform_exts(m, platforms[i].file_extensions@, platforms[i].id@, 0),
            i + 1,
        )
    } else {
        m
    }
}

/// The playlist extension is registered for the disc-based platforms, so that
/// playlist artifacts are themselves discoverable.
pub open spec fn spec_add_m3u(
    m: Seq<(Seq<char>, Seq<Seq<char>>)>,
) -> Seq<(Seq<char>, Seq<Seq<char>>)> {
    assoc_add(
        assoc_add(
            assoc_add(
                assoc_add(
                    assoc_add(
                        assoc_add(assoc_add(m, ".m3u"@, "ps1"@), ".m3u"@, "ps2"@),
                        ".m3u"@,
                        "saturn"@,
                    ),
                    ".m3u"@,
                    "dreamcast"@,
                ),
                ".m3u"@,
                "segacd"@,
            ),
            ".m3u"@,
            "pce"@,
        ),
        ".m3u"@,
        "3do"@,
    )
}

/// The extension index of a platform configuration: every record's extensions
/// registered in order, then the playlist extension for the disc platforms.
pub open spec fn spec_extension_index(platforms: Seq<Platform>) -> Seq<(Seq<char>, Seq<Seq<char>>)> {
    spec_add_m3u(spec_build_index(platforms, Seq::empty(), 0))
}

/// The extension index as executable data: an association list preserving
/// insertion order.
pub struct ExtensionIndex {
    pub entries: Vec<(String, Vec<String>)>,
}

fn index_add(m0: Vec<(String, Vec<String>)>, k: String, id: String) -> (r: Vec<
    (String, Vec<String>),
>)
    ensures
        index_view(r@) == assoc_add(index_view(m0@), k@, id@),
{
    let ghost mv = index_view(m0@);
    let mut m = m0;
    let mut j: usize = 0;
    let n = m.len();
    while j < n
        invariant
            j <= n,
            n == m@.len(),
            index_view(m@) == mv,
            mv == index_view(m0@),
            forall|l: int| 0 <= l < j ==> mv[l].0 != k@,
        decreases n - j,
    {
        proof {
            assert(mv[j as int].0 == m@[j as int].0@);
        }
        if str_eq(m[j].0.as_str(), k.as_str()) {
            proof {
                lemma_assoc_find_skip(mv, k@, 0, j as int);
                assert(assoc_find(mv, k@, j as int) == j as int);
            }
            let mut entry = m.remove(j);
            entry.1.push(id);
            m.insert(j, entry);
            proof {
                assert(index_view(m@) =~~= mv.update(
                    j as int,
                    (mv[j as int].0, mv[j as int].1.push(id@)),
                ));
                assert(index_view(m@) == assoc_add(mv, k@, id@));
            }
            return m;
        }
        j += 1;
    }
    proof {
        lemma_assoc_find_skip(mv, k@, 0, n as int);
        assert(assoc_find(mv, k@, 0) == -1);
    }
    m.push((k, vec_of_one(id)));
    proof {
        assert(index_view(m@) =~~= mv.push((k@, seq![id@])));
    }
    m
}

fn vec_of_one(id: String) -> (r: Vec<String>)
    ensures
        r@ == seq![id],
{
    let mut r: Vec<String> = Vec::new();
    r.push(id);
    proof {
        assert(r@ =~= seq![id]);
    }
    r
}

impl ExtensionIndex {
    pub open spec fn view_of(&self) -> Seq<(Seq<char>, Seq<Seq<char>>)> {
        index_view(self.entries@)
    }

    /// Builds the index from the platform records, then registers the
    /// playlist extension for the disc-based platforms.
    pub fn build(platforms: &Vec<Platform>) -> (r: ExtensionIndex)
        ensures
            r.view_of() == spec_extension_index(platforms@),
    {
        let mut entries: Vec<(String, Vec<String>)> = Vec::new();
        proof {
            assert(index_view(entries@) =~= Seq::<(Seq<char>, Seq<Seq<char>>)>::empty());
        }
        let mut i: usize = 0;
        while i < platforms.len()
            invariant
                i <= platforms@.len(),
                spec_build_index(platforms@, Seq::empty(), 0) == spec_build_index(
                    platforms@,
                    index_view(entries@),
                    i as int,
                ),
            decreases platforms@.len() - i,
        {
            let exts = &platforms[i].file_extensions;
            let mut j: usize = 0;
            while j < exts.len()
                invariant
                    j <= exts@.len(),
                    i < platforms@.len(),
                    exts == &platforms@[i as int].file_extensions,
                    spec_build_index(platforms@, Seq::empty(), 0) == spec_build_index(
                        platforms@,
                        spec_add_platform_exts(
                            index_view(entries@),
                            exts@,
                            platforms@[i as int].id@,
                            j as int,
                        ),
                        i + 1,
                    ),
                decreases exts@.len() - j,
            {
                let key = lower_string(exts[j].as_str());
                entries = index_add(entries, key, platforms[i].id.clone());
                j += 1;
            }
            i += 1;
        }
        entries = index_add(entries, ".m3u".to_owned(), "ps1".to_owned());
        entries = index_add(entries, ".m3u".to_owned(), "ps2".to_owned());
        entries = index_add(entries, ".m3u".to_owned(), "saturn".to_owned());
        entries = index_add(entries, ".m3u".to_owned(), "dreamcast".to_owned());
        entries = index_add(entries, ".m3u".to_owned(), "segacd".to_owned());
        entries = index_add(entries, ".m3u".to_owned(), "pce".to_owned());
        entries = index_add(entries, ".m3u".to_owned(), "3do".to_owned());
        ExtensionIndex { entries }
    }

    /// Looks an extension up; `Some` holds the platform list of the first
    /// entry with that key, in registration order.
    pub fn get(&self, ext: &str) -> (r: Option<&Vec<String>>)
        ensures
            match r {
                Some(v) => {
                    let j = assoc_find(self.view_of(), ext@, 0);
                    &&& j >= 0
                    &&& v@.map_values(|k: String| k@) == self.view_of()[j].1
                },
                None => assoc_find(self.view_of(), ext@, 0) == -1,
            },
    {
        let ghost mv = self.view_of();
        let mut j: usize = 0;
        let n = self.entries.len();
        while j < n
            invariant
                j <= n,
                n == self.entries@.len(),
                mv == self.view_of(),
                forall|l: int| 0 <= l < j ==> mv[l].0 != ext@,
            decreases n - j,
        {
            proof {
                assert(mv[j as int].0 == self.entries@[j as int].0@);
            }
            if str_eq(self.entries[j].0.as_str(), ext) {
                proof {
                    lemma_assoc_find_skip(mv, ext@, 0, j as int);
                }
                return Some(&self.entries[j].1);
            }
            j += 1;
        }
        proof {
            lemma_assoc_find_skip(mv, ext@, 0, n as int);
        }
        None
    }
}

} // verus!
