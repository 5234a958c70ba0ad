//! The multi-disc aggregator: groups discovered disc files by (containing
//! directory, base title); every group with two or more discs yields one
//! playlist artifact — reused when a playlist at the computed path already
//! exists, otherwise planned for generation with its members in ascending
//! disc-number order — and all its member files are marked covered, so they
//! are not imported individually.

use vstd::multiset::Multiset;
use vstd::prelude::*;

use crate::chars::str_eq;
use crate::discover::strings_view;
use crate::discover::DiscoveredFile;
use crate::discover::DiscoveredFileV;
use crate::discover::files_view;
use crate::paths::file_name_of;
use crate::paths::join_path;
use crate::paths::parent_dir_of;
use crate::paths::spec_file_name;
use crate::paths::spec_join;
use crate::paths::spec_parent_dir;
use crate::trusted::push_char;

verus! {

/// One multi-disc candidate group: the files of one directory sharing one
/// base title, as (disc number, path) pairs in discovery order.
pub struct DiscGroup {
    pub dir: String,
    pub base: String,
    pub discs: Vec<(u32, String)>,
}

/// The mathematical shadow of a disc group.
pub struct DiscGroupV {
    pub dir: Seq<char>,
    pub base: Seq<char>,
    pub discs: Seq<(u32, Seq<char>)>,
}

pub open spec fn discs_view(v: Seq<(u32, String)>) -> Seq<(u32, Seq<char>)> {
    v.map_values(|d: (u32, String)| (d.0, d.1@))
}

impl View for DiscGroup {
    type V = DiscGroupV;

    open spec fn view(&self) -> DiscGroupV {
        DiscGroupV { dir: self.dir@, base: self.base@, discs: discs_view(self.discs@) }
    }
}

pub open spec fn groups_view(v: Seq<DiscGroup>) -> Seq<DiscGroupV> {
    v.map_values(|g: DiscGroup| g@)
}

/// Index of the first group with the given key, searching from `i`; -1 when
/// none.
pub open spec fn group_find(gs: Seq<DiscGroupV>, dir: Seq<char>, base: Seq<char>, i: int) -> int
    decreases gs.len() - i,
{
    if 0 <= i && i < gs.len() {
        if gs[i].dir == dir && gs[i].base == base {
            i
        } else {
            group_find(gs, dir, base, i + 1)
        }
    } else {
        -1
    }
}

pub proof fn lemma_group_find_skip(gs: Seq<DiscGroupV>, dir: Seq<char>, base: Seq<char>, i: int, j: int)
    requires
        0 <= i <= j <= gs.len(),
        forall|l: int| i <= l < j ==> !(gs[l].dir == dir && gs[l].base == base),
    ensures
        group_find(gs, dir, base, i) == group_find(gs, dir, base, j),
    decreases j - i,
{
    if i < j {
        lemma_group_find_skip(gs, dir, base, i + 1, j);
    }
}

pub proof fn lemma_group_find_bounds(gs: Seq<DiscGroupV>, dir: Seq<char>, base: Seq<char>, i: int)
    requires
        0 <= i <= gs.len(),
    ensures
        group_find(gs, dir, base, i) == -1 || (i <= group_find(gs, dir, base, i) < gs.len()),
    decreases gs.len() - i,
{
    if i < gs.len() && !(gs[i].dir == dir && gs[i].base == base) {
        lemma_group_find_bounds(gs, dir, base, i + 1);
    }
}

/// One disc file recorded under its group key: appended to the existing
/// group, or a fresh group at the end.
pub open spec fn spec_add_disc(
    gs: Seq<DiscGroupV>,
    dir: Seq<char>,
    base: Seq<char>,
    disc: u32,
    path: Seq<char>,
) -> Seq<DiscGroupV> {
    let j = group_find(gs, dir, base, 0);
    if j >= 0 {
        gs.update(j, DiscGroupV { dir: gs[j].dir, base: gs[j].base, discs: gs[j].discs.push((disc, path)) })
    } else {
        gs.push(DiscGroupV { dir, base, discs: seq![(disc, path)] })
    }
}

/// The groups of the first `n` discovered files: files with a disc number are
/// grouped by (parent directory, base title) in first-encounter order; files
/// without one contribute nothing.
pub open spec fn spec_group_discs(files: Seq<DiscoveredFileV>, n: int) -> Seq<DiscGroupV>
    decreases n,
{
    if 0 < n && n <= files.len() {
        let prev = spec_group_discs(files, n - 1);
        let f = files[n - 1];
        match f.disc_number {
            Some(d) => spec_add_disc(prev, spec_parent_dir(f.path), f.base_name, d, f.path),
            None => prev,
        }
    } else {
        Seq::empty()
    }
}

fn group_add(gs0: Vec<DiscGroup>, dir: String, base: String, disc: u32, path: String) -> (r: Vec<
    DiscGroup,
>)
    ensures
        groups_view(r@) == spec_add_disc(groups_view(gs0@), dir@, base@, disc, path@),
{
    let ghost gv = groups_view(gs0@);
    let mut gs = gs0;
    let mut j: usize = 0;
    let n = gs.len();
    while j < n
        invariant
            j <= n,
            n == gs@.len(),
            groups_view(gs@) == gv,
            gv == groups_view(gs0@),
            forall|l: int| 0 <= l < j ==> !(gv[l].dir == dir@ && gv[l].base == base@),
        decreases n - j,
    {
        proof {
            assert(gv[j as int] == gs@[j as int]@);
        }
        if str_eq(gs[j].dir.as_str(), dir.as_str()) && str_eq(gs[j].base.as_str(), base.as_str()) {
            proof {
                lemma_group_find_skip(gv, dir@, base@, 0, j as int);
            }
            let mut entry = gs.remove(j);
            entry.discs.push((disc, path));
            gs.insert(j, entry);
            proof {
                assert(discs_view(gs@[j as int].discs@) =~= gv[j as int].discs.push((disc, path@)));
                assert(groups_view(gs@) =~~= gv.update(
                    j as int,
                    DiscGroupV {
                        dir: gv[j as int].dir,
                        base: gv[j as int].base,
                        discs: gv[j as int].discs.push((disc, path@)),
                    },
                ));
            }
            return gs;
        }
        j += 1;
    }
    proof {
        lemma_group_find_skip(gv, dir@, base@, 0, n as int);
    }
    let mut discs: Vec<(u32, String)> = Vec::new();
    discs.push((disc, path));
    let g = DiscGroup { dir, base, discs };
    gs.push(g);
    proof {
        assert(discs_view(gs@.last().discs@) =~= seq![(disc, gs@.last().discs@[0].1@)]);
        assert(groups_view(gs@) =~~= gv.push(gs@.last()@));
    }
    gs
}

/// Groups the discovered files that carry a disc number by (parent directory,
/// base title), in first-encounter order.
pub fn group_discs(files: &Vec<DiscoveredFile>) -> (r: Vec<DiscGroup>)
    ensures
        groups_view(r@) == spec_group_discs(files_view(files@), files@.len() as int),
{
    let mut gs: Vec<DiscGroup> = Vec::new();
    proof {
        assert(groups_view(gs@) =~= Seq::<DiscGroupV>::empty());
    }
    let mut i: usize = 0;
    while i < files.len()
        invariant
            i <= files@.len(),
            groups_view(gs@) == spec_group_discs(files_view(files@), i as int),
        decreases files@.len() - i,
    {
        proof {
            assert(files_view(files@)[i as int] == files@[i as int]@);
        }
        let f = &files[i];
        match f.disc_number {
            Some(d) => {
                let dir = parent_dir_of(f.path.as_str());
                gs = group_add(gs, dir, f.base_name.clone(), d, f.path.clone());
            },
            None => {},
        }
        i += 1;
    }
    gs
}

/// Stable insertion of one disc entry into a list sorted ascending by disc
/// number: the new entry goes after every entry whose number is not greater.
pub open spec fn spec_insert_disc(
    sorted: Seq<(u32, Seq<char>)>,
    x: (u32, Seq<char>),
) -> Seq<(u32, Seq<char>)>
    decreases sorted.len(),
{
    if sorted.len() > 0 && sorted[0].0 <= x.0 {
        seq![sorted[0]] + spec_insert_disc(sorted.drop_first(), x)
    } else {
        seq![x] + sorted
    }
}

/// The first `n` disc entries sorted ascending by disc number, stably.
pub open spec fn spec_sort_discs(s: Seq<(u32, Seq<char>)>, n: int) -> Seq<(u32, Seq<char>)>
    decreases n,
{
    if 0 < n && n <= s.len() {
        spec_insert_disc(spec_sort_discs(s, n - 1), s[n - 1])
    } else {
        Seq::empty()
    }
}

/// Ascending by disc number.
pub open spec fn discs_sorted(s: Seq<(u32, Seq<char>)>) -> bool {
    forall|i: int, j: int| 0 <= i < j < s.len() ==> s[i].0 <= s[j].0
}

/// Inserting into an ascending list keeps it ascending and adds exactly the
/// one entry.
pub proof fn lemma_insert_disc_sorted(sorted: Seq<(u32, Seq<char>)>, x: (u32, Seq<char>))
    requires
        discs_sorted(sorted),
    ensures
        discs_sorted(spec_insert_disc(sorted, x)),
        spec_insert_disc(sorted, x).to_multiset() == sorted.to_multiset().insert(x),
    decreases sorted.len(),
{
    broadcast use vstd::seq_lib::group_to_multiset_ensures;
    broadcast use vstd::multiset::group_multiset_axioms;

    let r = spec_insert_disc(sorted, x);
    if sorted.len() > 0 && sorted[0].0 <= x.0 {
        let head = sorted[0];
        let tail = sorted.drop_first();
        assert(discs_sorted(tail));
        lemma_insert_disc_sorted(tail, x);
        let ins = spec_insert_disc(tail, x);
        assert(r == seq![head] + ins);
        // every entry of the inserted tail is a tail entry or `x`, so the head
        // still comes first
        assert forall|k: int| 0 <= k < ins.len() implies head.0 <= (#[trigger] ins[k]).0 by {
            assert(ins.contains(ins[k]));
            assert(ins.to_multiset().count(ins[k]) > 0);
            if ins[k] != x {
                assert(tail.to_multiset().count(ins[k]) > 0);
                assert(tail.contains(ins[k]));
                let t = choose|t: int| 0 <= t < tail.len() && tail[t] == ins[k];
                assert(sorted[t + 1] == ins[k]);
            }
        }
        assert forall|i: int, j: int| 0 <= i < j < r.len() implies r[i].0 <= r[j].0 by {
            if i > 0 {
                assert(r[i] == ins[i - 1] && r[j] == ins[j - 1]);
            } else {
                assert(r[j] == ins[j - 1]);
            }
        }
        // the multiset: the head rejoins the inserted tail
        assert(sorted.remove(0) =~= tail);
        assert(tail.to_multiset() =~= sorted.to_multiset().remove(head));
        assert(seq![head] =~= Seq::<(u32, Seq<char>)>::empty().push(head));
        assert(Seq::<(u32, Seq<char>)>::empty().to_multiset() =~= Multiset::empty());
        vstd::seq_lib::lemma_multiset_commutative(seq![head], ins);
        assert(sorted.to_multiset().count(head) > 0) by {
            assert(sorted.contains(head));
        }
        assert(r.to_multiset() =~= sorted.to_multiset().insert(x));
    } else {
        assert(r == seq![x] + sorted);
        assert forall|i: int, j: int| 0 <= i < j < r.len() implies r[i].0 <= r[j].0 by {
            if i == 0 && sorted.len() > 0 {
                assert(r[j] == sorted[j - 1]);
                assert(sorted[0].0 <= sorted[j - 1].0);
            }
        }
        assert(seq![x] =~= Seq::<(u32, Seq<char>)>::empty().push(x));
        assert(Seq::<(u32, Seq<char>)>::empty().to_multiset() =~= Multiset::empty());
        vstd::seq_lib::lemma_multiset_commutative(seq![x], sorted);
        assert(r.to_multiset() =~= sorted.to_multiset().insert(x));
    }
}

/// The sorted view of a disc list is ascending by disc number and holds
/// exactly the same entries: a playlist lists every member of its group, in
/// ascending disc-number order.
pub proof fn lemma_sort_discs_properties(s: Seq<(u32, Seq<char>)>, n: int)
    requires
        0 <= n <= s.len(),
    ensures
        discs_sorted(spec_sort_discs(s, n)),
        spec_sort_discs(s, n).to_multiset() == s.take(n).to_multiset(),
    decreases n,
{
    broadcast use vstd::seq_lib::group_to_multiset_ensures;
    broadcast use vstd::multiset::group_multiset_axioms;

    if 0 < n {
        lemma_sort_discs_properties(s, n - 1);
        lemma_insert_disc_sorted(spec_sort_discs(s, n - 1), s[n - 1]);
        assert(s.take(n) =~= s.take(n - 1).push(s[n - 1]));
        assert(s.take(n - 1).push(s[n - 1]).to_multiset() =~= s.take(n - 1).to_multiset().insert(
            s[n - 1],
        ));
    } else {
        assert(s.take(0) =~= Seq::<(u32, Seq<char>)>::empty());
        assert(Seq::<(u32, Seq<char>)>::empty().to_multiset() =~= Multiset::empty());
        assert(spec_sort_discs(s, 0).to_multiset() =~= Multiset::empty());
    }
}

fn insert_disc(sorted: Vec<(u32, String)>, x: (u32, String)) -> (r: Vec<(u32, String)>)
    ensures
        discs_view(r@) == spec_insert_disc(discs_view(sorted@), (x.0, x.1@)),
    decreases sorted@.len(),
{
    let ghost sv = discs_view(sorted@);
    let mut sorted = sorted;
    if sorted.len() > 0 && sorted[0].0 <= x.0 {
        proof {
            assert(sv[0] == (sorted@[0].0, sorted@[0].1@));
        }
        let h = sorted.remove(0);
        proof {
            assert(discs_view(sorted@) =~= sv.drop_first());
        }
        let mut rest = insert_disc(sorted, x);
        rest.insert(0, h);
        proof {
            assert(discs_view(rest@) =~= seq![sv[0]] + spec_insert_disc(
                sv.drop_first(),
                (x.0, x.1@),
            ));
        }
        rest
    } else {
        sorted.insert(0, x);
        proof {
            assert(discs_view(sorted@) =~= seq![(x.0, x.1@)] + sv);
        }
        sorted
    }
}

/// Sorts disc entries ascending by disc number, stably.
pub fn sort_discs(discs: &Vec<(u32, String)>) -> (r: Vec<(u32, String)>)
    ensures
        discs_view(r@) == spec_sort_discs(discs_view(discs@), discs@.len() as int),
{
    let mut acc: Vec<(u32, String)> = Vec::new();
    proof {
        assert(discs_view(acc@) =~= Seq::<(u32, Seq<char>)>::empty());
    }
    let mut i: usize = 0;
    while i < discs.len()
        invariant
            i <= discs@.len(),
            discs_view(acc@) == spec_sort_discs(discs_view(discs@), i as int),
        decreases discs@.len() - i,
    {
        proof {
            assert(discs_view(discs@)[i as int] == (discs@[i as int].0, discs@[i as int].1@));
        }
        let x = (discs[i].0, discs[i].1.clone());
        acc = insert_disc(acc, x);
        i += 1;
    }
    acc
}

/// The playlist body for discs already in ascending order, starting at entry
/// `i`: the bare file name of each member, one per line, separated by a
/// newline, with no trailing newline.
pub open spec fn spec_playlist_content(discs: Seq<(u32, Seq<char>)>, i: int) -> Seq<char>
    decreases discs.len() - i,
{
    if 0 <= i && i < discs.len() {
        if i + 1 == discs.len() {
            spec_file_name(discs[i].1)
        } else {
            spec_file_name(discs[i].1) + seq!['\n'] + spec_playlist_content(discs, i + 1)
        }
    } else {
        Seq::empty()
    }
}

fn playlist_content_exec(discs: &Vec<(u32, String)>, i: usize) -> (r: String)
    requires
        i <= discs@.len(),
    ensures
        r@ == spec_playlist_content(discs_view(discs@), i as int),
    decreases discs@.len() - i,
{
    if i < discs.len() {
        proof {
            assert(discs_view(discs@)[i as int] == (discs@[i as int].0, discs@[i as int].1@));
        }
        let mut out = file_name_of(discs[i].1.as_str());
        if i + 1 < discs.len() {
            push_char(&mut out, '\n');
            let rest = playlist_content_exec(discs, i + 1);
            let out2 = out.concat(rest.as_str());
            out2
        } else {
            out
        }
    } else {
        String::new()
    }
}

/// One playlist artifact to generate: its target path, the base title of its
/// group, and the file body to write.
pub struct PlaylistPlan {
    pub path: String,
    pub base_name: String,
    pub content: String,
}

/// The mathematical shadow of a playlist plan.
pub struct PlaylistPlanV {
    pub path: Seq<char>,
    pub base_name: Seq<char>,
    pub content: Seq<char>,
}

impl View for PlaylistPlan {
    type V = PlaylistPlanV;

    open spec fn view(&self) -> PlaylistPlanV {
        PlaylistPlanV { path: self.path@, base_name: self.base_name@, content: self.content@ }
    }
}

pub open spec fn plans_view(v: Seq<PlaylistPlan>) -> Seq<PlaylistPlanV> {
    v.map_values(|p: PlaylistPlan| p@)
}

/// The paths of a group's member files.
pub open spec fn member_paths(discs: Seq<(u32, Seq<char>)>) -> Seq<Seq<char>> {
    discs.map_values(|d: (u32, Seq<char>)| d.1)
}

/// The aggregation decision over the first `n` groups: playlists to write,
/// pre-existing playlists reused, and the member paths covered by either.
/// A group with a single disc contributes nothing.
pub open spec fn spec_plan_playlists(
    groups: Seq<DiscGroupV>,
    existing: Seq<Seq<char>>,
    n: int,
) -> (Seq<PlaylistPlanV>, Seq<Seq<char>>, Seq<Seq<char>>)
    decreases n,
{
    if 0 < n && n <= groups.len() {
        let prev = spec_plan_playlists(groups, existing, n - 1);
        let g = groups[n - 1];
        if g.discs.len() > 1 {
            let m3u = spec_join(g.dir, g.base + ".m3u"@);
            let covered = prev.2 + member_paths(g.discs);
            if existing.contains(m3u) {
                (prev.0, prev.1.push(m3u), covered)
            } else {
                (
                    prev.0.push(
                        PlaylistPlanV {
                            path: m3u,
                            base_name: g.base,
                            content: spec_playlist_content(
                                spec_sort_discs(g.discs, g.discs.len() as int),
                                0,
                            ),
                        },
                    ),
                    prev.1,
                    covered,
                )
            }
        } else {
            prev
        }
    } else {
        (Seq::empty(), Seq::empty(), Seq::empty())
    }
}

/// Coverage comes only from true multi-disc sets: every covered path is a
/// member of some group with at least two discs. A single-member group never
/// suppresses its file.
pub proof fn lemma_covered_only_multi(
    groups: Seq<DiscGroupV>,
    existing: Seq<Seq<char>>,
    n: int,
    p: Seq<char>,
)
    requires
        0 <= n <= groups.len(),
        spec_plan_playlists(groups, existing, n).2.contains(p),
    ensures
        exists|j: int|
            0 <= j < n && (#[trigger] groups[j].discs).len() > 1 && member_paths(
                groups[j].discs,
            ).contains(p),
    decreases n,
{
    if 0 < n {
        let prev = spec_plan_playlists(groups, existing, n - 1);
        let g = groups[n - 1];
        if g.discs.len() > 1 {
            let covered = prev.2 + member_paths(g.discs);
            let k = choose|k: int| 0 <= k < covered.len() && covered[k] == p;
            if k < prev.2.len() {
                assert(prev.2.contains(p));
                lemma_covered_only_multi(groups, existing, n - 1, p);
            } else {
                assert(member_paths(g.discs)[k - prev.2.len()] == p);
                assert(member_paths(g.discs).contains(p));
            }
        } else {
            lemma_covered_only_multi(groups, existing, n - 1, p);
        }
    }
}

/// The outcome of aggregation planning.
pub struct AggregatePlan {
    pub to_write: Vec<PlaylistPlan>,
    pub reused: Vec<String>,
    pub covered: Vec<String>,
}

fn contains_str(v: &Vec<String>, s: &str) -> (r: bool)
    ensures
        r == strings_view(v@).contains(s@),
{
    let mut i: usize = 0;
    while i < v.len()
        invariant
            i <= v@.len(),
            forall|l: int| 0 <= l < i ==> strings_view(v@)[l] != s@,
        decreases v@.len() - i,
    {
        if str_eq(v[i].as_str(), s) {
            proof {
                assert(strings_view(v@)[i as int] == s@);
            }
            return true;
        }
        i += 1;
    }
    false
}

/// Plans the playlist artifacts of one root: groups the disc-numbered files,
/// and for every group of two or more discs either reuses the pre-existing
/// playlist at the computed path or plans a new one, marking the members
/// covered either way.
pub fn plan_playlists(files: &Vec<DiscoveredFile>, existing_m3u: &Vec<String>) -> (r: AggregatePlan)
    ensures
        ({
            let groups = spec_group_discs(files_view(files@), files@.len() as int);
            let plan = spec_plan_playlists(groups, strings_view(existing_m3u@), groups.len() as int);
            plans_view(r.to_write@) == plan.0 && strings_view(r.reused@) == plan.1 && strings_view(
                r.covered@,
            ) == plan.2
        }),
{
    let groups = group_discs(files);
    let ghost gv = groups_view(groups@);
    let mut to_write: Vec<PlaylistPlan> = Vec::new();
    let mut reused: Vec<String> = Vec::new();
    let mut covered: Vec<String> = Vec::new();
    proof {
        assert(plans_view(to_write@) =~= Seq::<PlaylistPlanV>::empty());
        assert(strings_view(reused@) =~= Seq::<Seq<char>>::empty());
        assert(strings_view(covered@) =~= Seq::<Seq<char>>::empty());
    }
    let mut i: usize = 0;
    while i < groups.len()
        invariant
            i <= groups@.len(),
            gv == groups_view(groups@),
            gv == spec_group_discs(files_view(files@), files@.len() as int),
            plans_view(to_write@) == spec_plan_playlists(
                gv,
                strings_view(existing_m3u@),
                i as int,
            ).0,
            strings_view(reused@) == spec_plan_playlists(
                gv,
                strings_view(existing_m3u@),
                i as int,
            ).1,
            strings_view(covered@) == spec_plan_playlists(
                gv,
                strings_view(existing_m3u@),
                i as int,
            ).2,
        decreases groups@.len() - i,
    {
        proof {
            assert(gv[i as int] == groups@[i as int]@);
        }
        let g = &groups[i];
        if g.discs.len() > 1 {
            let m3u_name = g.base.clone().concat(".m3u");
            let m3u = join_path(g.dir.as_str(), m3u_name.as_str());
            let mut k: usize = 0;
            while k < g.discs.len()
                invariant
                    k <= g.discs@.len(),
                    i < groups@.len(),
                    g == &groups@[i as int],
                    gv == groups_view(groups@),
                    strings_view(covered@) == spec_plan_playlists(
                        gv,
                        strings_view(existing_m3u@),
                        i as int,
                    ).2 + member_paths(gv[i as int].discs).take(k as int),
                decreases g.discs@.len() - k,
            {
                let ghost prev2 = spec_plan_playlists(gv, strings_view(existing_m3u@), i as int).2;
                let ghost mp = member_paths(gv[i as int].discs);
                covered.push(g.discs[k].1.clone());
                proof {
                    assert(mp[k as int] == g.discs@[k as int].1@);
                    assert(strings_view(covered@) =~= strings_view(covered@.drop_last()).push(
                        g.discs@[k as int].1@,
                    ));
                    assert((prev2 + mp.take(k as int)).push(mp[k as int]) =~= prev2 + mp.take(
                        k + 1,
                    ));
                }
                k += 1;
            }
            proof {
                assert(member_paths(gv[i as int].discs).take(g.discs@.len() as int) =~= member_paths(
                    gv[i as int].discs,
                ));
            }
            if contains_str(existing_m3u, m3u.as_str()) {
                reused.push(m3u);
                proof {
                    assert(strings_view(reused@) =~= strings_view(reused@.drop_last()).push(
                        reused@.last()@,
                    ));
                }
            } else {
                let sorted = sort_discs(&g.discs);
                let content = playlist_content_exec(&sorted, 0);
                let plan = PlaylistPlan { path: m3u, base_name: g.base.clone(), content };
                to_write.push(plan);
                proof {
                    assert(plans_view(to_write@) =~= plans_view(to_write@.drop_last()).push(
                        to_write@.last()@,
                    ));
                }
            }
        }
        i += 1;
    }
    AggregatePlan { to_write, reused, covered }
}

} // verus!
