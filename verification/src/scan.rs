//! The scan orchestrator. One scan invocation walks each root (the walking
//! itself is the caller's: the library receives the file entries), discovers
//! candidate files, plans the multi-disc playlists, and reconciles the
//! importable items against the catalog, accumulating everything into one
//! scan result. A root that does not exist contributes exactly one error
//! string and nothing else; the roots after it still process.

use vstd::prelude::*;

use crate::aggregate::plan_playlists;
use crate::aggregate::plans_view;
use crate::aggregate::spec_group_discs;
use crate::aggregate::spec_plan_playlists;
use crate::aggregate::PlaylistPlan;
use crate::aggregate::PlaylistPlanV;
use crate::discover::discover_files;
use crate::discover::files_view;
use crate::discover::ovr_view;
use crate::discover::spec_discover;
use crate::discover::strings_view;
use crate::discover::DiscoveredFile;
use crate::discover::WalkEntry;
use crate::extensions::spec_extension_index;
use crate::extensions::ExtensionIndex;
use crate::hints::default_platform_hints;
use crate::hints::hints_view;
use crate::hints::spec_default_hints;
use crate::models::Game;
use crate::models::Platform;
use crate::models::ScanResult;
use crate::reconcile::file_import_items;
use crate::reconcile::items_view;
use crate::reconcile::playlist_import_items;
use crate::reconcile::reconcile_items;
use crate::reconcile::spec_file_items;
use crate::reconcile::spec_playlist_items;
use crate::reconcile::spec_added_items;
use crate::reconcile::spec_reconcile;
use crate::reconcile::game_from_item;
use crate::reconcile::lemma_reconcile_bounds;
use crate::reconcile::ImportItem;
use crate::reconcile::ImportItemV;
use crate::reconcile::PathCatalog;
use crate::reconcile::ReadyPlaylist;
use crate::reconcile::ReconcileStateV;

verus! {

// ===================== error messages =====================

pub fn missing_root_message(path: &str) -> (r: String)
    ensures
        r@ == "Path does not exist: "@ + path@,
{
    "Path does not exist: ".to_owned().concat(path)
}

pub fn playlist_error_message(base: &str, err: &str) -> (r: String)
    ensures
        r@ == "Failed to generate .m3u for "@ + base@ + ": "@ + err@,
{
    let mut s = "Failed to generate .m3u for ".to_owned();
    s.append(base);
    s.append(": ");
    s.append(err);
    s
}

pub fn add_error_message(path: &str, err: &str) -> (r: String)
    ensures
        r@ == "Failed to add "@ + path@ + ": "@ + err@,
{
    let mut s = "Failed to add ".to_owned();
    s.append(path);
    s.append(": ");
    s.append(err);
    s
}

/// Appends one error string to the accumulator; the counters are untouched.
pub fn record_error(result: &mut ScanResult, msg: String)
    ensures
        final(result).games_found == old(result).games_found,
        final(result).games_added == old(result).games_added,
        final(result).games_updated == old(result).games_updated,
        final(result).errors@ == old(result).errors@.push(msg),
{
    result.errors.push(msg);
}

/// Records a scan root that does not exist: one error string, nothing else.
pub fn record_missing_root(result: &mut ScanResult, path: &str)
    ensures
        final(result).games_found == old(result).games_found,
        final(result).games_added == old(result).games_added,
        final(result).games_updated == old(result).games_updated,
        strings_view(final(result).errors@) == strings_view(old(result).errors@).push(
            "Path does not exist: "@ + path@,
        ),
{
    let msg = missing_root_message(path);
    result.errors.push(msg);
    proof {
        assert(strings_view(result.errors@) =~= strings_view(result.errors@.drop_last()).push(
            result.errors@.last()@,
        ));
    }
}

// ===================== per-root planning =====================

/// Everything one root's scan decides before any playlist is written: the
/// discovered files, the pre-existing playlists, the playlists to write, the
/// reused ones, the covered member paths, and the ordinary import items.
pub struct RootPlan {
    pub discovered: Vec<DiscoveredFile>,
    pub existing_m3u: Vec<String>,
    pub to_write: Vec<PlaylistPlan>,
    pub reused: Vec<String>,
    pub covered: Vec<String>,
    pub file_items: Vec<ImportItem>,
}

/// The aggregation decision of one root's discovered files.
pub open spec fn spec_root_aggregate(
    files: Seq<crate::discover::DiscoveredFileV>,
    existing: Seq<Seq<char>>,
) -> (Seq<PlaylistPlanV>, Seq<Seq<char>>, Seq<Seq<char>>) {
    let groups = spec_group_discs(files, files.len() as int);
    spec_plan_playlists(groups, existing, groups.len() as int)
}

/// Plans one root's scan from its walk entries: discovery, aggregation, and
/// the ordinary import items of the files left uncovered.
pub fn plan_root_scan(
    entries: &Vec<WalkEntry>,
    index: &ExtensionIndex,
    hints: &Vec<(String, Vec<String>)>,
    platform_override: &Option<String>,
) -> (r: RootPlan)
    ensures
        ({
            let d = spec_discover(
                entries@,
                entries@.len() as int,
                index.view_of(),
                hints_view(hints@),
                ovr_view(*platform_override),
            );
            let plan = spec_root_aggregate(d.0, d.1);
            &&& files_view(r.discovered@) == d.0
            &&& strings_view(r.existing_m3u@) == d.1
            &&& plans_view(r.to_write@) == plan.0
            &&& strings_view(r.reused@) == plan.1
            &&& strings_view(r.covered@) == plan.2
            &&& items_view(r.file_items@) == spec_file_items(
                d.0,
                plan.2,
                plan.1,
                d.0.len() as int,
            )
        }),
{
    let (discovered, existing_m3u) = discover_files(entries, index, hints, platform_override);
    let agg = plan_playlists(&discovered, &existing_m3u);
    let file_items = file_import_items(&discovered, &agg.covered, &agg.reused);
    RootPlan {
        discovered,
        existing_m3u,
        to_write: agg.to_write,
        reused: agg.reused,
        covered: agg.covered,
        file_items,
    }
}

// ===================== the whole-scan model =====================

/// One root as handed to the scan: its path, whether it exists, the file
/// entries its walk produced, and the optional platform override.
pub struct RootScanInput {
    pub path: String,
    pub exists: bool,
    pub entries: Vec<WalkEntry>,
    pub platform_override: Option<String>,
}

/// The whole-scan fold state: the reconciler state, the error strings
/// produced so far, and the playlists planned for generation.
pub struct ScanFoldV {
    pub st: ReconcileStateV,
    pub errors: Seq<Seq<char>>,
    pub plans: Seq<PlaylistPlanV>,
}

/// The import items of one root, in processing order: the uncovered files
/// first, then the playlist artifacts — the freshly planned ones, then the
/// reused ones — each playlist keyed by its own path. (In this model every
/// playlist write succeeds and canonicalization is the identity.)
/// Each planned playlist paired with itself: in the model, canonicalization
/// is the identity.
pub open spec fn self_pair_plans(ps: Seq<PlaylistPlanV>) -> Seq<(Seq<char>, Seq<char>)> {
    ps.map_values(|p: PlaylistPlanV| (p.path, p.path))
}

pub open spec fn self_pair_strs(qs: Seq<Seq<char>>) -> Seq<(Seq<char>, Seq<char>)> {
    qs.map_values(|q: Seq<char>| (q, q))
}

pub open spec fn spec_root_items(
    root: RootScanInput,
    index: Seq<(Seq<char>, Seq<Seq<char>>)>,
    hints: Seq<(Seq<char>, Seq<Seq<char>>)>,
) -> Seq<ImportItemV> {
    let d = spec_discover(
        root.entries@,
        root.entries@.len() as int,
        index,
        hints,
        ovr_view(root.platform_override),
    );
    let plan = spec_root_aggregate(d.0, d.1);
    let file_items = spec_file_items(d.0, plan.2, plan.1, d.0.len() as int);
    let ready = self_pair_plans(plan.0) + self_pair_strs(plan.1);
    file_items + spec_playlist_items(ready, hints, ready.len() as int)
}

/// One root's step of the whole-scan fold: a missing root appends its one
/// error string and leaves the state alone; an existing root reconciles its
/// items and contributes its planned playlists.
pub open spec fn spec_scan_root_step(
    root: RootScanInput,
    index: Seq<(Seq<char>, Seq<Seq<char>>)>,
    hints: Seq<(Seq<char>, Seq<Seq<char>>)>,
    st: ReconcileStateV,
) -> ScanFoldV {
    if !root.exists {
        ScanFoldV {
            st,
            errors: seq!["Path does not exist: "@ + root.path@],
            plans: Seq::empty(),
        }
    } else {
        let d = spec_discover(
            root.entries@,
            root.entries@.len() as int,
            index,
            hints,
            ovr_view(root.platform_override),
        );
        let plan = spec_root_aggregate(d.0, d.1);
        let items = spec_root_items(root, index, hints);
        ScanFoldV {
            st: spec_reconcile(items, st, items.len() as int),
            errors: Seq::empty(),
            plans: plan.0,
        }
    }
}

/// The whole scan folded over the first `n` roots.
pub open spec fn spec_scan_roots(
    roots: Seq<RootScanInput>,
    index: Seq<(Seq<char>, Seq<Seq<char>>)>,
    hints: Seq<(Seq<char>, Seq<Seq<char>>)>,
    st: ReconcileStateV,
    n: int,
) -> ScanFoldV
    decreases n,
{
    if 0 < n && n <= roots.len() {
        let prev = spec_scan_roots(roots, index, hints, st, n - 1);
        let step = spec_scan_root_step(roots[n - 1], index, hints, prev.st);
        ScanFoldV {
            st: step.st,
            errors: prev.errors + step.errors,
            plans: prev.plans + step.plans,
        }
    } else {
        ScanFoldV { st, errors: Seq::empty(), plans: Seq::empty() }
    }
}

/// The items the whole scan inserts, over the first `n` roots: each existing
/// root contributes the items its reconciliation added, in order.
pub open spec fn spec_scan_added_items(
    roots: Seq<RootScanInput>,
    index: Seq<(Seq<char>, Seq<Seq<char>>)>,
    hints: Seq<(Seq<char>, Seq<Seq<char>>)>,
    st: ReconcileStateV,
    n: int,
) -> Seq<ImportItemV>
    decreases n,
{
    if 0 < n && n <= roots.len() {
        let prev = spec_scan_added_items(roots, index, hints, st, n - 1);
        if roots[n - 1].exists {
            let prev_st = spec_scan_roots(roots, index, hints, st, n - 1).st;
            let items = spec_root_items(roots[n - 1], index, hints);
            prev + spec_added_items(items, prev_st, items.len() as int)
        } else {
            prev
        }
    } else {
        Seq::empty()
    }
}

// ===================== size bounds =====================

pub open spec fn spec_total_entries(roots: Seq<RootScanInput>, n: int) -> int
    decreases n,
{
    if 0 < n && n <= roots.len() {
        spec_total_entries(roots, n - 1) + roots[n - 1].entries@.len()
    } else {
        0
    }
}

pub proof fn lemma_discover_len(
    entries: Seq<WalkEntry>,
    n: int,
    index: Seq<(Seq<char>, Seq<Seq<char>>)>,
    hints: Seq<(Seq<char>, Seq<Seq<char>>)>,
    ovr: Option<Seq<char>>,
)
    requires
        0 <= n <= entries.len(),
    ensures
        spec_discover(entries, n, index, hints, ovr).0.len() <= n,
        spec_discover(entries, n, index, hints, ovr).1.len() <= n,
    decreases n,
{
    if 0 < n {
        lemma_discover_len(entries, n - 1, index, hints, ovr);
    }
}

pub proof fn lemma_group_len(files: Seq<crate::discover::DiscoveredFileV>, n: int)
    requires
        0 <= n <= files.len(),
    ensures
        spec_group_discs(files, n).len() <= n,
    decreases n,
{
    if 0 < n {
        lemma_group_len(files, n - 1);
        let prev = spec_group_discs(files, n - 1);
        match files[n - 1].disc_number {
            Some(d) => {
                let dir = crate::paths::spec_parent_dir(files[n - 1].path);
                let base = files[n - 1].base_name;
                let j = crate::aggregate::group_find(prev, dir, base, 0);
                crate::aggregate::lemma_group_find_bounds(prev, dir, base, 0);
                if j >= 0 {
                    assert(crate::aggregate::spec_add_disc(
                        prev,
                        dir,
                        base,
                        d,
                        files[n - 1].path,
                    ).len() == prev.len());
                } else {
                    assert(crate::aggregate::spec_add_disc(
                        prev,
                        dir,
                        base,
                        d,
                        files[n - 1].path,
                    ).len() == prev.len() + 1);
                }
            },
            None => {},
        }
    }
}

pub proof fn lemma_plan_len(
    groups: Seq<crate::aggregate::DiscGroupV>,
    existing: Seq<Seq<char>>,
    n: int,
)
    requires
        0 <= n <= groups.len(),
    ensures
        spec_plan_playlists(groups, existing, n).0.len() + spec_plan_playlists(
            groups,
            existing,
            n,
        ).1.len() <= n,
    decreases n,
{
    if 0 < n {
        lemma_plan_len(groups, existing, n - 1);
    }
}

pub proof fn lemma_file_items_len(
    files: Seq<crate::discover::DiscoveredFileV>,
    covered: Seq<Seq<char>>,
    reused: Seq<Seq<char>>,
    n: int,
)
    requires
        0 <= n <= files.len(),
    ensures
        spec_file_items(files, covered, reused, n).len() <= n,
    decreases n,
{
    if 0 < n {
        lemma_file_items_len(files, covered, reused, n - 1);
    }
}

pub proof fn lemma_playlist_items_len(
    ready: Seq<(Seq<char>, Seq<char>)>,
    hints: Seq<(Seq<char>, Seq<Seq<char>>)>,
    n: int,
)
    requires
        0 <= n <= ready.len(),
    ensures
        spec_playlist_items(ready, hints, n).len() == n,
    decreases n,
{
    if 0 < n {
        lemma_playlist_items_len(ready, hints, n - 1);
    }
}

/// One root contributes at most twice its entry count in import items.
pub proof fn lemma_root_items_len(
    root: RootScanInput,
    index: Seq<(Seq<char>, Seq<Seq<char>>)>,
    hints: Seq<(Seq<char>, Seq<Seq<char>>)>,
)
    ensures
        spec_root_items(root, index, hints).len() <= 2 * root.entries@.len(),
{
    let d = spec_discover(
        root.entries@,
        root.entries@.len() as int,
        index,
        hints,
        ovr_view(root.platform_override),
    );
    lemma_discover_len(
        root.entries@,
        root.entries@.len() as int,
        index,
        hints,
        ovr_view(root.platform_override),
    );
    let groups = spec_group_discs(d.0, d.0.len() as int);
    lemma_group_len(d.0, d.0.len() as int);
    lemma_plan_len(groups, d.1, groups.len() as int);
    let plan = spec_root_aggregate(d.0, d.1);
    lemma_file_items_len(d.0, plan.2, plan.1, d.0.len() as int);
    let ready = self_pair_plans(plan.0) + self_pair_strs(plan.1);
    lemma_playlist_items_len(ready, hints, ready.len() as int);
}

/// The fold's counters grow by at most twice the total entry count.
pub proof fn lemma_scan_counters(
    roots: Seq<RootScanInput>,
    index: Seq<(Seq<char>, Seq<Seq<char>>)>,
    hints: Seq<(Seq<char>, Seq<Seq<char>>)>,
    st: ReconcileStateV,
    n: int,
)
    requires
        0 <= n <= roots.len(),
    ensures
        ({
            let fin = spec_scan_roots(roots, index, hints, st, n).st;
            &&& st.found <= fin.found <= st.found + 2 * spec_total_entries(roots, n)
            &&& st.added <= fin.added <= st.added + 2 * spec_total_entries(roots, n)
            &&& st.updated <= fin.updated <= st.updated + 2 * spec_total_entries(roots, n)
        }),
    decreases n,
{
    if 0 < n {
        lemma_scan_counters(roots, index, hints, st, n - 1);
        let prev = spec_scan_roots(roots, index, hints, st, n - 1).st;
        if roots[n - 1].exists {
            let items = spec_root_items(roots[n - 1], index, hints);
            lemma_root_items_len(roots[n - 1], index, hints);
            lemma_reconcile_bounds(items, prev, items.len() as int);
        }
    }
}

// ===================== error isolation =====================

/// The fold only reads the first `n` roots.
pub proof fn lemma_scan_frame(
    roots1: Seq<RootScanInput>,
    roots2: Seq<RootScanInput>,
    index: Seq<(Seq<char>, Seq<Seq<char>>)>,
    hints: Seq<(Seq<char>, Seq<Seq<char>>)>,
    st: ReconcileStateV,
    n: int,
)
    requires
        0 <= n <= roots1.len(),
        n <= roots2.len(),
        forall|j: int| 0 <= j < n ==> roots1[j] == roots2[j],
    ensures
        spec_scan_roots(roots1, index, hints, st, n) == spec_scan_roots(roots2, index, hints, st, n),
    decreases n,
{
    if 0 < n {
        lemma_scan_frame(roots1, roots2, index, hints, st, n - 1);
    }
}

/// Error isolation: a root that does not exist contributes exactly one error
/// string and nothing else — removing it from the scan leaves every counter,
/// the catalog and the planned playlists unchanged, and exactly one error
/// fewer; its message names its path and is among the errors produced.
#[verifier::rlimit(100)]
pub proof fn lemma_error_isolation(
    roots: Seq<RootScanInput>,
    index: Seq<(Seq<char>, Seq<Seq<char>>)>,
    hints: Seq<(Seq<char>, Seq<Seq<char>>)>,
    st: ReconcileStateV,
    i: int,
    n: int,
)
    requires
        0 <= i < n <= roots.len(),
        !roots[i].exists,
    ensures
        ({
            let a = spec_scan_roots(roots, index, hints, st, n);
            let b = spec_scan_roots(roots.remove(i), index, hints, st, n - 1);
            &&& a.st == b.st
            &&& a.plans == b.plans
            &&& a.errors.len() == b.errors.len() + 1
            &&& a.errors.contains("Path does not exist: "@ + roots[i].path@)
        }),
    decreases n,
{
    let a = spec_scan_roots(roots, index, hints, st, n);
    let b = spec_scan_roots(roots.remove(i), index, hints, st, n - 1);
    if i == n - 1 {
        lemma_scan_frame(roots, roots.remove(i), index, hints, st, n - 1);
        let prev = spec_scan_roots(roots, index, hints, st, n - 1);
        assert(a.errors == prev.errors + seq!["Path does not exist: "@ + roots[i].path@]);
        assert(a.errors[a.errors.len() - 1] == "Path does not exist: "@ + roots[i].path@);
        assert(a.plans =~= prev.plans);
        assert(b == prev);
    } else {
        lemma_error_isolation(roots, index, hints, st, i, n - 1);
        let a1 = spec_scan_roots(roots, index, hints, st, n - 1);
        let b1 = spec_scan_roots(roots.remove(i), index, hints, st, n - 2);
        assert(roots.remove(i)[n - 2] == roots[n - 1]);
        let msg = choose|k: int| 0 <= k < a1.errors.len() && a1.errors[k] == "Path does not exist: "@
            + roots[i].path@;
        let step = spec_scan_root_step(roots[n - 1], index, hints, a1.st);
        assert(a.errors == a1.errors + step.errors);
        assert(b.errors == b1.errors + step.errors);
        assert(a.errors[msg] == "Path does not exist: "@ + roots[i].path@);
        assert(a.plans =~= b.plans);
    }
}

// ===================== idempotence =====================

/// The total number of import items of the first `n` roots that exist.
pub open spec fn spec_total_items(
    roots: Seq<RootScanInput>,
    index: Seq<(Seq<char>, Seq<Seq<char>>)>,
    hints: Seq<(Seq<char>, Seq<Seq<char>>)>,
    n: int,
) -> int
    decreases n,
{
    if 0 < n && n <= roots.len() {
        spec_total_items(roots, index, hints, n - 1) + (if roots[n - 1].exists {
            spec_root_items(roots[n - 1], index, hints).len() as int
        } else {
            0int
        })
    } else {
        0
    }
}

/// Whatever the catalog holds before the scan it still holds afterwards.
pub proof fn lemma_scan_cat_grows(
    roots: Seq<RootScanInput>,
    index: Seq<(Seq<char>, Seq<Seq<char>>)>,
    hints: Seq<(Seq<char>, Seq<Seq<char>>)>,
    st: ReconcileStateV,
    i: int,
    n: int,
)
    requires
        0 <= i <= n <= roots.len(),
    ensures
        forall|p: Seq<char>|
            spec_scan_roots(roots, index, hints, st, i).st.cat.contains(p)
                ==> #[trigger] spec_scan_roots(roots, index, hints, st, n).st.cat.contains(p),
    decreases n,
{
    if i < n {
        lemma_scan_cat_grows(roots, index, hints, st, i, n - 1);
        let prev = spec_scan_roots(roots, index, hints, st, n - 1);
        if roots[n - 1].exists {
            let items = spec_root_items(roots[n - 1], index, hints);
            crate::reconcile::lemma_reconcile_cat(items, prev.st, items.len() as int);
        }
    }
}

/// After the scan, the catalog holds every import item's path of every root
/// that exists.
pub proof fn lemma_scan_items_present(
    roots: Seq<RootScanInput>,
    index: Seq<(Seq<char>, Seq<Seq<char>>)>,
    hints: Seq<(Seq<char>, Seq<Seq<char>>)>,
    st: ReconcileStateV,
    n: int,
)
    requires
        0 <= n <= roots.len(),
    ensures
        forall|j: int, k: int|
            #![trigger spec_root_items(roots[j], index, hints)[k]]
            0 <= j < n && roots[j].exists && 0 <= k < spec_root_items(
                roots[j],
                index,
                hints,
            ).len() ==> spec_scan_roots(roots, index, hints, st, n).st.cat.contains(
                spec_root_items(roots[j], index, hints)[k].path,
            ),
    decreases n,
{
    if 0 < n {
        lemma_scan_items_present(roots, index, hints, st, n - 1);
        let prev = spec_scan_roots(roots, index, hints, st, n - 1);
        let fin = spec_scan_roots(roots, index, hints, st, n);
        if roots[n - 1].exists {
            let items = spec_root_items(roots[n - 1], index, hints);
            crate::reconcile::lemma_reconcile_cat(items, prev.st, items.len() as int);
        }
        assert forall|j: int, k: int|
            0 <= j < n && roots[j].exists && 0 <= k < spec_root_items(
                roots[j],
                index,
                hints,
            ).len() implies fin.st.cat.contains(
            #[trigger] spec_root_items(roots[j], index, hints)[k].path,
        ) by {
            if j < n - 1 {
                assert(prev.st.cat.contains(spec_root_items(roots[j], index, hints)[k].path));
                lemma_scan_cat_grows(roots, index, hints, st, n - 1, n);
            }
        }
    }
}

/// Each item of each existing root counts exactly once, as added or updated.
pub proof fn lemma_scan_total(
    roots: Seq<RootScanInput>,
    index: Seq<(Seq<char>, Seq<Seq<char>>)>,
    hints: Seq<(Seq<char>, Seq<Seq<char>>)>,
    st: ReconcileStateV,
    n: int,
)
    requires
        0 <= n <= roots.len(),
    ensures
        ({
            let fin = spec_scan_roots(roots, index, hints, st, n).st;
            fin.added - st.added + fin.updated - st.updated == spec_total_items(
                roots,
                index,
                hints,
                n,
            )
        }),
    decreases n,
{
    if 0 < n {
        lemma_scan_total(roots, index, hints, st, n - 1);
        let prev = spec_scan_roots(roots, index, hints, st, n - 1);
        if roots[n - 1].exists {
            let items = spec_root_items(roots[n - 1], index, hints);
            crate::reconcile::lemma_reconcile_total(items, prev.st, items.len() as int);
        }
    }
}

/// The errors of a scan depend on the roots alone, not on the catalog or the
/// counters.
pub proof fn lemma_scan_errors_st(
    roots: Seq<RootScanInput>,
    index: Seq<(Seq<char>, Seq<Seq<char>>)>,
    hints: Seq<(Seq<char>, Seq<Seq<char>>)>,
    st_a: ReconcileStateV,
    st_b: ReconcileStateV,
    n: int,
)
    requires
        0 <= n <= roots.len(),
    ensures
        spec_scan_roots(roots, index, hints, st_a, n).errors == spec_scan_roots(
            roots,
            index,
            hints,
            st_b,
            n,
        ).errors,
    decreases n,
{
    if 0 < n {
        lemma_scan_errors_st(roots, index, hints, st_a, st_b, n - 1);
    }
}

/// When every item of every existing root is already in the catalog, the scan
/// adds nothing: each item counts as updated and the catalog does not change.
pub proof fn lemma_scan_all_present(
    roots: Seq<RootScanInput>,
    index: Seq<(Seq<char>, Seq<Seq<char>>)>,
    hints: Seq<(Seq<char>, Seq<Seq<char>>)>,
    st: ReconcileStateV,
    n: int,
)
    requires
        0 <= n <= roots.len(),
        forall|j: int, k: int|
            #![trigger spec_root_items(roots[j], index, hints)[k]]
            0 <= j < n && roots[j].exists && 0 <= k < spec_root_items(
                roots[j],
                index,
                hints,
            ).len() ==> st.cat.contains(spec_root_items(roots[j], index, hints)[k].path),
    ensures
        ({
            let fin = spec_scan_roots(roots, index, hints, st, n).st;
            &&& fin.added == st.added
            &&& fin.updated == st.updated + spec_total_items(roots, index, hints, n)
            &&& fin.cat == st.cat
        }),
    decreases n,
{
    if 0 < n {
        lemma_scan_all_present(roots, index, hints, st, n - 1);
        let prev = spec_scan_roots(roots, index, hints, st, n - 1);
        if roots[n - 1].exists {
            let items = spec_root_items(roots[n - 1], index, hints);
            assert forall|k: int| 0 <= k < items.len() implies prev.st.cat.contains(
                #[trigger] items[k].path,
            ) by {
                assert(st.cat.contains(spec_root_items(roots[n - 1], index, hints)[k].path));
            }
            crate::reconcile::lemma_reconcile_all_present(items, prev.st, items.len() as int);
        }
    }
}

/// Idempotence of the scan: running the same roots a second time against the
/// catalog the first run left behind adds nothing, counts as updated exactly
/// as many items as the first run added and updated together, produces the
/// same error strings, and leaves the catalog as it was. In particular, a
/// first run against a catalog holding none of the items has `updated` zero,
/// and the second run's `updated` then equals the first run's `added`.
pub proof fn lemma_scan_idempotent(
    roots: Seq<RootScanInput>,
    index: Seq<(Seq<char>, Seq<Seq<char>>)>,
    hints: Seq<(Seq<char>, Seq<Seq<char>>)>,
    cat0: Seq<Seq<char>>,
)
    ensures
        ({
            let st0 = ReconcileStateV { found: 0, added: 0, updated: 0, cat: cat0 };
            let fin1 = spec_scan_roots(roots, index, hints, st0, roots.len() as int);
            let st1 = ReconcileStateV { found: 0, added: 0, updated: 0, cat: fin1.st.cat };
            let fin2 = spec_scan_roots(roots, index, hints, st1, roots.len() as int);
            &&& fin2.st.added == 0
            &&& fin2.st.updated == fin1.st.added + fin1.st.updated
            &&& fin2.st.cat == fin1.st.cat
            &&& fin2.errors == fin1.errors
        }),
{
    let n = roots.len() as int;
    let st0 = ReconcileStateV { found: 0, added: 0, updated: 0, cat: cat0 };
    let fin1 = spec_scan_roots(roots, index, hints, st0, n);
    let st1 = ReconcileStateV { found: 0, added: 0, updated: 0, cat: fin1.st.cat };
    lemma_scan_items_present(roots, index, hints, st0, n);
    lemma_scan_all_present(roots, index, hints, st1, n);
    lemma_scan_total(roots, index, hints, st0, n);
    lemma_scan_errors_st(roots, index, hints, st0, st1, n);
}

// ===================== the executable scan =====================

fn concat_items(a: Vec<ImportItem>, b: Vec<ImportItem>) -> (r: Vec<ImportItem>)
    ensures
        items_view(r@) == items_view(a@) + items_view(b@),
{
    let ghost av = a@;
    let mut a = a;
    let mut b = b;
    let ghost bv = b@;
    let mut i: usize = 0;
    while b.len() > 0
        invariant
            a@ == av + bv.take(a@.len() - av.len()),
            av.len() <= a@.len() <= av.len() + bv.len(),
            b@ == bv.skip(a@.len() - av.len()),
        decreases b@.len(),
    {
        let x = b.remove(0);
        a.push(x);
        proof {
            assert(a@ =~= av + bv.take(a@.len() - av.len()));
            assert(b@ =~= bv.skip(a@.len() - av.len()));
        }
    }
    proof {
        assert(a@ =~= av + bv);
        assert(items_view(a@) =~= items_view(av) + items_view(bv));
    }
    a
}

fn concat_games(a: Vec<Game>, b: Vec<Game>) -> (r: Vec<Game>)
    ensures
        r@ == a@ + b@,
{
    let ghost av = a@;
    let mut a = a;
    let mut b = b;
    let ghost bv = b@;
    while b.len() > 0
        invariant
            a@ == av + bv.take(a@.len() - av.len()),
            av.len() <= a@.len() <= av.len() + bv.len(),
            b@ == bv.skip(a@.len() - av.len()),
        decreases b@.len(),
    {
        let x = b.remove(0);
        a.push(x);
        proof {
            assert(a@ =~= av + bv.take(a@.len() - av.len()));
            assert(b@ =~= bv.skip(a@.len() - av.len()));
        }
    }
    proof {
        assert(a@ =~= av + bv);
    }
    a
}

fn concat_plans(a: Vec<PlaylistPlan>, b: Vec<PlaylistPlan>) -> (r: Vec<PlaylistPlan>)
    ensures
        plans_view(r@) == plans_view(a@) + plans_view(b@),
{
    let ghost av = a@;
    let mut a = a;
    let mut b = b;
    let ghost bv = b@;
    while b.len() > 0
        invariant
            a@ == av + bv.take(a@.len() - av.len()),
            av.len() <= a@.len() <= av.len() + bv.len(),
            b@ == bv.skip(a@.len() - av.len()),
        decreases b@.len(),
    {
        let x = b.remove(0);
        a.push(x);
        proof {
            assert(a@ =~= av + bv.take(a@.len() - av.len()));
            assert(b@ =~= bv.skip(a@.len() - av.len()));
        }
    }
    proof {
        assert(a@ =~= av + bv);
        assert(plans_view(a@) =~= plans_view(av) + plans_view(bv));
    }
    a
}

/// Pairs every planned and reused playlist path with itself as its canonical
/// form, in plan order; the caller replaces the canonical side when real
/// canonicalization is available.
fn ready_playlists(to_write: &Vec<PlaylistPlan>, reused: &Vec<String>) -> (r: Vec<ReadyPlaylist>)
    ensures
        crate::reconcile::ready_view(r@) == self_pair_plans(plans_view(to_write@))
            + self_pair_strs(strings_view(reused@)),
{
    let mut r: Vec<ReadyPlaylist> = Vec::new();
    let n1 = to_write.len();
    let mut k: usize = 0;
    while k < n1
        invariant
            k <= n1,
            n1 == to_write@.len(),
            r@.len() == k,
            forall|l: int| #![trigger r@[l]]
                0 <= l < k ==> r@[l].path@ == to_write@[l].path@ && r@[l].canonical@
                    == to_write@[l].path@,
        decreases n1 - k,
    {
        r.push(
            ReadyPlaylist {
                path: to_write[k].path.clone(),
                canonical: to_write[k].path.clone(),
            },
        );
        k += 1;
    }
    let n2 = reused.len();
    let mut k2: usize = 0;
    while k2 < n2
        invariant
            k2 <= n2,
            n2 == reused@.len(),
            n1 == to_write@.len(),
            r@.len() == n1 + k2,
            forall|l: int| #![trigger r@[l]]
                0 <= l < n1 ==> r@[l].path@ == to_write@[l].path@ && r@[l].canonical@
                    == to_write@[l].path@,
            forall|l: int| #![trigger r@[l]]
                n1 <= l < n1 + k2 ==> r@[l].path@ == reused@[l - n1]@ && r@[l].canonical@
                    == reused@[l - n1]@,
        decreases n2 - k2,
    {
        r.push(ReadyPlaylist { path: reused[k2].clone(), canonical: reused[k2].clone() });
        k2 += 1;
    }
    proof {
        assert(crate::reconcile::ready_view(r@) =~= self_pair_plans(plans_view(to_write@))
            + self_pair_strs(strings_view(reused@)));
    }
    r
}

/// Scans a set of roots against an in-memory catalog: the playlists planned
/// for generation are taken as written, and each root's importable items are
/// reconciled in order. Returns the scan result, the fresh game entries of
/// the added items, and the playlists to generate. A missing root contributes
/// one error string and nothing else; later roots still process.
pub fn scan_library(
    roots: &Vec<RootScanInput>,
    platforms: &Vec<Platform>,
    catalog: &mut PathCatalog,
) -> (r: (ScanResult, Vec<Game>, Vec<PlaylistPlan>))
    requires
        2 * spec_total_entries(roots@, roots@.len() as int) <= i32::MAX,
    ensures
        ({
            let st0 = ReconcileStateV {
                found: 0,
                added: 0,
                updated: 0,
                cat: old(catalog).view_of(),
            };
            let fin = spec_scan_roots(
                roots@,
                spec_extension_index(platforms@),
                spec_default_hints(),
                st0,
                roots@.len() as int,
            );
            &&& r.0.games_found == fin.st.found
            &&& r.0.games_added == fin.st.added
            &&& r.0.games_updated == fin.st.updated
            &&& strings_view(r.0.errors@) == fin.errors
            &&& final(catalog).view_of() == fin.st.cat
            &&& fin.st.cat == old(catalog).view_of() + crate::reconcile::games_paths(r.1@)
            &&& r.1@.len() == spec_scan_added_items(
                roots@,
                spec_extension_index(platforms@),
                spec_default_hints(),
                st0,
                roots@.len() as int,
            ).len()
            &&& forall|k: int|
                0 <= k < r.1@.len() ==> game_from_item(
                    #[trigger] r.1@[k],
                    spec_scan_added_items(
                        roots@,
                        spec_extension_index(platforms@),
                        spec_default_hints(),
                        st0,
                        roots@.len() as int,
                    )[k],
                )
            &&& plans_view(r.2@) == fin.plans
        }),
{
    let ghost index_v = spec_extension_index(platforms@);
    let ghost hints_v = spec_default_hints();
    let ghost st0 = ReconcileStateV {
        found: 0,
        added: 0,
        updated: 0,
        cat: catalog.view_of(),
    };
    let index = ExtensionIndex::build(platforms);
    let hints = default_platform_hints();
    let mut result = ScanResult::new();
    let mut games: Vec<Game> = Vec::new();
    let mut plans: Vec<PlaylistPlan> = Vec::new();
    proof {
        assert(strings_view(result.errors@) =~= Seq::<Seq<char>>::empty());
        assert(plans_view(plans@) =~= Seq::<PlaylistPlanV>::empty());
    }
    let mut i: usize = 0;
    while i < roots.len()
        invariant
            i <= roots@.len(),
            index.view_of() == index_v,
            hints_view(hints@) == hints_v,
            st0.found == 0,
            st0.added == 0,
            st0.updated == 0,
            st0.cat == old(catalog).view_of(),
            2 * spec_total_entries(roots@, roots@.len() as int) <= i32::MAX,
            result.games_found as int == spec_scan_roots(
                roots@,
                index_v,
                hints_v,
                st0,
                i as int,
            ).st.found,
            result.games_added as int == spec_scan_roots(
                roots@,
                index_v,
                hints_v,
                st0,
                i as int,
            ).st.added,
            result.games_updated as int == spec_scan_roots(
                roots@,
                index_v,
                hints_v,
                st0,
                i as int,
            ).st.updated,
            strings_view(result.errors@) == spec_scan_roots(
                roots@,
                index_v,
                hints_v,
                st0,
                i as int,
            ).errors,
            catalog.view_of() == spec_scan_roots(roots@, index_v, hints_v, st0, i as int).st.cat,
            spec_scan_roots(roots@, index_v, hints_v, st0, i as int).st.cat == st0.cat
                + crate::reconcile::games_paths(games@),
            games@.len() == spec_scan_added_items(roots@, index_v, hints_v, st0, i as int).len(),
            forall|k: int|
                0 <= k < games@.len() ==> game_from_item(
                    #[trigger] games@[k],
                    spec_scan_added_items(roots@, index_v, hints_v, st0, i as int)[k],
                ),
            plans_view(plans@) == spec_scan_roots(roots@, index_v, hints_v, st0, i as int).plans,
        decreases roots@.len() - i,
    {
        let ghost prev = spec_scan_roots(roots@, index_v, hints_v, st0, i as int);
        let ghost step = spec_scan_root_step(roots@[i as int], index_v, hints_v, prev.st);
        let root = &roots[i];
        if !root.exists {
            record_missing_root(&mut result, root.path.as_str());
            proof {
                assert(strings_view(result.errors@) =~= prev.errors + step.errors);
                assert(plans_view(plans@) =~= prev.plans + step.plans);
            }
        } else {
            let plan = plan_root_scan(&root.entries, &index, &hints, &root.platform_override);
            let ready = ready_playlists(&plan.to_write, &plan.reused);
            let pl_items = playlist_import_items(&ready, &hints);
            let items = concat_items(plan.file_items, pl_items);
            proof {
                assert(items_view(items@) =~= spec_root_items(roots@[i as int], index_v, hints_v));
                assert(items@.len() == items_view(items@).len());
                lemma_root_items_len(roots@[i as int], index_v, hints_v);
                lemma_scan_counters(roots@, index_v, hints_v, st0, i as int);
                lemma_total_entries_bound(roots@, i as int, roots@.len() as int);
            }
            let new_games = reconcile_items(&items, catalog, &mut result);
            let ghost og = games@;
            let ghost ngs = new_games@;
            let ghost gp0 = crate::reconcile::games_paths(games@);
            let ghost ngv = crate::reconcile::games_paths(new_games@);
            let ghost root_items = spec_root_items(roots@[i as int], index_v, hints_v);
            let ghost added_i = spec_added_items(root_items, prev.st, root_items.len() as int);
            games = concat_games(games, new_games);
            plans = concat_plans(plans, plan.to_write);
            proof {
                assert(crate::reconcile::games_paths(games@) =~= gp0 + ngv);
                assert((st0.cat + gp0) + ngv =~= st0.cat + (gp0 + ngv));
                assert(strings_view(result.errors@) =~= prev.errors + step.errors);
                assert(plans_view(plans@) =~= prev.plans + step.plans);
                assert(spec_scan_added_items(roots@, index_v, hints_v, st0, i + 1) == spec_scan_added_items(
                    roots@,
                    index_v,
                    hints_v,
                    st0,
                    i as int,
                ) + added_i);
                assert forall|k: int| 0 <= k < games@.len() implies game_from_item(
                    #[trigger] games@[k],
                    spec_scan_added_items(roots@, index_v, hints_v, st0, i + 1)[k],
                ) by {
                    if k < og.len() {
                        assert(games@[k] == og[k]);
                        assert(game_from_item(
                            og[k],
                            spec_scan_added_items(roots@, index_v, hints_v, st0, i as int)[k],
                        ));
                    } else {
                        assert(games@[k] == ngs[k - og.len()]);
                        assert(game_from_item(ngs[k - og.len()], added_i[k - og.len()]));
                    }
                }
            }
        }
        i += 1;
    }
    (result, games, plans)
}

/// Entries of a prefix never exceed the whole total.
pub proof fn lemma_total_entries_bound(roots: Seq<RootScanInput>, i: int, n: int)
    requires
        0 <= i < n <= roots.len(),
    ensures
        spec_total_entries(roots, i) + roots[i].entries@.len() <= spec_total_entries(roots, n),
    decreases n,
{
    if i < n - 1 {
        lemma_total_entries_bound(roots, i, n - 1);
    }
}

} // verus!
