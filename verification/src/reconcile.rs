//! The catalog reconciler: every importable item — an uncovered discovered
//! file, or a playlist artifact — is looked up in the catalog by its resolved
//! path; an existing entry counts as updated, a missing one is inserted and
//! counts as added. Re-scanning the same items is idempotent: the second run
//! adds nothing.

use vstd::prelude::*;

use crate::discover::strings_view;
use crate::discover::DiscoveredFile;
use crate::discover::DiscoveredFileV;
use crate::discover::files_view;
use crate::chars::str_eq;
use crate::hints::detect_platform_from_path;
use crate::hints::hints_view;
use crate::hints::spec_detect_platform;
use crate::models::Game;
use crate::models::ScanResult;
use crate::paths::file_stem_of;
use crate::paths::spec_stem;
use crate::titles::clean_rom_title;
use crate::titles::spec_clean_title;

verus! {

/// One importable item, ready for the catalog: the resolved (canonical) path
/// that keys the catalog, the walked path for messages, the cleaned display
/// title, the platform, and whether the item is a playlist artifact — a
/// playlist counts as found only when it is actually inserted, an ordinary
/// file counts as found up front.
pub struct ImportItem {
    pub path: String,
    pub display_path: String,
    pub title: String,
    pub platform_id: String,
    pub playlist: bool,
}

/// The mathematical shadow of an import item.
pub struct ImportItemV {
    pub path: Seq<char>,
    pub display_path: Seq<char>,
    pub title: Seq<char>,
    pub platform_id: Seq<char>,
    pub playlist: bool,
}

impl View for ImportItem {
    type V = ImportItemV;

    open spec fn view(&self) -> ImportItemV {
        ImportItemV {
            path: self.path@,
            display_path: self.display_path@,
            title: self.title@,
            platform_id: self.platform_id@,
            playlist: self.playlist,
        }
    }
}

pub open spec fn items_view(v: Seq<ImportItem>) -> Seq<ImportItemV> {
    v.map_values(|x: ImportItem| x@)
}

// ===================== building the import items =====================

/// The import items of the first `n` discovered files: every file whose path
/// is neither covered by a playlist nor itself taken up as a reused playlist
/// artifact becomes an ordinary item with the cleaned base title. A
/// pre-existing playlist that a disc group reuses is imported once, as the
/// playlist artifact, never a second time as an ordinary file.
pub open spec fn spec_file_items(
    files: Seq<DiscoveredFileV>,
    covered: Seq<Seq<char>>,
    reused: Seq<Seq<char>>,
    n: int,
) -> Seq<ImportItemV>
    decreases n,
{
    if 0 < n && n <= files.len() {
        let prev = spec_file_items(files, covered, reused, n - 1);
        let f = files[n - 1];
        if covered.contains(f.path) || reused.contains(f.path) {
            prev
        } else {
            prev.push(
                ImportItemV {
                    path: f.canonical,
                    display_path: f.path,
                    title: spec_clean_title(f.base_name),
                    platform_id: f.platform_id,
                    playlist: false,
                },
            )
        }
    } else {
        Seq::empty()
    }
}

fn paths_contain(paths: &Vec<String>, p: &str) -> (r: bool)
    ensures
        r == strings_view(paths@).contains(p@),
{
    let mut i: usize = 0;
    while i < paths.len()
        invariant
            i <= paths@.len(),
            forall|l: int| 0 <= l < i ==> strings_view(paths@)[l] != p@,
        decreases paths@.len() - i,
    {
        if str_eq(paths[i].as_str(), p) {
            proof {
                assert(strings_view(paths@)[i as int] == p@);
            }
            return true;
        }
        i += 1;
    }
    false
}

/// Builds the ordinary import items: the discovered files neither covered by
/// a playlist nor reused as one, each with its cleaned title, in discovery
/// order.
pub fn file_import_items(
    files: &Vec<DiscoveredFile>,
    covered: &Vec<String>,
    reused: &Vec<String>,
) -> (r: Vec<ImportItem>)
    ensures
        items_view(r@) == spec_file_items(
            files_view(files@),
            strings_view(covered@),
            strings_view(reused@),
            files@.len() as int,
        ),
{
    let mut out: Vec<ImportItem> = Vec::new();
    proof {
        assert(items_view(out@) =~= Seq::<ImportItemV>::empty());
    }
    let mut i: usize = 0;
    while i < files.len()
        invariant
            i <= files@.len(),
            items_view(out@) == spec_file_items(
                files_view(files@),
                strings_view(covered@),
                strings_view(reused@),
                i as int,
            ),
        decreases files@.len() - i,
    {
        proof {
            assert(files_view(files@)[i as int] == files@[i as int]@);
        }
        let f = &files[i];
        if !paths_contain(covered, f.path.as_str()) && !paths_contain(reused, f.path.as_str()) {
            let item = ImportItem {
                path: f.canonical.clone(),
                display_path: f.path.clone(),
                title: clean_rom_title(f.base_name.as_str()),
                platform_id: f.platform_id.clone(),
                playlist: false,
            };
            out.push(item);
            proof {
                assert(items_view(out@) =~= items_view(out@.drop_last()).push(out@.last()@));
            }
        }
        i += 1;
    }
    out
}

/// A playlist artifact ready for import: its path as planned, and its
/// canonicalized form (the path itself when canonicalization failed).
pub struct ReadyPlaylist {
    pub path: String,
    pub canonical: String,
}

/// The import item of one playlist artifact: keyed by the canonical path,
/// titled by the cleaned stem of the playlist path, on the platform the path
/// hinter names — or the compact-disc default when no hint matches.
pub open spec fn spec_playlist_item(
    path: Seq<char>,
    canonical: Seq<char>,
    hints: Seq<(Seq<char>, Seq<Seq<char>>)>,
) -> ImportItemV {
    ImportItemV {
        path: canonical,
        display_path: path,
        title: spec_clean_title(spec_stem(path)),
        platform_id: match spec_detect_platform(canonical, hints, 0) {
            Some(p) => p,
            None => "ps1"@,
        },
        playlist: true,
    }
}

pub open spec fn spec_playlist_items(
    ready: Seq<(Seq<char>, Seq<char>)>,
    hints: Seq<(Seq<char>, Seq<Seq<char>>)>,
    n: int,
) -> Seq<ImportItemV>
    decreases n,
{
    if 0 < n && n <= ready.len() {
        spec_playlist_items(ready, hints, n - 1).push(
            spec_playlist_item(ready[n - 1].0, ready[n - 1].1, hints),
        )
    } else {
        Seq::empty()
    }
}

pub open spec fn ready_view(v: Seq<ReadyPlaylist>) -> Seq<(Seq<char>, Seq<char>)> {
    v.map_values(|p: ReadyPlaylist| (p.path@, p.canonical@))
}

/// Builds the playlist import items, in the order the playlists were planned.
pub fn playlist_import_items(
    ready: &Vec<ReadyPlaylist>,
    hints: &Vec<(String, Vec<String>)>,
) -> (r: Vec<ImportItem>)
    ensures
        items_view(r@) == spec_playlist_items(
            ready_view(ready@),
            hints_view(hints@),
            ready@.len() as int,
        ),
{
    let mut out: Vec<ImportItem> = Vec::new();
    proof {
        assert(items_view(out@) =~= Seq::<ImportItemV>::empty());
    }
    let mut i: usize = 0;
    while i < ready.len()
        invariant
            i <= ready@.len(),
            items_view(out@) == spec_playlist_items(
                ready_view(ready@),
                hints_view(hints@),
                i as int,
            ),
        decreases ready@.len() - i,
    {
        proof {
            assert(ready_view(ready@)[i as int] == (ready@[i as int].path@,
            ready@[i as int].canonical@));
        }
        let p = &ready[i];
        let stem = file_stem_of(p.path.as_str());
        let platform: String = match detect_platform_from_path(p.canonical.as_str(), hints) {
            Some(d) => d,
            None => "ps1".to_owned(),
        };
        let item = ImportItem {
            path: p.canonical.clone(),
            display_path: p.path.clone(),
            title: clean_rom_title(stem.as_str()),
            platform_id: platform,
            playlist: true,
        };
        out.push(item);
        proof {
            assert(items_view(out@) =~= items_view(out@.drop_last()).push(out@.last()@));
        }
        i += 1;
    }
    out
}

// ===================== the reconcile fold =====================

/// The reconciler's state: the three counters and the set of catalog paths,
/// as the ordered sequence of known canonical paths.
pub struct ReconcileStateV {
    pub found: int,
    pub added: int,
    pub updated: int,
    pub cat: Seq<Seq<char>>,
}

/// One item against the catalog: an ordinary file counts as found up front; a
/// path already present counts as updated; a missing one is inserted and
/// counts as added, and a playlist artifact counts as found only then.
pub open spec fn spec_reconcile_step(st: ReconcileStateV, item: ImportItemV) -> ReconcileStateV {
    let found = st.found + if item.playlist {
        0int
    } else {
        1int
    };
    if st.cat.contains(item.path) {
        ReconcileStateV { found, added: st.added, updated: st.updated + 1, cat: st.cat }
    } else {
        ReconcileStateV {
            found: found + if item.playlist {
                1int
            } else {
                0int
            },
            added: st.added + 1,
            updated: st.updated,
            cat: st.cat.push(item.path),
        }
    }
}

/// The reconciler folded over the first `n` items.
pub open spec fn spec_reconcile(items: Seq<ImportItemV>, st: ReconcileStateV, n: int) -> ReconcileStateV
    decreases n,
{
    if 0 < n && n <= items.len() {
        spec_reconcile_step(spec_reconcile(items, st, n - 1), items[n - 1])
    } else {
        st
    }
}

/// Each item moves each counter by at most one, and the catalog only grows.
pub proof fn lemma_reconcile_bounds(items: Seq<ImportItemV>, st: ReconcileStateV, n: int)
    requires
        0 <= n <= items.len(),
    ensures
        st.found <= spec_reconcile(items, st, n).found <= st.found + n,
        st.added <= spec_reconcile(items, st, n).added <= st.added + n,
        st.updated <= spec_reconcile(items, st, n).updated <= st.updated + n,
    decreases n,
{
    if 0 < n {
        lemma_reconcile_bounds(items, st, n - 1);
    }
}

/// After the fold, every processed item's path is in the catalog, and the
/// catalog holds the old paths with the newly added ones behind them.
pub proof fn lemma_reconcile_cat(items: Seq<ImportItemV>, st: ReconcileStateV, n: int)
    requires
        0 <= n <= items.len(),
    ensures
        forall|j: int|
            0 <= j < n ==> #[trigger] spec_reconcile(items, st, n).cat.contains(items[j].path),
        forall|p: Seq<char>|
            st.cat.contains(p) ==> #[trigger] spec_reconcile(items, st, n).cat.contains(p),
    decreases n,
{
    if 0 < n {
        lemma_reconcile_cat(items, st, n - 1);
        let prev = spec_reconcile(items, st, n - 1);
        let fin = spec_reconcile(items, st, n);
        assert forall|p: Seq<char>| prev.cat.contains(p) implies fin.cat.contains(p) by {
            if !prev.cat.contains(items[n - 1].path) {
                let k = choose|k: int| 0 <= k < prev.cat.len() && prev.cat[k] == p;
                assert(fin.cat[k] == p);
            }
        }
        if !prev.cat.contains(items[n - 1].path) {
            assert(fin.cat.last() == items[n - 1].path);
        }
    }
}

/// Each item counts exactly once: as added or as updated.
pub proof fn lemma_reconcile_total(items: Seq<ImportItemV>, st: ReconcileStateV, n: int)
    requires
        0 <= n <= items.len(),
    ensures
        spec_reconcile(items, st, n).added - st.added + spec_reconcile(items, st, n).updated
            - st.updated == n,
    decreases n,
{
    if 0 < n {
        lemma_reconcile_total(items, st, n - 1);
    }
}

/// When every item's path is already in the catalog, nothing is added: each
/// item counts as updated and the catalog does not change.
pub proof fn lemma_reconcile_all_present(items: Seq<ImportItemV>, st: ReconcileStateV, n: int)
    requires
        0 <= n <= items.len(),
        forall|j: int| 0 <= j < n ==> st.cat.contains(#[trigger] items[j].path),
    ensures
        spec_reconcile(items, st, n).added == st.added,
        spec_reconcile(items, st, n).updated == st.updated + n,
        spec_reconcile(items, st, n).cat == st.cat,
    decreases n,
{
    if 0 < n {
        lemma_reconcile_all_present(items, st, n - 1);
    }
}

/// Idempotence of reconciliation: running the same items a second time
/// against the catalog the first run left behind adds nothing, counts every
/// item as updated — as many as the first run added and updated together —
/// and leaves the catalog as it was. In particular, a first run against a
/// catalog that held none of the items has `updated` zero, and the second
/// run's `updated` then equals the first run's `added`.
pub proof fn lemma_rescan_idempotent(items: Seq<ImportItemV>, st0: ReconcileStateV)
    ensures
        ({
            let fin1 = spec_reconcile(items, st0, items.len() as int);
            let st1 = ReconcileStateV { found: 0, added: 0, updated: 0, cat: fin1.cat };
            let fin2 = spec_reconcile(items, st1, items.len() as int);
            &&& fin2.added == 0
            &&& fin2.updated == (fin1.added - st0.added) + (fin1.updated - st0.updated)
            &&& fin2.cat == fin1.cat
        }),
{
    let n = items.len() as int;
    let fin1 = spec_reconcile(items, st0, n);
    lemma_reconcile_cat(items, st0, n);
    let st1 = ReconcileStateV { found: 0, added: 0, updated: 0, cat: fin1.cat };
    lemma_reconcile_all_present(items, st1, n);
    lemma_reconcile_total(items, st0, n);
}

// ===================== the executable reconciler =====================

/// The catalog modeled as the ordered list of its canonical paths.
pub struct PathCatalog {
    pub paths: Vec<String>,
}

impl PathCatalog {
    pub open spec fn view_of(&self) -> Seq<Seq<char>> {
        strings_view(self.paths@)
    }

    pub fn new() -> (r: PathCatalog)
        ensures
            r.view_of().len() == 0,
    {
        let r = PathCatalog { paths: Vec::new() };
        proof {
            assert(r.view_of() =~= Seq::<Seq<char>>::empty());
        }
        r
    }

    pub fn contains_path(&self, p: &str) -> (r: bool)
        ensures
            r == self.view_of().contains(p@),
    {
        let mut i: usize = 0;
        while i < self.paths.len()
            invariant
                i <= self.paths@.len(),
                forall|l: int| 0 <= l < i ==> self.view_of()[l] != p@,
            decreases self.paths@.len() - i,
        {
            if str_eq(self.paths[i].as_str(), p) {
                proof {
                    assert(self.view_of()[i as int] == p@);
                }
                return true;
            }
            i += 1;
        }
        false
    }
}

/// The paths of a run of games, in order.
pub open spec fn games_paths(games: Seq<Game>) -> Seq<Seq<char>> {
    games.map_values(|g: Game| g.rom_path@)
}

/// The items among the first `n` that the reconciler inserts: those whose
/// path the evolving catalog does not yet hold, in order.
pub open spec fn spec_added_items(
    items: Seq<ImportItemV>,
    st: ReconcileStateV,
    n: int,
) -> Seq<ImportItemV>
    decreases n,
{
    if 0 < n && n <= items.len() {
        let prev = spec_added_items(items, st, n - 1);
        if spec_reconcile(items, st, n - 1).cat.contains(items[n - 1].path) {
            prev
        } else {
            prev.push(items[n - 1])
        }
    } else {
        Seq::empty()
    }
}

/// A fresh catalog entry carries its import item's cleaned title, resolved
/// path and platform, and empty metadata.
pub open spec fn game_from_item(g: Game, item: ImportItemV) -> bool {
    &&& g.title@ == item.title
    &&& g.rom_path@ == item.path
    &&& g.platform_id@ == item.platform_id
    &&& g.cover_art_path is None
    &&& g.total_play_time_seconds == 0
    &&& !g.is_favorite
}

/// Reconciles the items against the catalog, in order: mutates the counters
/// of `result` as the fold states, inserts each missing path, and returns the
/// fresh game entries, one per added item, carrying its cleaned title,
/// resolved path and platform.
pub fn reconcile_items(
    items: &Vec<ImportItem>,
    catalog: &mut PathCatalog,
    result: &mut ScanResult,
) -> (games: Vec<Game>)
    requires
        old(result).games_found + items@.len() <= i32::MAX,
        old(result).games_added + items@.len() <= i32::MAX,
        old(result).games_updated + items@.len() <= i32::MAX,
    ensures
        ({
            let st0 = ReconcileStateV {
                found: old(result).games_found as int,
                added: old(result).games_added as int,
                updated: old(result).games_updated as int,
                cat: old(catalog).view_of(),
            };
            let fin = spec_reconcile(items_view(items@), st0, items@.len() as int);
            &&& final(result).games_found == fin.found
            &&& final(result).games_added == fin.added
            &&& final(result).games_updated == fin.updated
            &&& final(result).errors == old(result).errors
            &&& final(catalog).view_of() == fin.cat
            &&& fin.cat == old(catalog).view_of() + games_paths(games@)
            &&& games@.len() == spec_added_items(
                items_view(items@),
                st0,
                items@.len() as int,
            ).len()
            &&& forall|k: int|
                0 <= k < games@.len() ==> game_from_item(
                    #[trigger] games@[k],
                    spec_added_items(items_view(items@), st0, items@.len() as int)[k],
                )
        }),
{
    let ghost st0 = ReconcileStateV {
        found: result.games_found as int,
        added: result.games_added as int,
        updated: result.games_updated as int,
        cat: catalog.view_of(),
    };
    let ghost iv = items_view(items@);
    let mut games: Vec<Game> = Vec::new();
    proof {
        assert(games_paths(games@) =~= Seq::<Seq<char>>::empty());
        assert(st0.cat + games_paths(games@) =~= st0.cat);
    }
    let mut i: usize = 0;
    while i < items.len()
        invariant
            i <= items@.len(),
            iv == items_view(items@),
            st0.found + items@.len() <= i32::MAX,
            st0.added + items@.len() <= i32::MAX,
            st0.updated + items@.len() <= i32::MAX,
            st0.found == old(result).games_found as int,
            st0.added == old(result).games_added as int,
            st0.updated == old(result).games_updated as int,
            st0.cat == old(catalog).view_of(),
            result.games_found as int == spec_reconcile(iv, st0, i as int).found,
            result.games_added as int == spec_reconcile(iv, st0, i as int).added,
            result.games_updated as int == spec_reconcile(iv, st0, i as int).updated,
            result.errors == old(result).errors,
            catalog.view_of() == spec_reconcile(iv, st0, i as int).cat,
            spec_reconcile(iv, st0, i as int).cat == st0.cat + games_paths(games@),
            games@.len() == spec_added_items(iv, st0, i as int).len(),
            forall|k: int|
                0 <= k < games@.len() ==> game_from_item(
                    #[trigger] games@[k],
                    spec_added_items(iv, st0, i as int)[k],
                ),
        decreases items@.len() - i,
    {
        proof {
            lemma_reconcile_bounds(iv, st0, i as int);
            assert(iv[i as int] == items@[i as int]@);
        }
        let item = &items[i];
        if !item.playlist {
            result.games_found = result.games_found + 1;
        }
        if catalog.contains_path(item.path.as_str()) {
            result.games_updated = result.games_updated + 1;
        } else {
            if item.playlist {
                result.games_found = result.games_found + 1;
            }
            result.games_added = result.games_added + 1;
            let game = Game::new(item.title.clone(), item.path.clone(), item.platform_id.clone());
            catalog.paths.push(item.path.clone());
            games.push(game);
            proof {
                assert(catalog.view_of() =~= spec_reconcile(iv, st0, i as int).cat.push(
                    iv[i as int].path,
                ));
                assert(games_paths(games@) =~= games_paths(games@.drop_last()).push(
                    games@.last().rom_path@,
                ));
                assert(st0.cat + games_paths(games@) =~= (st0.cat + games_paths(
                    games@.drop_last(),
                )).push(games@.last().rom_path@));
                assert(spec_added_items(iv, st0, i + 1) == spec_added_items(iv, st0, i as int).push(
                    iv[i as int],
                ));
            }
        }
        i += 1;
    }
    games
}

} // verus!
