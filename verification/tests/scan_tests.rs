//! The scanning pipeline: discovery, aggregation, reconciliation and the
//! whole-scan model.

use romscan::discover::discover_files;
use romscan::discover::WalkEntry;
use romscan::extensions::ExtensionIndex;
use romscan::hints::default_platform_hints;
use romscan::models::Platform;
use romscan::reconcile::ImportItem;
use romscan::reconcile::PathCatalog;
use romscan::reconcile::reconcile_items;
use romscan::models::ScanResult;
use romscan::scan::scan_library;
use romscan::scan::RootScanInput;

fn platform(id: &str, exts: &[&str]) -> Platform {
    Platform {
        id: id.to_string(),
        display_name: id.to_string(),
        manufacturer: "test".to_string(),
        file_extensions: exts.iter().map(|e| e.to_string()).collect(),
        icon_path: None,
        default_emulator_id: None,
        color: "#000000".to_string(),
    }
}

fn entry(path: &str) -> WalkEntry {
    WalkEntry { path: path.to_string(), canonical: path.to_string() }
}

fn root(path: &str, entries: Vec<WalkEntry>) -> RootScanInput {
    RootScanInput { path: path.to_string(), exists: true, entries, platform_override: None }
}

#[test]
fn extension_index_keeps_registration_order() {
    let platforms = vec![platform("ps2", &[".iso"]), platform("gamecube", &[".iso", ".gcz"])];
    let index = ExtensionIndex::build(&platforms);
    let iso = index.get(".iso").expect("iso registered");
    assert_eq!(iso, &vec!["ps2".to_string(), "gamecube".to_string()]);
    let gcz = index.get(".gcz").expect("gcz registered");
    assert_eq!(gcz, &vec!["gamecube".to_string()]);
    let m3u = index.get(".m3u").expect("playlists registered");
    assert!(m3u.contains(&"ps1".to_string()));
    assert!(index.get(".zip").is_none());
}

#[test]
fn ambiguity_resolved_by_path_hint() {
    let platforms = vec![platform("ps2", &[".iso"]), platform("gamecube", &[".iso"])];
    let index = ExtensionIndex::build(&platforms);
    let hints = default_platform_hints();
    let entries = vec![entry("/mnt/PS2 Games/game.iso")];
    let (found, _) = discover_files(&entries, &index, &hints, &None);
    assert_eq!(found.len(), 1);
    assert_eq!(found[0].platform_id, "ps2");
}

#[test]
fn ambiguity_without_hint_falls_back_to_first_candidate() {
    let platforms = vec![platform("ps2", &[".iso"]), platform("gamecube", &[".iso"])];
    let index = ExtensionIndex::build(&platforms);
    let hints = default_platform_hints();
    let entries = vec![entry("/mnt/other/game.iso")];
    let (found, _) = discover_files(&entries, &index, &hints, &None);
    assert_eq!(found.len(), 1);
    assert_eq!(found[0].platform_id, "ps2");
}

#[test]
fn override_wins_over_hint() {
    let platforms = vec![platform("ps2", &[".iso"]), platform("gamecube", &[".iso"])];
    let index = ExtensionIndex::build(&platforms);
    let hints = default_platform_hints();
    let entries = vec![entry("/mnt/PS2 Games/game.iso")];
    let ovr = Some("gamecube".to_string());
    let (found, _) = discover_files(&entries, &index, &hints, &ovr);
    assert_eq!(found[0].platform_id, "gamecube");
}

#[test]
fn cue_bin_suppression() {
    let platforms = vec![platform("ps1", &[".cue"]), platform("genesis", &[".bin"])];
    let index = ExtensionIndex::build(&platforms);
    let hints = default_platform_hints();
    let entries = vec![entry("/roms/mixed/Track.bin"), entry("/roms/mixed/Track.cue")];
    let (found, _) = discover_files(&entries, &index, &hints, &None);
    assert_eq!(found.len(), 1);
    assert_eq!(found[0].path, "/roms/mixed/Track.cue");
}

#[test]
fn bin_without_cue_sibling_survives() {
    let platforms = vec![platform("genesis", &[".bin"])];
    let index = ExtensionIndex::build(&platforms);
    let hints = default_platform_hints();
    let entries = vec![entry("/roms/md/Game.bin")];
    let (found, _) = discover_files(&entries, &index, &hints, &None);
    assert_eq!(found.len(), 1);
    assert_eq!(found[0].platform_id, "genesis");
}

#[test]
fn multi_disc_aggregation() {
    let platforms = vec![platform("ps1", &[".cue"])];
    let entries = vec![
        entry("/roms/ps1/Game (Disc 1).cue"),
        entry("/roms/ps1/Game (Disc 2).cue"),
    ];
    let roots = vec![root("/roms/ps1", entries)];
    let mut catalog = PathCatalog::new();
    let (result, games, plans) = scan_library(&roots, &platforms, &mut catalog);
    assert_eq!(plans.len(), 1);
    assert_eq!(plans[0].path, "/roms/ps1/Game.m3u");
    assert_eq!(plans[0].content, "Game (Disc 1).cue\nGame (Disc 2).cue");
    assert_eq!(result.games_found, 1);
    assert_eq!(result.games_added, 1);
    assert_eq!(result.games_updated, 0);
    assert!(result.errors.is_empty());
    assert_eq!(games.len(), 1);
    assert_eq!(games[0].title, "Game");
    assert_eq!(games[0].rom_path, "/roms/ps1/Game.m3u");
    assert_eq!(games[0].platform_id, "ps1");
}

#[test]
fn discs_listed_in_ascending_order() {
    let platforms = vec![platform("ps1", &[".cue"])];
    let entries = vec![
        entry("/roms/ps1/Game (Disc 3).cue"),
        entry("/roms/ps1/Game (Disc 1).cue"),
        entry("/roms/ps1/Game (Disc 2).cue"),
    ];
    let roots = vec![root("/roms/ps1", entries)];
    let mut catalog = PathCatalog::new();
    let (_, _, plans) = scan_library(&roots, &platforms, &mut catalog);
    assert_eq!(plans.len(), 1);
    assert_eq!(
        plans[0].content,
        "Game (Disc 1).cue\nGame (Disc 2).cue\nGame (Disc 3).cue"
    );
}

#[test]
fn single_disc_non_aggregation() {
    let platforms = vec![platform("ps1", &[".cue"])];
    let entries = vec![entry("/roms/ps1/Game (Disc 1).cue")];
    let roots = vec![root("/roms/ps1", entries)];
    let mut catalog = PathCatalog::new();
    let (result, games, plans) = scan_library(&roots, &platforms, &mut catalog);
    assert!(plans.is_empty());
    assert_eq!(result.games_found, 1);
    assert_eq!(result.games_added, 1);
    assert_eq!(games.len(), 1);
    assert_eq!(games[0].title, "Game");
    assert_eq!(games[0].rom_path, "/roms/ps1/Game (Disc 1).cue");
}

#[test]
fn preexisting_playlist_is_reused_not_rewritten() {
    let platforms = vec![platform("ps1", &[".cue"])];
    let entries = vec![
        entry("/roms/ps1/Game (Disc 1).cue"),
        entry("/roms/ps1/Game (Disc 2).cue"),
        entry("/roms/ps1/Game.m3u"),
    ];
    let roots = vec![root("/roms/ps1", entries)];
    let mut catalog = PathCatalog::new();
    let (result, games, plans) = scan_library(&roots, &platforms, &mut catalog);
    // nothing to generate: the playlist at the computed path already exists
    assert!(plans.is_empty());
    // the pre-existing playlist is taken up as the reused artifact and
    // counted exactly once; it is not imported a second time as an ordinary
    // walked file
    assert_eq!(result.games_found, 1);
    assert_eq!(result.games_added, 1);
    assert_eq!(result.games_updated, 0);
    assert_eq!(games.len(), 1);
    assert_eq!(games[0].rom_path, "/roms/ps1/Game.m3u");
    assert_eq!(games[0].title, "Game");
}

#[test]
fn rescan_after_generation_counts_the_playlist_once() {
    // the first scan generates the playlist; a second walk then sees it on
    // disk, and the second scan must neither add nor double-count it
    let platforms = vec![platform("ps1", &[".cue"])];
    let discs = vec![
        entry("/roms/ps1/Game (Disc 1).cue"),
        entry("/roms/ps1/Game (Disc 2).cue"),
    ];
    let mut catalog = PathCatalog::new();
    let (first, _, plans) = scan_library(
        &vec![root("/roms/ps1", discs.clone())],
        &platforms,
        &mut catalog,
    );
    assert_eq!(first.games_added, 1);
    assert_eq!(plans.len(), 1);
    let mut walked_again = discs;
    walked_again.push(entry("/roms/ps1/Game.m3u"));
    let (second, second_games, _) = scan_library(
        &vec![root("/roms/ps1", walked_again)],
        &platforms,
        &mut catalog,
    );
    assert_eq!(second.games_added, 0);
    assert_eq!(second.games_updated, first.games_added);
    assert!(second_games.is_empty());
}

#[test]
fn error_isolation_across_roots() {
    let platforms = vec![platform("snes", &[".sfc"])];
    let roots = vec![
        RootScanInput {
            path: "/does/not/exist".to_string(),
            exists: false,
            entries: vec![],
            platform_override: None,
        },
        root("/roms/snes", vec![entry("/roms/snes/Mario (U).sfc")]),
    ];
    let mut catalog = PathCatalog::new();
    let (result, games, _) = scan_library(&roots, &platforms, &mut catalog);
    assert_eq!(result.errors.len(), 1);
    assert_eq!(result.errors[0], "Path does not exist: /does/not/exist");
    assert_eq!(result.games_found, 1);
    assert_eq!(result.games_added, 1);
    assert_eq!(games[0].title, "Mario");
}

#[test]
fn rescan_is_idempotent_for_singletons() {
    let platforms = vec![platform("snes", &[".sfc"])];
    let entries = vec![entry("/roms/snes/A.sfc"), entry("/roms/snes/B.sfc")];
    let mut catalog = PathCatalog::new();
    let roots = vec![root("/roms/snes", entries)];
    let (first, _, _) = scan_library(&roots, &platforms, &mut catalog);
    assert_eq!(first.games_added, 2);
    assert_eq!(first.games_updated, 0);
    let (second, second_games, _) = scan_library(&roots, &platforms, &mut catalog);
    assert_eq!(second.games_added, 0);
    assert_eq!(second.games_updated, first.games_added);
    assert!(second_games.is_empty());
}

#[test]
fn rescan_adds_nothing_for_multi_disc_sets() {
    let platforms = vec![platform("ps1", &[".cue"])];
    let entries = vec![
        entry("/roms/ps1/Game (Disc 1).cue"),
        entry("/roms/ps1/Game (Disc 2).cue"),
    ];
    let mut catalog = PathCatalog::new();
    let roots = vec![root("/roms/ps1", entries)];
    let (first, _, _) = scan_library(&roots, &platforms, &mut catalog);
    let (second, _, _) = scan_library(&roots, &platforms, &mut catalog);
    assert_eq!(first.games_added, 1);
    assert_eq!(second.games_added, 0);
    assert_eq!(second.games_updated, 1);
}

#[test]
fn reconciler_counts_existing_and_new_paths() {
    let mut catalog = PathCatalog::new();
    catalog.paths.push("/roms/known.sfc".to_string());
    let items = vec![
        ImportItem {
            path: "/roms/known.sfc".to_string(),
            display_path: "/roms/known.sfc".to_string(),
            title: "Known".to_string(),
            platform_id: "snes".to_string(),
            playlist: false,
        },
        ImportItem {
            path: "/roms/new.sfc".to_string(),
            display_path: "/roms/new.sfc".to_string(),
            title: "New".to_string(),
            platform_id: "snes".to_string(),
            playlist: false,
        },
    ];
    let mut result = ScanResult::new();
    let games = reconcile_items(&items, &mut catalog, &mut result);
    assert_eq!(result.games_found, 2);
    assert_eq!(result.games_updated, 1);
    assert_eq!(result.games_added, 1);
    assert!(result.errors.is_empty());
    assert_eq!(games.len(), 1);
    assert_eq!(games[0].title, "New");
    assert!(catalog.contains_path("/roms/new.sfc"));
}

#[test]
fn playlist_platform_falls_back_to_default() {
    // a playlist in a directory without any platform hint lands on ps1
    let platforms = vec![platform("saturn", &[".cue"])];
    let entries = vec![
        entry("/data/stuff/Game (Disc 1).cue"),
        entry("/data/stuff/Game (Disc 2).cue"),
    ];
    let roots = vec![root("/data/stuff", entries)];
    let mut catalog = PathCatalog::new();
    let (_, games, plans) = scan_library(&roots, &platforms, &mut catalog);
    assert_eq!(plans.len(), 1);
    assert_eq!(games.len(), 1);
    assert_eq!(games[0].platform_id, "ps1");
}

#[test]
fn scan_with_no_roots_is_empty() {
    let platforms = vec![platform("snes", &[".sfc"])];
    let mut catalog = PathCatalog::new();
    let (result, games, plans) = scan_library(&vec![], &platforms, &mut catalog);
    assert_eq!(result.games_found, 0);
    assert_eq!(result.games_added, 0);
    assert_eq!(result.games_updated, 0);
    assert!(result.errors.is_empty());
    assert!(games.is_empty());
    assert!(plans.is_empty());
}

#[test]
fn equal_canonical_paths_count_once() {
    // two walk entries resolving to the same canonical path: the second finds
    // the entry the first inserted
    let platforms = vec![platform("snes", &[".sfc"])];
    let entries = vec![
        WalkEntry {
            path: "/roms/snes/Game.sfc".to_string(),
            canonical: "/data/Game.sfc".to_string(),
        },
        WalkEntry {
            path: "/roms/mirror/Game.sfc".to_string(),
            canonical: "/data/Game.sfc".to_string(),
        },
    ];
    let roots = vec![root("/roms", entries)];
    let mut catalog = PathCatalog::new();
    let (result, games, _) = scan_library(&roots, &platforms, &mut catalog);
    assert_eq!(result.games_found, 2);
    assert_eq!(result.games_added, 1);
    assert_eq!(result.games_updated, 1);
    assert_eq!(games.len(), 1);
}

#[test]
fn lone_playlist_imports_as_a_file() {
    let platforms = vec![platform("ps1", &[".cue"])];
    let entries = vec![entry("/roms/ps1/Game.m3u")];
    let roots = vec![root("/roms/ps1", entries)];
    let mut catalog = PathCatalog::new();
    let (result, games, plans) = scan_library(&roots, &platforms, &mut catalog);
    assert!(plans.is_empty());
    assert_eq!(result.games_found, 1);
    assert_eq!(result.games_added, 1);
    assert_eq!(games[0].platform_id, "ps1");
    assert_eq!(games[0].title, "Game");
}

#[test]
fn staged_root_scan_mirrors_the_model() {
    // the staged flow the driver follows: plan, then pretend the write
    // succeeded, then build the playlist items and reconcile
    let platforms = vec![platform("ps1", &[".cue"])];
    let index = ExtensionIndex::build(&platforms);
    let hints = default_platform_hints();
    let entries = vec![
        entry("/roms/ps1/Game (Disc 1).cue"),
        entry("/roms/ps1/Game (Disc 2).cue"),
    ];
    let plan = romscan::scan::plan_root_scan(&entries, &index, &hints, &None);
    assert_eq!(plan.discovered.len(), 2);
    assert_eq!(plan.existing_m3u.len(), 0);
    assert_eq!(plan.to_write.len(), 1);
    assert_eq!(plan.reused.len(), 0);
    assert_eq!(plan.covered.len(), 2);
    assert!(plan.file_items.is_empty());

    let ready = vec![romscan::reconcile::ReadyPlaylist {
        path: plan.to_write[0].path.clone(),
        canonical: plan.to_write[0].path.clone(),
    }];
    let items = romscan::reconcile::playlist_import_items(&ready, &hints);
    assert_eq!(items.len(), 1);
    assert_eq!(items[0].title, "Game");
    assert_eq!(items[0].platform_id, "ps1");
    assert!(items[0].playlist);

    let mut result = ScanResult::new();
    let mut catalog = PathCatalog::new();
    let games = reconcile_items(&items, &mut catalog, &mut result);
    assert_eq!(result.games_found, 1);
    assert_eq!(result.games_added, 1);
    assert_eq!(games.len(), 1);
}

#[test]
fn playlist_write_failure_message() {
    let mut result = ScanResult::new();
    let msg = romscan::scan::playlist_error_message("Game", "disk full");
    romscan::scan::record_error(&mut result, msg);
    assert_eq!(result.errors[0], "Failed to generate .m3u for Game: disk full");
    assert_eq!(result.games_found, 0);
}
