//! The data model: games, emulators, platforms, collections, play sessions,
//! the scan inputs and the scan result accumulator.

use vstd::prelude::*;

use crate::trusted::new_uuid_string;
use crate::trusted::now_rfc3339;

verus! {

/// A game in the library, keyed by a unique identifier and a unique ROM path.
#[derive(Debug, Clone)]
pub struct Game {
    pub id: String,
    pub title: String,
    pub rom_path: String,
    pub platform_id: String,
    pub cover_art_path: Option<String>,
    pub background_path: Option<String>,
    pub screenshots: Vec<String>,
    pub description: Option<String>,
    pub release_date: Option<String>,
    pub genre: Vec<String>,
    pub developer: Option<String>,
    pub publisher: Option<String>,
    pub total_play_time_seconds: i64,
    pub last_played: Option<String>,
    pub is_favorite: bool,
    pub preferred_emulator_id: Option<String>,
    pub collection_ids: Vec<String>,
}

impl Game {
    /// A fresh game entry: a newly generated identifier, the given title,
    /// path and platform, and every other field empty.
    pub fn new(title: String, rom_path: String, platform_id: String) -> (g: Game)
        ensures
            g.title == title,
            g.rom_path == rom_path,
            g.platform_id == platform_id,
            g.cover_art_path is None,
            g.background_path is None,
            g.screenshots@.len() == 0,
            g.description is None,
            g.release_date is None,
            g.genre@.len() == 0,
            g.developer is None,
            g.publisher is None,
            g.total_play_time_seconds == 0,
            g.last_played is None,
            !g.is_favorite,
            g.preferred_emulator_id is None,
            g.collection_ids@.len() == 0,
    {
        Game {
            id: new_uuid_string(),
            title,
            rom_path,
            platform_id,
            cover_art_path: None,
            background_path: None,
            screenshots: Vec::new(),
            description: None,
            release_date: None,
            genre: Vec::new(),
            developer: None,
            publisher: None,
            total_play_time_seconds: 0,
            last_played: None,
            is_favorite: false,
            preferred_emulator_id: None,
            collection_ids: Vec::new(),
        }
    }
}

/// An emulator configuration.
#[derive(Debug, Clone)]
pub struct Emulator {
    pub id: String,
    pub name: String,
    pub executable_path: String,
    pub launch_arguments: String,
    pub supported_platform_ids: Vec<String>,
}

impl Emulator {
    /// A fresh emulator entry with the default launch-argument template,
    /// a single `{rom}` placeholder.
    pub fn new(name: String, executable_path: String) -> (e: Emulator)
        ensures
            e.name == name,
            e.executable_path == executable_path,
            e.launch_arguments@ == "{rom}"@,
            e.supported_platform_ids@.len() == 0,
    {
        Emulator {
            id: new_uuid_string(),
            name,
            executable_path,
            launch_arguments: "{rom}".to_owned(),
            supported_platform_ids: Vec::new(),
        }
    }
}

/// A gaming platform: its identifier, display data and the file extensions it
/// claims (lowercase, leading dot); an extension may appear in several
/// platform records.
#[derive(Debug, Clone)]
pub struct Platform {
    pub id: String,
    pub display_name: String,
    pub manufacturer: String,
    pub file_extensions: Vec<String>,
    pub icon_path: Option<String>,
    pub default_emulator_id: Option<String>,
    pub color: String,
}

/// A user-created collection of games.
#[derive(Debug, Clone)]
pub struct Collection {
    pub id: String,
    pub name: String,
    pub game_ids: Vec<String>,
    pub cover_game_id: Option<String>,
}

impl Collection {
    pub fn new(name: String) -> (c: Collection)
        ensures
            c.name == name,
            c.game_ids@.len() == 0,
            c.cover_game_id is None,
    {
        Collection { id: new_uuid_string(), name, game_ids: Vec::new(), cover_game_id: None }
    }
}

/// A play session for play-time tracking.
#[derive(Debug, Clone)]
pub struct PlaySession {
    pub id: String,
    pub game_id: String,
    pub start_time: String,
    pub end_time: Option<String>,
    pub duration_seconds: i64,
}

impl PlaySession {
    /// A fresh session for the given game, started now.
    pub fn new(game_id: String) -> (s: PlaySession)
        ensures
            s.game_id == game_id,
            s.end_time is None,
            s.duration_seconds == 0,
    {
        PlaySession {
            id: new_uuid_string(),
            game_id,
            start_time: now_rfc3339(),
            end_time: None,
            duration_seconds: 0,
        }
    }
}

/// The outcome of launching a game.
#[derive(Debug, Clone)]
pub struct LaunchResult {
    pub success: bool,
    pub pid: Option<u32>,
    pub error: Option<String>,
}

/// Input for creating a new game.
#[derive(Debug, Clone)]
pub struct CreateGameInput {
    pub title: String,
    pub rom_path: String,
    pub platform_id: String,
    pub cover_art_path: Option<String>,
    pub description: Option<String>,
}

/// Input for updating a game; `None` fields are left unchanged.
#[derive(Debug, Clone)]
pub struct UpdateGameInput {
    pub title: Option<String>,
    pub platform_id: Option<String>,
    pub cover_art_path: Option<String>,
    pub background_path: Option<String>,
    pub screenshots: Option<Vec<String>>,
    pub description: Option<String>,
    pub release_date: Option<String>,
    pub genre: Option<Vec<String>>,
    pub developer: Option<String>,
    pub publisher: Option<String>,
    pub is_favorite: Option<bool>,
    pub preferred_emulator_id: Option<String>,
}

impl Default for UpdateGameInput {
    /// The empty update: every field left unchanged.
    fn default() -> (u: UpdateGameInput)
        ensures
            u.title is None,
            u.platform_id is None,
            u.cover_art_path is None,
            u.background_path is None,
            u.screenshots is None,
            u.description is None,
            u.release_date is None,
            u.genre is None,
            u.developer is None,
            u.publisher is None,
            u.is_favorite is None,
            u.preferred_emulator_id is None,
    {
        UpdateGameInput {
            title: None,
            platform_id: None,
            cover_art_path: None,
            background_path: None,
            screenshots: None,
            description: None,
            release_date: None,
            genre: None,
            developer: None,
            publisher: None,
            is_favorite: None,
            preferred_emulator_id: None,
        }
    }
}

/// Input for creating an emulator.
#[derive(Debug, Clone)]
pub struct CreateEmulatorInput {
    pub name: String,
    pub executable_path: String,
    pub launch_arguments: Option<String>,
    pub supported_platform_ids: Vec<String>,
}

/// Input for updating an emulator; `None` fields are left unchanged.
#[derive(Debug, Clone)]
pub struct UpdateEmulatorInput {
    pub name: Option<String>,
    pub executable_path: Option<String>,
    pub launch_arguments: Option<String>,
    pub supported_platform_ids: Option<Vec<String>>,
}

/// Input for creating a collection.
#[derive(Debug, Clone)]
pub struct CreateCollectionInput {
    pub name: String,
}

/// Input for updating a collection; `None` fields are left unchanged.
#[derive(Debug, Clone)]
pub struct UpdateCollectionInput {
    pub name: Option<String>,
    pub game_ids: Option<Vec<String>>,
    pub cover_game_id: Option<String>,
}

/// One root directory to scan, with an optional platform override: when set,
/// every file under this root resolves to that platform unconditionally.
#[derive(Debug, Clone)]
pub struct ScanPath {
    pub path: String,
    pub platform_id: Option<String>,
}

/// Information about a RetroArch core.
#[derive(Debug, Clone)]
pub struct RetroArchCore {
    pub file_name: String,
    pub display_name: String,
    pub full_path: String,
}

/// A search result from the metadata provider.
#[derive(Debug, Clone)]
pub struct IgdbSearchResult {
    pub igdb_id: u64,
    pub name: String,
    pub release_date: Option<String>,
    pub cover_url: Option<String>,
    pub platforms: Vec<String>,
    pub summary: Option<String>,
}

/// Full game metadata from the metadata provider.
#[derive(Debug, Clone)]
pub struct IgdbGameMetadata {
    pub igdb_id: u64,
    pub name: String,
    pub summary: Option<String>,
    pub release_date: Option<String>,
    pub genres: Vec<String>,
    pub developer: Option<String>,
    pub publisher: Option<String>,
    pub cover_url: Option<String>,
    pub screenshot_urls: Vec<String>,
}

/// The outcome of scraping metadata for one game.
#[derive(Debug, Clone)]
pub struct ScrapeResult {
    pub success: bool,
    pub game_id: String,
    pub fields_updated: Vec<String>,
    pub error: Option<String>,
}

/// The outcome of scraping metadata for a whole library.
#[derive(Debug, Clone)]
pub struct BatchScrapeResult {
    pub total: u32,
    pub successful: u32,
    pub failed: u32,
    pub errors: Vec<String>,
}

/// The accumulator of one scan invocation: counts of files found, newly
/// added and already present, and the errors met along the way. Mutated
/// monotonically while the scan runs.
#[derive(Debug, Clone)]
pub struct ScanResult {
    pub games_found: i32,
    pub games_added: i32,
    pub games_updated: i32,
    pub errors: Vec<String>,
}

impl ScanResult {
    /// A fresh, empty accumulator.
    pub fn new() -> (r: ScanResult)
        ensures
            r.games_found == 0,
            r.games_added == 0,
            r.games_updated == 0,
            r.errors@.len() == 0,
    {
        ScanResult { games_found: 0, games_added: 0, games_updated: 0, errors: Vec::new() }
    }
}

} // verus!
