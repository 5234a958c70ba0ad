//! Library scanning engine for a personal game-library manager: it classifies
//! discovered ROM files by platform, detects multi-disc titles, plans playlist
//! artifacts, and reconciles importable items against a catalog of known paths.

pub mod aggregate;
pub mod chars;
pub mod discover;
pub mod discs;
pub mod extensions;
pub mod hints;
pub mod igdb_map;
pub mod info;
pub mod launch;
pub mod models;
pub mod paths;
pub mod patterns;
pub mod reconcile;
pub mod scan;
pub mod titles;
pub mod trusted;
