//! A catalog of installed games, reconciled against what a launcher reports.
//!
//! [`EpicGames::merge`] is the heart of it: it merges a fresh scan into the
//! catalog, keeps the images that a user has attached to its entries, and
//! reports what joined and what the scan did not confirm. `model` says what
//! a merge is, `laws` proves what holds of every merge.

pub mod annotate;
pub mod catalog;
pub mod game;
pub mod laws;
pub mod model;
pub mod plan;

pub use annotate::{
    parse_reply, search_url, yes_or_no, ImageAction, ImageEvent, ImageSearch, Reply,
};
pub use catalog::{EpicGames, MergeReport};
pub use game::{is_manifest_file, EpicGame, GameView, Manifest, ManifestView, EPIC_GAMES_JSON};
pub use plan::{plan_run, RunOptions, RunPlan};
