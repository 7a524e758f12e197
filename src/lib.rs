//! Finds kill combos in recorded fighting-game matches: the frame model, the
//! combo start locator, the kill scan over a match, the player filter, the
//! slicing of a file list between workers, and the playlist document.

pub mod frame;
pub mod locator;
pub mod scan;
pub mod filter;
pub mod dispatch;
pub mod playlist;
pub mod jsonmodel;
pub mod monotone;

pub use frame::{BroadState, Frame, ANIM_FRAME_UNIT, PERCENT_UNIT};
pub use locator::{combo_start, thresholds, Thresholds, STRICTNESS_MAX};
pub use scan::{kill_combos, Combo, Config};
pub use filter::{passes, Player};
pub use dispatch::{is_recording_extension, join_results, match_combos, orientations, partition_slices, use_workers, TargetPathError, WORKERS};
pub use playlist::{entry_combo, parse_playlist_json, playlist_json, playlist_combos, playlist_entries, playlist_entry, EntryFields, ParsePlaylistError, PlaylistEntry, FRAME_OFFSET};
