//! Verified core of a desktop music player: playback state and playlist
//! navigation, favourites, the artist library built from a folder scan,
//! and the text that the interface shows.
pub mod text;
pub mod duration;
pub mod types;
pub mod player;
pub mod library;
pub mod ui_text;
pub mod cache;
pub mod volume;

pub use types::{PlayerState, Song, SongFav};
pub use duration::format_duration_enhanced;
