//! The song records and the playback state shared by every part of the player.
use vstd::prelude::*;

verus! {

/// A track of the playlist. Its length is kept in whole milliseconds.
#[derive(Debug, PartialEq, Eq, Default)]
pub struct Song {
    pub title: String,
    pub artist: String,
    pub album: String,
    pub path_file: String,
    pub duration_ms: u64,
    pub is_favorite: bool,
}

/// A track as the favourites list and the artist library store it: a song
/// together with the position (`id`) it had where it was taken from.
#[derive(Debug, PartialEq, Eq, Default)]
pub struct SongFav {
    pub id: usize,
    pub title: String,
    pub artist: String,
    pub album: String,
    pub path_file: String,
    pub duration_ms: u64,
    pub is_favorite: bool,
}

impl Clone for Song {
    fn clone(&self) -> (r: Self)
        ensures
            r == *self,
    {
        Song {
            title: self.title.clone(),
            artist: self.artist.clone(),
            album: self.album.clone(),
            path_file: self.path_file.clone(),
            duration_ms: self.duration_ms,
            is_favorite: self.is_favorite,
        }
    }
}

impl Clone for SongFav {
    fn clone(&self) -> (r: Self)
        ensures
            r == *self,
    {
        SongFav {
            id: self.id,
            title: self.title.clone(),
            artist: self.artist.clone(),
            album: self.album.clone(),
            path_file: self.path_file.clone(),
            duration_ms: self.duration_ms,
            is_favorite: self.is_favorite,
        }
    }
}

/// The favourite record of `song`, filed under `id`, with favourite flag `flag`.
pub open spec fn fav_of(song: Song, id: usize, flag: bool) -> SongFav {
    SongFav {
        id,
        title: song.title,
        artist: song.artist,
        album: song.album,
        path_file: song.path_file,
        duration_ms: song.duration_ms,
        is_favorite: flag,
    }
}

/// The song that a favourite record describes (its `id` is dropped).
pub open spec fn song_of_fav(f: SongFav) -> Song {
    Song {
        title: f.title,
        artist: f.artist,
        album: f.album,
        path_file: f.path_file,
        duration_ms: f.duration_ms,
        is_favorite: f.is_favorite,
    }
}

impl SongFav {
    /// The favourite record of `song`, filed under `id`, with flag `flag`.
    pub fn from_song(song: &Song, id: usize, flag: bool) -> (f: SongFav)
        ensures
            f == fav_of(*song, id, flag),
    {
        SongFav {
            id,
            title: song.title.clone(),
            artist: song.artist.clone(),
            album: song.album.clone(),
            path_file: song.path_file.clone(),
            duration_ms: song.duration_ms,
            is_favorite: flag,
        }
    }
}

impl From<SongFav> for Song {
    fn from(song_fav: SongFav) -> (s: Song) {
        Song {
            title: song_fav.title,
            artist: song_fav.artist,
            album: song_fav.album,
            path_file: song_fav.path_file,
            duration_ms: song_fav.duration_ms,
            is_favorite: song_fav.is_favorite,
        }
    }
}

impl vstd::std_specs::convert::FromSpecImpl<SongFav> for Song {
    open spec fn obeys_from_spec() -> bool {
        true
    }

    open spec fn from_spec(v: SongFav) -> Song {
        song_of_fav(v)
    }
}

/// Playback state of the player.
#[derive(PartialEq, Eq, Clone, Copy, Debug, Structural)]
pub enum PlayerState {
    Playing,
    Paused,
    Stopped,
}

impl Default for PlayerState {
    fn default() -> (s: Self)
        ensures
            s == PlayerState::Playing,
    {
        PlayerState::Playing
    }
}

/// The number under which a state is announced to the interface.
pub open spec fn spec_state_code(s: PlayerState) -> i32 {
    match s {
        PlayerState::Playing => 0,
        PlayerState::Paused => 1,
        PlayerState::Stopped => 2,
    }
}

/// The state that an announced number stands for, if any.
pub open spec fn spec_state_from_code(code: i32) -> Option<PlayerState> {
    if code == 0 {
        Some(PlayerState::Playing)
    } else if code == 1 {
        Some(PlayerState::Paused)
    } else if code == 2 {
        Some(PlayerState::Stopped)
    } else {
        None
    }
}

impl PlayerState {
    /// The number under which this state is announced: playing 0, paused 1, stopped 2.
    pub fn code(&self) -> (c: i32)
        ensures
            c == spec_state_code(*self),
    {
        match self {
            PlayerState::Playing => 0,
            PlayerState::Paused => 1,
            PlayerState::Stopped => 2,
        }
    }

    /// The state an announced number stands for; `None` for any other number.
    pub fn from_code(code: i32) -> (s: Option<PlayerState>)
        ensures
            s == spec_state_from_code(code),
    {
        if code == 0 {
            Some(PlayerState::Playing)
        } else if code == 1 {
            Some(PlayerState::Paused)
        } else if code == 2 {
            Some(PlayerState::Stopped)
        } else {
            None
        }
    }
}

/// Reading back the number a state is announced under gives that state.
pub proof fn lemma_state_code_roundtrip(s: PlayerState)
    ensures
        spec_state_from_code(spec_state_code(s)) == Some(s),
{
}

/// Every number that stands for a state is the number that state is announced under.
pub proof fn lemma_state_code_onto(code: i32)
    ensures
        spec_state_from_code(code) matches Some(s) ==> spec_state_code(s) == code,
{
}

} // verus!
