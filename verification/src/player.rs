//! The player: the playlist, the song under the cursor, playback state,
//! mute and the favourites list. Every operation that starts playback
//! hands back a [`PlayRequest`] that tells the audio pipeline what to load.
use vstd::prelude::*;
use crate::types::{PlayerState, Song, SongFav, fav_of};

verus! {

/// What the audio pipeline is asked to do when playback starts.
pub struct PlayRequest {
    /// The pipeline must be reset before loading, because another song was chosen.
    pub restart_pipeline: bool,
    /// The location handed to the pipeline: `file://` followed by the song's path.
    pub uri: String,
    /// The song that starts playing (announced to the interface).
    pub song: Song,
}

/// What a press on a transport control asks of the audio pipeline.
pub enum Transport {
    /// Pause the pipeline.
    Pause,
    /// Start playback as requested; nothing to do when there is no song to play.
    Play(Option<PlayRequest>),
}

/// The state of the player.
pub struct PlayerCore {
    pub playlist: Vec<Song>,
    pub playlist_fav: Vec<SongFav>,
    /// Position of the current song in `playlist`.
    pub current_index: usize,
    /// Set when another song was chosen since playback last started.
    pub is_another_index: bool,
    pub state: PlayerState,
    pub muted: bool,
    /// "Next" picks a song at random instead of the following one.
    pub shuffle: bool,
}

/// Position after "next": the following song, or the first after the last.
pub open spec fn next_index(i: nat, len: nat) -> nat {
    if i + 1 < len { i + 1 } else { 0 }
}

/// Position after "previous" (for a non-empty playlist): the preceding song,
/// or the last one before the first.
pub open spec fn prev_index(i: nat, len: nat) -> nat {
    if i == 0 { (len - 1) as nat } else { (i - 1) as nat }
}

/// Position after a shuffled "next" that drew the number `draw`: the draw
/// taken modulo the playlist length (the first position on an empty playlist).
pub open spec fn shuffle_index(draw: nat, len: nat) -> nat {
    if len == 0 { 0 } else { draw % len }
}

/// The location under which the pipeline loads a file.
pub open spec fn file_uri(path: Seq<char>) -> Seq<char> {
    "file://"@ + path
}

/// The favourites list after marking (`flag`) or unmarking the song at `idx`:
/// marking appends its record; unmarking drops every record with its path.
/// Nothing changes when `idx` is past the end of the playlist.
pub open spec fn favs_after(favs: Seq<SongFav>, playlist: Seq<Song>, idx: usize, flag: bool) -> Seq<SongFav> {
    if idx < playlist.len() {
        if flag {
            favs.push(fav_of(playlist[idx as int], idx, flag))
        } else {
            favs.filter(not_at_path(playlist[idx as int].path_file@))
        }
    } else {
        favs
    }
}

/// `s` with its favourite flag flipped.
pub open spec fn flip_favorite(s: Song) -> Song {
    Song { is_favorite: !s.is_favorite, ..s }
}

/// The playlist after the favourite flag of the song at `i` is flipped.
pub open spec fn toggled_playlist(pl: Seq<Song>, i: usize) -> Seq<Song> {
    pl.update(i as int, flip_favorite(pl[i as int]))
}

/// The favourites list after the favourite flag of the song at `i` is flipped:
/// the song is marked when it was not a favourite, unmarked when it was.
pub open spec fn toggled_favs(pl: Seq<Song>, favs: Seq<SongFav>, i: usize) -> Seq<SongFav> {
    favs_after(favs, toggled_playlist(pl, i), i, !pl[i as int].is_favorite)
}

/// Holds of the favourite records whose file is not `path`.
pub open spec fn not_at_path(path: Seq<char>) -> spec_fn(SongFav) -> bool {
    |f: SongFav| f.path_file@ != path
}

impl PlayerCore {
    /// The player once playback of the current song has started, when there is one.
    pub open spec fn spec_play(self) -> PlayerCore {
        if self.current_index < self.playlist.len() {
            PlayerCore { is_another_index: false, state: PlayerState::Playing, ..self }
        } else {
            self
        }
    }

    /// `req` is what starting playback in this player asks of the pipeline.
    pub open spec fn requested(self, req: Option<PlayRequest>) -> bool {
        if self.current_index < self.playlist.len() {
            &&& req is Some
            &&& req->0.restart_pipeline == self.is_another_index
            &&& req->0.song == self.playlist@[self.current_index as int]
            &&& req->0.uri@ == file_uri(req->0.song.path_file@)
        } else {
            req is None
        }
    }

    /// The player with the cursor moved to `i` by the user.
    pub open spec fn moved_to(self, i: nat) -> PlayerCore {
        PlayerCore { current_index: i as usize, is_another_index: true, ..self }
    }

    /// The player after "next".
    pub open spec fn spec_next(self) -> PlayerCore {
        self.moved_to(next_index(self.current_index as nat, self.playlist.len() as nat)).spec_play()
    }

    /// The player after a shuffled "next" that drew `draw`.
    pub open spec fn spec_shuffle_next(self, draw: nat) -> PlayerCore {
        self.moved_to(shuffle_index(draw, self.playlist.len() as nat)).spec_play()
    }

    /// The player after "previous".
    pub open spec fn spec_prev(self) -> PlayerCore {
        if self.playlist.len() == 0 {
            self
        } else {
            self.moved_to(prev_index(self.current_index as nat, self.playlist.len() as nat)).spec_play()
        }
    }

    /// An empty player: no songs, no favourites, stopped, cursor on the first position.
    pub fn new() -> (p: PlayerCore)
        ensures
            p.playlist@.len() == 0,
            p.playlist_fav@.len() == 0,
            p.current_index == 0,
            !p.is_another_index,
            p.state == PlayerState::Stopped,
            !p.muted,
            !p.shuffle,
    {
        PlayerCore {
            playlist: Vec::new(),
            playlist_fav: Vec::new(),
            current_index: 0,
            is_another_index: false,
            state: PlayerState::Stopped,
            muted: false,
            shuffle: false,
        }
    }

    /// A player holding `playlist` and the favourites `playlist_fav` read from the cache.
    pub fn with_playlist(playlist: Vec<Song>, playlist_fav: Vec<SongFav>) -> (p: PlayerCore)
        ensures
            p.playlist == playlist,
            p.playlist_fav == playlist_fav,
            p.current_index == 0,
            !p.is_another_index,
            p.state == PlayerState::Stopped,
            !p.muted,
            !p.shuffle,
    {
        let mut p = PlayerCore::new();
        p.set_playlist(playlist);
        p.playlist_fav = playlist_fav;
        p
    }

    /// The song under the cursor.
    pub fn get_current_song(&self) -> (s: Song)
        requires
            self.current_index < self.playlist.len(),
        ensures
            s == self.playlist@[self.current_index as int],
    {
        self.playlist[self.current_index].clone()
    }

    /// A copy of the favourites list.
    pub fn get_playlist_fav(&self) -> (favs: Vec<SongFav>)
        ensures
            favs@ == self.playlist_fav@,
    {
        let mut out: Vec<SongFav> = Vec::new();
        let n = self.playlist_fav.len();
        for i in 0..n
            invariant
                n == self.playlist_fav.len(),
                out@ == self.playlist_fav@.take(i as int),
        {
            out.push(self.playlist_fav[i].clone());
            assert(out@ =~= self.playlist_fav@.take(i + 1));
        }
        assert(self.playlist_fav@.take(n as int) =~= self.playlist_fav@);
        out
    }

    /// Replaces the playlist.
    pub fn set_playlist(&mut self, playlist: Vec<Song>)
        ensures
            *final(self) == (PlayerCore { playlist, ..*old(self) }),
    {
        self.playlist = playlist;
    }

    /// A copy of the playlist.
    pub fn get_playlist(&self) -> (pl: Vec<Song>)
        ensures
            pl@ == self.playlist@,
    {
        let mut out: Vec<Song> = Vec::new();
        let n = self.playlist.len();
        for i in 0..n
            invariant
                n == self.playlist.len(),
                out@ == self.playlist@.take(i as int),
        {
            out.push(self.playlist[i].clone());
            assert(out@ =~= self.playlist@.take(i + 1));
        }
        assert(self.playlist@.take(n as int) =~= self.playlist@);
        out
    }

    /// Mutes the output.
    pub fn mute(&mut self)
        ensures
            *final(self) == (PlayerCore { muted: true, ..*old(self) }),
    {
        self.muted = true;
    }

    /// Unmutes the output.
    pub fn unmute(&mut self)
        ensures
            *final(self) == (PlayerCore { muted: false, ..*old(self) }),
    {
        self.muted = false;
    }

    /// Whether the output is muted.
    pub fn is_mute(&self) -> (m: bool)
        ensures
            m == self.muted,
    {
        self.muted
    }

    /// Length in milliseconds of the song under the cursor, if the cursor is on one.
    pub fn get_current_duration(&self) -> (d: Option<u64>)
        ensures
            d == (if self.current_index < self.playlist.len() {
                Some(self.playlist@[self.current_index as int].duration_ms)
            } else {
                None::<u64>
            }),
    {
        if self.current_index < self.playlist.len() {
            Some(self.playlist[self.current_index].duration_ms)
        } else {
            None
        }
    }

    /// Starts playing the song under the cursor, if there is one.
    pub fn play(&mut self) -> (req: Option<PlayRequest>)
        ensures
            *final(self) == old(self).spec_play(),
            old(self).requested(req),
            (old(self).current_index < old(self).playlist.len()) == (req is Some),
            req matches Some(r) ==> {
                &&& r.restart_pipeline == old(self).is_another_index
                &&& r.song == old(self).playlist@[old(self).current_index as int]
                &&& r.uri@ == "file://"@ + old(self).playlist@[old(self).current_index as int].path_file@
            },
    {
        if self.current_index < self.playlist.len() {
            let song = self.playlist[self.current_index].clone();
            let mut uri = String::from_str("file://");
            uri.append(song.path_file.as_str());
            let restart = self.is_another_index;
            self.is_another_index = false;
            self.state = PlayerState::Playing;
            Some(PlayRequest { restart_pipeline: restart, uri, song })
        } else {
            None
        }
    }

    /// Pauses playback.
    pub fn pause(&mut self)
        ensures
            *final(self) == (PlayerCore { state: PlayerState::Paused, ..*old(self) }),
    {
        self.state = PlayerState::Paused;
    }

    /// Stops playback.
    pub fn stop(&mut self)
        ensures
            *final(self) == (PlayerCore { state: PlayerState::Stopped, ..*old(self) }),
    {
        self.state = PlayerState::Stopped;
    }

    /// Moves to the next song (the first after the last) and plays it.
    pub fn next(&mut self) -> (req: Option<PlayRequest>)
        ensures
            *final(self) == old(self).spec_next(),
            old(self).moved_to(next_index(old(self).current_index as nat, old(self).playlist.len() as nat)).requested(req),
    {
        if self.current_index < usize::MAX && self.current_index + 1 < self.playlist.len() {
            self.current_index = self.current_index + 1;
        } else {
            self.current_index = 0;
        }
        self.is_another_index = true;
        self.play()
    }

    /// Moves to the previous song (the last before the first) and plays it;
    /// does nothing on an empty playlist.
    pub fn prev(&mut self) -> (req: Option<PlayRequest>)
        ensures
            *final(self) == old(self).spec_prev(),
            old(self).playlist.len() == 0 ==> req is None,
            old(self).playlist.len() > 0 ==> old(self).moved_to(
                prev_index(old(self).current_index as nat, old(self).playlist.len() as nat),
            ).requested(req),
    {
        let len = self.playlist.len();
        if len == 0 {
            return None;
        }
        if self.current_index == 0 {
            self.current_index = len - 1;
        } else {
            self.current_index = self.current_index - 1;
        }
        self.is_another_index = true;
        self.play()
    }

    /// Marks (`flag`) or unmarks the song at `idx` as a favourite and returns `flag`.
    pub fn add_remove_song_fav(&mut self, idx: usize, flag: bool) -> (r: bool)
        ensures
            r == flag,
            final(self).playlist_fav@ == favs_after(old(self).playlist_fav@, old(self).playlist@, idx, flag),
            final(self).playlist == old(self).playlist,
            final(self).current_index == old(self).current_index,
            final(self).is_another_index == old(self).is_another_index,
            final(self).state == old(self).state,
            final(self).muted == old(self).muted,
            final(self).shuffle == old(self).shuffle,
            idx < old(self).playlist.len() && flag ==> {
                let song = old(self).playlist@[idx as int];
                let favs = final(self).playlist_fav@;
                let last = favs[favs.len() - 1];
                &&& favs.len() == old(self).playlist_fav@.len() + 1
                &&& favs.take(favs.len() - 1) == old(self).playlist_fav@
                &&& last.id == idx
                &&& last.title == song.title
                &&& last.artist == song.artist
                &&& last.album == song.album
                &&& last.path_file == song.path_file
                &&& last.duration_ms == song.duration_ms
                &&& last.is_favorite
            },
    {
        if idx < self.playlist.len() {
            let song = self.playlist[idx].clone();
            if flag {
                let s = SongFav::from_song(&song, idx, flag);
                self.playlist_fav.push(s);
                assert(self.playlist_fav@.take(self.playlist_fav@.len() - 1) =~= old(self).playlist_fav@);
            } else {
                let ghost pred = not_at_path(song.path_file@);
                let ghost old_favs = self.playlist_fav@;
                let mut kept: Vec<SongFav> = Vec::new();
                let n = self.playlist_fav.len();
                for i in 0..n
                    invariant
                        n == self.playlist_fav.len(),
                        self.playlist_fav@ == old_favs,
                        pred == not_at_path(song.path_file@),
                        kept@ == old_favs.take(i as int).filter(pred),
                {
                    assert(old_favs.take(i + 1).drop_last() =~= old_favs.take(i as int));
                    reveal_with_fuel(Seq::<_>::filter, 1);
                    assert(old_favs.take(i + 1).last() == old_favs[i as int]);
                    let same_path = self.playlist_fav[i].path_file.eq(&song.path_file);
                    if !same_path {
                        kept.push(self.playlist_fav[i].clone());
                    }

                }
                assert(old_favs.take(n as int) =~= old_favs);
                self.playlist_fav = kept;
            }
        }
        flag
    }

    /// Flips the favourite flag of the song under the cursor, marks or unmarks
    /// it in the favourites accordingly, and returns the new flag.
    pub fn toggle_current_favorite(&mut self) -> (flag: bool)
        requires
            old(self).current_index < old(self).playlist.len(),
        ensures
            flag == !old(self).playlist@[old(self).current_index as int].is_favorite,
            final(self).playlist@ == toggled_playlist(old(self).playlist@, old(self).current_index),
            final(self).playlist_fav@ == toggled_favs(old(self).playlist@, old(self).playlist_fav@, old(self).current_index),
            final(self).current_index == old(self).current_index,
            final(self).is_another_index == old(self).is_another_index,
            final(self).state == old(self).state,
            final(self).muted == old(self).muted,
            final(self).shuffle == old(self).shuffle,
    {
        let i = self.current_index;
        let mut song = self.playlist[i].clone();
        song.is_favorite = !song.is_favorite;
        let flag = song.is_favorite;
        self.playlist.set(i, song);
        self.add_remove_song_fav(i, flag)
    }

    /// A press on the play button: pauses while playing, otherwise plays.
    pub fn toggle_play(&mut self) -> (t: Transport)
        ensures
            old(self).state == PlayerState::Playing ==> t is Pause
                && *final(self) == (PlayerCore { state: PlayerState::Paused, ..*old(self) }),
            old(self).state != PlayerState::Playing ==> *final(self) == old(self).spec_play()
                && (t matches Transport::Play(r) && old(self).requested(r)),
    {
        match self.state {
            PlayerState::Playing => {
                self.pause();
                Transport::Pause
            },
            _ => Transport::Play(self.play()),
        }
    }

    /// A click on the playlist row at `index`: on the current song it pauses
    /// or resumes; on another song it moves the cursor there and plays.
    pub fn select_song(&mut self, index: usize) -> (t: Transport)
        ensures
            old(self).current_index == index && old(self).state == PlayerState::Playing ==> t is Pause
                && *final(self) == (PlayerCore { state: PlayerState::Paused, ..*old(self) }),
            old(self).current_index == index && old(self).state != PlayerState::Playing
                ==> *final(self) == old(self).spec_play()
                && (t matches Transport::Play(r) && old(self).requested(r)),
            old(self).current_index != index ==> *final(self) == old(self).moved_to(index as nat).spec_play()
                && (t matches Transport::Play(r) && old(self).moved_to(index as nat).requested(r)),
    {
        if self.current_index == index {
            self.toggle_play()
        } else {
            self.current_index = index;
            self.is_another_index = true;
            Transport::Play(self.play())
        }
    }

    /// Turns shuffle on or off; returns whether it is now on.
    pub fn toggle_shuffle(&mut self) -> (on: bool)
        ensures
            on == !old(self).shuffle,
            *final(self) == (PlayerCore { shuffle: !old(self).shuffle, ..*old(self) }),
    {
        self.shuffle = !self.shuffle;
        self.shuffle
    }

    /// Moves to the song at the drawn number `draw` taken modulo the playlist
    /// length, and plays it.
    pub fn shuffle_next(&mut self, draw: usize) -> (req: Option<PlayRequest>)
        ensures
            *final(self) == old(self).spec_shuffle_next(draw as nat),
            old(self).moved_to(shuffle_index(draw as nat, old(self).playlist.len() as nat)).requested(req),
    {
        let len = self.playlist.len();
        if len == 0 {
            self.current_index = 0;
        } else {
            self.current_index = draw % len;
        }
        self.is_another_index = true;
        self.play()
    }

    /// A press on the "next" button: a song at random (from the drawn number
    /// `draw`) when shuffle is on, the following song otherwise.
    pub fn next_track(&mut self, draw: usize) -> (req: Option<PlayRequest>)
        ensures
            old(self).shuffle ==> *final(self) == old(self).spec_shuffle_next(draw as nat)
                && old(self).moved_to(shuffle_index(draw as nat, old(self).playlist.len() as nat)).requested(req),
            !old(self).shuffle ==> *final(self) == old(self).spec_next()
                && old(self).moved_to(next_index(old(self).current_index as nat, old(self).playlist.len() as nat)).requested(req),
    {
        if self.shuffle {
            self.shuffle_next(draw)
        } else {
            self.next()
        }
    }

    /// A press on the volume button: unmutes when muted, otherwise mutes;
    /// returns whether the output is now muted.
    pub fn toggle_mute(&mut self) -> (muted: bool)
        ensures
            muted == !old(self).muted,
            *final(self) == (PlayerCore { muted: !old(self).muted, ..*old(self) }),
    {
        if self.is_mute() {
            self.unmute();
            false
        } else {
            self.mute();
            true
        }
    }
}

/// "Next" moves the cursor to the following position, wrapping from the last
/// position to the first: it is the successor modulo the playlist length.
pub proof fn lemma_next_index_is_cyclic_successor(i: nat, len: nat)
    requires
        i < len,
    ensures
        next_index(i, len) == ((i + 1) as int) % (len as int),
{
    if i + 1 < len {
        vstd::arithmetic::div_mod::lemma_small_mod((i + 1) as nat, len);
    } else {
        vstd::arithmetic::div_mod::lemma_mod_self_0(len as int);
    }
}

/// On a non-empty playlist "previous" undoes "next" and "next" undoes "previous".
pub proof fn lemma_prev_undoes_next(i: nat, len: nat)
    requires
        i < len,
    ensures
        prev_index(next_index(i, len), len) == i,
        next_index(prev_index(i, len), len) == i,
{
}

/// From a song of the playlist, "next" followed by "previous" brings the cursor
/// back to that song, leaves both lists unchanged, and leaves the player playing.
pub proof fn lemma_next_then_prev_restores_cursor(p: PlayerCore)
    requires
        p.current_index < p.playlist.len(),
    ensures
        p.spec_next().spec_prev().current_index == p.current_index,
        p.spec_next().spec_prev().playlist == p.playlist,
        p.spec_next().spec_prev().playlist_fav == p.playlist_fav,
        p.spec_next().spec_prev().state == PlayerState::Playing,
{
    lemma_prev_undoes_next(p.current_index as nat, p.playlist.len() as nat);
}

/// "Next" and "previous" keep the cursor on a song of a non-empty playlist,
/// wherever it was before.
pub proof fn lemma_navigation_stays_in_playlist(p: PlayerCore)
    requires
        p.playlist.len() > 0,
    ensures
        p.spec_next().current_index < p.playlist.len(),
        p.current_index < p.playlist.len() ==> p.spec_prev().current_index < p.playlist.len(),
{
}

/// A shuffled "next" keeps the cursor on a song of a non-empty playlist, and
/// every song can be drawn: drawing a position picks that position.
pub proof fn lemma_shuffle_reaches_every_song(p: PlayerCore, draw: nat, i: nat)
    requires
        p.playlist.len() > 0,
    ensures
        p.spec_shuffle_next(draw).current_index < p.playlist.len(),
        i < p.playlist.len() ==> p.spec_shuffle_next(i).current_index == i,
{
    if i < p.playlist.len() {
        vstd::arithmetic::div_mod::lemma_small_mod(i, p.playlist.len() as nat);
    }
}

/// Starting playback resets the pipeline exactly when another song was chosen
/// since playback last started, whatever the playback state: resuming a paused
/// song continues it. The request names the song under the cursor and its file.
pub proof fn lemma_restart_only_for_another_song(p: PlayerCore, req: Option<PlayRequest>)
    requires
        p.current_index < p.playlist.len(),
        p.requested(req),
    ensures
        req is Some,
        req->0.restart_pipeline == p.is_another_index,
        req->0.song == p.playlist@[p.current_index as int],
        req->0.uri@ == "file://"@ + p.playlist@[p.current_index as int].path_file@,
{
}

/// Playing, pausing and playing again resumes without resetting the pipeline.
pub proof fn lemma_resume_after_pause_does_not_restart(p: PlayerCore, req: Option<PlayRequest>)
    requires
        p.current_index < p.playlist.len(),
        (PlayerCore { state: PlayerState::Paused, ..p.spec_play() }).requested(req),
    ensures
        req is Some,
        !req->0.restart_pipeline,
        req->0.song == p.playlist@[p.current_index as int],
{
}

/// Marking the song at `idx` appends one record, keeping the earlier ones; the
/// record carries the song's title, artist, album, file and length, the
/// position `idx` as id, and the favourite flag.
pub proof fn lemma_mark_appends_song_record(favs: Seq<SongFav>, pl: Seq<Song>, idx: usize)
    requires
        idx < pl.len(),
    ensures
        favs_after(favs, pl, idx, true).len() == favs.len() + 1,
        favs_after(favs, pl, idx, true).take(favs.len() as int) == favs,
        favs_after(favs, pl, idx, true)[favs.len() as int].id == idx,
        favs_after(favs, pl, idx, true)[favs.len() as int].title == pl[idx as int].title,
        favs_after(favs, pl, idx, true)[favs.len() as int].artist == pl[idx as int].artist,
        favs_after(favs, pl, idx, true)[favs.len() as int].album == pl[idx as int].album,
        favs_after(favs, pl, idx, true)[favs.len() as int].path_file == pl[idx as int].path_file,
        favs_after(favs, pl, idx, true)[favs.len() as int].duration_ms == pl[idx as int].duration_ms,
        favs_after(favs, pl, idx, true)[favs.len() as int].is_favorite,
{
    assert(favs_after(favs, pl, idx, true).take(favs.len() as int) =~= favs);
}

/// Unmarking the song at `idx` keeps exactly the records whose file differs
/// from the song's, in their order: no kept record has the song's file, and
/// every record with another file is kept.
pub proof fn lemma_unmark_keeps_other_files(favs: Seq<SongFav>, pl: Seq<Song>, idx: usize)
    requires
        idx < pl.len(),
    ensures
        favs_after(favs, pl, idx, false).len() <= favs.len(),
        forall|k: int| 0 <= k < favs_after(favs, pl, idx, false).len()
            ==> #[trigger] favs_after(favs, pl, idx, false)[k].path_file@ != pl[idx as int].path_file@
                && favs.contains(favs_after(favs, pl, idx, false)[k]),
        forall|k: int| 0 <= k < favs.len() && #[trigger] favs[k].path_file@ != pl[idx as int].path_file@
            ==> favs_after(favs, pl, idx, false).contains(favs[k]),
{
    let pred = not_at_path(pl[idx as int].path_file@);
    let r = favs.filter(pred);
    favs.lemma_filter_len(pred);
    assert forall|k: int| 0 <= k < r.len() implies #[trigger] r[k].path_file@ != pl[idx as int].path_file@
        && favs.contains(r[k]) by {
        favs.lemma_filter_pred(pred, k);
        favs.lemma_filter_contains_rev(pred, r[k]);
    }
    assert forall|k: int| 0 <= k < favs.len() && #[trigger] favs[k].path_file@ != pl[idx as int].path_file@
        implies r.contains(favs[k]) by {
        favs.lemma_filter_contains(pred, k);
    }
}

/// Marking a song and then unmarking it leaves the same favourites as unmarking it directly.
pub proof fn lemma_mark_then_unmark(favs: Seq<SongFav>, pl: Seq<Song>, idx: usize)
    ensures
        favs_after(favs_after(favs, pl, idx, true), pl, idx, false) == favs_after(favs, pl, idx, false),
{
    if idx < pl.len() {
        let pred = not_at_path(pl[idx as int].path_file@);
        let pushed = favs.push(fav_of(pl[idx as int], idx, true));
        assert(pushed.drop_last() =~= favs);
        assert(!pred(pushed.last()));
        reveal_with_fuel(Seq::<_>::filter, 1);
    }
}

/// Unmarking a song none of whose records is among the favourites changes nothing.
pub proof fn lemma_unmark_absent(favs: Seq<SongFav>, pl: Seq<Song>, idx: usize)
    requires
        idx < pl.len(),
        forall|k: int| 0 <= k < favs.len() ==> #[trigger] favs[k].path_file@ != pl[idx as int].path_file@,
    ensures
        favs_after(favs, pl, idx, false) == favs,
{
    lemma_filter_keeps_all(favs, not_at_path(pl[idx as int].path_file@));
}

/// Filtering keeps a sequence whole when every element passes.
proof fn lemma_filter_keeps_all(s: Seq<SongFav>, pred: spec_fn(SongFav) -> bool)
    requires
        forall|k: int| 0 <= k < s.len() ==> pred(#[trigger] s[k]),
    ensures
        s.filter(pred) == s,
    decreases s.len(),
{
    reveal_with_fuel(Seq::<_>::filter, 1);
    if s.len() > 0 {
        let d = s.drop_last();
        assert forall|k: int| 0 <= k < d.len() implies pred(#[trigger] d[k]) by {
            assert(d[k] == s[k]);
        }
        lemma_filter_keeps_all(d, pred);
        assert(pred(s[s.len() - 1]));
        assert(d.push(s.last()) =~= s);
    }
}

/// Flipping the favourite flag of a song that is not a favourite and has no
/// record among the favourites, and then flipping it back, restores both the
/// playlist and the favourites.
pub proof fn lemma_toggle_favorite_twice(pl: Seq<Song>, favs: Seq<SongFav>, i: usize)
    requires
        i < pl.len(),
        !pl[i as int].is_favorite,
        forall|k: int| 0 <= k < favs.len() ==> #[trigger] favs[k].path_file@ != pl[i as int].path_file@,
    ensures
        toggled_playlist(toggled_playlist(pl, i), i) == pl,
        toggled_favs(toggled_playlist(pl, i), toggled_favs(pl, favs, i), i) == favs,
{
    let pl1 = toggled_playlist(pl, i);
    let pl2 = toggled_playlist(pl1, i);
    assert(flip_favorite(flip_favorite(pl[i as int])) == pl[i as int]);
    assert(pl2 =~= pl);
    let f1 = toggled_favs(pl, favs, i);
    assert(f1 == favs.push(fav_of(pl1[i as int], i, true)));
    lemma_mark_then_unmark(favs, pl1, i);
    assert(pl1[i as int].path_file@ == pl[i as int].path_file@);
    assert(favs_after(favs, pl2, i, false) == favs_after(favs, pl1, i, false));
    lemma_unmark_absent(favs, pl1, i);
}

} // verus!
