use music_player::player::{PlayerCore, Transport};
use music_player::types::{PlayerState, Song, SongFav};

fn song(title: &str, path: &str, ms: u64) -> Song {
    Song {
        title: title.to_string(),
        artist: "Artist".to_string(),
        album: "Album".to_string(),
        path_file: path.to_string(),
        duration_ms: ms,
        is_favorite: false,
    }
}

fn three() -> PlayerCore {
    PlayerCore::with_playlist(
        vec![song("a", "/m/a.mp3", 1000), song("b", "/m/b.mp3", 2000), song("c", "/m/c.mp3", 3000)],
        Vec::new(),
    )
}

#[test]
fn new_player_is_stopped_and_empty() {
    let p = PlayerCore::new();
    assert!(p.get_playlist().is_empty());
    assert!(p.get_playlist_fav().is_empty());
    assert_eq!(p.state, PlayerState::Stopped);
    assert_eq!(p.current_index, 0);
    assert!(!p.is_mute());
    assert_eq!(p.get_current_duration(), None);
}

#[test]
fn play_builds_file_uri_and_clears_restart_flag() {
    let mut p = three();
    let req = p.play().expect("a song to play");
    assert_eq!(req.uri, "file:///m/a.mp3");
    assert!(!req.restart_pipeline);
    assert_eq!(req.song.title, "a");
    assert_eq!(p.state, PlayerState::Playing);
}

#[test]
fn play_on_empty_playlist_does_nothing() {
    let mut p = PlayerCore::new();
    assert!(p.play().is_none());
    assert_eq!(p.state, PlayerState::Stopped);
}

#[test]
fn next_wraps_to_first_and_requests_restart() {
    let mut p = three();
    let r1 = p.next().unwrap();
    assert_eq!(p.current_index, 1);
    assert!(r1.restart_pipeline);
    assert!(!p.is_another_index);
    p.next();
    assert_eq!(p.current_index, 2);
    let r3 = p.next().unwrap();
    assert_eq!(p.current_index, 0);
    assert_eq!(r3.uri, "file:///m/a.mp3");
}

#[test]
fn prev_wraps_to_last() {
    let mut p = three();
    let r = p.prev().unwrap();
    assert_eq!(p.current_index, 2);
    assert_eq!(r.song.title, "c");
    p.prev();
    assert_eq!(p.current_index, 1);
}

#[test]
fn prev_on_empty_playlist_changes_nothing() {
    let mut p = PlayerCore::new();
    assert!(p.prev().is_none());
    assert_eq!(p.current_index, 0);
    assert!(!p.is_another_index);
}

#[test]
fn next_then_prev_returns_to_same_song() {
    for start in 0..3 {
        let mut p = three();
        p.current_index = start;
        p.next();
        p.prev();
        assert_eq!(p.current_index, start);
        assert_eq!(p.state, PlayerState::Playing);
    }
}

#[test]
fn next_on_empty_playlist_resets_cursor() {
    let mut p = PlayerCore::new();
    p.current_index = 5;
    assert!(p.next().is_none());
    assert_eq!(p.current_index, 0);
    assert!(p.is_another_index);
}

#[test]
fn pause_and_stop_set_state() {
    let mut p = three();
    p.play();
    p.pause();
    assert_eq!(p.state, PlayerState::Paused);
    p.stop();
    assert_eq!(p.state, PlayerState::Stopped);
}

#[test]
fn mute_unmute_toggle() {
    let mut p = three();
    p.mute();
    assert!(p.is_mute());
    p.unmute();
    assert!(!p.is_mute());
    assert!(p.toggle_mute());
    assert!(p.is_mute());
    assert!(!p.toggle_mute());
    assert!(!p.is_mute());
}

#[test]
fn current_song_and_duration() {
    let mut p = three();
    p.current_index = 1;
    assert_eq!(p.get_current_song().title, "b");
    assert_eq!(p.get_current_duration(), Some(2000));
    p.current_index = 3;
    assert_eq!(p.get_current_duration(), None);
}

#[test]
fn add_favorite_appends_record_with_index() {
    let mut p = three();
    assert!(p.add_remove_song_fav(2, true));
    let favs = p.get_playlist_fav();
    assert_eq!(favs.len(), 1);
    assert_eq!(favs[0].id, 2);
    assert_eq!(favs[0].path_file, "/m/c.mp3");
    assert!(favs[0].is_favorite);
    assert_eq!(favs[0].duration_ms, 3000);
}

#[test]
fn remove_favorite_drops_all_records_with_that_path() {
    let mut p = three();
    p.add_remove_song_fav(0, true);
    p.add_remove_song_fav(1, true);
    p.add_remove_song_fav(0, true);
    assert_eq!(p.get_playlist_fav().len(), 3);
    assert!(!p.add_remove_song_fav(0, false));
    let favs = p.get_playlist_fav();
    assert_eq!(favs.len(), 1);
    assert_eq!(favs[0].path_file, "/m/b.mp3");
}

#[test]
fn favorite_out_of_range_changes_nothing() {
    let mut p = three();
    assert!(p.add_remove_song_fav(7, true));
    assert!(p.get_playlist_fav().is_empty());
}

#[test]
fn toggle_favorite_twice_restores_lists() {
    let mut p = three();
    p.current_index = 1;
    let before_pl = p.get_playlist();
    assert!(p.toggle_current_favorite());
    assert!(p.get_playlist()[1].is_favorite);
    assert_eq!(p.get_playlist_fav().len(), 1);
    assert!(!p.toggle_current_favorite());
    assert_eq!(p.get_playlist(), before_pl);
    assert!(p.get_playlist_fav().is_empty());
}

#[test]
fn toggle_play_pauses_then_resumes() {
    let mut p = three();
    match p.toggle_play() {
        Transport::Play(Some(r)) => assert_eq!(r.song.title, "a"),
        _ => panic!("expected playback to start"),
    }
    assert!(matches!(p.toggle_play(), Transport::Pause));
    assert_eq!(p.state, PlayerState::Paused);
    assert!(matches!(p.toggle_play(), Transport::Play(Some(_))));
    assert_eq!(p.state, PlayerState::Playing);
}

#[test]
fn select_other_song_moves_cursor_and_restarts() {
    let mut p = three();
    p.play();
    match p.select_song(2) {
        Transport::Play(Some(r)) => {
            assert!(r.restart_pipeline);
            assert_eq!(r.uri, "file:///m/c.mp3");
        }
        _ => panic!("expected playback of the selected song"),
    }
    assert_eq!(p.current_index, 2);
    assert!(matches!(p.select_song(2), Transport::Pause));
    assert_eq!(p.state, PlayerState::Paused);
}

#[test]
fn song_from_favorite_keeps_fields() {
    let f = SongFav {
        id: 4,
        title: "t".to_string(),
        artist: "x".to_string(),
        album: "al".to_string(),
        path_file: "/p".to_string(),
        duration_ms: 42,
        is_favorite: true,
    };
    let s: Song = f.clone().into();
    assert_eq!(s.title, "t");
    assert_eq!(s.artist, "x");
    assert_eq!(s.album, "al");
    assert_eq!(s.path_file, "/p");
    assert_eq!(s.duration_ms, 42);
    assert!(s.is_favorite);
}

#[test]
fn state_codes_roundtrip() {
    for s in [PlayerState::Playing, PlayerState::Paused, PlayerState::Stopped] {
        assert_eq!(PlayerState::from_code(s.code()), Some(s));
    }
    assert_eq!(PlayerState::Playing.code(), 0);
    assert_eq!(PlayerState::Paused.code(), 1);
    assert_eq!(PlayerState::Stopped.code(), 2);
    assert_eq!(PlayerState::from_code(3), None);
    assert_eq!(PlayerState::from_code(-1), None);
    assert_eq!(PlayerState::default(), PlayerState::Playing);
}

#[test]
fn shuffle_next_picks_drawn_song() {
    let mut p = three();
    assert!(!p.shuffle);
    assert!(p.toggle_shuffle());
    let r = p.next_track(7).unwrap();
    assert_eq!(p.current_index, 1);
    assert!(r.restart_pipeline);
    assert_eq!(r.song.title, "b");
    p.next_track(2);
    assert_eq!(p.current_index, 2);
    assert!(!p.toggle_shuffle());
    p.next_track(7);
    assert_eq!(p.current_index, 0);
}

#[test]
fn shuffle_on_empty_playlist_plays_nothing() {
    let mut p = PlayerCore::new();
    p.current_index = 4;
    assert!(p.shuffle_next(9).is_none());
    assert_eq!(p.current_index, 0);
}

#[test]
fn favorite_record_keeps_album() {
    let mut p = three();
    p.add_remove_song_fav(0, true);
    assert_eq!(p.get_playlist_fav()[0].album, "Album");
}
