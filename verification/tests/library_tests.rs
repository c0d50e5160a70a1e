use music_player::library::{
    artist_info_text, get_artist_initials, is_supported_extension, song_from_metadata, ArtistIndex,
    MusicLibrary, TagText,
};
use music_player::types::{Song, SongFav};

fn fav(id: usize, artist: &str, path: &str) -> SongFav {
    SongFav {
        id,
        title: format!("t{}", id),
        artist: artist.to_string(),
        album: String::new(),
        path_file: path.to_string(),
        duration_ms: 0,
        is_favorite: false,
    }
}

#[test]
fn audio_extensions_ignore_case() {
    for e in ["mp3", "MP3", "Flac", "wav", "oGg", "AAC"] {
        assert!(is_supported_extension(e), "{}", e);
    }
    for e in ["mp4", "txt", "", "mp33", "fla", "ógg"] {
        assert!(!is_supported_extension(e), "{}", e);
    }
}

#[test]
fn artist_index_groups_songs_in_first_met_order() {
    let mut idx = ArtistIndex::new();
    idx.add_song("Zoe", fav(0, "Zoe", "/a"));
    idx.add_song("Abba", fav(1, "Abba", "/b"));
    idx.add_song("Zoe", fav(2, "Zoe", "/c"));
    assert_eq!(idx.len(), 2);
    let z = idx.songs_for("Zoe");
    assert_eq!(z.len(), 2);
    assert_eq!(z[0].id, 0);
    assert_eq!(z[1].id, 2);
    assert_eq!(idx.songs_for("Abba").len(), 1);
    assert!(idx.songs_for("Nobody").is_empty());
}

#[test]
fn artists_are_listed_in_order() {
    let mut idx = ArtistIndex::new();
    for a in ["Soda Stereo", "Unknown", "Café Tacvba", "Andrés", "Abba", "Soda"] {
        idx.add_song(a, fav(0, a, "/x"));
    }
    let names = idx.sorted_artists();
    assert_eq!(names, vec!["Abba", "Andrés", "Café Tacvba", "Soda", "Soda Stereo", "Unknown"]);
    let mut expected = names.clone();
    expected.sort();
    assert_eq!(names, expected);
}

#[test]
fn empty_index_lists_nothing() {
    let idx = ArtistIndex::new();
    assert!(idx.sorted_artists().is_empty());
    assert_eq!(idx.len(), 0);
}

#[test]
fn scan_files_songs_by_artist_with_scan_index() {
    let mut lib = MusicLibrary::new();
    let s1 = Song { title: "a".into(), artist: "X".into(), album: "L".into(), path_file: "/a.mp3".into(), duration_ms: 5, is_favorite: false };
    let s2 = Song { title: "b".into(), artist: "Y".into(), album: String::new(), path_file: "/b.mp3".into(), duration_ms: 6, is_favorite: false };
    let s3 = Song { title: "c".into(), artist: "X".into(), album: "L".into(), path_file: "/c.mp3".into(), duration_ms: 7, is_favorite: false };
    lib.add_scanned_song(0, s1);
    lib.add_scanned_song(3, s2);
    lib.add_scanned_song(4, s3);
    assert_eq!(lib.playlist.len(), 3);
    assert_eq!(lib.playlist[2].title, "c");
    let x = lib.artists.songs_for("X");
    assert_eq!(x.len(), 2);
    assert_eq!(x[1].id, 4);
    assert_eq!(x[1].title, "c");
    assert_eq!(lib.artists.songs_for("Y")[0].id, 3);
}

#[test]
fn metadata_title_fallbacks() {
    let tag = |t: Option<&str>, a: Option<&str>| Some(TagText { title: t.map(String::from), artist: a.map(String::from), album: None });
    let s = song_from_metadata(tag(Some("T"), Some("A")), Some("f.mp3".into()), "/d/f.mp3".into(), 10);
    assert_eq!((s.title.as_str(), s.artist.as_str()), ("T", "A"));
    assert_eq!(s.path_file, "/d/f.mp3");
    assert_eq!(s.duration_ms, 10);
    assert!(!s.is_favorite);
    let s = song_from_metadata(tag(None, None), Some("f.mp3".into()), "/d/f.mp3".into(), 0);
    assert_eq!((s.title.as_str(), s.artist.as_str()), ("f.mp3", "Unknown"));
    let s = song_from_metadata(tag(None, Some("A")), None, "/d/x".into(), 0);
    assert_eq!(s.title, "Unknown");
    let s = song_from_metadata(None, Some("f.mp3".into()), "/d/f.mp3".into(), 0);
    assert_eq!((s.title.as_str(), s.artist.as_str()), ("", ""));
    assert_eq!(s.album, "");
}

#[test]
fn metadata_album() {
    let tag = TagText { title: Some("T".into()), artist: Some("A".into()), album: Some("B".into()) };
    let s = song_from_metadata(Some(tag), None, "/d/f.flac".into(), 1);
    assert_eq!(s.album, "B");
    let tag = TagText { title: Some("T".into()), artist: Some("A".into()), album: None };
    assert_eq!(song_from_metadata(Some(tag), None, "/d/f.flac".into(), 1).album, "");
}

#[test]
fn artist_without_songs_is_listed() {
    let mut idx = ArtistIndex::new();
    idx.add_artist("Solo");
    idx.add_song("Band", fav(1, "Band", "/b"));
    idx.add_artist("Band");
    assert_eq!(idx.len(), 2);
    assert!(idx.songs_for("Solo").is_empty());
    assert_eq!(idx.songs_for("Band").len(), 1);
    assert_eq!(idx.sorted_artists(), vec!["Band", "Solo"]);
    assert_eq!(artist_info_text(idx.songs_for("Solo").len()), "Artista • 0 canciónes");
}

#[test]
fn initials_of_first_two_words() {
    assert_eq!(get_artist_initials("soda stereo"), "SS");
    assert_eq!(get_artist_initials("Pink Floyd"), "PF");
    assert_eq!(get_artist_initials("Los Fabulosos Cadillacs"), "LF");
    assert_eq!(get_artist_initials("  abba "), "A");
    assert_eq!(get_artist_initials(""), "");
    assert_eq!(get_artist_initials("édith piaf"), "ÉP");
    assert_eq!(get_artist_initials("ßtraße x"), "SSX");
    assert_eq!(get_artist_initials("9 inch"), "9I");
}

#[test]
fn artist_info_line() {
    assert_eq!(artist_info_text(1), "Artista • 1 canción");
    assert_eq!(artist_info_text(0), "Artista • 0 cancións".replace("cancións", "canciónes"));
    assert_eq!(artist_info_text(12), "Artista • 12 canciónes");
}
