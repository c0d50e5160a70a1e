//! The music library gathered from a folder scan: the playlist, the songs of
//! each artist, and the text of the artist list.
use vstd::prelude::*;
use crate::text::{
    chars_of, push_decimal, split_whitespace_words, words, lemma_words_are_words,
    chars_lt, lemma_chars_lt_irreflexive, lemma_chars_lt_total, lemma_chars_lt_transitive,
    str_lt, views,
};
use crate::types::{Song, SongFav, fav_of};

verus! {

/// The songs filed under one artist.
pub struct ArtistGroup {
    pub artist: String,
    pub songs: Vec<SongFav>,
}

/// Songs grouped by artist name, the groups in the order their artist was
/// first met. No artist name appears in two groups.
pub struct ArtistIndex {
    groups: Vec<ArtistGroup>,
}

/// The position of `a` in `names` (meaningful when `names` holds it).
pub open spec fn position_of(names: Seq<Seq<char>>, a: Seq<char>) -> int {
    choose|i: int| 0 <= i < names.len() && names[i] == a
}

/// No name occurs twice in `names`.
pub open spec fn distinct(names: Seq<Seq<char>>) -> bool {
    forall|i: int, j: int| 0 <= i < j < names.len() ==> names[i] != names[j]
}

/// `names` is in strictly increasing order.
pub open spec fn strictly_sorted(names: Seq<Seq<char>>) -> bool {
    forall|i: int, j: int| 0 <= i < j < names.len() ==> chars_lt(#[trigger] names[i], #[trigger] names[j])
}

impl ArtistIndex {
    /// The artist names, group by group.
    pub closed spec fn artists(&self) -> Seq<Seq<char>> {
        self.groups@.map_values(|g: ArtistGroup| g.artist@)
    }

    /// The songs of each group, group by group.
    pub closed spec fn song_lists(&self) -> Seq<Seq<SongFav>> {
        self.groups@.map_values(|g: ArtistGroup| g.songs@)
    }

    /// Well-formed: no artist has two groups.
    pub closed spec fn wf(&self) -> bool {
        distinct(self.artists())
    }

    /// An empty index.
    pub fn new() -> (idx: ArtistIndex)
        ensures
            idx.wf(),
            idx.artists() == Seq::<Seq<char>>::empty(),
            idx.song_lists() == Seq::<Seq<SongFav>>::empty(),
    {
        let idx = ArtistIndex { groups: Vec::new() };
        assert(idx.artists() =~= Seq::<Seq<char>>::empty());
        assert(idx.song_lists() =~= Seq::<Seq<SongFav>>::empty());
        idx
    }

    /// Number of artists.
    pub fn len(&self) -> (n: usize)
        ensures
            n == self.artists().len(),
    {
        self.groups.len()
    }

    /// Where the group of `artist` is, if there is one.
    fn find(&self, artist: &str) -> (pos: Option<usize>)
        requires
            self.wf(),
        ensures
            pos is Some <==> self.artists().contains(artist@),
            pos matches Some(i) ==> i == position_of(self.artists(), artist@) && i < self.artists().len()
                && self.artists()[i as int] == artist@,
    {
        let n = self.groups.len();
        for i in 0..n
            invariant
                n == self.groups@.len(),
                self.wf(),
                forall|k: int| 0 <= k < i ==> self.artists()[k] != artist@,
        {
            if crate::text::str_eq(self.groups[i].artist.as_str(), artist) {
                assert(self.artists()[i as int] == artist@);
                let ghost p = position_of(self.artists(), artist@);
                assert(self.artists()[p] == artist@);
                assert(p == i) by {
                    if p < i {
                        assert(self.artists()[p] != self.artists()[i as int]);
                    } else if p > i {
                        assert(self.artists()[i as int] != self.artists()[p]);
                    }
                }
                return Some(i);
            }
        }
        assert forall|k: int| 0 <= k < self.artists().len() implies self.artists()[k] != artist@ by {}
        None
    }

    /// Files `song` under `artist`: appended to that artist's group, or to a
    /// new group at the end when the artist has none yet.
    pub fn add_song(&mut self, artist: &str, song: SongFav)
        requires
            old(self).wf(),
        ensures
            final(self).wf(),
            old(self).artists().contains(artist@) ==> {
                let p = position_of(old(self).artists(), artist@);
                &&& final(self).artists() == old(self).artists()
                &&& final(self).song_lists() == old(self).song_lists().update(p, old(self).song_lists()[p].push(song))
            },
            !old(self).artists().contains(artist@) ==> {
                &&& final(self).artists() == old(self).artists().push(artist@)
                &&& final(self).song_lists() == old(self).song_lists().push(seq![song])
            },
    {
        match self.find(artist) {
            Some(i) => {
                self.groups[i].songs.push(song);
                assert(self.artists() =~= old(self).artists());
                assert(self.song_lists() =~= old(self).song_lists().update(i as int, old(self).song_lists()[i as int].push(song)));
            },
            None => {
                let mut songs: Vec<SongFav> = Vec::new();
                songs.push(song);
                self.groups.push(ArtistGroup { artist: artist.to_owned(), songs });
                assert(self.artists() =~= old(self).artists().push(artist@));
                assert(self.song_lists() =~= old(self).song_lists().push(seq![song]));
            },
        }
    }

    /// Makes sure `artist` has a group: a new, empty group at the end when it
    /// has none yet; nothing changes otherwise.
    pub fn add_artist(&mut self, artist: &str)
        requires
            old(self).wf(),
        ensures
            final(self).wf(),
            old(self).artists().contains(artist@) ==> {
                &&& final(self).artists() == old(self).artists()
                &&& final(self).song_lists() == old(self).song_lists()
            },
            !old(self).artists().contains(artist@) ==> {
                &&& final(self).artists() == old(self).artists().push(artist@)
                &&& final(self).song_lists() == old(self).song_lists().push(Seq::<SongFav>::empty())
            },
    {
        match self.find(artist) {
            Some(_) => {},
            None => {
                self.groups.push(ArtistGroup { artist: artist.to_owned(), songs: Vec::new() });
                assert(self.artists() =~= old(self).artists().push(artist@));
                assert(self.song_lists() =~= old(self).song_lists().push(Seq::<SongFav>::empty()));
            },
        }
    }

    /// The songs filed under `artist`; empty when the artist has none.
    pub fn songs_for(&self, artist: &str) -> (songs: Vec<SongFav>)
        requires
            self.wf(),
        ensures
            songs@ == (if self.artists().contains(artist@) {
                self.song_lists()[position_of(self.artists(), artist@)]
            } else {
                Seq::<SongFav>::empty()
            }),
    {
        match self.find(artist) {
            Some(i) => {
                let src = &self.groups[i].songs;
                let n = src.len();
                let mut out: Vec<SongFav> = Vec::new();
                for k in 0..n
                    invariant
                        n == src@.len(),
                        out@ == src@.take(k as int),
                {
                    out.push(src[k].clone());
                    assert(out@ =~= src@.take(k + 1));
                }
                assert(src@.take(n as int) =~= src@);
                out
            },
            None => Vec::new(),
        }
    }

    /// The artist names in increasing order (as the artist list shows them).
    pub fn sorted_artists(&self) -> (names: Vec<String>)
        requires
            self.wf(),
        ensures
            strictly_sorted(views(names@)),
            views(names@).len() == self.artists().len(),
            forall|a: Seq<char>| views(names@).contains(a) <==> self.artists().contains(a),
    {
        let n = self.groups.len();
        let mut out: Vec<String> = Vec::new();
        for k in 0..n
            invariant
                n == self.groups@.len(),
                self.wf(),
                strictly_sorted(views(out@)),
                out@.len() == k,
                forall|a: Seq<char>| views(out@).contains(a) <==> self.artists().take(k as int).contains(a),
        {
            let x = &self.groups[k].artist;
            let ghost xv = x@;
            assert(self.artists()[k as int] == xv);
            assert(!views(out@).contains(xv)) by {
                if views(out@).contains(xv) {
                    let t = choose|t: int| 0 <= t < k && self.artists().take(k as int)[t] == xv;
                    assert(self.artists()[t] == self.artists()[k as int]);
                }
            }
            let mut j: usize = 0;
            while j < out.len() && !str_lt(x.as_str(), out[j].as_str())
                invariant
                    j <= out@.len(),
                    !views(out@).contains(xv),
                    x@ == xv,
                    forall|t: int| 0 <= t < j ==> chars_lt(#[trigger] views(out@)[t], xv),
                decreases out@.len() - j,
            {
                assert(views(out@)[j as int] == out@[j as int]@);
                assert(views(out@)[j as int] != xv);
                proof {
                    lemma_chars_lt_total(views(out@)[j as int], xv);
                }
                j = j + 1;
            }
            let ghost before = views(out@);
            proof {
                assert forall|t: int| j <= t < before.len() implies chars_lt(xv, #[trigger] before[t]) by {
                    assert(chars_lt(xv, before[j as int]));
                    if t > j {
                        lemma_chars_lt_transitive(xv, before[j as int], before[t]);
                    }
                }
            }
            out.insert(j, x.clone());
            assert(views(out@) =~= before.insert(j as int, xv));
            assert(self.artists().take(k + 1) =~= self.artists().take(k as int).push(xv));
            let ghost tk = self.artists().take(k as int);
            let ghost tk1 = self.artists().take(k + 1);
            assert forall|a: Seq<char>| views(out@).contains(a) implies tk1.contains(a) by {
                let t = choose|t: int| 0 <= t < views(out@).len() && views(out@)[t] == a;
                if t == j {
                    assert(tk1[k as int] == a);
                } else {
                    let b = if t < j { t } else { t - 1 };
                    assert(before[b] == a);
                    assert(before.contains(a));
                    assert(tk.contains(a));
                    let u = choose|u: int| 0 <= u < tk.len() && tk[u] == a;
                    assert(tk1[u] == a);
                }
            }
            assert forall|a: Seq<char>| tk1.contains(a) implies views(out@).contains(a) by {
                let t = choose|t: int| 0 <= t < tk1.len() && tk1[t] == a;
                if t == k {
                    assert(views(out@)[j as int] == a);
                } else {
                    assert(tk[t] == a);
                    assert(tk.contains(a));
                    assert(before.contains(a));
                    let u = choose|u: int| 0 <= u < before.len() && before[u] == a;
                    if u < j {
                        assert(views(out@)[u] == a);
                    } else {
                        assert(views(out@)[u + 1] == a);
                    }
                }
            }
            assert(strictly_sorted(views(out@))) by {
                let v = views(out@);
                assert forall|p: int, q: int| 0 <= p < q < v.len() implies chars_lt(#[trigger] v[p], #[trigger] v[q]) by {
                    if q < j {
                        assert(v[p] == before[p] && v[q] == before[q]);
                    } else if q == j {
                        assert(v[p] == before[p]);
                    } else if p < j {
                        assert(v[p] == before[p] && v[q] == before[q - 1]);
                        assert(chars_lt(before[p], xv));
                        assert(chars_lt(xv, before[q - 1]));
                        lemma_chars_lt_transitive(before[p], xv, before[q - 1]);
                    } else if p == j {
                        assert(v[q] == before[q - 1]);
                    } else {
                        assert(v[p] == before[p - 1] && v[q] == before[q - 1]);
                    }
                }
            }
        }
        assert(self.artists().take(n as int) =~= self.artists());
        proof {
            assert(views(out@).len() == self.artists().len());
        }
        out
    }
}

/// The playlist and the artist index that a folder scan builds.
pub struct MusicLibrary {
    pub playlist: Vec<Song>,
    pub artists: ArtistIndex,
}

impl MusicLibrary {
    /// An empty library.
    pub fn new() -> (lib: MusicLibrary)
        ensures
            lib.playlist@.len() == 0,
            lib.artists.wf(),
            lib.artists.artists().len() == 0,
    {
        MusicLibrary { playlist: Vec::new(), artists: ArtistIndex::new() }
    }

    /// Takes in the song read from the `index`-th file met by the scan: it is
    /// appended to the playlist and filed under its artist, with `index` as id.
    pub fn add_scanned_song(&mut self, index: usize, song: Song)
        requires
            old(self).artists.wf(),
        ensures
            final(self).artists.wf(),
            final(self).playlist@ == old(self).playlist@.push(song),
            old(self).artists.artists().contains(song.artist@) ==> {
                let p = position_of(old(self).artists.artists(), song.artist@);
                &&& final(self).artists.artists() == old(self).artists.artists()
                &&& final(self).artists.song_lists() == old(self).artists.song_lists().update(
                    p,
                    old(self).artists.song_lists()[p].push(fav_of(song, index, song.is_favorite)),
                )
            },
            !old(self).artists.artists().contains(song.artist@) ==> {
                &&& final(self).artists.artists() == old(self).artists.artists().push(song.artist@)
                &&& final(self).artists.song_lists() == old(self).artists.song_lists().push(
                    seq![fav_of(song, index, song.is_favorite)],
                )
            },
    {
        let fav = SongFav::from_song(&song, index, song.is_favorite);
        self.artists.add_song(song.artist.as_str(), fav);
        self.playlist.push(song);
    }
}

/// Folds ASCII capitals to small letters; every other code is unchanged.
pub open spec fn ascii_lower_code(u: u32) -> u32 {
    if 65 <= u <= 90 { (u + 32) as u32 } else { u }
}

/// `a` and `b` are equal when ASCII letters are compared without case
/// (std's `eq_ignore_ascii_case`).
pub open spec fn eq_ignore_ascii_case(a: Seq<char>, b: Seq<char>) -> bool {
    &&& a.len() == b.len()
    &&& forall|i: int| 0 <= i < a.len() ==> ascii_lower_code(a[i] as u32) == ascii_lower_code(#[trigger] b[i] as u32)
}

/// The file extensions that the scan takes for music.
pub open spec fn audio_extensions() -> Seq<Seq<char>> {
    seq![seq!['m', 'p', '3'], seq!['f', 'l', 'a', 'c'], seq!['w', 'a', 'v'], seq!['o', 'g', 'g'], seq!['a', 'a', 'c']]
}

/// Whether `ext` names a music file, case aside.
pub open spec fn is_audio_extension(ext: Seq<char>) -> bool {
    exists|k: int| 0 <= k < audio_extensions().len() && eq_ignore_ascii_case(#[trigger] audio_extensions()[k], ext)
}

/// A file is taken for music exactly when its extension is, ASCII case aside,
/// one of `mp3`, `flac`, `wav`, `ogg` and `aac`.
pub proof fn lemma_audio_extensions_are_the_five(ext: Seq<char>)
    ensures
        is_audio_extension(ext) <==> (eq_ignore_ascii_case(seq!['m', 'p', '3'], ext)
            || eq_ignore_ascii_case(seq!['f', 'l', 'a', 'c'], ext)
            || eq_ignore_ascii_case(seq!['w', 'a', 'v'], ext) || eq_ignore_ascii_case(seq!['o', 'g', 'g'], ext)
            || eq_ignore_ascii_case(seq!['a', 'a', 'c'], ext)),
{
    let l = audio_extensions();
    assert(l.len() == 5);
    assert(l[0] == seq!['m', 'p', '3']);
    assert(l[1] == seq!['f', 'l', 'a', 'c']);
    assert(l[2] == seq!['w', 'a', 'v']);
    assert(l[3] == seq!['o', 'g', 'g']);
    assert(l[4] == seq!['a', 'a', 'c']);
    if is_audio_extension(ext) {
        let k = choose|k: int| 0 <= k < l.len() && eq_ignore_ascii_case(#[trigger] l[k], ext);
        assert(k == 0 || k == 1 || k == 2 || k == 3 || k == 4);
    }
    if eq_ignore_ascii_case(seq!['m', 'p', '3'], ext) { assert(eq_ignore_ascii_case(l[0], ext)); }
    if eq_ignore_ascii_case(seq!['f', 'l', 'a', 'c'], ext) { assert(eq_ignore_ascii_case(l[1], ext)); }
    if eq_ignore_ascii_case(seq!['w', 'a', 'v'], ext) { assert(eq_ignore_ascii_case(l[2], ext)); }
    if eq_ignore_ascii_case(seq!['o', 'g', 'g'], ext) { assert(eq_ignore_ascii_case(l[3], ext)); }
    if eq_ignore_ascii_case(seq!['a', 'a', 'c'], ext) { assert(eq_ignore_ascii_case(l[4], ext)); }
}

/// No extension with a letter outside `mp3`, `flac`, `wav`, `ogg`, `aac` (in
/// either case) is taken for music: image and text files such as `jpg`, `png`
/// or `txt` are never read as songs.
pub proof fn lemma_audio_extension_letters(ext: Seq<char>, i: int)
    requires
        is_audio_extension(ext),
        0 <= i < ext.len(),
    ensures
        ext.len() == 3 || ext.len() == 4,
        ({
            let c = ascii_lower_code(ext[i] as u32);
            c == 'm' as u32 || c == 'p' as u32 || c == '3' as u32 || c == 'f' as u32 || c == 'l' as u32
                || c == 'a' as u32 || c == 'c' as u32 || c == 'w' as u32 || c == 'v' as u32
                || c == 'o' as u32 || c == 'g' as u32
        }),
{
    lemma_audio_extensions_are_the_five(ext);
    let l = audio_extensions();
    let k = choose|k: int| 0 <= k < l.len() && eq_ignore_ascii_case(#[trigger] l[k], ext);
    assert(ascii_lower_code(l[k][i] as u32) == ascii_lower_code(ext[i] as u32));
    assert(l[k].len() == 3 || l[k].len() == 4);
}

fn chars_eq_ignore_ascii_case(a: &Vec<char>, b: &Vec<char>) -> (eq: bool)
    ensures
        eq == eq_ignore_ascii_case(a@, b@),
{
    if a.len() != b.len() {
        return false;
    }
    let n = a.len();
    for i in 0..n
        invariant
            n == a@.len(),
            n == b@.len(),
            forall|k: int| 0 <= k < i ==> ascii_lower_code(a@[k] as u32) == ascii_lower_code(#[trigger] b@[k] as u32),
    {
        let x = a[i] as u32;
        let y = b[i] as u32;
        let lx = if 65 <= x && x <= 90 { x + 32 } else { x };
        let ly = if 65 <= y && y <= 90 { y + 32 } else { y };
        if lx != ly {
            return false;
        }
    }
    true
}

/// Whether a file with extension `ext` is taken for music: `mp3`, `flac`,
/// `wav`, `ogg` or `aac`, in any mix of cases.
pub fn is_supported_extension(ext: &str) -> (ok: bool)
    ensures
        ok == is_audio_extension(ext@),
        ok <==> (eq_ignore_ascii_case(seq!['m', 'p', '3'], ext@) || eq_ignore_ascii_case(seq!['f', 'l', 'a', 'c'], ext@)
            || eq_ignore_ascii_case(seq!['w', 'a', 'v'], ext@) || eq_ignore_ascii_case(seq!['o', 'g', 'g'], ext@)
            || eq_ignore_ascii_case(seq!['a', 'a', 'c'], ext@)),
{
    let e = chars_of(ext);
    let exts: Vec<Vec<char>> = vec![vec!['m', 'p', '3'], vec!['f', 'l', 'a', 'c'], vec!['w', 'a', 'v'], vec!['o', 'g', 'g'], vec!['a', 'a', 'c']];
    assert(exts@.map_values(|v: Vec<char>| v@) =~= audio_extensions());
    let n = exts.len();
    for k in 0..n
        invariant
            n == exts@.len(),
            e@ == ext@,
            exts@.map_values(|v: Vec<char>| v@) == audio_extensions(),
            forall|j: int| 0 <= j < k ==> !eq_ignore_ascii_case(#[trigger] audio_extensions()[j], ext@),
    {
        assert(exts@[k as int]@ == audio_extensions()[k as int]);
        if chars_eq_ignore_ascii_case(&exts[k], &e) {
            proof {
                lemma_audio_extensions_are_the_five(ext@);
            }
            return true;
        }
    }
    proof {
        lemma_audio_extensions_are_the_five(ext@);
    }
    false
}

/// The title, artist and album found in a file's primary tag.
pub struct TagText {
    pub title: Option<String>,
    pub artist: Option<String>,
    pub album: Option<String>,
}

/// The title a song read from a file gets: empty without a tag; else the
/// tag's title, or failing that the file name, or failing that `Unknown`.
pub open spec fn song_title(tag: Option<TagText>, file_name: Option<String>) -> Seq<char> {
    match tag {
        None => Seq::empty(),
        Some(t) => match t.title {
            Some(x) => x@,
            None => match file_name {
                Some(f) => f@,
                None => "Unknown"@,
            },
        },
    }
}

/// The artist a song read from a file gets: empty without a tag; else the
/// tag's artist, or `Unknown`.
pub open spec fn song_artist(tag: Option<TagText>) -> Seq<char> {
    match tag {
        None => Seq::empty(),
        Some(t) => match t.artist {
            Some(x) => x@,
            None => "Unknown"@,
        },
    }
}

/// The album a song read from a file gets: the tag's album, or empty when
/// there is no tag or the tag names no album.
pub open spec fn song_album(tag: Option<TagText>) -> Seq<char> {
    match tag {
        None => Seq::empty(),
        Some(t) => match t.album {
            Some(x) => x@,
            None => Seq::empty(),
        },
    }
}

/// The title of a song read from a file depends on the tag's title and the
/// file name alone: the tag's title when it has one, else the file name when
/// it is text; the artist and album of the tag play no part. Likewise the
/// artist depends on the tag's artist alone and the album on its album alone.
pub proof fn lemma_metadata_fields_are_independent(t1: TagText, t2: TagText, file_name: Option<String>)
    ensures
        t1.title == t2.title ==> song_title(Some(t1), file_name) == song_title(Some(t2), file_name),
        t1.title matches Some(x) ==> song_title(Some(t1), file_name) == x@,
        file_name matches Some(f) ==> (t1.title is None ==> song_title(Some(t1), file_name) == f@),
        t1.artist == t2.artist ==> song_artist(Some(t1)) == song_artist(Some(t2)),
        t1.artist matches Some(a) ==> song_artist(Some(t1)) == a@,
        t1.album == t2.album ==> song_album(Some(t1)) == song_album(Some(t2)),
        t1.album matches Some(b) ==> song_album(Some(t1)) == b@,
{
}

/// The song read from the file at `path_file`, given its primary tag (if it
/// could be read), its file name as text (if it is valid text) and its length.
pub fn song_from_metadata(tag: Option<TagText>, file_name: Option<String>, path_file: String, duration_ms: u64) -> (song: Song)
    ensures
        song.title@ == song_title(tag, file_name),
        song.artist@ == song_artist(tag),
        song.album@ == song_album(tag),
        tag is None ==> song.title@.len() == 0 && song.artist@.len() == 0 && song.album@.len() == 0,
        tag matches Some(t) ==> (t.title matches Some(x) ==> song.title@ == x@),
        tag matches Some(t) ==> (t.title is None ==> (file_name matches Some(f) ==> song.title@ == f@)),
        tag matches Some(t) ==> (t.artist matches Some(a) ==> song.artist@ == a@),
        tag matches Some(t) ==> (t.album matches Some(b) ==> song.album@ == b@),
        song.path_file == path_file,
        song.duration_ms == duration_ms,
        !song.is_favorite,
{
    let (title, artist, album) = match tag {
        None => (String::new(), String::new(), String::new()),
        Some(t) => {
            let title = match t.title {
                Some(x) => x,
                None => match file_name {
                    Some(f) => f,
                    None => String::from_str("Unknown"),
                },
            };
            let artist = match t.artist {
                Some(x) => x,
                None => String::from_str("Unknown"),
            };
            let album = match t.album {
                Some(x) => x,
                None => String::new(),
            };
            (title, artist, album)
        },
    };
    Song { title, artist, album, path_file, duration_ms, is_favorite: false }
}

/// What std's `char::to_uppercase` yields for `c`: its Unicode uppercase
/// mapping, one or more characters.
pub uninterp spec fn char_uppercase(c: char) -> Seq<char>;

/// Uppercase form of `c` (std's `char::to_uppercase`, collected). The
/// contract states that the result is `char_uppercase(c)`, has at least one
/// character, and for ASCII input is the ASCII uppercase letter (or `c`
/// itself when it is not a small letter); the Unicode mapping of other
/// characters is left unsaid.
#[verifier::external_body]
fn uppercase_of(c: char) -> (u: String)
    ensures
        u@ == char_uppercase(c),
        u@.len() >= 1,
        (c as u32) < 128 ==> u@ == seq![(ascii_upper_code(c as u32) as char)],
{
    c.to_uppercase().collect()
}

/// Folds ASCII small letters to capitals; every other code is unchanged.
pub open spec fn ascii_upper_code(u: u32) -> u32 {
    if 97 <= u <= 122 { (u - 32) as u32 } else { u }
}

/// The initials of an artist name: the uppercase form of the first
/// character of each of its first two words.
pub open spec fn initials(name: Seq<char>) -> Seq<char> {
    let w = words(name);
    if w.len() == 0 {
        Seq::empty()
    } else if w.len() == 1 {
        char_uppercase(w[0][0])
    } else {
        char_uppercase(w[0][0]) + char_uppercase(w[1][0])
    }
}

/// The initials shown in an artist's avatar.
pub fn get_artist_initials(name: &str) -> (s: String)
    ensures
        s@ == initials(name@),
        words(name@).len() == 1 && (words(name@)[0][0] as u32) < 128
            ==> s@ == seq![ascii_upper_code(words(name@)[0][0] as u32) as char],
        words(name@).len() >= 2 && (words(name@)[0][0] as u32) < 128 && (words(name@)[1][0] as u32) < 128
            ==> s@ == seq![
                ascii_upper_code(words(name@)[0][0] as u32) as char,
                ascii_upper_code(words(name@)[1][0] as u32) as char,
            ],
{
    let ws = split_whitespace_words(name);
    proof {
        lemma_words_are_words(name@);
    }
    let mut out = String::new();
    let n = ws.len();
    if n >= 1 {
        assert(views(ws@)[0] == ws@[0]@);
        let c = ws[0].as_str().get_char(0);
        let u = uppercase_of(c);
        out.append(u.as_str());
    }
    if n >= 2 {
        assert(views(ws@)[1] == ws@[1]@);
        let c = ws[1].as_str().get_char(0);
        let u = uppercase_of(c);
        out.append(u.as_str());
    }
    assert(out@ =~= initials(name@));
    out
}

/// The line under an artist's name: `Artista • N canción`, with `es`
/// appended to `canción` unless N is one.
pub open spec fn artist_info(count: nat) -> Seq<char> {
    "Artista • "@ + crate::text::decimal(count) + " canción"@ + (if count == 1 { Seq::<char>::empty() } else { "es"@ })
}

/// The line under an artist's name for an artist with `count` songs.
pub fn artist_info_text(count: usize) -> (s: String)
    ensures
        s@ == artist_info(count as nat),
{
    let mut s = String::from_str("Artista • ");
    push_decimal(&mut s, count as u64);
    s.append(" canción");
    if count != 1 {
        s.append("es");
    }
    assert(s@ =~= artist_info(count as nat));
    s
}

} // verus!
