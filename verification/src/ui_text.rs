//! Decisions behind what the interface shows: icons, labels of playlist
//! rows, shortened titles and the look of the favourite button.
use vstd::prelude::*;
use crate::text::{decimal, decimal_pad2, push_char, push_decimal, push_decimal_pad2, str_eq};
use crate::types::PlayerState;
use vstd::string::StringSliceAdditionalSpecFns;

verus! {

/// The character shown for a sidebar entry whose icon is missing.
pub open spec fn fallback_icon(text: Seq<char>) -> Seq<char> {
    if text == "Playlist"@ {
        "♪"@
    } else if text == "Favoritos"@ {
        "★"@
    } else if text == "Artistas"@ {
        "♫"@
    } else if text == "Álbumes"@ {
        "◉"@
    } else if text == "Configuración"@ {
        "⚙"@
    } else if text == "Salir"@ {
        "⏻"@
    } else {
        "•"@
    }
}

/// The character shown in place of the icon of the sidebar entry `text`.
pub fn get_fallback_icon(text: &str) -> (icon: String)
    ensures
        icon@ == fallback_icon(text@),
{
    if str_eq(text, "Playlist") {
        String::from_str("♪")
    } else if str_eq(text, "Favoritos") {
        String::from_str("★")
    } else if str_eq(text, "Artistas") {
        String::from_str("♫")
    } else if str_eq(text, "Álbumes") {
        String::from_str("◉")
    } else if str_eq(text, "Configuración") {
        String::from_str("⚙")
    } else if str_eq(text, "Salir") {
        String::from_str("⏻")
    } else {
        String::from_str("•")
    }
}

/// The number of the row at `index` (rows are numbered from one).
pub open spec fn row_number(index: nat) -> Seq<char> {
    decimal(index + 1)
}

/// The number shown on the row at `index`.
pub fn track_number_text(index: usize) -> (s: String)
    requires
        index < usize::MAX,
    ensures
        s@ == row_number(index as nat),
{
    let mut s = String::new();
    push_decimal(&mut s, (index + 1) as u64);
    assert(s@ =~= row_number(index as nat));
    s
}

/// The label of a row under the pointer: pause on the song that is playing,
/// play on any other.
pub open spec fn hover_label(is_current: bool, state: PlayerState) -> Seq<char> {
    if is_current && state == PlayerState::Playing { "⏸"@ } else { "▶"@ }
}

/// The label of a row the pointer is not on: a note on the song that is
/// playing, pause on the current song otherwise, the row number elsewhere.
pub open spec fn resting_label(is_current: bool, state: PlayerState, index: nat) -> Seq<char> {
    if is_current {
        if state == PlayerState::Playing { "♪"@ } else { "⏸"@ }
    } else {
        row_number(index)
    }
}

/// The label of the row at `index` when the pointer enters it.
pub fn track_label_on_enter(current_index: usize, index: usize, state: PlayerState) -> (s: String)
    ensures
        s@ == hover_label(current_index == index, state),
{
    if current_index == index && state == PlayerState::Playing {
        String::from_str("⏸")
    } else {
        String::from_str("▶")
    }
}

/// The label of the row at `index` when the pointer leaves it.
pub fn track_label_on_leave(current_index: usize, index: usize, state: PlayerState) -> (s: String)
    requires
        index < usize::MAX,
    ensures
        s@ == resting_label(current_index == index, state, index as nat),
{
    if current_index == index {
        if state == PlayerState::Playing {
            String::from_str("♪")
        } else {
            String::from_str("⏸")
        }
    } else {
        track_number_text(index)
    }
}

/// How a playlist row looks at a refresh.
pub struct RowLook {
    /// The row holds the current song (highlighted).
    pub is_current: bool,
    /// The row's song is playing (equaliser shown, number hidden).
    pub is_playing: bool,
    /// The new label; `None` keeps the label while the pointer is on the row.
    pub label: Option<String>,
}

/// How the row at `index` looks, given the player's cursor and state and
/// whether the pointer is on the row.
pub fn row_look(current_index: usize, index: usize, state: PlayerState, hovered: bool) -> (look: RowLook)
    requires
        index < usize::MAX,
    ensures
        look.is_current == (current_index == index),
        look.is_playing == (current_index == index && state == PlayerState::Playing),
        hovered ==> look.label is None,
        !hovered ==> look.label is Some && look.label->0@ == resting_label(current_index == index, state, index as nat),
{
    let is_current = current_index == index;
    let is_playing = is_current && state == PlayerState::Playing;
    let label = if hovered {
        None
    } else {
        Some(track_label_on_leave(current_index, index, state))
    };
    RowLook { is_current, is_playing, label }
}

/// A label cut for a row: when `text` is longer than `limit` bytes, its first
/// `keep` bytes followed by `...`; otherwise the text itself.
pub open spec fn shortened(text: &str, limit: nat, keep: nat) -> Seq<char> {
    if text.spec_bytes().len() > limit {
        vstd::utf8::decode_utf8(text.spec_bytes().take(keep as int)) + "..."@
    } else {
        text@
    }
}

/// Cuts a title or artist name for a playlist row. Cutting inside a
/// character is not allowed, hence the requirement on `keep`.
pub fn shorten_label(text: &str, limit: usize, keep: usize) -> (s: String)
    requires
        keep <= limit,
        text.spec_bytes().len() <= usize::MAX,
        text.spec_bytes().len() > limit ==> vstd::utf8::is_char_boundary(text.spec_bytes(), keep as int),
    ensures
        s@ == shortened(text, limit as nat, keep as nat),
{
    if text.len() > limit {
        let (head, _rest) = text.split_at(keep);
        proof {
            vstd::utf8::encode_utf8_decode_utf8(head@);
            assert(head.spec_bytes() =~= text.spec_bytes().take(keep as int));
        }
        let mut s = String::from_str(head);
        s.append("...");
        s
    } else {
        String::from_str(text)
    }
}

/// The tooltip and icon file of the favourite button for a song whose
/// favourite flag is `is_favorite`.
pub fn favorite_button_look(is_favorite: bool) -> (look: (&'static str, &'static str))
    ensures
        is_favorite ==> look.0@ == "Quitar de favoritos"@ && look.1@ == "src/icons/unfavorite.png"@,
        !is_favorite ==> look.0@ == "Añadir a favoritos"@ && look.1@ == "src/icons/favorite.png"@,
{
    if is_favorite {
        ("Quitar de favoritos", "src/icons/unfavorite.png")
    } else {
        ("Añadir a favoritos", "src/icons/favorite.png")
    }
}

/// The icon the play button gets when the player announces state `code`:
/// pause while playing, play when paused, unchanged otherwise.
pub fn play_icon_for_state_code(code: i32) -> (icon: Option<&'static str>)
    ensures
        code == 0 ==> icon is Some && icon->0@ == "media-playback-pause"@,
        code == 1 ==> icon is Some && icon->0@ == "media-playback-start"@,
        code != 0 && code != 1 ==> icon is None,
{
    if code == 0 {
        Some("media-playback-pause")
    } else if code == 1 {
        Some("media-playback-start")
    } else {
        None
    }
}

/// The icon the play button shows after a click, given the state before it:
/// play after pausing a song that was playing, pause otherwise.
pub fn play_icon_after_click(state_before: PlayerState) -> (icon: &'static str)
    ensures
        state_before == PlayerState::Playing ==> icon@ == "media-playback-start"@,
        state_before != PlayerState::Playing ==> icon@ == "media-playback-pause"@,
{
    match state_before {
        PlayerState::Playing => "media-playback-start",
        _ => "media-playback-pause",
    }
}

/// The icon of the volume button: muted or full volume.
pub fn volume_icon(muted: bool) -> (icon: &'static str)
    ensures
        muted ==> icon@ == "audio-volume-muted"@,
        !muted ==> icon@ == "audio-volume-high"@,
{
    if muted { "audio-volume-muted" } else { "audio-volume-high" }
}

/// The text of a row's duration of `total` whole seconds: `m:ss` below an
/// hour, `h:mm:ss` from an hour on (no leading zero on the minutes).
pub open spec fn row_duration_text(total: nat) -> Seq<char> {
    let mins = total / 60;
    let secs = total % 60;
    if mins >= 60 {
        decimal(mins / 60) + seq![':'] + decimal_pad2(mins % 60) + seq![':'] + decimal_pad2(secs)
    } else {
        decimal(mins) + seq![':'] + decimal_pad2(secs)
    }
}

/// Formats the duration shown at the end of a playlist row.
pub fn format_row_duration(total_seconds: u32) -> (text: String)
    ensures
        text@ == row_duration_text(total_seconds as nat),
{
    let mins: u64 = (total_seconds / 60) as u64;
    let secs: u64 = (total_seconds % 60) as u64;
    let mut s = String::new();
    if mins >= 60 {
        push_decimal(&mut s, mins / 60);
        push_char(&mut s, ':');
        push_decimal_pad2(&mut s, mins % 60);
        push_char(&mut s, ':');
        push_decimal_pad2(&mut s, secs);
    } else {
        push_decimal(&mut s, mins);
        push_char(&mut s, ':');
        push_decimal_pad2(&mut s, secs);
    }
    assert(s@ =~= row_duration_text(total_seconds as nat));
    s
}

/// The stylesheet loaded when the dark-theme switch turns on or off.
pub fn theme_stylesheet(dark: bool) -> (path: &'static str)
    ensures
        dark ==> path@ == "src/css/dark.css"@,
        !dark ==> path@ == "src/css/light.css"@,
{
    if dark { "src/css/dark.css" } else { "src/css/light.css" }
}

} // verus!
