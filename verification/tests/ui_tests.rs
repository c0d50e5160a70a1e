use music_player::cache::{is_json_valid_and_not_empty, json_top_worth_loading, JsonTop};
use music_player::types::PlayerState;
use music_player::ui_text::{
    favorite_button_look, play_icon_after_click, format_row_duration, get_fallback_icon, play_icon_for_state_code,
    row_look, shorten_label, theme_stylesheet, track_label_on_enter, track_label_on_leave,
    track_number_text, volume_icon,
};
use music_player::volume::get_system_volume_linux;

#[test]
fn fallback_icons() {
    assert_eq!(get_fallback_icon("Playlist"), "♪");
    assert_eq!(get_fallback_icon("Favoritos"), "★");
    assert_eq!(get_fallback_icon("Artistas"), "♫");
    assert_eq!(get_fallback_icon("Álbumes"), "◉");
    assert_eq!(get_fallback_icon("Configuración"), "⚙");
    assert_eq!(get_fallback_icon("Salir"), "⏻");
    assert_eq!(get_fallback_icon("Biblioteca"), "•");
    assert_eq!(get_fallback_icon("playlist"), "•");
}

#[test]
fn row_labels() {
    assert_eq!(track_number_text(0), "1");
    assert_eq!(track_number_text(41), "42");
    assert_eq!(track_label_on_enter(2, 2, PlayerState::Playing), "⏸");
    assert_eq!(track_label_on_enter(2, 2, PlayerState::Paused), "▶");
    assert_eq!(track_label_on_enter(1, 2, PlayerState::Playing), "▶");
    assert_eq!(track_label_on_leave(2, 2, PlayerState::Playing), "♪");
    assert_eq!(track_label_on_leave(2, 2, PlayerState::Stopped), "⏸");
    assert_eq!(track_label_on_leave(1, 2, PlayerState::Playing), "3");
}

#[test]
fn row_look_refresh() {
    let l = row_look(3, 3, PlayerState::Playing, false);
    assert!(l.is_current && l.is_playing);
    assert_eq!(l.label.as_deref(), Some("♪"));
    let l = row_look(3, 3, PlayerState::Paused, false);
    assert!(l.is_current && !l.is_playing);
    assert_eq!(l.label.as_deref(), Some("⏸"));
    let l = row_look(0, 3, PlayerState::Playing, false);
    assert!(!l.is_current && !l.is_playing);
    assert_eq!(l.label.as_deref(), Some("4"));
    let l = row_look(3, 3, PlayerState::Playing, true);
    assert!(l.label.is_none());
}

#[test]
fn long_labels_are_cut() {
    let short = "A short title";
    assert_eq!(shorten_label(short, 48, 45), short);
    let exact = "x".repeat(48);
    assert_eq!(shorten_label(&exact, 48, 45), exact);
    let long = "y".repeat(49);
    assert_eq!(shorten_label(&long, 48, 45), format!("{}...", "y".repeat(45)));
    let accented = format!("{}é{}", "a".repeat(43), "b".repeat(10));
    assert_eq!(shorten_label(&accented, 48, 45), format!("{}é...", "a".repeat(43)));
}

#[test]
fn row_durations() {
    assert_eq!(format_row_duration(0), "0:00");
    assert_eq!(format_row_duration(187), "3:07");
    assert_eq!(format_row_duration(3599), "59:59");
    assert_eq!(format_row_duration(3600), "1:00:00");
    assert_eq!(format_row_duration(7384), "2:03:04");
}

#[test]
fn button_looks() {
    assert_eq!(favorite_button_look(true), ("Quitar de favoritos", "src/icons/unfavorite.png"));
    assert_eq!(favorite_button_look(false), ("Añadir a favoritos", "src/icons/favorite.png"));
    assert_eq!(play_icon_for_state_code(0), Some("media-playback-pause"));
    assert_eq!(play_icon_for_state_code(1), Some("media-playback-start"));
    assert_eq!(play_icon_for_state_code(2), None);
    assert_eq!(play_icon_for_state_code(9), None);
    assert_eq!(volume_icon(true), "audio-volume-muted");
    assert_eq!(volume_icon(false), "audio-volume-high");
    assert_eq!(theme_stylesheet(true), "src/css/dark.css");
    assert_eq!(theme_stylesheet(false), "src/css/light.css");
}

#[test]
fn cache_content_checks() {
    assert!(!is_json_valid_and_not_empty(None));
    assert!(!is_json_valid_and_not_empty(Some("")));
    assert!(!is_json_valid_and_not_empty(Some("  \n\t ")));
    assert!(!is_json_valid_and_not_empty(Some("[]")));
    assert!(!is_json_valid_and_not_empty(Some(" [ ] ")));
    assert!(!is_json_valid_and_not_empty(Some("null")));
    assert!(!is_json_valid_and_not_empty(Some("{")));
    assert!(!is_json_valid_and_not_empty(Some("not json")));
    assert!(is_json_valid_and_not_empty(Some("[1]")));
    assert!(is_json_valid_and_not_empty(Some("{}")));
    assert!(is_json_valid_and_not_empty(Some("0")));
    assert!(is_json_valid_and_not_empty(Some("[{\"title\":\"a\"}]")));
}

#[test]
fn pactl_volume_parsing() {
    let out = "Volume: front-left: 32768 /  50% / -18.06 dB,   front-right: 32768 /  50% / -18.06 dB\n";
    assert_eq!(get_system_volume_linux(Some(out)), Some(50));
    assert_eq!(get_system_volume_linux(None), None);
    assert_eq!(get_system_volume_linux(Some("")), None);
    assert_eq!(get_system_volume_linux(Some("no slash here\n")), None);
    assert_eq!(get_system_volume_linux(Some("first line\nVolume: 1 / 100% / 0 dB")), Some(100));
    assert_eq!(get_system_volume_linux(Some("a / 300% / b")), None);
    assert_eq!(get_system_volume_linux(Some("a / +7%% / b")), Some(7));
    assert_eq!(get_system_volume_linux(Some("a / 7 % / b")), None);
    assert_eq!(get_system_volume_linux(Some("a / -7% / b")), None);
    assert_eq!(get_system_volume_linux(Some("a /  42%\r\nb / 9% /")), Some(42));
    assert_eq!(get_system_volume_linux(Some("a /  / b / 5%")), None);
    assert_eq!(get_system_volume_linux(Some("x/007")), Some(7));
}

#[test]
fn play_icon_after_a_click() {
    assert_eq!(play_icon_after_click(PlayerState::Playing), "media-playback-start");
    assert_eq!(play_icon_after_click(PlayerState::Paused), "media-playback-pause");
    assert_eq!(play_icon_after_click(PlayerState::Stopped), "media-playback-pause");
}

#[test]
fn json_top_decision() {
    assert!(!json_top_worth_loading(None));
    assert!(!json_top_worth_loading(Some(JsonTop::Null)));
    assert!(!json_top_worth_loading(Some(JsonTop::Array(0))));
    assert!(json_top_worth_loading(Some(JsonTop::Array(2))));
    assert!(json_top_worth_loading(Some(JsonTop::Other)));
}
