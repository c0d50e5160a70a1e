# music_player

The verified core of a GTK music player, written in Verus.

- `src/` — the library. Its functions are proved against their contracts,
  except three small trusted wrappers over std and serde_json (`push_char`,
  `uppercase_of`, `parse_json_top`), whose contracts are taken on trust:
  - `player.rs`: playlist cursor, playback state, mute, shuffle and favourites; every
    start of playback returns a `PlayRequest` for the audio pipeline.
  - `library.rs`: the playlist and artist index built from a folder scan,
    sorted artist names, initials and the artist info line, the audio file
    filter and the song built from a file's tags.
  - `ui_text.rs`: icons, playlist-row labels and shortened titles.
  - `duration.rs`: durations from sample counts and their `m:ss` text.
  - `cache.rs`: whether a cache file's content is worth loading (serde_json).
  - `volume.rs`: the volume percentage in `pactl` output.
  - `text.rs`, `types.rs`: character helpers and the song records.
- `tests/` — tests of the library on concrete values.
- `app/` — the GTK/GStreamer program around the library: windows, the audio
  pipeline, file scanning, tag reading and the JSON cache files.
