use yumosu::tracks::{display_name, is_track_path};

fn bytes(s: &str) -> Vec<u8> {
    s.as_bytes().to_vec()
}

fn text(v: Vec<u8>) -> String {
    String::from_utf8(v).unwrap()
}

#[test]
fn track_paths_end_in_mp3() {
    assert!(is_track_path(&bytes("songs/cool_song.mp3")));
    assert!(is_track_path(&bytes(".mp3")));
    assert!(!is_track_path(&bytes("songs/cool_song.ogg")));
    assert!(!is_track_path(&bytes("songs/cool_song.MP3")));
    assert!(!is_track_path(&bytes("mp3")));
    assert!(!is_track_path(&bytes("")));
}

#[test]
fn display_name_uppercases_and_strips_extension() {
    assert_eq!(text(display_name(&bytes("src/assets/music/cool_song.mp3"))), "COOL_SONG");
}

#[test]
fn display_name_without_directories() {
    assert_eq!(text(display_name(&bytes("track.mp3"))), "TRACK");
}

#[test]
fn display_name_without_extension_keeps_the_name() {
    assert_eq!(text(display_name(&bytes("music/readme"))), "README");
}

#[test]
fn display_name_of_uppercase_extension_is_stripped_too() {
    assert_eq!(text(display_name(&bytes("music/LOUD.MP3"))), "LOUD");
}

#[test]
fn display_name_with_trailing_slash_is_empty() {
    assert_eq!(text(display_name(&bytes("music/"))), "");
}
