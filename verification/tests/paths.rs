use musicthing::metadata::paths::{containing_directory, extension_is_audio, is_audio_file};

#[test]
fn flac_files_are_audio_in_any_case() {
    assert!(is_audio_file("/lib/a/song.flac"));
    assert!(is_audio_file("/lib/a/song.FLAC"));
    assert!(is_audio_file("/lib/a/song.FlAc"));
    assert!(is_audio_file("song.flac"));
    assert!(is_audio_file("/lib/a/song.mp3.flac"));
}

#[test]
fn other_files_are_not_audio() {
    assert!(!is_audio_file("/lib/a/song.mp3"));
    assert!(!is_audio_file("/lib/a/song.flacx"));
    assert!(!is_audio_file("/lib/a/song.fla"));
    assert!(!is_audio_file("/lib/a/flac"));
    assert!(!is_audio_file("/lib/a/.flac"));
    assert!(!is_audio_file("/lib/a.flac/song"));
    assert!(!is_audio_file("/lib/a/song.flac.bak"));
    assert!(!is_audio_file(""));
}

#[test]
fn an_extension_is_compared_letter_by_letter() {
    assert!(extension_is_audio("flac"));
    assert!(extension_is_audio("FLAC"));
    assert!(extension_is_audio("fLaC"));
    assert!(!extension_is_audio(""));
    assert!(!extension_is_audio("flak"));
    assert!(!extension_is_audio("glac"));
    assert!(!extension_is_audio("fiac"));
    assert!(!extension_is_audio("flec"));
    assert!(!extension_is_audio("flacc"));
    assert!(!extension_is_audio("ﬂac"));
}

#[test]
fn the_containing_directory_is_the_parent() {
    assert_eq!(containing_directory("/lib/ArtistA/AlbumX/track1.flac"), "/lib/ArtistA/AlbumX");
    assert_eq!(containing_directory("/track.flac"), "/");
    assert_eq!(containing_directory("track.flac"), "");
}

#[test]
fn a_path_without_parent_is_in_the_empty_directory() {
    assert_eq!(containing_directory(""), "");
    assert_eq!(containing_directory("/"), "");
}
