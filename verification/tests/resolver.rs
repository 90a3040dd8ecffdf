use musicthing::metadata::resolver::{
    lyrics_candidate, process_audio_file, sidecar_cover_candidates, wants_sidecar_cover,
    AudioProbe, Picture, PictureKind, ScannedFile, TagData, TagField, TagItem,
};
use musicthing::metadata::scanner::scan_music_folder;
use musicthing::models::AppState;

fn item(field: TagField, text: &str) -> TagItem {
    TagItem { field, text: Some(text.to_string()) }
}

fn empty_tag() -> TagData {
    TagData {
        title: None,
        artist: None,
        album: None,
        genre: None,
        items: Vec::new(),
        pictures: Vec::new(),
    }
}

fn file_with(path: &str, tag: TagData) -> ScannedFile {
    ScannedFile {
        path: path.to_string(),
        probe: Some(AudioProbe { duration_ms: 180_000, tag: Some(tag) }),
        sidecar_covers: Vec::new(),
        lyrics_found: false,
    }
}

fn front(data: &[u8]) -> Picture {
    Picture { kind: PictureKind::CoverFront, data: data.to_vec() }
}

#[test]
fn an_unreadable_file_gives_an_unknown_track() {
    let file = ScannedFile {
        path: "/lib/x/broken.flac".to_string(),
        probe: None,
        sidecar_covers: Vec::new(),
        lyrics_found: false,
    };
    let info = process_audio_file(&file);
    assert_eq!(info.title, "Unknown");
    assert_eq!(info.artist, "Unknown");
    assert_eq!(info.album, "Unknown");
    assert_eq!(info.duration_ms, 0);
    assert_eq!(info.path, "/lib/x/broken.flac");
    assert_eq!(info.genre, None);
    assert_eq!(info.album_artist, None);
    assert_eq!(info.cover_art_base64, None);
    assert_eq!(info.lyrics_path, None);
    assert_eq!(info.id, None);
}

#[test]
fn an_unreadable_file_still_gets_its_sidecars() {
    let file = ScannedFile {
        path: "/lib/x/broken.flac".to_string(),
        probe: None,
        sidecar_covers: vec![Some(b"hello".to_vec())],
        lyrics_found: true,
    };
    let info = process_audio_file(&file);
    assert_eq!(info.title, "Unknown");
    assert_eq!(info.cover_art_base64.as_deref(), Some("aGVsbG8="));
    assert_eq!(info.lyrics_path.as_deref(), Some("/lib/x/broken.lrc"));
}

#[test]
fn a_file_without_tag_keeps_its_duration() {
    let file = ScannedFile {
        path: "/lib/x/bare.flac".to_string(),
        probe: Some(AudioProbe { duration_ms: 61_500, tag: None }),
        sidecar_covers: Vec::new(),
        lyrics_found: false,
    };
    let info = process_audio_file(&file);
    assert_eq!(info.duration_ms, 61_500);
    assert_eq!(info.title, "Unknown");
    assert_eq!(info.artist, "Unknown");
    assert_eq!(info.album, "Unknown");
}

#[test]
fn the_general_accessors_seed_the_record() {
    let mut tag = empty_tag();
    tag.title = Some("Song".to_string());
    tag.artist = Some("Artist".to_string());
    tag.album = Some("Album".to_string());
    tag.genre = Some("Rock".to_string());
    let info = process_audio_file(&file_with("/lib/a/s.flac", tag));
    assert_eq!(info.title, "Song");
    assert_eq!(info.artist, "Artist");
    assert_eq!(info.album, "Album");
    assert_eq!(info.genre.as_deref(), Some("Rock"));
    assert_eq!(info.duration_ms, 180_000);
    assert_eq!(info.year, None);
    assert_eq!(info.label, None);
    assert_eq!(info.track_number, None);
    assert_eq!(info.album_artist, None);
}

#[test]
fn an_empty_tag_leaves_the_placeholders() {
    let info = process_audio_file(&file_with("/lib/a/s.flac", empty_tag()));
    assert_eq!(info.title, "Unknown");
    assert_eq!(info.artist, "Unknown");
    assert_eq!(info.album, "Unknown");
    assert_eq!(info.genre, None);
}

#[test]
fn the_specific_fields_override_the_accessors() {
    let mut tag = empty_tag();
    tag.title = Some("Song".to_string());
    tag.artist = Some("General Artist".to_string());
    tag.album = Some("General Album".to_string());
    tag.genre = Some("General Genre".to_string());
    tag.items = vec![
        item(TagField::TrackArtist, "Track Artist"),
        item(TagField::AlbumArtist, "Album Artist"),
        item(TagField::AlbumTitle, "Album Title"),
        item(TagField::Genre, "Genre"),
        item(TagField::Year, "1984"),
        item(TagField::Label, "Label"),
        item(TagField::TrackNumber, "3/12"),
    ];
    let info = process_audio_file(&file_with("/lib/a/s.flac", tag));
    assert_eq!(info.title, "Song");
    assert_eq!(info.artist, "Track Artist");
    assert_eq!(info.album_artist.as_deref(), Some("Album Artist"));
    assert_eq!(info.album, "Album Title");
    assert_eq!(info.genre.as_deref(), Some("Genre"));
    assert_eq!(info.year.as_deref(), Some("1984"));
    assert_eq!(info.label.as_deref(), Some("Label"));
    assert_eq!(info.track_number.as_deref(), Some("3/12"));
}

#[test]
fn the_last_item_of_a_field_wins() {
    let mut tag = empty_tag();
    tag.items = vec![
        item(TagField::Year, "1990"),
        item(TagField::TrackArtist, "First"),
        item(TagField::Year, "2001"),
        item(TagField::TrackArtist, "Second"),
    ];
    let info = process_audio_file(&file_with("/lib/a/s.flac", tag));
    assert_eq!(info.year.as_deref(), Some("2001"));
    assert_eq!(info.artist, "Second");
}

#[test]
fn an_item_without_text_overrides_nothing() {
    let mut tag = empty_tag();
    tag.artist = Some("General".to_string());
    tag.items = vec![
        item(TagField::Year, "1990"),
        TagItem { field: TagField::Year, text: None },
        TagItem { field: TagField::TrackArtist, text: None },
    ];
    let info = process_audio_file(&file_with("/lib/a/s.flac", tag));
    assert_eq!(info.year.as_deref(), Some("1990"));
    assert_eq!(info.artist, "General");
}

#[test]
fn other_fields_are_ignored() {
    let mut tag = empty_tag();
    tag.title = Some("Song".to_string());
    tag.items = vec![item(TagField::Other, "Composer"), item(TagField::Other, "Comment")];
    let info = process_audio_file(&file_with("/lib/a/s.flac", tag));
    assert_eq!(info.title, "Song");
    assert_eq!(info.artist, "Unknown");
    assert_eq!(info.year, None);
    assert_eq!(info.label, None);
}

#[test]
fn the_embedded_front_cover_is_encoded() {
    let mut tag = empty_tag();
    tag.pictures = vec![front(b"hello")];
    let info = process_audio_file(&file_with("/lib/a/s.flac", tag));
    assert_eq!(info.cover_art_base64.as_deref(), Some("aGVsbG8="));
}

#[test]
fn the_encoding_pads_and_uses_the_standard_alphabet() {
    let mut tag = empty_tag();
    tag.pictures = vec![front(&[0xfb, 0xff, 0xfe, 0x00])];
    let info = process_audio_file(&file_with("/lib/a/s.flac", tag));
    assert_eq!(info.cover_art_base64.as_deref(), Some("+//+AA=="));
}

#[test]
fn an_empty_image_is_an_empty_text() {
    let mut tag = empty_tag();
    tag.pictures = vec![front(b"")];
    let info = process_audio_file(&file_with("/lib/a/s.flac", tag));
    assert_eq!(info.cover_art_base64.as_deref(), Some(""));
}

#[test]
fn the_embedded_cover_wins_over_a_sidecar() {
    let mut tag = empty_tag();
    tag.pictures = vec![front(b"embedded")];
    let mut file = file_with("/lib/a/s.flac", tag);
    file.sidecar_covers = vec![Some(b"sidecar".to_vec())];
    let info = process_audio_file(&file);
    assert_eq!(info.cover_art_base64.as_deref(), Some("ZW1iZWRkZWQ="));
}

#[test]
fn the_embedded_cover_reaches_the_album() {
    let mut tag = empty_tag();
    tag.artist = Some("A".to_string());
    tag.album = Some("X".to_string());
    tag.pictures = vec![front(b"embedded")];
    let mut file = file_with("/lib/a/s.flac", tag);
    file.sidecar_covers = vec![Some(b"sidecar".to_vec())];
    let mut state = AppState::new();
    let groups = scan_music_folder(&vec![file], &mut state);
    assert_eq!(groups.len(), 1);
    assert_eq!(groups[0].album.cover_art_base64.as_deref(), Some("ZW1iZWRkZWQ="));
    assert_eq!(groups[0].songs[0].cover_art_base64, None);
}

#[test]
fn the_first_front_cover_is_taken() {
    let mut tag = empty_tag();
    tag.pictures = vec![
        Picture { kind: PictureKind::Other, data: b"back".to_vec() },
        front(b"first"),
        front(b"second"),
    ];
    let info = process_audio_file(&file_with("/lib/a/s.flac", tag));
    assert_eq!(info.cover_art_base64.as_deref(), Some("Zmlyc3Q="));
}

#[test]
fn an_image_that_is_no_front_cover_does_not_count() {
    let mut tag = empty_tag();
    tag.pictures = vec![Picture { kind: PictureKind::Other, data: b"back".to_vec() }];
    let mut file = file_with("/lib/a/s.flac", tag);
    assert!(wants_sidecar_cover(&file.probe));
    assert_eq!(process_audio_file(&file).cover_art_base64, None);
    file.sidecar_covers = vec![None, Some(b"sidecar".to_vec())];
    assert_eq!(process_audio_file(&file).cover_art_base64.as_deref(), Some("c2lkZWNhcg=="));
}

#[test]
fn the_first_sidecar_found_is_taken() {
    let mut file = file_with("/lib/a/s.flac", empty_tag());
    file.sidecar_covers =
        vec![None, Some(b"png".to_vec()), Some(b"folder".to_vec()), Some(b"album".to_vec())];
    assert_eq!(process_audio_file(&file).cover_art_base64.as_deref(), Some("cG5n"));
}

#[test]
fn no_sidecar_found_means_no_cover() {
    let mut file = file_with("/lib/a/s.flac", empty_tag());
    file.sidecar_covers = vec![None, None, None, None];
    assert_eq!(process_audio_file(&file).cover_art_base64, None);
}

#[test]
fn a_sidecar_is_wanted_only_without_an_embedded_cover() {
    let mut tag = empty_tag();
    tag.pictures = vec![front(b"x")];
    assert!(!wants_sidecar_cover(&Some(AudioProbe { duration_ms: 1, tag: Some(tag) })));
    assert!(wants_sidecar_cover(&Some(AudioProbe { duration_ms: 1, tag: Some(empty_tag()) })));
    assert!(wants_sidecar_cover(&Some(AudioProbe { duration_ms: 1, tag: None })));
    assert!(wants_sidecar_cover(&None));
}

#[test]
fn lyrics_are_recorded_where_they_were_found() {
    let mut file = file_with("/lib/a/song.flac", empty_tag());
    assert_eq!(process_audio_file(&file).lyrics_path, None);
    file.lyrics_found = true;
    assert_eq!(process_audio_file(&file).lyrics_path.as_deref(), Some("/lib/a/song.lrc"));
}

#[test]
fn lyrics_are_looked_for_beside_the_file() {
    assert_eq!(lyrics_candidate("/lib/a/song.flac"), "/lib/a/song.lrc");
    assert_eq!(lyrics_candidate("/lib/a/song.live.flac"), "/lib/a/song.live.lrc");
    assert_eq!(lyrics_candidate("song"), "song.lrc");
}

#[test]
fn sidecar_covers_are_looked_for_in_the_file_s_directory() {
    assert_eq!(
        sidecar_cover_candidates("/lib/a/song.flac"),
        vec!["/lib/a/cover.jpg", "/lib/a/cover.png", "/lib/a/folder.jpg", "/lib/a/album.jpg"]
    );
}

#[test]
fn a_bare_file_name_has_its_sidecars_beside_it() {
    assert_eq!(
        sidecar_cover_candidates("song.flac"),
        vec!["cover.jpg", "cover.png", "folder.jpg", "album.jpg"]
    );
}

#[test]
fn a_path_without_parent_has_no_sidecar_candidates() {
    assert!(sidecar_cover_candidates("").is_empty());
    assert!(sidecar_cover_candidates("/").is_empty());
}
