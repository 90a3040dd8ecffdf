use musicthing::models::{AppState, Progress, SongInfo};

#[test]
fn a_default_track_is_unknown() {
    let info = SongInfo::default();
    assert_eq!(info.id, None);
    assert_eq!(info.title, "Unknown");
    assert_eq!(info.artist, "Unknown");
    assert_eq!(info.album, "Unknown");
    assert_eq!(info.genre, None);
    assert_eq!(info.duration_ms, 0);
    assert_eq!(info.path, "");
    assert_eq!(info.lyrics_path, None);
    assert_eq!(info.cover_art_base64, None);
    assert_eq!(info.album_artist, None);
    assert_eq!(info.year, None);
    assert_eq!(info.label, None);
    assert_eq!(info.track_number, None);
}

#[test]
fn a_reading_is_the_share_of_files_done() {
    assert_eq!(Progress::at(0, 5), Progress { processed: 0, total: 5 });
    assert_eq!(Progress::at(0, 5).percent(), 0);
    assert_eq!(Progress::at(1, 3).percent(), 33);
    assert_eq!(Progress::at(2, 3).percent(), 66);
    assert_eq!(Progress::at(1, 4).percent(), 25);
    assert_eq!(Progress::at(199, 200).percent(), 99);
    assert_eq!(Progress::at(200, 200).percent(), 100);
}

#[test]
fn a_reading_without_files_is_nought() {
    assert_eq!(Progress::at(0, 0), Progress::zero());
    assert_eq!(Progress::at(0, 0).percent(), 0);
    assert_eq!(Progress::at(7, 3), Progress::zero());
}

#[test]
fn the_final_reading_is_one_hundred() {
    assert_eq!(Progress::complete().percent(), 100);
    assert_eq!(Progress::zero().percent(), 0);
}

#[test]
fn a_reading_of_the_largest_scan_does_not_overflow() {
    assert_eq!(Progress::at(usize::MAX - 1, usize::MAX).percent(), 99);
    assert_eq!(Progress::at(usize::MAX, usize::MAX).percent(), 100);
}

#[test]
fn readings_of_one_scan_never_go_back() {
    let total = 7;
    let mut last = Progress::zero().percent();
    for index in 0..total {
        let now = Progress::at(index, total).percent();
        assert!(last <= now);
        assert!(now < 100);
        last = now;
    }
    assert!(last <= Progress::complete().percent());
}

#[test]
fn a_fresh_state_is_idle_at_nought() {
    let state = AppState::new();
    assert!(!state.is_scanning);
    assert_eq!(state.scan_progress, Progress { processed: 0, total: 1 });
}

#[test]
fn publishing_changes_the_reading_only() {
    let mut state = AppState::new();
    state.publish(2, 10);
    assert!(!state.is_scanning);
    assert_eq!(state.scan_progress, Progress { processed: 2, total: 10 });
    state.is_scanning = true;
    state.complete();
    assert!(state.is_scanning);
    assert_eq!(state.scan_progress, Progress { processed: 1, total: 1 });
}
