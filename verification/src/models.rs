//! The catalog's record types and their mathematical views.

use vstd::prelude::*;

verus! {

/// The view of an optional text: the characters, where there is a text.
pub open spec fn text_opt(o: Option<String>) -> Option<Seq<char>> {
    match o {
        Some(s) => Some(s@),
        None => None,
    }
}

/// The placeholder for a title, artist or album that could not be determined.
pub open spec fn unknown_text() -> Seq<char> {
    "Unknown"@
}

/// One physical audio file.
///
/// `duration_ms` is the stream's length in whole milliseconds.
#[derive(Clone, Debug)]
pub struct SongInfo {
    pub id: Option<i64>,
    pub title: String,
    pub artist: String,
    pub album: String,
    pub genre: Option<String>,
    pub duration_ms: u64,
    pub path: String,
    pub lyrics_path: Option<String>,
    pub cover_art_base64: Option<String>,
    pub album_artist: Option<String>,
    pub year: Option<String>,
    pub label: Option<String>,
    pub track_number: Option<String>,
}

/// What a `SongInfo` holds, as plain mathematical values.
pub struct SongInfoView {
    pub id: Option<i64>,
    pub title: Seq<char>,
    pub artist: Seq<char>,
    pub album: Seq<char>,
    pub genre: Option<Seq<char>>,
    pub duration_ms: nat,
    pub path: Seq<char>,
    pub lyrics_path: Option<Seq<char>>,
    pub cover_art_base64: Option<Seq<char>>,
    pub album_artist: Option<Seq<char>>,
    pub year: Option<Seq<char>>,
    pub label: Option<Seq<char>>,
    pub track_number: Option<Seq<char>>,
}

impl View for SongInfo {
    type V = SongInfoView;

    open spec fn view(&self) -> SongInfoView {
        SongInfoView {
            id: self.id,
            title: self.title@,
            artist: self.artist@,
            album: self.album@,
            genre: text_opt(self.genre),
            duration_ms: self.duration_ms as nat,
            path: self.path@,
            lyrics_path: text_opt(self.lyrics_path),
            cover_art_base64: text_opt(self.cover_art_base64),
            album_artist: text_opt(self.album_artist),
            year: text_opt(self.year),
            label: text_opt(self.label),
            track_number: text_opt(self.track_number),
        }
    }
}

impl SongInfoView {
    /// The record of a file about which nothing is known.
    pub open spec fn blank() -> SongInfoView {
        SongInfoView {
            id: None,
            title: unknown_text(),
            artist: unknown_text(),
            album: unknown_text(),
            genre: None,
            duration_ms: 0,
            path: Seq::empty(),
            lyrics_path: None,
            cover_art_base64: None,
            album_artist: None,
            year: None,
            label: None,
            track_number: None,
        }
    }

    /// The artist under which the track is grouped: the album artist where
    /// there is one, else the track's own artist.
    pub open spec fn effective_artist(self) -> Seq<char> {
        match self.album_artist {
            Some(a) => a,
            None => self.artist,
        }
    }

    /// The same record without its cover art.
    pub open spec fn without_cover(self) -> SongInfoView {
        SongInfoView { cover_art_base64: None, ..self }
    }
}

impl Default for SongInfo {
    fn default() -> (info: SongInfo)
        ensures
            info@ == SongInfoView::blank(),
    {
        SongInfo {
            id: None,
            title: String::from_str("Unknown"),
            artist: String::from_str("Unknown"),
            album: String::from_str("Unknown"),
            genre: None,
            duration_ms: 0,
            path: String::new(),
            lyrics_path: None,
            cover_art_base64: None,
            album_artist: None,
            year: None,
            label: None,
            track_number: None,
        }
    }
}

/// One grouping of tracks.
///
/// `total_duration_ms` is the summed length of the album's tracks in whole
/// milliseconds; it is wide enough that no sum of track lengths leaves it.
#[derive(Clone, Debug)]
pub struct Album {
    pub id: i64,
    pub title: String,
    pub artist: String,
    pub year: Option<String>,
    pub genre: Option<String>,
    pub cover_art_base64: Option<String>,
    pub song_count: usize,
    pub total_duration_ms: u128,
    pub folder_path: String,
}

/// What an `Album` holds, as plain mathematical values.
pub struct AlbumView {
    pub id: i64,
    pub title: Seq<char>,
    pub artist: Seq<char>,
    pub year: Option<Seq<char>>,
    pub genre: Option<Seq<char>>,
    pub cover_art_base64: Option<Seq<char>>,
    pub song_count: nat,
    pub total_duration_ms: nat,
    pub folder_path: Seq<char>,
}

impl View for Album {
    type V = AlbumView;

    open spec fn view(&self) -> AlbumView {
        AlbumView {
            id: self.id,
            title: self.title@,
            artist: self.artist@,
            year: text_opt(self.year),
            genre: text_opt(self.genre),
            cover_art_base64: text_opt(self.cover_art_base64),
            song_count: self.song_count as nat,
            total_duration_ms: self.total_duration_ms as nat,
            folder_path: self.folder_path@,
        }
    }
}

/// How far a scan has come, as the fraction `processed / total`.
///
/// Nothing done is `0 / 1`, a finished scan is `1 / 1`, and a scan that is
/// about to resolve file `i` of `n` reads `i / n`.
#[derive(Clone, Copy, Debug, PartialEq, Eq, Structural)]
pub struct Progress {
    pub processed: usize,
    pub total: usize,
}

impl Progress {
    /// The fraction is a proper one: between nought and one.
    pub open spec fn wf(self) -> bool {
        0 < self.total && self.processed <= self.total
    }

    /// The reading as a whole percentage, rounded down.
    pub open spec fn percent_floor(self) -> int {
        (self.processed as int * 100) / (self.total as int)
    }

    /// `self` is no further along than `other`.
    pub open spec fn le(self, other: Progress) -> bool {
        self.processed as int * other.total as int <= other.processed as int * self.total as int
    }

    /// The reading is the full 100 percent.
    pub open spec fn is_complete(self) -> bool {
        self.processed == self.total
    }

    /// The reading of a scan on which no work has been done.
    pub open spec fn spec_zero() -> Progress {
        Progress { processed: 0, total: 1 }
    }

    /// The reading of a finished scan.
    pub open spec fn spec_complete() -> Progress {
        Progress { processed: 1, total: 1 }
    }

    /// The reading published before file `index` of `total` is resolved:
    /// `index / total`, and nought where there are no files or `index` lies
    /// beyond them.
    pub open spec fn spec_at(index: usize, total: usize) -> Progress {
        if total == 0 || index > total {
            Progress::spec_zero()
        } else {
            Progress { processed: index, total }
        }
    }

    pub fn zero() -> (p: Progress)
        ensures
            p == Progress::spec_zero(),
    {
        Progress { processed: 0, total: 1 }
    }

    pub fn complete() -> (p: Progress)
        ensures
            p == Progress::spec_complete(),
    {
        Progress { processed: 1, total: 1 }
    }

    pub fn at(index: usize, total: usize) -> (p: Progress)
        ensures
            p == Progress::spec_at(index, total),
            p.wf(),
    {
        if total == 0 || index > total {
            Progress { processed: 0, total: 1 }
        } else {
            Progress { processed: index, total }
        }
    }

    /// The whole percentage of the reading, rounded down.
    pub fn percent(&self) -> (pct: u8)
        requires
            self.wf(),
        ensures
            pct as int == self.percent_floor(),
            pct <= 100,
            pct == 100 <==> self.is_complete(),
    {
        let scaled: u128 = (self.processed as u128) * 100;
        let total: u128 = self.total as u128;
        let q: u128 = scaled / total;
        assert(q <= 100 && (q == 100 <==> self.processed == self.total)) by (nonlinear_arith)
            requires
                0 < total,
                scaled == self.processed as int * 100,
                self.processed as int <= total,
                total == self.total as int,
                q == scaled / total,
        ;
        q as u8
    }
}

/// Progress never goes back: of two readings of one scan the later is no
/// less than the earlier, every reading lies between nought and the final
/// one, and the final reading is exactly 100 percent.
pub proof fn law_progress_never_decreases(earlier: usize, later: usize, total: usize)
    requires
        earlier <= later < total,
    ensures
        Progress::spec_zero().le(Progress::spec_at(earlier, total)),
        Progress::spec_at(earlier, total).le(Progress::spec_at(later, total)),
        Progress::spec_at(later, total).le(Progress::spec_complete()),
        Progress::spec_at(earlier, total).percent_floor() <= Progress::spec_at(
            later,
            total,
        ).percent_floor(),
        Progress::spec_at(later, total).percent_floor() < 100,
        Progress::spec_complete().percent_floor() == 100,
        Progress::spec_complete().is_complete(),
{
    assert(earlier as int * total as int <= later as int * total as int) by (nonlinear_arith)
        requires
            earlier <= later,
            0 <= total,
    ;
    assert((earlier as int * 100) / (total as int) <= (later as int * 100) / (total as int)) by {
        vstd::arithmetic::div_mod::lemma_div_is_ordered(
            earlier as int * 100,
            later as int * 100,
            total as int,
        );
    }
    assert((later as int * 100) / (total as int) < 100) by (nonlinear_arith)
        requires
            0 <= later < total,
    ;
}

/// The process-wide scan state: whether a scan is running, and how far it is.
#[derive(Clone, Copy, Debug, PartialEq, Eq, Structural)]
pub struct AppState {
    pub is_scanning: bool,
    pub scan_progress: Progress,
}

impl AppState {
    pub open spec fn wf(self) -> bool {
        self.scan_progress.wf()
    }

    /// The state of a process that has not scanned yet.
    pub fn new() -> (state: AppState)
        ensures
            state == (AppState { is_scanning: false, scan_progress: Progress::spec_zero() }),
            state.wf(),
    {
        AppState { is_scanning: false, scan_progress: Progress::zero() }
    }

    /// Publishes the reading of a scan that is about to resolve file `index`
    /// of `total`.
    pub fn publish(&mut self, index: usize, total: usize)
        ensures
            final(self).is_scanning == old(self).is_scanning,
            final(self).scan_progress == Progress::spec_at(index, total),
            final(self).wf(),
    {
        self.scan_progress = Progress::at(index, total);
    }

    /// Publishes the final reading: the scan's work is done and stored.
    pub fn complete(&mut self)
        ensures
            final(self).is_scanning == old(self).is_scanning,
            final(self).scan_progress == Progress::spec_complete(),
            final(self).wf(),
    {
        self.scan_progress = Progress::complete();
    }

    /// Gives the scanning flag back, whether the scan succeeded or failed.
    /// The last reading stays.
    pub fn release(&mut self)
        ensures
            !final(self).is_scanning,
            final(self).scan_progress == old(self).scan_progress,
    {
        self.is_scanning = false;
    }
}

/// A status report for observers of a scan.
#[derive(Clone, Debug)]
pub struct ScanProgress {
    pub is_scanning: bool,
    pub progress: Progress,
    pub current_file: Option<String>,
    pub total_files: Option<u32>,
    pub processed_files: Option<u32>,
}

} // verus!
