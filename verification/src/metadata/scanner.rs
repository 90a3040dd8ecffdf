//! The album aggregator and the scan that drives it.
//!
//! Tracks are grouped under the key (effective artist, album title, containing
//! directory). A group's album counts its tracks, sums their durations and
//! keeps the first cover that any of them carried; the tracks themselves are
//! stored without cover.

use crate::metadata::paths::{containing_directory, spec_containing_directory};
use crate::metadata::resolver::{
    cover_fits, process_audio_file, spec_process_audio_file, ScannedFile,
};
use crate::models::{text_opt, Album, AlbumView, AppState, Progress, SongInfo, SongInfoView};
use vstd::prelude::*;

verus! {

/// The key under which tracks are grouped into one album.
pub struct GroupingKey {
    pub artist: Seq<char>,
    pub album: Seq<char>,
    pub folder: Seq<char>,
}

/// An album with the tracks grouped under it, in the order of their arrival.
#[derive(Clone, Debug)]
pub struct AlbumGroup {
    pub album: Album,
    pub songs: Vec<SongInfo>,
}

/// What an `AlbumGroup` holds, as plain mathematical values.
pub struct AlbumGroupView {
    pub album: AlbumView,
    pub songs: Seq<SongInfoView>,
}

impl View for AlbumGroup {
    type V = AlbumGroupView;

    open spec fn view(&self) -> AlbumGroupView {
        AlbumGroupView { album: self.album@, songs: self.songs@.map_values(|s: SongInfo| s@) }
    }
}

/// The views of a list of groups.
pub open spec fn group_views(groups: Seq<AlbumGroup>) -> Seq<AlbumGroupView> {
    groups.map_values(|g: AlbumGroup| g@)
}

/// The views of a list of tracks.
pub open spec fn song_views(songs: Seq<SongInfo>) -> Seq<SongInfoView> {
    songs.map_values(|s: SongInfo| s@)
}

/// The grouping key of a track.
pub open spec fn key_of(track: SongInfoView) -> GroupingKey {
    GroupingKey {
        artist: track.effective_artist(),
        album: track.album,
        folder: spec_containing_directory(track.path),
    }
}

/// The grouping key that an album stands for.
pub open spec fn album_key(album: AlbumView) -> GroupingKey {
    GroupingKey { artist: album.artist, album: album.title, folder: album.folder_path }
}

/// The summed duration of a list of tracks, in milliseconds.
pub open spec fn total_duration(songs: Seq<SongInfoView>) -> nat
    decreases songs.len(),
{
    if songs.len() == 0 {
        0
    } else {
        total_duration(songs.drop_last()) + songs.last().duration_ms
    }
}

/// The group that the first track of a key opens.
pub open spec fn open_group(track: SongInfoView) -> AlbumGroupView {
    AlbumGroupView {
        album: AlbumView {
            id: 0,
            title: track.album,
            artist: track.effective_artist(),
            year: track.year,
            genre: track.genre,
            cover_art_base64: track.cover_art_base64,
            song_count: 1,
            total_duration_ms: track.duration_ms,
            folder_path: spec_containing_directory(track.path),
        },
        songs: seq![track.without_cover()],
    }
}

/// The group after one more track of its key: one more in the count, the
/// track's duration in the total, and the track's cover adopted only where
/// the album had none.
pub open spec fn extend_group(group: AlbumGroupView, track: SongInfoView) -> AlbumGroupView {
    AlbumGroupView {
        album: AlbumView {
            cover_art_base64: match group.album.cover_art_base64 {
                Some(cover) => Some(cover),
                None => track.cover_art_base64,
            },
            song_count: group.album.song_count + 1,
            total_duration_ms: group.album.total_duration_ms + track.duration_ms,
            ..group.album
        },
        songs: group.songs.push(track.without_cover()),
    }
}

/// The position of the group with the key `key`, if there is one.
pub open spec fn position_of(groups: Seq<AlbumGroupView>, key: GroupingKey) -> Option<int>
    decreases groups.len(),
{
    if groups.len() == 0 {
        None
    } else {
        match position_of(groups.drop_last(), key) {
            Some(i) => Some(i),
            None => if album_key(groups.last().album) == key {
                Some(groups.len() - 1)
            } else {
                None
            },
        }
    }
}

/// The groups after one more track: it joins the group of its key, or opens
/// a new group behind the others.
pub open spec fn feed(groups: Seq<AlbumGroupView>, track: SongInfoView) -> Seq<AlbumGroupView> {
    match position_of(groups, key_of(track)) {
        Some(i) => groups.update(i, extend_group(groups[i], track)),
        None => groups.push(open_group(track)),
    }
}

/// The groups that a list of tracks makes, fed in their order.
pub open spec fn aggregate(tracks: Seq<SongInfoView>) -> Seq<AlbumGroupView>
    decreases tracks.len(),
{
    if tracks.len() == 0 {
        Seq::empty()
    } else {
        feed(aggregate(tracks.drop_last()), tracks.last())
    }
}

/// What holds of one group of a scan: its album's count and total are those
/// of its tracks, every track has the album's key, and none carries a cover.
pub open spec fn group_wf(group: AlbumGroupView) -> bool {
    &&& group.songs.len() > 0
    &&& group.album.song_count == group.songs.len()
    &&& group.album.total_duration_ms == total_duration(group.songs)
    &&& forall|j: int|
        0 <= j < group.songs.len() ==> key_of(#[trigger] group.songs[j]) == album_key(group.album)
    &&& forall|j: int|
        0 <= j < group.songs.len() ==> (#[trigger] group.songs[j]).cover_art_base64 is None
}

/// What holds of the groups of a scan: each is well formed, and no two have
/// the same key.
pub open spec fn groups_wf(groups: Seq<AlbumGroupView>) -> bool {
    &&& forall|i: int| 0 <= i < groups.len() ==> group_wf(#[trigger] groups[i])
    &&& forall|i: int, j: int|
        0 <= i < j < groups.len() ==> album_key(#[trigger] groups[i].album) != album_key(
            #[trigger] groups[j].album,
        )
}

/// A group that is found at a position of a prefix is found there in the
/// whole list.
proof fn lemma_position_in_prefix(groups: Seq<AlbumGroupView>, key: GroupingKey, n: int, i: int)
    requires
        0 <= n <= groups.len(),
        position_of(groups.take(n), key) == Some(i),
    ensures
        position_of(groups, key) == Some(i),
    decreases groups.len(),
{
    if n == groups.len() {
        assert(groups.take(n) == groups);
    } else {
        assert(groups.drop_last().take(n) == groups.take(n));
        lemma_position_in_prefix(groups.drop_last(), key, n, i);
    }
}

/// What a position says: the group there has the key, and no group before
/// it has; no position says that no group has the key.
pub proof fn lemma_position_of(groups: Seq<AlbumGroupView>, key: GroupingKey)
    ensures
        match position_of(groups, key) {
            Some(i) => {
                &&& 0 <= i < groups.len()
                &&& album_key(groups[i].album) == key
                &&& forall|j: int| 0 <= j < i ==> album_key(#[trigger] groups[j].album) != key
            },
            None => forall|j: int|
                0 <= j < groups.len() ==> album_key(#[trigger] groups[j].album) != key,
        },
    decreases groups.len(),
{
    if groups.len() > 0 {
        lemma_position_of(groups.drop_last(), key);
        assert(forall|j: int|
            0 <= j < groups.len() - 1 ==> groups.drop_last()[j] == #[trigger] groups[j]);
    }
}

/// The artist under which `song` is grouped.
fn effective_artist(song: &SongInfo) -> (artist: &String)
    ensures
        artist@ == song@.effective_artist(),
{
    match &song.album_artist {
        Some(a) => a,
        None => &song.artist,
    }
}

fn find_group(groups: &Vec<AlbumGroup>, artist: &String, album: &String, folder: &String) -> (at:
    Option<usize>)
    ensures
        match at {
            Some(i) => i < groups.len() && position_of(
                group_views(groups@),
                GroupingKey { artist: artist@, album: album@, folder: folder@ },
            ) == Some(i as int),
            None => position_of(
                group_views(groups@),
                GroupingKey { artist: artist@, album: album@, folder: folder@ },
            ) is None,
        },
{
    let ghost key = GroupingKey { artist: artist@, album: album@, folder: folder@ };
    let ghost views = group_views(groups@);
    let mut i: usize = 0;
    while i < groups.len()
        invariant
            i <= groups.len(),
            views == group_views(groups@),
            key == (GroupingKey { artist: artist@, album: album@, folder: folder@ }),
            position_of(views.take(i as int), key) is None,
        decreases groups.len() - i,
    {
        let g = &groups[i];
        proof {
            assert(views.take(i + 1).drop_last() == views.take(i as int));
            assert(views.take(i + 1).last() == g@);
        }
        if g.album.artist == *artist && g.album.title == *album && g.album.folder_path == *folder {
            proof {
                assert(album_key(g@.album) == key);
                lemma_position_in_prefix(views, key, i + 1, i as int);
            }
            return Some(i);
        }
        i += 1;
    }
    assert(views.take(i as int) == views);
    None
}

/// The total of a list with one more track is the total of the list and that
/// track's duration.
proof fn lemma_total_push(songs: Seq<SongInfoView>, track: SongInfoView)
    ensures
        total_duration(songs.push(track)) == total_duration(songs) + track.duration_ms,
{
    assert(songs.push(track).drop_last() == songs);
}

/// The tracks of a scan are at most `u64::MAX` milliseconds long each, so
/// their total is at most that many times their number.
proof fn lemma_total_bounded(songs: Seq<SongInfo>)
    ensures
        total_duration(song_views(songs)) <= songs.len() * u64::MAX,
    decreases songs.len(),
{
    if songs.len() > 0 {
        lemma_total_bounded(songs.drop_last());
        assert(song_views(songs).drop_last() == song_views(songs.drop_last()));
        assert(songs.len() * u64::MAX == (songs.len() - 1) * u64::MAX + u64::MAX)
            by (nonlinear_arith);
    }
}

/// Feeding a track keeps the groups those of a scan.
pub proof fn lemma_feed_wf(groups: Seq<AlbumGroupView>, track: SongInfoView)
    requires
        groups_wf(groups),
    ensures
        groups_wf(feed(groups, track)),
{
    let key = key_of(track);
    let after = feed(groups, track);
    lemma_position_of(groups, key);
    match position_of(groups, key) {
        Some(i) => {
            let g = groups[i];
            let g2 = extend_group(g, track);
            lemma_total_push(g.songs, track.without_cover());
            assert(group_wf(g)) by {
                assert(group_wf(groups[i]));
            }
            assert(group_wf(g2)) by {
                assert forall|j: int| 0 <= j < g2.songs.len() implies key_of(
                    #[trigger] g2.songs[j],
                ) == album_key(g2.album) by {
                    if j < g.songs.len() {
                        assert(g2.songs[j] == g.songs[j]);
                    }
                }
                assert forall|j: int| 0 <= j < g2.songs.len() implies (
                #[trigger] g2.songs[j]).cover_art_base64 is None by {
                    if j < g.songs.len() {
                        assert(g2.songs[j] == g.songs[j]);
                    }
                }
            }
            assert forall|a: int| 0 <= a < after.len() implies group_wf(#[trigger] after[a]) by {
                if a != i {
                    assert(after[a] == groups[a]);
                }
            }
            assert forall|a: int, b: int| 0 <= a < b < after.len() implies album_key(
                #[trigger] after[a].album,
            ) != album_key(#[trigger] after[b].album) by {
                assert(album_key(after[a].album) == album_key(groups[a].album));
                assert(album_key(after[b].album) == album_key(groups[b].album));
            }
        },
        None => {
            let g2 = open_group(track);
            assert(group_wf(g2)) by {
                assert(g2.songs.drop_last() == Seq::<SongInfoView>::empty());
                assert(total_duration(g2.songs.drop_last()) == 0);
            }
            assert forall|a: int| 0 <= a < after.len() implies group_wf(#[trigger] after[a]) by {
                if a < groups.len() {
                    assert(after[a] == groups[a]);
                }
            }
            assert forall|a: int, b: int| 0 <= a < b < after.len() implies album_key(
                #[trigger] after[a].album,
            ) != album_key(#[trigger] after[b].album) by {
                assert(after[a] == groups[a]);
                if b < groups.len() {
                    assert(after[b] == groups[b]);
                }
            }
        },
    }
}

/// The album aggregator: fed one track at a time, it holds the groups of all
/// tracks fed so far.
#[derive(Clone, Debug)]
pub struct AlbumAggregator {
    groups: Vec<AlbumGroup>,
}

impl View for AlbumAggregator {
    type V = Seq<AlbumGroupView>;

    closed spec fn view(&self) -> Seq<AlbumGroupView> {
        group_views(self.groups@)
    }
}

impl AlbumAggregator {
    /// The groups are those of a scan.
    pub open spec fn wf(&self) -> bool {
        groups_wf(self@)
    }

    /// An aggregator that has seen no track.
    pub fn new() -> (agg: AlbumAggregator)
        ensures
            agg@ == Seq::<AlbumGroupView>::empty(),
            agg@ == aggregate(Seq::empty()),
            agg.wf(),
    {
        AlbumAggregator { groups: Vec::new() }
    }

    /// The number of groups so far.
    pub fn len(&self) -> (n: usize)
        ensures
            n == self@.len(),
    {
        self.groups.len()
    }

    /// Hands the groups out, in the order in which their first tracks came.
    pub fn into_groups(self) -> (groups: Vec<AlbumGroup>)
        ensures
            group_views(groups@) == self@,
    {
        self.groups
    }

    /// Takes one more track into the group of its key.
    pub fn feed(&mut self, song: SongInfo)
        requires
            old(self).wf(),
        ensures
            final(self)@ == feed(old(self)@, song@),
            final(self).wf(),
    {
        let mut song = song;
        let ghost track = song@;
        let ghost before = self@;
        proof {
            lemma_feed_wf(before, track);
        }
        let folder = containing_directory(song.path.as_str());
        let at = find_group(&self.groups, effective_artist(&song), &song.album, &folder);
        let cover = song.cover_art_base64.take();
        assert(song@ == track.without_cover());
        match at {
            Some(i) => {
                assert(group_wf(before[i as int]));
                extend(&mut self.groups[i], song, cover);
                assert(self@ == before.update(i as int, extend_group(before[i as int], track)));
            },
            None => {
                let group = open(song, cover, folder);
                self.groups.push(group);
                assert(self@ == before.push(open_group(track)));
            },
        }
    }
}

/// The track records of a list of scanned files, in their order.
pub open spec fn resolved(files: Seq<ScannedFile>) -> Seq<SongInfoView> {
    files.map_values(|f: ScannedFile| spec_process_audio_file(f))
}

/// The groups of any list of tracks are those of a scan.
pub proof fn lemma_aggregate_wf(tracks: Seq<SongInfoView>)
    ensures
        groups_wf(aggregate(tracks)),
    decreases tracks.len(),
{
    if tracks.len() > 0 {
        lemma_aggregate_wf(tracks.drop_last());
        lemma_feed_wf(aggregate(tracks.drop_last()), tracks.last());
    }
}

/// Scans a list of files whose contents have been read: resolves each into
/// its track record and groups the records into albums.
///
/// Before each file the reading `index / total` is published in `state`; the
/// final reading is published by `AppState::complete`, once the groups are
/// stored.
pub fn scan_music_folder(files: &Vec<ScannedFile>, state: &mut AppState) -> (groups: Vec<
    AlbumGroup,
>)
    requires
        forall|i: int| 0 <= i < files.len() ==> cover_fits(#[trigger] files[i]),
    ensures
        group_views(groups@) == aggregate(resolved(files@)),
        groups_wf(group_views(groups@)),
        final(state).is_scanning == old(state).is_scanning,
        final(state).scan_progress == if files.len() == 0 {
            old(state).scan_progress
        } else {
            Progress::spec_at((files.len() - 1) as usize, files.len() as usize)
        },
{
    let total = files.len();
    let mut aggregator = AlbumAggregator::new();
    let mut index: usize = 0;
    assert(resolved(files@).take(0) == Seq::<SongInfoView>::empty());
    while index < total
        invariant
            total == files.len(),
            index <= total,
            forall|i: int| 0 <= i < files.len() ==> cover_fits(#[trigger] files[i]),
            aggregator.wf(),
            aggregator@ == aggregate(resolved(files@).take(index as int)),
            state.is_scanning == old(state).is_scanning,
            state.scan_progress == if index == 0 {
                old(state).scan_progress
            } else {
                Progress::spec_at((index - 1) as usize, total)
            },
        decreases total - index,
    {
        state.publish(index, total);
        let song = process_audio_file(&files[index]);
        aggregator.feed(song);
        proof {
            let done = resolved(files@).take(index + 1);
            assert(done.drop_last() == resolved(files@).take(index as int));
            assert(done.last() == song@);
        }
        index += 1;
    }
    assert(resolved(files@).take(index as int) == resolved(files@));
    aggregator.into_groups()
}

/// Opens the group of a track that is the first of its key. `song` comes
/// without its cover, which is handed over in `cover`; `folder` is the
/// directory that holds the track.
fn open(song: SongInfo, cover: Option<String>, folder: String) -> (group: AlbumGroup)
    requires
        song.cover_art_base64 is None,
        folder@ == spec_containing_directory(song.path@),
    ensures
        group@ == open_group(SongInfoView { cover_art_base64: text_opt(cover), ..song@ }),
{
    let album = Album {
        id: 0,
        title: song.album.clone(),
        artist: effective_artist(&song).clone(),
        year: song.year.clone(),
        genre: song.genre.clone(),
        cover_art_base64: cover,
        song_count: 1,
        total_duration_ms: song.duration_ms as u128,
        folder_path: folder,
    };
    let mut songs: Vec<SongInfo> = Vec::new();
    songs.push(song);
    let group = AlbumGroup { album, songs };
    assert(group@.songs == seq![song@]);
    group
}

/// Takes a further track into its group. `song` comes without its cover,
/// which is handed over in `cover`.
fn extend(group: &mut AlbumGroup, song: SongInfo, cover: Option<String>)
    requires
        song.cover_art_base64 is None,
        group_wf(old(group)@),
    ensures
        final(group)@ == extend_group(
            old(group)@,
            SongInfoView { cover_art_base64: text_opt(cover), ..song@ },
        ),
{
    let ghost before = group@;
    let ghost track = SongInfoView { cover_art_base64: text_opt(cover), ..song@ };
    let ghost earlier = group.songs@;
    proof {
        lemma_total_bounded(earlier);
        lemma_total_push(before.songs, song@);
        let n = group.songs.len() as int;
        assert(n * u64::MAX + u64::MAX <= u128::MAX) by (nonlinear_arith)
            requires
                0 <= n <= u64::MAX,
        ;
        assert(track.without_cover() == song@);
    }
    if group.album.cover_art_base64.is_none() {
        group.album.cover_art_base64 = cover;
    }
    group.album.total_duration_ms = group.album.total_duration_ms + song.duration_ms as u128;
    group.songs.push(song);
    group.album.song_count = group.songs.len();
    proof {
        assert(song_views(group.songs@) == song_views(earlier).push(song@));
        assert(group@.songs == extend_group(before, track).songs);
        assert(group@.album == extend_group(before, track).album);
    }
}

} // verus!
