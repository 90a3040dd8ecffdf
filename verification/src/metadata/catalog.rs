//! What holds of the groups that a scan makes, stated over the tracks that
//! were fed: which tracks an album holds, and what it says of them.

use crate::metadata::paths::spec_containing_directory;
use crate::metadata::scanner::{
    aggregate, album_key, extend_group, group_wf, key_of, lemma_aggregate_wf, lemma_position_of,
    open_group, position_of, total_duration, AlbumGroupView, GroupingKey,
};
use crate::models::{AlbumView, SongInfoView};
use vstd::multiset::Multiset;
use vstd::prelude::*;

verus! {

/// The tracks of `tracks` that have the key `key`, in their order.
pub open spec fn members(tracks: Seq<SongInfoView>, key: GroupingKey) -> Seq<SongInfoView>
    decreases tracks.len(),
{
    if tracks.len() == 0 {
        Seq::empty()
    } else {
        let earlier = members(tracks.drop_last(), key);
        if key_of(tracks.last()) == key {
            earlier.push(tracks.last())
        } else {
            earlier
        }
    }
}

/// The cover of the first track of `tracks` that carries one.
pub open spec fn first_cover(tracks: Seq<SongInfoView>) -> Option<Seq<char>>
    decreases tracks.len(),
{
    if tracks.len() == 0 {
        None
    } else {
        match first_cover(tracks.drop_last()) {
            Some(cover) => Some(cover),
            None => tracks.last().cover_art_base64,
        }
    }
}

/// The tracks as they are stored: without their covers.
pub open spec fn stored(tracks: Seq<SongInfoView>) -> Seq<SongInfoView> {
    tracks.map_values(|t: SongInfoView| t.without_cover())
}

/// The album of a non-empty list of tracks of one key: named after the first
/// of them, with the first cover that any of them carries, their number and
/// their summed duration.
pub open spec fn album_of(tracks: Seq<SongInfoView>) -> AlbumView {
    AlbumView {
        id: 0,
        title: tracks[0].album,
        artist: tracks[0].effective_artist(),
        year: tracks[0].year,
        genre: tracks[0].genre,
        cover_art_base64: first_cover(tracks),
        song_count: tracks.len(),
        total_duration_ms: total_duration(tracks),
        folder_path: spec_containing_directory(tracks[0].path),
    }
}

/// The group of a non-empty list of tracks of one key.
pub open spec fn group_of(tracks: Seq<SongInfoView>) -> AlbumGroupView {
    AlbumGroupView { album: album_of(tracks), songs: stored(tracks) }
}

proof fn lemma_open_group(track: SongInfoView)
    ensures
        open_group(track) == group_of(seq![track]),
{
    let one = seq![track];
    assert(one.drop_last() == Seq::<SongInfoView>::empty());
    assert(first_cover(one.drop_last()) is None);
    assert(total_duration(one.drop_last()) == 0);
    assert(stored(one) == seq![track.without_cover()]);
}

proof fn lemma_extend_group(tracks: Seq<SongInfoView>, track: SongInfoView)
    requires
        tracks.len() > 0,
    ensures
        extend_group(group_of(tracks), track) == group_of(tracks.push(track)),
{
    let more = tracks.push(track);
    assert(more.drop_last() == tracks);
    assert(more[0] == tracks[0]);
    assert(stored(more) == stored(tracks).push(track.without_cover()));
    assert(extend_group(group_of(tracks), track).album == album_of(more));
}

/// Replacing a group by one of the same key moves no key.
proof fn lemma_position_after_update(
    groups: Seq<AlbumGroupView>,
    i: int,
    group: AlbumGroupView,
    key: GroupingKey,
)
    requires
        0 <= i < groups.len(),
        album_key(group.album) == album_key(groups[i].album),
    ensures
        position_of(groups.update(i, group), key) == position_of(groups, key),
    decreases groups.len(),
{
    let after = groups.update(i, group);
    if i == groups.len() - 1 {
        assert(after.drop_last() == groups.drop_last());
    } else {
        assert(after.drop_last() == groups.drop_last().update(i, group));
        assert(after.last() == groups.last());
        lemma_position_after_update(groups.drop_last(), i, group, key);
    }
}

/// A further group is found under its key only where no earlier group has it.
proof fn lemma_position_after_push(
    groups: Seq<AlbumGroupView>,
    group: AlbumGroupView,
    key: GroupingKey,
)
    ensures
        position_of(groups.push(group), key) == (match position_of(groups, key) {
            Some(i) => Some(i),
            None => if album_key(group.album) == key {
                Some(groups.len() as int)
            } else {
                None
            },
        }),
{
    assert(groups.push(group).drop_last() == groups);
}

/// The group of a key holds the tracks of that key, and no other group does:
/// in the groups of `tracks`, the group found under `key` is the group of
/// the members of `key`, and where none is found, `key` has no member.
pub proof fn lemma_group_of_key(tracks: Seq<SongInfoView>, key: GroupingKey)
    ensures
        match position_of(aggregate(tracks), key) {
            Some(g) => {
                &&& 0 <= g < aggregate(tracks).len()
                &&& members(tracks, key).len() > 0
                &&& aggregate(tracks)[g] == group_of(members(tracks, key))
            },
            None => members(tracks, key).len() == 0,
        },
    decreases tracks.len(),
{
    if tracks.len() == 0 {
    } else {
        let earlier = tracks.drop_last();
        let track = tracks.last();
        let before = aggregate(earlier);
        let after = aggregate(tracks);
        let own = key_of(track);
        lemma_group_of_key(earlier, key);
        lemma_group_of_key(earlier, own);
        lemma_position_of(before, key);
        lemma_position_of(before, own);
        match position_of(before, own) {
            Some(i) => {
                let group = extend_group(before[i], track);
                lemma_position_after_update(before, i, group, key);
                if key == own {
                    lemma_extend_group(members(earlier, key), track);
                }
            },
            None => {
                lemma_position_after_push(before, open_group(track), key);
                if key == own {
                    lemma_open_group(track);
                    assert(members(tracks, key) == seq![track]);
                }
            },
        }
    }
}

/// All the tracks that the groups hold, each as often as it is held.
pub open spec fn catalog(groups: Seq<AlbumGroupView>) -> Multiset<SongInfoView>
    decreases groups.len(),
{
    if groups.len() == 0 {
        Multiset::empty()
    } else {
        catalog(groups.drop_last()).add(groups.last().songs.to_multiset())
    }
}

proof fn lemma_catalog_after_update(
    groups: Seq<AlbumGroupView>,
    i: int,
    group: AlbumGroupView,
    track: SongInfoView,
)
    requires
        0 <= i < groups.len(),
        group.songs == groups[i].songs.push(track),
    ensures
        catalog(groups.update(i, group)) == catalog(groups).insert(track),
    decreases groups.len(),
{
    broadcast use vstd::multiset::group_multiset_axioms;

    let after = groups.update(i, group);
    if i == groups.len() - 1 {
        assert(after.drop_last() == groups.drop_last());
        vstd::seq_lib::to_multiset_build(groups[i].songs, track);
        assert(catalog(after) =~= catalog(groups).insert(track));
    } else {
        assert(after.drop_last() == groups.drop_last().update(i, group));
        assert(after.last() == groups.last());
        lemma_catalog_after_update(groups.drop_last(), i, group, track);
        assert(catalog(after) =~= catalog(groups).insert(track));
    }
}

/// Every track is stored exactly once: the groups of `tracks` hold, taken
/// together, each track of `tracks` without its cover, as often as `tracks`
/// holds it, and nothing else.
pub proof fn law_every_track_is_stored_once(tracks: Seq<SongInfoView>)
    ensures
        catalog(aggregate(tracks)) == stored(tracks).to_multiset(),
    decreases tracks.len(),
{
    broadcast use vstd::multiset::group_multiset_axioms;

    if tracks.len() == 0 {
        assert(stored(tracks) == Seq::<SongInfoView>::empty());
        stored(tracks).to_multiset_ensures();
        assert(stored(tracks).to_multiset() =~= Multiset::empty());
    } else {
        let earlier = tracks.drop_last();
        let track = tracks.last();
        let before = aggregate(earlier);
        law_every_track_is_stored_once(earlier);
        lemma_position_of(before, key_of(track));
        assert(stored(tracks) == stored(earlier).push(track.without_cover()));
        vstd::seq_lib::to_multiset_build(stored(earlier), track.without_cover());
        match position_of(before, key_of(track)) {
            Some(i) => {
                lemma_catalog_after_update(
                    before,
                    i,
                    extend_group(before[i], track),
                    track.without_cover(),
                );
            },
            None => {
                let group = open_group(track);
                assert(before.push(group).drop_last() == before);
                vstd::seq_lib::to_multiset_build(Seq::<SongInfoView>::empty(), track.without_cover());
                Seq::<SongInfoView>::empty().to_multiset_ensures();
                assert(group.songs == Seq::<SongInfoView>::empty().push(track.without_cover()));
                assert(Seq::<SongInfoView>::empty().to_multiset() =~= Multiset::empty());
                assert(catalog(before.push(group)) =~= catalog(before).insert(
                    track.without_cover(),
                ));
            },
        }
    }
}

/// A track is a member of its own key.
proof fn lemma_member(tracks: Seq<SongInfoView>, i: int)
    requires
        0 <= i < tracks.len(),
    ensures
        members(tracks, key_of(tracks[i])).contains(tracks[i]),
    decreases tracks.len(),
{
    let key = key_of(tracks[i]);
    let earlier = members(tracks.drop_last(), key);
    if i == tracks.len() - 1 {
        assert(earlier.push(tracks.last())[earlier.len() as int] == tracks[i]);
    } else {
        lemma_member(tracks.drop_last(), i);
        let at = choose|at: int| 0 <= at < earlier.len() && earlier[at] == tracks[i];
        assert(members(tracks, key)[at] == tracks[i]);
    }
}

/// What is a member is stored, without its cover.
proof fn lemma_stored_contains(tracks: Seq<SongInfoView>, track: SongInfoView)
    requires
        tracks.contains(track),
    ensures
        stored(tracks).contains(track.without_cover()),
{
    let at = choose|at: int| 0 <= at < tracks.len() && tracks[at] == track;
    assert(stored(tracks)[at] == track.without_cover());
}

/// Tracks of one key share an album: in the groups of `tracks`, whatever
/// their order, two tracks with the same effective artist, album title and
/// containing directory are held by the one group found under their key.
pub proof fn law_same_key_same_album(tracks: Seq<SongInfoView>, i: int, j: int)
    requires
        0 <= i < tracks.len(),
        0 <= j < tracks.len(),
        key_of(tracks[i]) == key_of(tracks[j]),
    ensures
        position_of(aggregate(tracks), key_of(tracks[i])) matches Some(g) && {
            &&& 0 <= g < aggregate(tracks).len()
            &&& aggregate(tracks)[g].songs.contains(tracks[i].without_cover())
            &&& aggregate(tracks)[g].songs.contains(tracks[j].without_cover())
        },
{
    let key = key_of(tracks[i]);
    lemma_group_of_key(tracks, key);
    lemma_member(tracks, i);
    lemma_member(tracks, j);
    lemma_stored_contains(members(tracks, key), tracks[i]);
    lemma_stored_contains(members(tracks, key), tracks[j]);
}

/// Tracks of different directories are never merged: in the groups of
/// `tracks`, no group holds two tracks whose containing directories differ,
/// whatever else they have in common.
pub proof fn law_other_folder_other_album(tracks: Seq<SongInfoView>, i: int, j: int, g: int)
    requires
        0 <= i < tracks.len(),
        0 <= j < tracks.len(),
        spec_containing_directory(tracks[i].path) != spec_containing_directory(tracks[j].path),
        0 <= g < aggregate(tracks).len(),
    ensures
        !(aggregate(tracks)[g].songs.contains(tracks[i].without_cover()) && aggregate(
            tracks,
        )[g].songs.contains(tracks[j].without_cover())),
        position_of(aggregate(tracks), key_of(tracks[i])) != position_of(
            aggregate(tracks),
            key_of(tracks[j]),
        ),
{
    let groups = aggregate(tracks);
    lemma_aggregate_wf(tracks);
    assert(group_wf(groups[g]));
    let songs = groups[g].songs;
    let a = tracks[i].without_cover();
    let b = tracks[j].without_cover();
    if songs.contains(a) && songs.contains(b) {
        let x = choose|x: int| 0 <= x < songs.len() && songs[x] == a;
        let y = choose|y: int| 0 <= y < songs.len() && songs[y] == b;
        assert(key_of(songs[x]) == album_key(groups[g].album));
        assert(key_of(songs[y]) == album_key(groups[g].album));
        assert(false);
    }
    lemma_group_of_key(tracks, key_of(tracks[i]));
    lemma_group_of_key(tracks, key_of(tracks[j]));
    lemma_position_of(groups, key_of(tracks[i]));
    lemma_position_of(groups, key_of(tracks[j]));
    lemma_member(tracks, i);
    lemma_member(tracks, j);
}

/// An album counts and sums its own tracks: in the groups of `tracks`, the
/// album of group `g` has as its count the number of tracks of its key, and
/// as its total the sum of their durations; the group's tracks are those
/// tracks, in the order of `tracks`.
pub proof fn law_album_totals(tracks: Seq<SongInfoView>, g: int)
    requires
        0 <= g < aggregate(tracks).len(),
    ensures
        ({
            let group = aggregate(tracks)[g];
            let own = members(tracks, album_key(group.album));
            &&& group.songs == stored(own)
            &&& group.album.song_count == own.len()
            &&& group.album.song_count == group.songs.len()
            &&& group.album.total_duration_ms == total_duration(own)
            &&& group.album.total_duration_ms == total_duration(group.songs)
        }),
{
    let groups = aggregate(tracks);
    let key = album_key(groups[g].album);
    lemma_aggregate_wf(tracks);
    lemma_position_of(groups, key);
    lemma_group_of_key(tracks, key);
    assert(group_wf(groups[g]));
    assert(position_of(groups, key) == Some(g)) by {
        let found = position_of(groups, key);
        if found is Some && found.unwrap() != g {
            let f = found.unwrap();
            if f < g {
                assert(album_key(groups[f].album) != album_key(groups[g].album));
            } else {
                assert(album_key(groups[g].album) != album_key(groups[f].album));
            }
        }
    }
}

/// The test that a track has the key `key`.
pub open spec fn has_key(key: GroupingKey) -> spec_fn(SongInfoView) -> bool {
    |t: SongInfoView| key_of(t) == key
}

/// The members of a key are the tracks of that key, each as often as it
/// occurs.
proof fn lemma_members_multiset(tracks: Seq<SongInfoView>, key: GroupingKey)
    ensures
        members(tracks, key).to_multiset() == tracks.to_multiset().filter(has_key(key)),
    decreases tracks.len(),
{
    broadcast use vstd::multiset::group_multiset_axioms;

    if tracks.len() == 0 {
        tracks.to_multiset_ensures();
        members(tracks, key).to_multiset_ensures();
        assert(tracks.to_multiset() =~= Multiset::empty());
        assert(members(tracks, key).to_multiset() =~= Multiset::empty());
        assert(members(tracks, key).to_multiset() =~= tracks.to_multiset().filter(has_key(key)));
    } else {
        let earlier = tracks.drop_last();
        let track = tracks.last();
        lemma_members_multiset(earlier, key);
        assert(tracks == earlier.push(track));
        vstd::seq_lib::to_multiset_build(earlier, track);
        vstd::seq_lib::to_multiset_build(members(earlier, key), track);
        assert(has_key(key)(track) == (key_of(track) == key));
        assert(members(tracks, key).to_multiset() =~= tracks.to_multiset().filter(has_key(key)));
    }
}

/// Of two lists with the same elements, the second without one occurrence
/// of the first's last element has the elements of the first without its
/// last. Gives the place of that occurrence.
proof fn lemma_same_elements_step(first: Seq<SongInfoView>, second: Seq<SongInfoView>) -> (p: int)
    requires
        first.len() > 0,
        first.to_multiset() == second.to_multiset(),
    ensures
        0 <= p < second.len(),
        second[p] == first.last(),
        first.drop_last().to_multiset() == second.remove(p).to_multiset(),
{
    broadcast use vstd::multiset::group_multiset_axioms;

    let x = first.last();
    assert(first == first.drop_last().push(x));
    vstd::seq_lib::to_multiset_build(first.drop_last(), x);
    second.to_multiset_ensures();
    assert(second.to_multiset().count(x) > 0);
    assert(second.contains(x));
    let p = choose|p: int| 0 <= p < second.len() && second[p] == x;
    vstd::seq_lib::to_multiset_remove(second, p);
    assert(first.drop_last().to_multiset() =~= second.remove(p).to_multiset());
    p
}

proof fn lemma_total_remove(tracks: Seq<SongInfoView>, p: int)
    requires
        0 <= p < tracks.len(),
    ensures
        total_duration(tracks) == total_duration(tracks.remove(p)) + tracks[p].duration_ms,
    decreases tracks.len(),
{
    if p == tracks.len() - 1 {
        assert(tracks.remove(p) == tracks.drop_last());
    } else {
        assert(tracks.remove(p).drop_last() == tracks.drop_last().remove(p));
        assert(tracks.remove(p).last() == tracks.last());
        lemma_total_remove(tracks.drop_last(), p);
    }
}

/// The summed duration of a list does not depend on its order.
proof fn lemma_total_ignores_order(first: Seq<SongInfoView>, second: Seq<SongInfoView>)
    requires
        first.to_multiset() == second.to_multiset(),
    ensures
        first.len() == second.len(),
        total_duration(first) == total_duration(second),
    decreases first.len(),
{
    first.to_multiset_ensures();
    second.to_multiset_ensures();
    if first.len() > 0 {
        let p = lemma_same_elements_step(first, second);
        lemma_total_ignores_order(first.drop_last(), second.remove(p));
        lemma_total_remove(second, p);
    }
}

/// What is stored of a list does not depend on its order.
proof fn lemma_stored_ignores_order(first: Seq<SongInfoView>, second: Seq<SongInfoView>)
    requires
        first.to_multiset() == second.to_multiset(),
    ensures
        stored(first).to_multiset() == stored(second).to_multiset(),
    decreases first.len(),
{
    broadcast use vstd::multiset::group_multiset_axioms;

    first.to_multiset_ensures();
    second.to_multiset_ensures();
    if first.len() == 0 {
        assert(stored(first) == stored(second));
    } else {
        let p = lemma_same_elements_step(first, second);
        let x = first.last().without_cover();
        lemma_stored_ignores_order(first.drop_last(), second.remove(p));
        assert(stored(first) == stored(first.drop_last()).push(x));
        vstd::seq_lib::to_multiset_build(stored(first.drop_last()), x);
        assert(stored(second).remove(p) == stored(second.remove(p)));
        vstd::seq_lib::to_multiset_remove(stored(second), p);
        stored(second).to_multiset_ensures();
        assert(stored(second)[p] == x);
        assert(stored(second).contains(x));
        assert(stored(first).to_multiset() =~= stored(second).to_multiset());
    }
}

/// Grouping does not depend on the order of processing: two lists that hold
/// the same tracks, in whatever order, have a group for the same keys, and
/// under each key the same tracks, the same count and the same total
/// duration. (Which cover, year and genre the album shows does depend on the
/// order: they are those of the tracks that came first.)
pub proof fn law_grouping_ignores_order(
    first: Seq<SongInfoView>,
    second: Seq<SongInfoView>,
    key: GroupingKey,
)
    requires
        first.to_multiset() == second.to_multiset(),
    ensures
        match (position_of(aggregate(first), key), position_of(aggregate(second), key)) {
            (Some(a), Some(b)) => {
                let x = aggregate(first)[a];
                let y = aggregate(second)[b];
                &&& x.songs.to_multiset() == y.songs.to_multiset()
                &&& x.album.song_count == y.album.song_count
                &&& x.album.total_duration_ms == y.album.total_duration_ms
                &&& album_key(x.album) == key
                &&& album_key(y.album) == key
            },
            (None, None) => true,
            _ => false,
        },
{
    let m1 = members(first, key);
    let m2 = members(second, key);
    lemma_members_multiset(first, key);
    lemma_members_multiset(second, key);
    lemma_total_ignores_order(m1, m2);
    lemma_stored_ignores_order(m1, m2);
    lemma_group_of_key(first, key);
    lemma_group_of_key(second, key);
    lemma_position_of(aggregate(first), key);
    lemma_position_of(aggregate(second), key);
}

/// Where no track of a key carries a cover, its members have no first cover.
proof fn lemma_no_cover(tracks: Seq<SongInfoView>, key: GroupingKey)
    requires
        forall|j: int|
            0 <= j < tracks.len() && key_of(#[trigger] tracks[j]) == key
                ==> tracks[j].cover_art_base64 is None,
    ensures
        first_cover(members(tracks, key)) is None,
    decreases tracks.len(),
{
    if tracks.len() > 0 {
        let earlier = tracks.drop_last();
        assert(forall|j: int| 0 <= j < earlier.len() ==> earlier[j] == tracks[j]);
        lemma_no_cover(earlier, key);
        if key_of(tracks.last()) == key {
            assert(members(tracks, key).drop_last() == members(earlier, key));
        }
    }
}

/// The first cover of a key's members is the cover of the first track of
/// the key that carries one.
proof fn lemma_first_cover(tracks: Seq<SongInfoView>, key: GroupingKey, i: int)
    requires
        0 <= i < tracks.len(),
        key_of(tracks[i]) == key,
        tracks[i].cover_art_base64 is Some,
        forall|j: int|
            0 <= j < i && key_of(#[trigger] tracks[j]) == key
                ==> tracks[j].cover_art_base64 is None,
    ensures
        first_cover(members(tracks, key)) == tracks[i].cover_art_base64,
    decreases tracks.len(),
{
    let earlier = tracks.drop_last();
    assert(forall|j: int| 0 <= j < earlier.len() ==> earlier[j] == tracks[j]);
    if i == tracks.len() - 1 {
        lemma_no_cover(earlier, key);
        assert(members(tracks, key).drop_last() == members(earlier, key));
    } else {
        lemma_first_cover(earlier, key, i);
        if key_of(tracks.last()) == key {
            assert(members(tracks, key).drop_last() == members(earlier, key));
        }
    }
}

/// First found wins: the album of a key shows the cover of the first track
/// of that key that carried one, whatever covers later tracks carry.
pub proof fn law_first_cover_wins(tracks: Seq<SongInfoView>, i: int)
    requires
        0 <= i < tracks.len(),
        tracks[i].cover_art_base64 is Some,
        forall|j: int|
            0 <= j < i && key_of(#[trigger] tracks[j]) == key_of(tracks[i])
                ==> tracks[j].cover_art_base64 is None,
    ensures
        position_of(aggregate(tracks), key_of(tracks[i])) matches Some(g) && aggregate(
            tracks,
        )[g].album.cover_art_base64 == tracks[i].cover_art_base64,
{
    lemma_group_of_key(tracks, key_of(tracks[i]));
    lemma_first_cover(tracks, key_of(tracks[i]), i);
}

/// An album is without cover exactly where none of its tracks carried one.
pub proof fn law_album_without_cover(tracks: Seq<SongInfoView>, g: int)
    requires
        0 <= g < aggregate(tracks).len(),
        forall|j: int|
            0 <= j < tracks.len() && key_of(#[trigger] tracks[j]) == album_key(
                aggregate(tracks)[g].album,
            ) ==> tracks[j].cover_art_base64 is None,
    ensures
        aggregate(tracks)[g].album.cover_art_base64 is None,
{
    let key = album_key(aggregate(tracks)[g].album);
    law_album_totals(tracks, g);
    lemma_no_cover(tracks, key);
    lemma_group_of_key(tracks, key);
    lemma_aggregate_wf(tracks);
    lemma_position_of(aggregate(tracks), key);
    let found = position_of(aggregate(tracks), key).unwrap();
    if found < g {
        assert(album_key(aggregate(tracks)[found].album) != album_key(aggregate(tracks)[g].album));
    } else if g < found {
        assert(album_key(aggregate(tracks)[g].album) != album_key(aggregate(tracks)[found].album));
    }
}

} // verus!
