//! The metadata resolver: from what was read of one file to its track record.
//!
//! Reading the file is the caller's business. What it found arrives here as a
//! `ScannedFile`; which tag wins, which image becomes the cover and where the
//! lyrics are looked for is decided here.

use crate::metadata::cover::{base64_standard, encodable_len, encode_standard};
use crate::metadata::paths::{
    join, parent_of, path_join, path_parent, path_with_extension, with_extension,
};
use crate::models::{text_opt, SongInfo, SongInfoView};
use vstd::prelude::*;

verus! {

/// The tag fields that the resolver reads; every other field is `Other`.
#[derive(Clone, Copy, Debug, PartialEq, Eq, Structural)]
pub enum TagField {
    TrackArtist,
    AlbumArtist,
    AlbumTitle,
    Genre,
    Year,
    Label,
    TrackNumber,
    Other,
}

/// One item of a tag: its field, and its value where the value is a text.
#[derive(Clone, Debug)]
pub struct TagItem {
    pub field: TagField,
    pub text: Option<String>,
}

/// What an embedded image is for.
#[derive(Clone, Copy, Debug, PartialEq, Eq, Structural)]
pub enum PictureKind {
    CoverFront,
    Other,
}

/// An image embedded in a tag.
#[derive(Clone, Debug)]
pub struct Picture {
    pub kind: PictureKind,
    pub data: Vec<u8>,
}

/// A file's primary tag: the four general accessors, then the items and the
/// images in the order in which the tag holds them.
#[derive(Clone, Debug)]
pub struct TagData {
    pub title: Option<String>,
    pub artist: Option<String>,
    pub album: Option<String>,
    pub genre: Option<String>,
    pub items: Vec<TagItem>,
    pub pictures: Vec<Picture>,
}

/// What the tag reader made of a readable file.
#[derive(Clone, Debug)]
pub struct AudioProbe {
    pub duration_ms: u64,
    pub tag: Option<TagData>,
}

/// Everything that was found out about one file.
///
/// `probe` is `None` where the file could not be opened or parsed.
/// `sidecar_covers` holds, in the order of `sidecar_cover_candidates`, the
/// bytes of each candidate that could be read. `lyrics_found` says whether the
/// file at `lyrics_candidate` exists.
#[derive(Clone, Debug)]
pub struct ScannedFile {
    pub path: String,
    pub probe: Option<AudioProbe>,
    pub sidecar_covers: Vec<Option<Vec<u8>>>,
    pub lyrics_found: bool,
}

/// The text of the last item of `items` that has the field `field` and a
/// text, if there is such an item.
pub open spec fn last_text(items: Seq<TagItem>, field: TagField) -> Option<Seq<char>>
    decreases items.len(),
{
    if items.len() == 0 {
        None
    } else {
        let item = items.last();
        if item.field == field && item.text is Some {
            text_opt(item.text)
        } else {
            last_text(items.drop_last(), field)
        }
    }
}

/// `specific` where there is one, else `general`.
pub open spec fn prefer(specific: Option<Seq<char>>, general: Option<Seq<char>>) -> Option<
    Seq<char>,
> {
    match specific {
        Some(_) => specific,
        None => general,
    }
}

/// `found` where there is one, else the placeholder.
pub open spec fn or_unknown(found: Option<Seq<char>>) -> Seq<char> {
    match found {
        Some(t) => t,
        None => crate::models::unknown_text(),
    }
}

/// The data of the first image of `pictures` that is a front cover.
pub open spec fn first_front_cover(pictures: Seq<Picture>) -> Option<Seq<u8>>
    decreases pictures.len(),
{
    if pictures.len() == 0 {
        None
    } else if pictures[0].kind == PictureKind::CoverFront {
        Some(pictures[0].data@)
    } else {
        first_front_cover(pictures.drop_first())
    }
}

/// The bytes of the first candidate that was found.
pub open spec fn first_found(found: Seq<Option<Vec<u8>>>) -> Option<Seq<u8>>
    decreases found.len(),
{
    if found.len() == 0 {
        None
    } else {
        match found[0] {
            Some(bytes) => Some(bytes@),
            None => first_found(found.drop_first()),
        }
    }
}

/// The front cover embedded in the file, where it has one.
pub open spec fn embedded_cover(probe: Option<AudioProbe>) -> Option<Seq<u8>> {
    match probe {
        Some(p) => match p.tag {
            Some(tag) => first_front_cover(tag.pictures@),
            None => None,
        },
        None => None,
    }
}

/// The image that becomes the track's cover: the embedded front cover, and
/// only where there is none the first sidecar image found.
pub open spec fn chosen_cover(file: ScannedFile) -> Option<Seq<u8>> {
    match embedded_cover(file.probe) {
        Some(bytes) => Some(bytes),
        None => first_found(file.sidecar_covers@),
    }
}

/// The record that a tag and a duration determine: the general accessors
/// seed title, artist, album and genre, and a text item of a specific field
/// overrides what the accessor gave.
pub open spec fn tagged_record(tag: TagData, duration_ms: u64) -> SongInfoView {
    let items = tag.items@;
    SongInfoView {
        title: or_unknown(text_opt(tag.title)),
        artist: or_unknown(prefer(last_text(items, TagField::TrackArtist), text_opt(tag.artist))),
        album: or_unknown(prefer(last_text(items, TagField::AlbumTitle), text_opt(tag.album))),
        genre: prefer(last_text(items, TagField::Genre), text_opt(tag.genre)),
        duration_ms: duration_ms as nat,
        album_artist: last_text(items, TagField::AlbumArtist),
        year: last_text(items, TagField::Year),
        label: last_text(items, TagField::Label),
        track_number: last_text(items, TagField::TrackNumber),
        ..SongInfoView::blank()
    }
}

/// The record that the tag reader's findings determine. An unreadable file
/// gives the blank record; a readable file without a tag keeps its duration.
pub open spec fn probed_record(probe: Option<AudioProbe>) -> SongInfoView {
    match probe {
        Some(p) => match p.tag {
            Some(tag) => tagged_record(tag, p.duration_ms),
            None => SongInfoView { duration_ms: p.duration_ms as nat, ..SongInfoView::blank() },
        },
        None => SongInfoView::blank(),
    }
}

/// Where the lyrics of the file at `path` are looked for: beside it, under
/// the same base name with the extension `lrc`.
pub open spec fn spec_lyrics_candidate(path: Seq<char>) -> Seq<char> {
    path_with_extension(path, "lrc"@)
}

/// The names under which a sidecar cover is looked for, in precedence order.
pub open spec fn sidecar_cover_names() -> Seq<Seq<char>> {
    seq!["cover.jpg"@, "cover.png"@, "folder.jpg"@, "album.jpg"@]
}

/// Where the sidecar cover of the file at `path` is looked for: under each of
/// `sidecar_cover_names` in the file's own directory, in that order; nowhere
/// if the path has no parent.
pub open spec fn spec_sidecar_cover_candidates(path: Seq<char>) -> Seq<Seq<char>> {
    match path_parent(path) {
        Some(dir) => Seq::new(4, |i: int| path_join(dir, sidecar_cover_names()[i])),
        None => Seq::empty(),
    }
}

/// The track record of a scanned file.
pub open spec fn spec_process_audio_file(file: ScannedFile) -> SongInfoView {
    SongInfoView {
        path: file.path@,
        cover_art_base64: match chosen_cover(file) {
            Some(bytes) => Some(base64_standard(bytes)),
            None => None,
        },
        lyrics_path: if file.lyrics_found {
            Some(spec_lyrics_candidate(file.path@))
        } else {
            None
        },
        ..probed_record(file.probe)
    }
}

/// The image chosen for `file`, if any, can be encoded on this machine.
pub open spec fn cover_fits(file: ScannedFile) -> bool {
    match chosen_cover(file) {
        Some(bytes) => encodable_len(bytes.len()),
        None => true,
    }
}

fn clone_text(text: &Option<String>) -> (copy: Option<String>)
    ensures
        copy == *text,
{
    match text {
        Some(t) => Some(t.clone()),
        None => None,
    }
}

fn find_last_text(items: &Vec<TagItem>, field: TagField) -> (found: Option<String>)
    ensures
        text_opt(found) == last_text(items@, field),
{
    let mut i: usize = items.len();
    assert(items@.take(i as int) == items@);
    while i > 0
        invariant
            i <= items.len(),
            last_text(items@, field) == last_text(items@.take(i as int), field),
        decreases i,
    {
        let item = &items[i - 1];
        assert(items@.take(i as int).last() == items@[i - 1]);
        if item.field == field {
            if let Some(t) = &item.text {
                return Some(t.clone());
            }
        }
        assert(items@.take(i as int).drop_last() == items@.take(i - 1));
        i -= 1;
    }
    None
}

fn find_front_cover(pictures: &Vec<Picture>) -> (found: Option<usize>)
    ensures
        match found {
            Some(i) => i < pictures.len() && first_front_cover(pictures@) == Some(pictures[i as int].data@),
            None => first_front_cover(pictures@) is None,
        },
{
    let mut i: usize = 0;
    assert(pictures@.skip(0) == pictures@);
    while i < pictures.len()
        invariant
            i <= pictures.len(),
            first_front_cover(pictures@) == first_front_cover(pictures@.skip(i as int)),
        decreases pictures.len() - i,
    {
        assert(pictures@.skip(i as int)[0] == pictures@[i as int]);
        if pictures[i].kind == PictureKind::CoverFront {
            return Some(i);
        }
        assert(pictures@.skip(i as int).drop_first() == pictures@.skip(i + 1));
        i += 1;
    }
    None
}

fn find_first_found(found: &Vec<Option<Vec<u8>>>) -> (at: Option<usize>)
    ensures
        match at {
            Some(i) => i < found.len() && found[i as int] is Some && first_found(found@) == Some(
                found[i as int].unwrap()@,
            ),
            None => first_found(found@) is None,
        },
{
    let mut i: usize = 0;
    assert(found@.skip(0) == found@);
    while i < found.len()
        invariant
            i <= found.len(),
            first_found(found@) == first_found(found@.skip(i as int)),
        decreases found.len() - i,
    {
        assert(found@.skip(i as int)[0] == found@[i as int]);
        if found[i].is_some() {
            return Some(i);
        }
        assert(found@.skip(i as int).drop_first() == found@.skip(i + 1));
        i += 1;
    }
    None
}

fn text_or_unknown(found: Option<String>) -> (text: String)
    ensures
        text@ == or_unknown(text_opt(found)),
{
    match found {
        Some(t) => t,
        None => String::from_str("Unknown"),
    }
}

fn preferred(specific: Option<String>, general: &Option<String>) -> (text: Option<String>)
    ensures
        text_opt(text) == prefer(text_opt(specific), text_opt(*general)),
{
    match specific {
        Some(t) => Some(t),
        None => clone_text(general),
    }
}

/// Reads a tag into a track record: the general accessors first, then the
/// specific fields over them.
fn read_tag(tag: &TagData, duration_ms: u64) -> (info: SongInfo)
    ensures
        info@ == tagged_record(*tag, duration_ms),
{
    let artist = preferred(find_last_text(&tag.items, TagField::TrackArtist), &tag.artist);
    let album = preferred(find_last_text(&tag.items, TagField::AlbumTitle), &tag.album);
    SongInfo {
        id: None,
        title: text_or_unknown(clone_text(&tag.title)),
        artist: text_or_unknown(artist),
        album: text_or_unknown(album),
        genre: preferred(find_last_text(&tag.items, TagField::Genre), &tag.genre),
        duration_ms,
        path: String::new(),
        lyrics_path: None,
        cover_art_base64: None,
        album_artist: find_last_text(&tag.items, TagField::AlbumArtist),
        year: find_last_text(&tag.items, TagField::Year),
        label: find_last_text(&tag.items, TagField::Label),
        track_number: find_last_text(&tag.items, TagField::TrackNumber),
    }
}

fn read_probe(probe: &Option<AudioProbe>) -> (info: SongInfo)
    ensures
        info@ == probed_record(*probe),
{
    match probe {
        Some(p) => match &p.tag {
            Some(tag) => read_tag(tag, p.duration_ms),
            None => {
                let mut info = SongInfo::default();
                info.duration_ms = p.duration_ms;
                info
            },
        },
        None => SongInfo::default(),
    }
}

fn pick_embedded_cover(probe: &Option<AudioProbe>) -> (found: Option<&Vec<u8>>)
    ensures
        match found {
            Some(bytes) => embedded_cover(*probe) == Some(bytes@),
            None => embedded_cover(*probe) is None,
        },
{
    match probe {
        Some(p) => match &p.tag {
            Some(tag) => match find_front_cover(&tag.pictures) {
                Some(i) => Some(&tag.pictures[i].data),
                None => None,
            },
            None => None,
        },
        None => None,
    }
}

fn pick_cover(file: &ScannedFile) -> (found: Option<&Vec<u8>>)
    ensures
        match found {
            Some(bytes) => chosen_cover(*file) == Some(bytes@),
            None => chosen_cover(*file) is None,
        },
{
    match pick_embedded_cover(&file.probe) {
        Some(bytes) => Some(bytes),
        None => match find_first_found(&file.sidecar_covers) {
            Some(i) => file.sidecar_covers[i].as_ref(),
            None => None,
        },
    }
}

/// Whether a sidecar cover has to be looked for: the file carries no
/// embedded front cover.
pub fn wants_sidecar_cover(probe: &Option<AudioProbe>) -> (yes: bool)
    ensures
        yes == (embedded_cover(*probe) is None),
{
    pick_embedded_cover(probe).is_none()
}

/// Where the lyrics of the file at `path` are looked for.
pub fn lyrics_candidate(path: &str) -> (candidate: String)
    ensures
        candidate@ == spec_lyrics_candidate(path@),
{
    proof {
        reveal_strlit("lrc");
    }
    with_extension(path, "lrc")
}

/// Where the sidecar cover of the file at `path` is looked for, in
/// precedence order.
pub fn sidecar_cover_candidates(path: &str) -> (candidates: Vec<String>)
    ensures
        candidates@.len() == spec_sidecar_cover_candidates(path@).len(),
        forall|i: int|
            0 <= i < candidates@.len() ==> #[trigger] candidates@[i]@
                == spec_sidecar_cover_candidates(path@)[i],
{
    let mut candidates: Vec<String> = Vec::new();
    match parent_of(path) {
        Some(dir) => {
            candidates.push(join(dir.as_str(), "cover.jpg"));
            candidates.push(join(dir.as_str(), "cover.png"));
            candidates.push(join(dir.as_str(), "folder.jpg"));
            candidates.push(join(dir.as_str(), "album.jpg"));
        },
        None => {},
    }
    candidates
}

/// Resolves one scanned file into its track record.
///
/// Title, artist and album fall back to `Unknown`; an unreadable file gives a
/// record that holds nothing but its path and what was found beside it. The
/// cover is the embedded front cover, else the first sidecar found.
pub fn process_audio_file(file: &ScannedFile) -> (info: SongInfo)
    requires
        cover_fits(*file),
    ensures
        info@ == spec_process_audio_file(*file),
{
    let mut info = read_probe(&file.probe);
    info.path = file.path.clone();
    info.cover_art_base64 = match pick_cover(file) {
        Some(bytes) => Some(encode_standard(bytes.as_slice())),
        None => None,
    };
    if file.lyrics_found {
        info.lyrics_path = Some(lyrics_candidate(file.path.as_str()));
    }
    info
}

/// The embedded cover has precedence: a file with an embedded front cover
/// gets that image as its cover, whatever sidecar images lie beside it.
pub proof fn law_embedded_cover_wins(file: ScannedFile)
    requires
        embedded_cover(file.probe) is Some,
    ensures
        spec_process_audio_file(file).cover_art_base64 == Some(
            base64_standard(embedded_cover(file.probe).unwrap()),
        ),
{
}

/// A sidecar image is used only for want of an embedded one, and then it is
/// the first that was found in the order of precedence.
pub proof fn law_sidecar_cover_is_fallback(file: ScannedFile)
    requires
        embedded_cover(file.probe) is None,
    ensures
        spec_process_audio_file(file).cover_art_base64 == (match first_found(
            file.sidecar_covers@,
        ) {
            Some(bytes) => Some(base64_standard(bytes)),
            None => None,
        }),
{
}

/// A file that could not be read still gives a record: everything about it
/// is unknown but its path and what was found beside it.
pub proof fn law_unreadable_file_degrades(file: ScannedFile)
    requires
        file.probe is None,
    ensures
        ({
            let info = spec_process_audio_file(file);
            &&& info.title == crate::models::unknown_text()
            &&& info.artist == crate::models::unknown_text()
            &&& info.album == crate::models::unknown_text()
            &&& info.duration_ms == 0
            &&& info.genre is None
            &&& info.album_artist is None
            &&& info.path == file.path@
        }),
{
}

} // verus!
