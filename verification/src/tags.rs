//! What the tags of an audio file say of a track.

use vstd::prelude::*;

use crate::duplicate::Duplicate;
use crate::path::{extension_text, FilePath};
use crate::text::{
    chars_of, digits_value, is_blank, is_digit, string_of, trim, trim_chars, trimmed,
};

verus! {

/// The tags of a track, completed from its place in the library.
#[derive(Debug)]
pub struct TrackTags {
    pub title: String,
    pub artist: String,
    pub album: String,
    pub album_artist: Option<String>,
    pub track_number: Option<u32>,
    pub disc_number: Option<u32>,
    pub duration_seconds: Option<u32>,
    pub bitrate: Option<u32>,
    pub sample_rate: Option<u32>,
    pub channels: Option<u32>,
    pub codec: Option<String>,
    pub genres: Vec<String>,
    pub date: Option<String>,
    pub musicbrainz_track_id: Option<String>,
    pub musicbrainz_recording_id: Option<String>,
    pub musicbrainz_album_id: Option<String>,
    pub musicbrainz_release_group_id: Option<String>,
}

/// The mathematical value of a [`TrackTags`].
pub struct TrackTagsModel {
    pub title: Seq<char>,
    pub artist: Seq<char>,
    pub album: Seq<char>,
    pub album_artist: Option<Seq<char>>,
    pub track_number: Option<u32>,
    pub disc_number: Option<u32>,
    pub duration_seconds: Option<u32>,
    pub bitrate: Option<u32>,
    pub sample_rate: Option<u32>,
    pub channels: Option<u32>,
    pub codec: Option<Seq<char>>,
    pub genres: Seq<Seq<char>>,
    pub date: Option<Seq<char>>,
    pub musicbrainz_track_id: Option<Seq<char>>,
    pub musicbrainz_recording_id: Option<Seq<char>>,
    pub musicbrainz_album_id: Option<Seq<char>>,
    pub musicbrainz_release_group_id: Option<Seq<char>>,
}

impl DeepView for TrackTags {
    type V = TrackTagsModel;

    open spec fn deep_view(&self) -> TrackTagsModel {
        TrackTagsModel {
            title: self.title@,
            artist: self.artist@,
            album: self.album@,
            album_artist: self.album_artist.deep_view(),
            track_number: self.track_number,
            disc_number: self.disc_number,
            duration_seconds: self.duration_seconds,
            bitrate: self.bitrate,
            sample_rate: self.sample_rate,
            channels: self.channels,
            codec: self.codec.deep_view(),
            genres: self.genres.deep_view(),
            date: self.date.deep_view(),
            musicbrainz_track_id: self.musicbrainz_track_id.deep_view(),
            musicbrainz_recording_id: self.musicbrainz_recording_id.deep_view(),
            musicbrainz_album_id: self.musicbrainz_album_id.deep_view(),
            musicbrainz_release_group_id: self.musicbrainz_release_group_id.deep_view(),
        }
    }
}

impl Duplicate for TrackTags {
    fn duplicate(&self) -> (r: Self) {
        TrackTags {
            title: self.title.clone(),
            artist: self.artist.clone(),
            album: self.album.clone(),
            album_artist: self.album_artist.duplicate(),
            track_number: self.track_number,
            disc_number: self.disc_number,
            duration_seconds: self.duration_seconds,
            bitrate: self.bitrate,
            sample_rate: self.sample_rate,
            channels: self.channels,
            codec: self.codec.duplicate(),
            genres: self.genres.duplicate(),
            date: self.date.duplicate(),
            musicbrainz_track_id: self.musicbrainz_track_id.duplicate(),
            musicbrainz_recording_id: self.musicbrainz_recording_id.duplicate(),
            musicbrainz_album_id: self.musicbrainz_album_id.duplicate(),
            musicbrainz_release_group_id: self.musicbrainz_release_group_id.duplicate(),
        }
    }
}

impl Clone for TrackTags {
    fn clone(&self) -> (r: Self)
        ensures
            r.deep_view() == self.deep_view(),
    {
        self.duplicate()
    }
}

/// The fields of one tag block, as they stand in the file.
#[derive(Debug)]
pub struct TagFields {
    pub title: Option<String>,
    pub artist: Option<String>,
    pub album: Option<String>,
    pub album_artist: Option<String>,
    pub track: Option<u32>,
    pub disk: Option<u32>,
    pub genre: Option<String>,
    pub recording_date: Option<String>,
    pub year: Option<String>,
    pub musicbrainz_track_id: Option<String>,
    pub musicbrainz_recording_id: Option<String>,
    pub musicbrainz_release_id: Option<String>,
    pub musicbrainz_release_group_id: Option<String>,
}

/// The mathematical value of a [`TagFields`].
pub struct TagFieldsModel {
    pub title: Option<Seq<char>>,
    pub artist: Option<Seq<char>>,
    pub album: Option<Seq<char>>,
    pub album_artist: Option<Seq<char>>,
    pub track: Option<u32>,
    pub disk: Option<u32>,
    pub genre: Option<Seq<char>>,
    pub recording_date: Option<Seq<char>>,
    pub year: Option<Seq<char>>,
    pub musicbrainz_track_id: Option<Seq<char>>,
    pub musicbrainz_recording_id: Option<Seq<char>>,
    pub musicbrainz_release_id: Option<Seq<char>>,
    pub musicbrainz_release_group_id: Option<Seq<char>>,
}

impl DeepView for TagFields {
    type V = TagFieldsModel;

    open spec fn deep_view(&self) -> TagFieldsModel {
        TagFieldsModel {
            title: self.title.deep_view(),
            artist: self.artist.deep_view(),
            album: self.album.deep_view(),
            album_artist: self.album_artist.deep_view(),
            track: self.track,
            disk: self.disk,
            genre: self.genre.deep_view(),
            recording_date: self.recording_date.deep_view(),
            year: self.year.deep_view(),
            musicbrainz_track_id: self.musicbrainz_track_id.deep_view(),
            musicbrainz_recording_id: self.musicbrainz_recording_id.deep_view(),
            musicbrainz_release_id: self.musicbrainz_release_id.deep_view(),
            musicbrainz_release_group_id: self.musicbrainz_release_group_id.deep_view(),
        }
    }
}

impl Duplicate for TagFields {
    fn duplicate(&self) -> (r: Self) {
        TagFields {
            title: self.title.duplicate(),
            artist: self.artist.duplicate(),
            album: self.album.duplicate(),
            album_artist: self.album_artist.duplicate(),
            track: self.track,
            disk: self.disk,
            genre: self.genre.duplicate(),
            recording_date: self.recording_date.duplicate(),
            year: self.year.duplicate(),
            musicbrainz_track_id: self.musicbrainz_track_id.duplicate(),
            musicbrainz_recording_id: self.musicbrainz_recording_id.duplicate(),
            musicbrainz_release_id: self.musicbrainz_release_id.duplicate(),
            musicbrainz_release_group_id: self.musicbrainz_release_group_id.duplicate(),
        }
    }
}

impl Clone for TagFields {
    fn clone(&self) -> (r: Self)
        ensures
            r.deep_view() == self.deep_view(),
    {
        self.duplicate()
    }
}

/// What a reader of audio files finds in one of them.
#[derive(Debug)]
pub struct TaggedFile {
    pub duration_seconds: u64,
    pub bitrate: Option<u32>,
    pub sample_rate: Option<u32>,
    pub channels: Option<u8>,
    pub primary_tag: Option<TagFields>,
    pub first_tag: Option<TagFields>,
}

/// The mathematical value of a [`TaggedFile`].
pub struct TaggedFileModel {
    pub duration_seconds: u64,
    pub bitrate: Option<u32>,
    pub sample_rate: Option<u32>,
    pub channels: Option<u8>,
    pub primary_tag: Option<TagFieldsModel>,
    pub first_tag: Option<TagFieldsModel>,
}

impl DeepView for TaggedFile {
    type V = TaggedFileModel;

    open spec fn deep_view(&self) -> TaggedFileModel {
        TaggedFileModel {
            duration_seconds: self.duration_seconds,
            bitrate: self.bitrate,
            sample_rate: self.sample_rate,
            channels: self.channels,
            primary_tag: self.primary_tag.deep_view(),
            first_tag: self.first_tag.deep_view(),
        }
    }
}

impl Duplicate for TaggedFile {
    fn duplicate(&self) -> (r: Self) {
        TaggedFile {
            duration_seconds: self.duration_seconds,
            bitrate: self.bitrate,
            sample_rate: self.sample_rate,
            channels: self.channels,
            primary_tag: self.primary_tag.duplicate(),
            first_tag: self.first_tag.duplicate(),
        }
    }
}

impl Clone for TaggedFile {
    fn clone(&self) -> (r: Self)
        ensures
            r.deep_view() == self.deep_view(),
    {
        self.duplicate()
    }
}

/// Whether `c` separates the values of a field.
pub open spec fn is_separator(c: char) -> bool {
    c == ';' || c == ','
}

/// The pieces of a text between its separators.
pub open spec fn pieces(s: Seq<char>) -> Seq<Seq<char>>
    decreases s.len(),
{
    if s.len() == 0 {
        seq![seq![]]
    } else {
        let before = pieces(s.drop_last());
        if is_separator(s.last()) {
            before.push(seq![])
        } else {
            before.drop_last().push(before.last().push(s.last()))
        }
    }
}

/// The pieces that are not blank, without the white space around them.
pub open spec fn kept_pieces(all: Seq<Seq<char>>) -> Seq<Seq<char>> {
    all.map_values(|piece: Seq<char>| trimmed(piece)).filter(|piece: Seq<char>| piece.len() > 0)
}

/// The values of a field that holds several.
pub open spec fn multi_values(s: Seq<char>) -> Seq<Seq<char>> {
    kept_pieces(pieces(s))
}

proof fn lemma_pieces_nonempty(s: Seq<char>)
    ensures
        pieces(s).len() > 0,
    decreases s.len(),
{
    if s.len() > 0 {
        lemma_pieces_nonempty(s.drop_last());
    }
}

proof fn lemma_kept_push(all: Seq<Seq<char>>, piece: Seq<char>)
    ensures
        kept_pieces(all.push(piece)) == (if trimmed(piece).len() > 0 {
            kept_pieces(all).push(trimmed(piece))
        } else {
            kept_pieces(all)
        }),
{
    let t = |piece: Seq<char>| trimmed(piece);
    let p = |piece: Seq<char>| piece.len() > 0;
    assert(all.push(piece).map_values(t) =~= all.map_values(t).push(trimmed(piece)));
    all.map_values(t).lemma_filter_push(trimmed(piece), p);
}

/// The values of a field that holds several, separated by semicolons or commas.
pub fn split_multi_value(value: &str) -> (r: Vec<String>)
    ensures
        r.deep_view() == multi_values(value@),
{
    let cs = chars_of(value);
    let mut kept: Vec<String> = Vec::new();
    let mut current: Vec<char> = Vec::new();
    let ghost mut done: Seq<Seq<char>> = seq![];
    let mut i: usize = 0;
    proof {
        assert(cs@.take(0) =~= Seq::<char>::empty());
        assert(pieces(cs@.take(0)) =~= done.push(current@));
        assert(kept.deep_view() =~= kept_pieces(done));
    }
    while i < cs.len()
        invariant
            i <= cs@.len(),
            pieces(cs@.take(i as int)) == done.push(current@),
            kept.deep_view() == kept_pieces(done),
        decreases cs@.len() - i,
    {
        proof {
            assert(cs@.take(i + 1).drop_last() =~= cs@.take(i as int));
            lemma_pieces_nonempty(cs@.take(i as int));
            assert(done.push(current@).drop_last() =~= done);
        }
        let c = cs[i];
        if c == ';' || c == ',' {
            proof {
                lemma_kept_push(done, current@);
            }
            keep_piece(&mut kept, &current);
            proof {
                done = done.push(current@);
            }
            current = Vec::new();
            assert(pieces(cs@.take(i + 1)) =~= done.push(current@));
        } else {
            current.push(c);
        }
        i = i + 1;
    }
    proof {
        assert(cs@.take(i as int) =~= value@);
        lemma_kept_push(done, current@);
    }
    keep_piece(&mut kept, &current);
    kept
}

/// Appends a piece that is not blank.
fn keep_piece(kept: &mut Vec<String>, piece: &Vec<char>)
    ensures
        final(kept).deep_view() == (if trimmed(piece@).len() > 0 {
            old(kept).deep_view().push(trimmed(piece@))
        } else {
            old(kept).deep_view()
        }),
{
    let ghost before = kept.deep_view();
    let t = trim_chars(piece);
    if t.len() > 0 {
        kept.push(string_of(&t));
        assert(kept.deep_view() =~= before.push(trimmed(piece@)));
    }
}

/// The year that the first four digits of a date give.
pub open spec fn year_of(date: Seq<char>) -> Option<i32> {
    let digits = date.filter(|c: char| is_digit(c));
    if digits.len() >= 4 {
        Some(digits_value(digits.take(4)) as i32)
    } else {
        None
    }
}

/// The number that four digits stand for has at most four digits.
proof fn lemma_four_digits(s: Seq<char>)
    requires
        s.len() <= 4,
        forall|i: int| 0 <= i < s.len() ==> is_digit(#[trigger] s[i]),
    ensures
        s.len() == 0 ==> digits_value(s) == 0,
        s.len() == 1 ==> digits_value(s) < 10,
        s.len() == 2 ==> digits_value(s) < 100,
        s.len() == 3 ==> digits_value(s) < 1000,
        s.len() == 4 ==> digits_value(s) < 10000,
    decreases s.len(),
{
    if s.len() > 0 {
        lemma_four_digits(s.drop_last());
        assert(is_digit(s[s.len() - 1]));
    }
}

/// The year of a date: its first four digits.
pub fn extract_year(date: &str) -> (r: Option<i32>)
    ensures
        r == year_of(date@),
        r matches Some(year) ==> 0 <= year < 10000,
{
    let cs = chars_of(date);
    let ghost p = |c: char| is_digit(c);
    let mut count: usize = 0;
    let mut year: i32 = 0;
    let mut i: usize = 0;
    assert(cs@.take(0) =~= Seq::<char>::empty());
    proof {
        reveal_with_fuel(Seq::filter, 1);
    }
    while i < cs.len()
        invariant
            i <= cs@.len(),
            cs@ == date@,
            p == (|c: char| is_digit(c)),
            count < 4,
            count == cs@.take(i as int).filter(p).len(),
            year == digits_value(cs@.take(i as int).filter(p)),
            forall|j: int|
                0 <= j < count ==> is_digit(#[trigger] cs@.take(i as int).filter(p)[j]),
        decreases cs@.len() - i,
    {
        let ghost before = cs@.take(i as int).filter(p);
        proof {
            assert(cs@.take(i + 1) =~= cs@.take(i as int).push(cs@[i as int]));
            cs@.take(i as int).lemma_filter_push(cs@[i as int], p);
            lemma_four_digits(before);
        }
        let c = cs[i];
        if '0' <= c && c <= '9' {
            assert(before.push(c).drop_last() =~= before);
            year = year * 10 + (c as u32 - 48) as i32;
            count = count + 1;
            if count == 4 {
                proof {
                    let all = date@.filter(p);
                    assert(date@ =~= cs@.take(i + 1) + cs@.skip(i + 1));
                    Seq::filter_distributes_over_add(cs@.take(i + 1), cs@.skip(i + 1), p);
                    assert(all.take(4) =~= before.push(c));
                    lemma_four_digits(before.push(c));
                }
                return Some(year);
            }
        }
        i = i + 1;
    }
    assert(cs@.take(i as int) =~= date@);
    None
}

/// A field's text without the white space around it, unless it is blank.
pub open spec fn nonblank(field: Option<Seq<char>>) -> Option<Seq<char>> {
    match field {
        Some(text) if trimmed(text).len() > 0 => Some(trimmed(text)),
        _ => None,
    }
}

/// A field's text without the white space around it, unless it is blank.
fn nonblank_text(field: &Option<String>) -> (r: Option<String>)
    ensures
        r.deep_view() == nonblank(field.deep_view()),
{
    match field {
        Some(text) => if is_blank(text) {
            None
        } else {
            Some(trim(text))
        },
        None => None,
    }
}

/// A value where there is one, else the fallback.
pub open spec fn or_text(value: Option<Seq<char>>, fallback: Seq<char>) -> Seq<char> {
    match value {
        Some(text) => text,
        None => fallback,
    }
}

/// What is known of a track before its file is read.
pub open spec fn fallback_tags(
    path: Seq<Seq<u8>>,
    artist: Seq<char>,
    album: Seq<char>,
    title: Seq<char>,
    track_number: Option<u32>,
) -> TrackTagsModel {
    TrackTagsModel {
        title,
        artist,
        album,
        album_artist: None,
        track_number,
        disc_number: None,
        duration_seconds: None,
        bitrate: None,
        sample_rate: None,
        channels: None,
        codec: extension_text(path),
        genres: seq![],
        date: None,
        musicbrainz_track_id: None,
        musicbrainz_recording_id: None,
        musicbrainz_album_id: None,
        musicbrainz_release_group_id: None,
    }
}

/// The tags with the audio properties of the file.
pub open spec fn with_properties(tags: TrackTagsModel, file: TaggedFileModel) -> TrackTagsModel {
    TrackTagsModel {
        duration_seconds: if file.duration_seconds <= u32::MAX {
            Some(file.duration_seconds as u32)
        } else {
            None
        },
        bitrate: file.bitrate,
        sample_rate: file.sample_rate,
        channels: match file.channels {
            Some(channels) => Some(channels as u32),
            None => None,
        },
        ..tags
    }
}

/// The tags with the fields of one tag block.
pub open spec fn with_fields(tags: TrackTagsModel, fields: TagFieldsModel) -> TrackTagsModel {
    TrackTagsModel {
        title: or_text(nonblank(fields.title), tags.title),
        artist: or_text(nonblank(fields.artist), tags.artist),
        album: or_text(nonblank(fields.album), tags.album),
        album_artist: nonblank(fields.album_artist),
        track_number: match fields.track {
            Some(number) => Some(number),
            None => tags.track_number,
        },
        disc_number: fields.disk,
        genres: match fields.genre {
            Some(genre) => multi_values(genre),
            None => seq![],
        },
        date: nonblank(
            match fields.recording_date {
                Some(date) => Some(date),
                None => fields.year,
            },
        ),
        musicbrainz_track_id: nonblank(fields.musicbrainz_track_id),
        musicbrainz_recording_id: nonblank(fields.musicbrainz_recording_id),
        musicbrainz_album_id: nonblank(fields.musicbrainz_release_id),
        musicbrainz_release_group_id: nonblank(fields.musicbrainz_release_group_id),
        ..tags
    }
}

/// The tag block that counts: the primary one, else the first one.
pub open spec fn chosen_fields(file: TaggedFileModel) -> Option<TagFieldsModel> {
    match file.primary_tag {
        Some(fields) => Some(fields),
        None => file.first_tag,
    }
}

/// The tags of a track, from its fallbacks and from what was found in its file.
pub open spec fn tags_of(fallback: TrackTagsModel, file: Option<TaggedFileModel>) -> TrackTagsModel {
    match file {
        Some(file) => match chosen_fields(file) {
            Some(fields) => with_fields(with_properties(fallback, file), fields),
            None => with_properties(fallback, file),
        },
        None => fallback,
    }
}

/// The tags of the track at `path`: what its file says, completed by the fallbacks.
///
/// `file` is what a reader of audio files found, if it could read the file.
pub fn read_track_tags(
    path: &FilePath,
    fallback_artist: String,
    fallback_album: String,
    fallback_title: String,
    fallback_track_number: Option<u32>,
    file: Option<TaggedFile>,
) -> (r: TrackTags)
    ensures
        r.deep_view() == tags_of(
            fallback_tags(
                path.deep_view(),
                fallback_artist@,
                fallback_album@,
                fallback_title@,
                fallback_track_number,
            ),
            file.deep_view(),
        ),
{
    let mut tags = TrackTags {
        title: fallback_title,
        artist: fallback_artist,
        album: fallback_album,
        album_artist: None,
        track_number: fallback_track_number,
        disc_number: None,
        duration_seconds: None,
        bitrate: None,
        sample_rate: None,
        channels: None,
        codec: path.extension(),
        genres: Vec::new(),
        date: None,
        musicbrainz_track_id: None,
        musicbrainz_recording_id: None,
        musicbrainz_album_id: None,
        musicbrainz_release_group_id: None,
    };
    assert(tags.genres.deep_view() =~= seq![]);
    let found = match file {
        Some(found) => found,
        None => {
            return tags;
        },
    };
    if found.duration_seconds <= u32::MAX as u64 {
        tags.duration_seconds = Some(found.duration_seconds as u32);
    }
    tags.bitrate = found.bitrate;
    tags.sample_rate = found.sample_rate;
    tags.channels = match found.channels {
        Some(channels) => Some(channels as u32),
        None => None,
    };
    let chosen = match found.primary_tag {
        Some(fields) => Some(fields),
        None => found.first_tag,
    };
    let fields = match chosen {
        Some(fields) => fields,
        None => {
            return tags;
        },
    };
    if let Some(title) = nonblank_text(&fields.title) {
        tags.title = title;
    }
    if let Some(artist) = nonblank_text(&fields.artist) {
        tags.artist = artist;
    }
    if let Some(album) = nonblank_text(&fields.album) {
        tags.album = album;
    }
    tags.album_artist = nonblank_text(&fields.album_artist);
    if fields.track.is_some() {
        tags.track_number = fields.track;
    }
    tags.disc_number = fields.disk;
    tags.genres = match &fields.genre {
        Some(genre) => split_multi_value(genre),
        None => {
            let none: Vec<String> = Vec::new();
            assert(none.deep_view() =~= seq![]);
            none
        },
    };
    tags.date = if fields.recording_date.is_some() {
        nonblank_text(&fields.recording_date)
    } else {
        nonblank_text(&fields.year)
    };
    tags.musicbrainz_track_id = nonblank_text(&fields.musicbrainz_track_id);
    tags.musicbrainz_recording_id = nonblank_text(&fields.musicbrainz_recording_id);
    tags.musicbrainz_album_id = nonblank_text(&fields.musicbrainz_release_id);
    tags.musicbrainz_release_group_id = nonblank_text(&fields.musicbrainz_release_group_id);
    tags
}

/// What the tags of a file say stands in the tags of the track under the same name, without the white
/// space around it; a title, an artist or an album that the file does not tell is the one that the
/// place and the name of the file give.
pub proof fn law_fields_are_read(
    fallback: TrackTagsModel,
    file: TaggedFileModel,
    fields: TagFieldsModel,
)
    requires
        file.primary_tag == Some(fields) || (file.primary_tag is None && file.first_tag == Some(
            fields,
        )),
    ensures
        fields.title matches Some(text) ==> trimmed(text).len() > 0 ==> tags_of(
            fallback,
            Some(file),
        ).title == trimmed(text),
        fields.title matches Some(text) ==> trimmed(text).len() == 0 ==> tags_of(
            fallback,
            Some(file),
        ).title == fallback.title,
        fields.title is None ==> tags_of(fallback, Some(file)).title == fallback.title,
        fields.artist matches Some(text) ==> trimmed(text).len() > 0 ==> tags_of(
            fallback,
            Some(file),
        ).artist == trimmed(text),
        fields.artist matches Some(text) ==> trimmed(text).len() == 0 ==> tags_of(
            fallback,
            Some(file),
        ).artist == fallback.artist,
        fields.artist is None ==> tags_of(fallback, Some(file)).artist == fallback.artist,
        fields.album matches Some(text) ==> trimmed(text).len() > 0 ==> tags_of(
            fallback,
            Some(file),
        ).album == trimmed(text),
        fields.album matches Some(text) ==> trimmed(text).len() == 0 ==> tags_of(
            fallback,
            Some(file),
        ).album == fallback.album,
        fields.album is None ==> tags_of(fallback, Some(file)).album == fallback.album,
        fields.album_artist matches Some(text) ==> trimmed(text).len() > 0 ==> tags_of(
            fallback,
            Some(file),
        ).album_artist == Some(trimmed(text)),
        fields.album_artist matches Some(text) ==> trimmed(text).len() == 0 ==> tags_of(
            fallback,
            Some(file),
        ).album_artist is None,
        fields.album_artist is None ==> tags_of(fallback, Some(file)).album_artist is None,
        fields.musicbrainz_track_id matches Some(text) ==> trimmed(text).len() > 0 ==> tags_of(
            fallback,
            Some(file),
        ).musicbrainz_track_id == Some(trimmed(text)),
        fields.musicbrainz_track_id matches Some(text) ==> trimmed(text).len() == 0 ==> tags_of(
            fallback,
            Some(file),
        ).musicbrainz_track_id is None,
        fields.musicbrainz_track_id is None
            ==> tags_of(fallback, Some(file)).musicbrainz_track_id is None,
        fields.musicbrainz_recording_id matches Some(text) ==> trimmed(text).len() > 0 ==> tags_of(
            fallback,
            Some(file),
        ).musicbrainz_recording_id == Some(trimmed(text)),
        fields.musicbrainz_recording_id matches Some(text) ==> trimmed(text).len() == 0 ==> tags_of(
            fallback,
            Some(file),
        ).musicbrainz_recording_id is None,
        fields.musicbrainz_recording_id is None
            ==> tags_of(fallback, Some(file)).musicbrainz_recording_id is None,
        fields.musicbrainz_release_id matches Some(text) ==> trimmed(text).len() > 0 ==> tags_of(
            fallback,
            Some(file),
        ).musicbrainz_album_id == Some(trimmed(text)),
        fields.musicbrainz_release_id matches Some(text) ==> trimmed(text).len() == 0 ==> tags_of(
            fallback,
            Some(file),
        ).musicbrainz_album_id is None,
        fields.musicbrainz_release_id is None
            ==> tags_of(fallback, Some(file)).musicbrainz_album_id is None,
        fields.musicbrainz_release_group_id matches Some(text) ==> trimmed(text).len() > 0
            ==> tags_of(
            fallback,
            Some(file),
        ).musicbrainz_release_group_id == Some(trimmed(text)),
        fields.musicbrainz_release_group_id matches Some(text) ==> trimmed(text).len() == 0
            ==> tags_of(
            fallback,
            Some(file),
        ).musicbrainz_release_group_id is None,
        fields.musicbrainz_release_group_id is None
            ==> tags_of(fallback, Some(file)).musicbrainz_release_group_id is None,
        fields.track is Some ==> tags_of(fallback, Some(file)).track_number == fields.track,
        fields.track is None ==> tags_of(fallback, Some(file)).track_number
            == fallback.track_number,
        tags_of(fallback, Some(file)).disc_number == fields.disk,
        fields.recording_date matches Some(text) ==> trimmed(text).len() > 0 ==> tags_of(
            fallback,
            Some(file),
        ).date == Some(trimmed(text)),
        fields.recording_date matches Some(text) ==> trimmed(text).len() == 0 ==> tags_of(
            fallback,
            Some(file),
        ).date is None,
        fields.recording_date is None ==> (fields.year matches Some(text) ==> trimmed(text).len() > 0
            ==> tags_of(fallback, Some(file)).date == Some(trimmed(text))),
        fields.recording_date is None && fields.year is None ==> tags_of(
            fallback,
            Some(file),
        ).date is None,
        fields.genre is None ==> tags_of(fallback, Some(file)).genres.len() == 0,
        fields.genre matches Some(text) ==> tags_of(fallback, Some(file)).genres == multi_values(
            text,
        ),
        tags_of(fallback, Some(file)).codec == fallback.codec,
{
}

/// The audio properties of a file that can be read stand in the tags of the track, whether or not it
/// has tags; a length that does not fit is left out.
pub proof fn law_properties_are_read(fallback: TrackTagsModel, file: TaggedFileModel)
    ensures
        file.duration_seconds <= u32::MAX ==> (tags_of(
            fallback,
            Some(file),
        ).duration_seconds matches Some(seconds) && seconds == file.duration_seconds),
        file.duration_seconds > u32::MAX ==> tags_of(fallback, Some(file)).duration_seconds is None,
        tags_of(fallback, Some(file)).bitrate == file.bitrate,
        tags_of(fallback, Some(file)).sample_rate == file.sample_rate,
        file.channels matches Some(n) ==> (tags_of(fallback, Some(file)).channels matches Some(m) && m
            == n),
        file.channels is None ==> tags_of(fallback, Some(file)).channels is None,
        tags_of(fallback, Some(file)).codec == fallback.codec,
        file.primary_tag is None && file.first_tag is None ==> {
            let tags = tags_of(fallback, Some(file));
            tags.title == fallback.title && tags.artist == fallback.artist && tags.album
                == fallback.album && tags.track_number == fallback.track_number
        },
{
}

/// Of a file that cannot be read no more is known than its place and its name give.
pub proof fn law_unreadable_file_keeps_its_fallbacks(
    path: Seq<Seq<u8>>,
    artist: Seq<char>,
    album: Seq<char>,
    title: Seq<char>,
    track_number: Option<u32>,
)
    ensures
        ({
            let tags = tags_of(fallback_tags(path, artist, album, title, track_number), None);
            &&& tags.artist == artist
            &&& tags.album == album
            &&& tags.title == title
            &&& tags.track_number == track_number
            &&& tags.album_artist is None
            &&& tags.disc_number is None
            &&& tags.duration_seconds is None
            &&& tags.bitrate is None
            &&& tags.sample_rate is None
            &&& tags.channels is None
            &&& tags.codec == extension_text(path)
            &&& tags.genres.len() == 0
            &&& tags.date is None
            &&& tags.musicbrainz_track_id is None
            &&& tags.musicbrainz_recording_id is None
            &&& tags.musicbrainz_album_id is None
            &&& tags.musicbrainz_release_group_id is None
        }),
{
}

proof fn lemma_pieces_of_one(s: Seq<char>)
    requires
        forall|i: int| 0 <= i < s.len() ==> #[trigger] s[i] != ';' && s[i] != ',',
    ensures
        pieces(s) == seq![s],
    decreases s.len(),
{
    if s.len() == 0 {
        assert(s =~= seq![]);
        assert(pieces(s) =~= seq![s]);
    } else {
        assert forall|i: int| 0 <= i < s.drop_last().len()
            implies #[trigger] s.drop_last()[i] != ';'
            && s.drop_last()[i] != ',' by {
            assert(s.drop_last()[i] == s[i]);
        }
        lemma_pieces_of_one(s.drop_last());
        assert(s[s.len() - 1] != ';' && s[s.len() - 1] != ',');
        assert(s.drop_last().push(s.last()) =~= s);
        assert(pieces(s) =~= seq![s]);
    }
}

proof fn lemma_pieces_of_two(a: Seq<char>, c: char, b: Seq<char>)
    requires
        c == ';' || c == ',',
    ensures
        pieces(a + seq![c] + b) == pieces(a) + pieces(b),
    decreases b.len(),
{
    let all = a + seq![c] + b;
    if b.len() == 0 {
        assert(all.drop_last() =~= a);
        assert(pieces(all) =~= pieces(a) + pieces(b));
    } else {
        assert(all.drop_last() =~= a + seq![c] + b.drop_last());
        lemma_pieces_of_two(a, c, b.drop_last());
        lemma_pieces_nonempty(b.drop_last());
        let x = pieces(a);
        let y = pieces(b.drop_last());
        assert((x + y).drop_last() =~= x + y.drop_last());
        assert((x + y).last() == y.last());
        assert(pieces(all) =~= x + pieces(b));
    }
}

proof fn lemma_kept_concat(x: Seq<Seq<char>>, y: Seq<Seq<char>>)
    ensures
        kept_pieces(x + y) == kept_pieces(x) + kept_pieces(y),
{
    let t = |piece: Seq<char>| trimmed(piece);
    let p = |piece: Seq<char>| piece.len() > 0;
    assert((x + y).map_values(t) =~= x.map_values(t) + y.map_values(t));
    Seq::filter_distributes_over_add(x.map_values(t), y.map_values(t), p);
}

/// A field that holds several values is cut at semicolons and commas, and each value stands without
/// the white space around it; what is blank is no value.
pub proof fn law_values_are_separated(a: Seq<char>, c: char, b: Seq<char>)
    ensures
        c == ';' || c == ',' ==> multi_values(a + seq![c] + b) == multi_values(a) + multi_values(b),
        (forall|i: int| 0 <= i < a.len() ==> #[trigger] a[i] != ';' && a[i] != ',')
            ==> multi_values(a)
            == (if trimmed(a).len() > 0 {
            seq![trimmed(a)]
        } else {
            seq![]
        }),
{
    if c == ';' || c == ',' {
        lemma_pieces_of_two(a, c, b);
        lemma_kept_concat(pieces(a), pieces(b));
    }
    if forall|i: int| 0 <= i < a.len() ==> #[trigger] a[i] != ';' && a[i] != ',' {
        lemma_pieces_of_one(a);
        let none: Seq<Seq<char>> = seq![];
        reveal(Seq::filter);
        assert(kept_pieces(none) =~= seq![]);
        lemma_kept_push(none, a);
        assert(none.push(a) =~= seq![a]);
        assert(multi_values(a) =~= (if trimmed(a).len() > 0 {
            seq![trimmed(a)]
        } else {
            seq![]
        }));
    }
}

/// The year of a date is the number that its first four digits stand for, whatever stands between
/// them; a date with fewer digits has none.
pub proof fn law_year_is_read(a: Seq<char>, c: char, b: Seq<char>)
    ensures
        !('0' <= c <= '9') ==> year_of(a + seq![c] + b) == year_of(a + b),
        a.len() == 4 && (forall|i: int| 0 <= i < 4 ==> '0' <= #[trigger] a[i] <= '9') ==> (year_of(
            a + b,
        ) matches Some(year) && year == (a[0] as int - 48) * 1000 + (a[1] as int - 48) * 100 + (
        a[2] as int - 48) * 10 + (a[3] as int - 48)),
        a.len() < 4 ==> year_of(a) is None,
{
    let p = |c: char| is_digit(c);
    if !('0' <= c <= '9') {
        Seq::filter_distributes_over_add(a + seq![c], b, p);
        Seq::filter_distributes_over_add(a, b, p);
        a.lemma_filter_push(c, p);
        assert(a.push(c) =~= a + seq![c]);
    }
    if a.len() < 4 {
        a.lemma_filter_len(p);
    }
    if a.len() == 4 && (forall|i: int| 0 <= i < 4 ==> '0' <= #[trigger] a[i] <= '9') {
        Seq::filter_distributes_over_add(a, b, p);
        lemma_all_digits_kept(a);
        assert((a + b).filter(p).take(4) =~= a);
        reveal_with_fuel(digits_value, 5);
        assert(a.drop_last().drop_last().drop_last().drop_last().len() == 0);
        assert(a[0] as int >= 48 && a[1] as int >= 48 && a[2] as int >= 48 && a[3] as int >= 48);
        lemma_four_digits(a);
    }
}

proof fn lemma_all_digits_kept(s: Seq<char>)
    requires
        forall|i: int| 0 <= i < s.len() ==> is_digit(#[trigger] s[i]),
    ensures
        s.filter(|c: char| is_digit(c)) == s,
    decreases s.len(),
{
    reveal(Seq::filter);
    if s.len() > 0 {
        assert forall|i: int| 0 <= i < s.drop_last().len() implies is_digit(
            #[trigger] s.drop_last()[i],
        ) by {
            assert(s.drop_last()[i] == s[i]);
        }
        lemma_all_digits_kept(s.drop_last());
        assert(is_digit(s[s.len() - 1]));
        assert(s.drop_last().push(s.last()) =~= s);
    } else {
        assert(s.filter(|c: char| is_digit(c)) =~= s);
    }
}

} // verus!
