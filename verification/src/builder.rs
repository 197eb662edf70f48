//! Building the library from scanned tracks.

use vstd::prelude::*;

use crate::duplicate::Duplicate;
use crate::error::{Error, ErrorModel};
use crate::index::{CoverArtSource, CoverArtSourceModel, LibraryIndex, LibraryIndexModel};
use crate::media::{
    audio_type, detect_content_type, detect_image_content_type, image_type, or_octets,
};
use crate::ordered_map::{
    ascending, either_map, lemma_map_of_skip, map_of, OrderedKey, OrderedMap,
};
use crate::path::{below, extension_text, parent_of, path_text, FilePath};
use crate::protocol::{
    Album, AlbumId, AlbumModel, Artist, ArtistId, ArtistModel, CoverArtId, FileTime, Track, TrackId,
    TrackModel,
};
use crate::slug::{slug, slugify};
use crate::tags::{extract_year, year_of, TrackTags, TrackTagsModel};
use crate::text::{
    lemma_text_less_irreflexive, lemma_text_less_total, lemma_text_less_transitive, lower_text,
    push_text, same_ignoring_case, same_text, text_before, text_less,
};

verus! {

/// An audio file that was found, and what is known of it so far.
#[derive(Debug)]
pub struct ScannedTrack {
    pub path: FilePath,
    pub relative_path: FilePath,
    pub relative_path_string: String,
    pub file_size: u64,
    pub modified_unix: i64,
    pub modified_at: FileTime,
    pub fallback_artist: String,
    pub fallback_album: String,
    pub fallback_title: String,
    pub fallback_track_number: Option<u32>,
    pub needs_cache_store: bool,
    pub tags: Option<TrackTags>,
}

/// The mathematical value of a [`ScannedTrack`].
pub struct ScannedTrackModel {
    pub path: Seq<Seq<u8>>,
    pub relative_path: Seq<Seq<u8>>,
    pub relative_path_string: Seq<char>,
    pub file_size: u64,
    pub modified_unix: i64,
    pub modified_at: FileTime,
    pub fallback_artist: Seq<char>,
    pub fallback_album: Seq<char>,
    pub fallback_title: Seq<char>,
    pub fallback_track_number: Option<u32>,
    pub needs_cache_store: bool,
    pub tags: Option<TrackTagsModel>,
}

impl DeepView for ScannedTrack {
    type V = ScannedTrackModel;

    open spec fn deep_view(&self) -> ScannedTrackModel {
        ScannedTrackModel {
            path: self.path.deep_view(),
            relative_path: self.relative_path.deep_view(),
            relative_path_string: self.relative_path_string@,
            file_size: self.file_size,
            modified_unix: self.modified_unix,
            modified_at: self.modified_at,
            fallback_artist: self.fallback_artist@,
            fallback_album: self.fallback_album@,
            fallback_title: self.fallback_title@,
            fallback_track_number: self.fallback_track_number,
            needs_cache_store: self.needs_cache_store,
            tags: self.tags.deep_view(),
        }
    }
}

impl Duplicate for ScannedTrack {
    fn duplicate(&self) -> (r: Self) {
        ScannedTrack {
            path: self.path.duplicate(),
            relative_path: self.relative_path.duplicate(),
            relative_path_string: self.relative_path_string.clone(),
            file_size: self.file_size,
            modified_unix: self.modified_unix,
            modified_at: self.modified_at,
            fallback_artist: self.fallback_artist.clone(),
            fallback_album: self.fallback_album.clone(),
            fallback_title: self.fallback_title.clone(),
            fallback_track_number: self.fallback_track_number,
            needs_cache_store: self.needs_cache_store,
            tags: self.tags.duplicate(),
        }
    }
}

impl Clone for ScannedTrack {
    fn clone(&self) -> (r: Self)
        ensures
            r.deep_view() == self.deep_view(),
    {
        self.duplicate()
    }
}

impl OrderedKey for String {
    open spec fn less(a: Seq<char>, b: Seq<char>) -> bool {
        text_less(a, b)
    }

    proof fn less_irreflexive(a: Seq<char>) {
        lemma_text_less_irreflexive(a);
    }

    proof fn less_transitive(a: Seq<char>, b: Seq<char>, c: Seq<char>) {
        lemma_text_less_transitive(a, b, c);
    }

    proof fn less_total(a: Seq<char>, b: Seq<char>) {
        lemma_text_less_total(a, b);
    }

    fn before(&self, other: &Self) -> (r: bool) {
        text_before(self, other)
    }
}

/// What tells albums apart while the library is built.
pub struct AlbumKey {
    pub artist: String,
    pub album: String,
}

impl DeepView for AlbumKey {
    type V = (Seq<char>, Seq<char>);

    open spec fn deep_view(&self) -> (Seq<char>, Seq<char>) {
        (self.artist@, self.album@)
    }
}

impl OrderedKey for AlbumKey {
    open spec fn less(a: (Seq<char>, Seq<char>), b: (Seq<char>, Seq<char>)) -> bool {
        text_less(a.0, b.0) || (a.0 == b.0 && text_less(a.1, b.1))
    }

    proof fn less_irreflexive(a: (Seq<char>, Seq<char>)) {
        lemma_text_less_irreflexive(a.0);
        lemma_text_less_irreflexive(a.1);
    }

    proof fn less_transitive(
        a: (Seq<char>, Seq<char>),
        b: (Seq<char>, Seq<char>),
        c: (Seq<char>, Seq<char>),
    ) {
        if text_less(a.0, b.0) && text_less(b.0, c.0) {
            lemma_text_less_transitive(a.0, b.0, c.0);
        }
        if text_less(a.1, b.1) && text_less(b.1, c.1) {
            lemma_text_less_transitive(a.1, b.1, c.1);
        }
    }

    proof fn less_total(a: (Seq<char>, Seq<char>), b: (Seq<char>, Seq<char>)) {
        lemma_text_less_total(a.0, b.0);
        lemma_text_less_total(a.1, b.1);
    }

    fn before(&self, other: &Self) -> (r: bool) {
        text_before(&self.artist, &other.artist) || (same_text(&self.artist, &other.artist)
            && text_before(&self.album, &other.album))
    }
}

/// The genres of an album with those of one more track: a genre that differs from all before
/// it in more than ASCII case is added.
pub open spec fn genres_with(genres: Seq<Seq<char>>, more: Seq<Seq<char>>) -> Seq<Seq<char>>
    decreases more.len(),
{
    if more.len() == 0 {
        genres
    } else {
        let before = genres_with(genres, more.drop_last());
        if exists|i: int|
            0 <= i < before.len() && lower_text(#[trigger] before[i]) == lower_text(more.last()) {
            before
        } else {
            before.push(more.last())
        }
    }
}

/// The sum, or the largest number where the sum is larger.
pub open spec fn capped_u64(a: u64, b: u64) -> u64 {
    if a + b > u64::MAX {
        u64::MAX
    } else {
        (a + b) as u64
    }
}

/// The sum, or the largest number where the sum is larger.
pub open spec fn capped_u32(a: u32, b: u32) -> u32 {
    if a + b > u32::MAX {
        u32::MAX
    } else {
        (a + b) as u32
    }
}

/// The first value, else the second.
pub open spec fn or_else<A>(first: Option<A>, second: Option<A>) -> Option<A> {
    match first {
        Some(a) => Some(a),
        None => second,
    }
}

/// An album with what one more track says of it.
pub open spec fn album_with(
    album: AlbumModel,
    track: TrackModel,
    file_size: u64,
    cover_art_id: Option<Seq<char>>,
) -> AlbumModel {
    AlbumModel {
        size_bytes: capped_u64(album.size_bytes, file_size),
        duration_seconds: match (track.duration_seconds, album.duration_seconds) {
            (None, so_far) => so_far,
            (Some(more), None) => Some(more),
            (Some(more), Some(so_far)) => Some(capped_u32(so_far, more)),
        },
        disc_count: match (track.disc_number, album.disc_count) {
            (None, so_far) => so_far,
            (Some(number), None) => Some(number),
            (Some(number), Some(so_far)) => Some(
                if so_far < number {
                    number
                } else {
                    so_far
                },
            ),
        },
        album_artist: or_else(album.album_artist, or_else(track.album_artist, Some(track.artist))),
        date: or_else(album.date, track.date),
        year: or_else(
            album.year,
            match track.date {
                Some(date) => year_of(date),
                None => None,
            },
        ),
        musicbrainz_album_id: or_else(album.musicbrainz_album_id, track.musicbrainz_album_id),
        musicbrainz_release_group_id: or_else(
            album.musicbrainz_release_group_id,
            track.musicbrainz_release_group_id,
        ),
        cover_art_id: or_else(album.cover_art_id, cover_art_id),
        genres: genres_with(album.genres, track.genres),
        ..album
    }
}

/// Adds the genres of a track to those of its album.
fn add_genres(genres: &mut Vec<String>, more: &Vec<String>)
    ensures
        final(genres).deep_view() == genres_with(old(genres).deep_view(), more.deep_view()),
{
    let ghost start = genres.deep_view();
    let mut i: usize = 0;
    assert(more.deep_view().take(0) =~= seq![]);
    while i < more.len()
        invariant
            i <= more@.len(),
            genres.deep_view() == genres_with(start, more.deep_view().take(i as int)),
        decreases more@.len() - i,
    {
        let ghost before = genres.deep_view();
        assert(more.deep_view().take(i + 1).drop_last() =~= more.deep_view().take(i as int));
        assert(more.deep_view().take(i + 1).last() == more@[i as int]@);
        let mut known = false;
        let mut k: usize = 0;
        while k < genres.len()
            invariant
                i < more@.len(),
                k <= genres@.len(),
                genres.deep_view() == before,
                known == (exists|j: int|
                    0 <= j < k && lower_text(#[trigger] before[j]) == lower_text(more@[i as int]@)),
            decreases genres@.len() - k,
        {
            assert(before[k as int] == genres@[k as int]@);
            if same_ignoring_case(&genres[k], &more[i]) {
                known = true;
            }
            k = k + 1;
        }
        assert(before.len() == genres@.len());
        if !known {
            genres.push(more[i].clone());
            assert(genres.deep_view() =~= before.push(more@[i as int]@));
        }
        i = i + 1;
    }
    assert(more.deep_view().take(i as int) =~= more.deep_view());
}

/// Adds to an album what a track says of it.
pub fn merge_album_track_metadata(
    album: &mut Album,
    track: &Track,
    file_size: u64,
    cover_art_id: Option<CoverArtId>,
)
    ensures
        final(album).deep_view() == album_with(
            old(album).deep_view(),
            track.deep_view(),
            file_size,
            cover_art_id.deep_view(),
        ),
{
    album.size_bytes = album.size_bytes.saturating_add(file_size);
    if let Some(duration) = track.duration_seconds {
        let so_far: u32 = match album.duration_seconds {
            Some(so_far) => so_far,
            None => 0,
        };
        album.duration_seconds = Some(so_far.saturating_add(duration));
    }
    if let Some(disc_number) = track.disc_number {
        let so_far: u32 = match album.disc_count {
            Some(so_far) => so_far,
            None => 0,
        };
        album.disc_count = Some(
            if so_far < disc_number {
                disc_number
            } else {
                so_far
            },
        );
    }
    if album.album_artist.is_none() {
        album.album_artist = match &track.album_artist {
            Some(artist) => Some(artist.clone()),
            None => Some(track.artist.clone()),
        };
    }
    if album.year.is_none() {
        album.year = match &track.date {
            Some(date) => extract_year(date),
            None => None,
        };
    }
    if album.date.is_none() {
        album.date = track.date.duplicate();
    }
    if album.musicbrainz_album_id.is_none() {
        album.musicbrainz_album_id = track.musicbrainz_album_id.duplicate();
    }
    if album.musicbrainz_release_group_id.is_none() {
        album.musicbrainz_release_group_id = track.musicbrainz_release_group_id.duplicate();
    }
    if album.cover_art_id.is_none() {
        album.cover_art_id = cover_art_id;
    }
    add_genres(&mut album.genres, &track.genres);
}

/// The mathematical value of a [`LibraryBuilder`].
pub struct LibraryBuilderModel {
    pub artists_by_name: Map<Seq<char>, Seq<char>>,
    pub albums_by_key: Map<(Seq<char>, Seq<char>), Seq<char>>,
    pub cover_art_by_path: Map<Seq<Seq<u8>>, Seq<char>>,
    pub sidecar_by_dir: Map<Seq<Seq<u8>>, Option<Seq<Seq<u8>>>>,
    pub artists: Map<Seq<char>, ArtistModel>,
    pub albums: Map<Seq<char>, AlbumModel>,
    pub tracks: Map<Seq<char>, TrackModel>,
    pub cover_arts: Map<Seq<char>, CoverArtSourceModel>,
}

/// The name under which the albums of a track's artist are filed.
pub open spec fn filed_artist(tags: TrackTagsModel) -> Seq<char> {
    match tags.album_artist {
        Some(artist) => artist,
        None => tags.artist,
    }
}

/// The id of an album.
pub open spec fn album_id_of(key: (Seq<char>, Seq<char>)) -> Seq<char> {
    slug(key.0 + ":"@ + key.1)
}

/// The id of a track.
pub open spec fn track_id_of(tags: TrackTagsModel, relative_path: Seq<Seq<u8>>) -> Seq<char> {
    slug(filed_artist(tags) + ":"@ + tags.album + ":"@ + path_text(relative_path))
}

/// The id of a cover image that lies beside the tracks.
pub open spec fn cover_id_of(relative_path: Seq<Seq<u8>>) -> Seq<char> {
    slug("cover:"@ + path_text(relative_path))
}

/// The image that lies beside the track at `path`.
pub open spec fn sidecar_of(
    sidecars: Map<Seq<Seq<u8>>, Option<Seq<Seq<u8>>>>,
    path: Seq<Seq<u8>>,
) -> Option<Seq<Seq<u8>>> {
    match parent_of(path) {
        Some(dir) => if sidecars.dom().contains(dir) {
            sidecars[dir]
        } else {
            None
        },
        None => None,
    }
}

/// The place in the library of the image that lies beside the track at `path`.
pub open spec fn cover_place(
    sidecars: Map<Seq<Seq<u8>>, Option<Seq<Seq<u8>>>>,
    root: Seq<Seq<u8>>,
    path: Seq<Seq<u8>>,
) -> Result<Option<Seq<Seq<u8>>>, ErrorModel> {
    match sidecar_of(sidecars, path) {
        Some(sidecar) => match below(sidecar, root) {
            Some(place) => Ok(Some(place)),
            None => Err(
                ErrorModel::InvalidRequest("path outside music root: "@ + path_text(sidecar)),
            ),
        },
        None => Ok(None),
    }
}

/// The source of the cover at a place below `root`.
pub open spec fn cover_source(root: Seq<Seq<u8>>, place: Seq<Seq<u8>>) -> CoverArtSourceModel {
    CoverArtSourceModel::Sidecar {
        relative_path: place,
        content_type: or_octets(image_type(extension_text(root + place))),
    }
}

/// The id of the cover at a place.
pub open spec fn cover_id_at(place: Option<Seq<Seq<u8>>>) -> Option<Seq<char>> {
    match place {
        Some(place) => Some(cover_id_of(place)),
        None => None,
    }
}

/// The track that a scanned file becomes.
pub open spec fn track_of(
    scanned: ScannedTrackModel,
    tags: TrackTagsModel,
    place: Option<Seq<Seq<u8>>>,
) -> TrackModel {
    TrackModel {
        id: track_id_of(tags, scanned.relative_path),
        title: tags.title,
        artist: tags.artist,
        album: tags.album,
        album_artist: tags.album_artist,
        track_number: tags.track_number,
        disc_number: tags.disc_number,
        duration_seconds: tags.duration_seconds,
        bitrate: tags.bitrate,
        sample_rate: tags.sample_rate,
        channels: tags.channels,
        codec: tags.codec,
        genres: tags.genres,
        date: tags.date,
        musicbrainz_track_id: tags.musicbrainz_track_id,
        musicbrainz_recording_id: tags.musicbrainz_recording_id,
        musicbrainz_album_id: tags.musicbrainz_album_id,
        musicbrainz_release_group_id: tags.musicbrainz_release_group_id,
        cover_art_id: cover_id_at(place),
        suffix: None,
        relative_path: scanned.relative_path,
        file_size: scanned.file_size,
        modified_at: scanned.modified_at,
        content_type: or_octets(audio_type(extension_text(scanned.path))),
    }
}

/// An album without tracks.
pub open spec fn fresh_album(key: (Seq<char>, Seq<char>)) -> AlbumModel {
    AlbumModel {
        id: album_id_of(key),
        title: key.1,
        artist: key.0,
        album_artist: Some(key.0),
        track_ids: seq![],
        date: None,
        original_date: None,
        year: None,
        genres: seq![],
        labels: seq![],
        catalog_number: None,
        comment: None,
        musicbrainz_album_id: None,
        musicbrainz_release_group_id: None,
        disc_count: None,
        duration_seconds: None,
        size_bytes: 0,
        cover_art_id: None,
        metadata: None,
    }
}

/// An album with one more track.
pub open spec fn album_plus(album: AlbumModel, track: TrackModel) -> AlbumModel {
    album_with(
        AlbumModel { track_ids: album.track_ids.push(track.id), ..album },
        track,
        track.file_size,
        track.cover_art_id,
    )
}

/// A row of ids with one more, unless it is there.
pub open spec fn ids_plus(ids: Seq<Seq<char>>, id: Seq<char>) -> Seq<Seq<char>> {
    if ids.contains(id) {
        ids
    } else {
        ids.push(id)
    }
}

/// A row of ids with those of another row that are not there.
pub open spec fn ids_union(ids: Seq<Seq<char>>, more: Seq<Seq<char>>) -> Seq<Seq<char>>
    decreases more.len(),
{
    if more.len() == 0 {
        ids
    } else {
        ids_plus(ids_union(ids, more.drop_last()), more.last())
    }
}

/// An album with those of the tracks `ids` that it does not have.
pub open spec fn album_union(
    album: AlbumModel,
    ids: Seq<Seq<char>>,
    tracks: Map<Seq<char>, TrackModel>,
) -> AlbumModel
    decreases ids.len(),
{
    if ids.len() == 0 {
        album
    } else {
        let before = album_union(album, ids.drop_last(), tracks);
        let id = ids.last();
        if tracks.dom().contains(id) && !before.track_ids.contains(id) {
            album_with(
                AlbumModel { track_ids: before.track_ids.push(id), ..before },
                tracks[id],
                tracks[id].file_size,
                tracks[id].cover_art_id,
            )
        } else {
            before
        }
    }
}

/// The artist with an id in two libraries taken together.
pub open spec fn artist_in_both(
    first: Map<Seq<char>, ArtistModel>,
    second: Map<Seq<char>, ArtistModel>,
    id: Seq<char>,
) -> ArtistModel {
    let more = if second.dom().contains(id) {
        second[id].album_ids
    } else {
        seq![]
    };
    if first.dom().contains(id) {
        ArtistModel { album_ids: ids_union(first[id].album_ids, more), ..first[id] }
    } else {
        ArtistModel { id, name: second[id].name, album_ids: ids_union(seq![], more) }
    }
}

/// The artists of two libraries.
pub open spec fn all_artists(
    first: Map<Seq<char>, ArtistModel>,
    second: Map<Seq<char>, ArtistModel>,
) -> Map<Seq<char>, ArtistModel> {
    Map::new(
        |id: Seq<char>| first.dom().contains(id) || second.dom().contains(id),
        |id: Seq<char>| artist_in_both(first, second, id),
    )
}

/// The album with an id in two libraries taken together.
pub open spec fn album_in_both(
    first: Map<Seq<char>, AlbumModel>,
    second: Map<Seq<char>, AlbumModel>,
    tracks: Map<Seq<char>, TrackModel>,
    id: Seq<char>,
) -> AlbumModel {
    if !first.dom().contains(id) {
        second[id]
    } else if !second.dom().contains(id) {
        first[id]
    } else {
        album_union(first[id], second[id].track_ids, tracks)
    }
}

/// The albums of two libraries, `tracks` being the tracks of the second.
pub open spec fn all_albums(
    first: Map<Seq<char>, AlbumModel>,
    second: Map<Seq<char>, AlbumModel>,
    tracks: Map<Seq<char>, TrackModel>,
) -> Map<Seq<char>, AlbumModel> {
    Map::new(
        |id: Seq<char>| first.dom().contains(id) || second.dom().contains(id),
        |id: Seq<char>| album_in_both(first, second, tracks, id),
    )
}

impl LibraryBuilderModel {
    /// A library without tracks.
    pub open spec fn fresh(
        sidecar_by_dir: Map<Seq<Seq<u8>>, Option<Seq<Seq<u8>>>>,
    ) -> LibraryBuilderModel {
        LibraryBuilderModel {
            artists_by_name: Map::empty(),
            albums_by_key: Map::empty(),
            cover_art_by_path: Map::empty(),
            sidecar_by_dir,
            artists: Map::empty(),
            albums: Map::empty(),
            tracks: Map::empty(),
            cover_arts: Map::empty(),
        }
    }

    /// Whether every name leads to the id that is made of it, and that id to something.
    pub open spec fn wf(self) -> bool {
        &&& forall|name: Seq<char>| #[trigger]
            self.artists_by_name.dom().contains(name) ==> self.artists_by_name[name] == slug(name)
                && self.artists.dom().contains(slug(name))
        &&& forall|key: (Seq<char>, Seq<char>)| #[trigger]
            self.albums_by_key.dom().contains(key) ==> self.albums_by_key[key] == album_id_of(key)
                && self.albums.dom().contains(album_id_of(key))
        &&& forall|place: Seq<Seq<u8>>| #[trigger]
            self.cover_art_by_path.dom().contains(place) ==> self.cover_art_by_path[place]
                == cover_id_of(place)
    }

    /// The library with an artist of this name.
    pub open spec fn with_artist(self, name: Seq<char>) -> LibraryBuilderModel {
        if self.artists_by_name.dom().contains(name) {
            self
        } else {
            LibraryBuilderModel {
                artists_by_name: self.artists_by_name.insert(name, slug(name)),
                artists: self.artists.insert(
                    slug(name),
                    ArtistModel { id: slug(name), name, album_ids: seq![] },
                ),
                ..self
            }
        }
    }

    /// The library with an album of this name.
    pub open spec fn with_album(self, key: (Seq<char>, Seq<char>)) -> LibraryBuilderModel {
        if self.albums_by_key.dom().contains(key) {
            self
        } else {
            LibraryBuilderModel {
                albums_by_key: self.albums_by_key.insert(key, album_id_of(key)),
                albums: self.albums.insert(album_id_of(key), fresh_album(key)),
                ..self
            }
        }
    }

    /// The library with the cover at this place below `root`.
    pub open spec fn with_cover(
        self,
        root: Seq<Seq<u8>>,
        place: Option<Seq<Seq<u8>>>,
    ) -> LibraryBuilderModel {
        match place {
            Some(place) => if self.cover_art_by_path.dom().contains(place) {
                self
            } else {
                LibraryBuilderModel {
                    cover_art_by_path: self.cover_art_by_path.insert(place, cover_id_of(place)),
                    cover_arts: self.cover_arts.insert(
                        cover_id_of(place),
                        cover_source(root, place),
                    ),
                    ..self
                }
            },
            None => self,
        }
    }

    /// The library with a track of an artist and an album that it has.
    pub open spec fn with_track(
        self,
        artist_id: Seq<char>,
        album_id: Seq<char>,
        track: TrackModel,
    ) -> LibraryBuilderModel {
        let artist = self.artists[artist_id];
        LibraryBuilderModel {
            artists: self.artists.insert(
                artist_id,
                ArtistModel { album_ids: ids_plus(artist.album_ids, album_id), ..artist },
            ),
            albums: self.albums.insert(album_id, album_plus(self.albums[album_id], track)),
            tracks: self.tracks.insert(track.id, track),
            ..self
        }
    }

    /// The library with a scanned track, whose cover lies at `place` below `root`.
    pub open spec fn plus(
        self,
        root: Seq<Seq<u8>>,
        scanned: ScannedTrackModel,
        tags: TrackTagsModel,
        place: Option<Seq<Seq<u8>>>,
    ) -> LibraryBuilderModel {
        let artist = filed_artist(tags);
        let key = (artist, tags.album);
        self.with_artist(artist).with_album(key).with_cover(root, place).with_track(
            slug(artist),
            album_id_of(key),
            track_of(scanned, tags, place),
        )
    }

    /// The library with a scanned track, or why it cannot be added.
    pub open spec fn added(self, root: Seq<Seq<u8>>, scanned: ScannedTrackModel) -> Result<
        LibraryBuilderModel,
        ErrorModel,
    > {
        match scanned.tags {
            None => Err(
                ErrorModel::InvalidRequest("missing scanned tags for "@ + path_text(scanned.path)),
            ),
            Some(tags) => match cover_place(self.sidecar_by_dir, root, scanned.path) {
                Err(error) => Err(error),
                Ok(place) => Ok(self.plus(root, scanned, tags, place)),
            },
        }
    }

    /// The library once a scanned track was refused: a track without tags leaves nothing, any other
    /// its artist and its album.
    pub open spec fn refused(self, scanned: ScannedTrackModel) -> LibraryBuilderModel {
        match scanned.tags {
            None => self,
            Some(tags) => self.with_artist(filed_artist(tags)).with_album(
                (filed_artist(tags), tags.album),
            ),
        }
    }

    /// Two libraries in one.
    pub open spec fn merged(self, other: LibraryBuilderModel) -> LibraryBuilderModel {
        LibraryBuilderModel {
            artists_by_name: either_map(self.artists_by_name, other.artists_by_name),
            albums_by_key: either_map(self.albums_by_key, other.albums_by_key),
            cover_art_by_path: either_map(self.cover_art_by_path, other.cover_art_by_path),
            sidecar_by_dir: self.sidecar_by_dir,
            artists: all_artists(self.artists, other.artists),
            albums: all_albums(self.albums, other.albums, other.tracks),
            tracks: either_map(self.tracks, other.tracks),
            cover_arts: either_map(self.cover_arts, other.cover_arts),
        }
    }
}

/// A library under construction.
pub struct LibraryBuilder {
    artists_by_name: OrderedMap<String, ArtistId>,
    albums_by_key: OrderedMap<AlbumKey, AlbumId>,
    cover_art_by_path: OrderedMap<FilePath, CoverArtId>,
    sidecar_by_dir: OrderedMap<FilePath, Option<FilePath>>,
    artists: OrderedMap<ArtistId, Artist>,
    albums: OrderedMap<AlbumId, Album>,
    tracks: OrderedMap<TrackId, Track>,
    cover_arts: OrderedMap<CoverArtId, CoverArtSource>,
}

impl DeepView for LibraryBuilder {
    type V = LibraryBuilderModel;

    closed spec fn deep_view(&self) -> LibraryBuilderModel {
        LibraryBuilderModel {
            artists_by_name: self.artists_by_name.deep_view(),
            albums_by_key: self.albums_by_key.deep_view(),
            cover_art_by_path: self.cover_art_by_path.deep_view(),
            sidecar_by_dir: self.sidecar_by_dir.deep_view(),
            artists: self.artists.deep_view(),
            albums: self.albums.deep_view(),
            tracks: self.tracks.deep_view(),
            cover_arts: self.cover_arts.deep_view(),
        }
    }
}

impl LibraryBuilder {
    /// A library without tracks.
    pub fn new(sidecar_by_dir: OrderedMap<FilePath, Option<FilePath>>) -> (r: Self)
        ensures
            r.deep_view() == LibraryBuilderModel::fresh(sidecar_by_dir.deep_view()),
            r.deep_view().wf(),
    {
        LibraryBuilder {
            artists_by_name: OrderedMap::new(),
            albums_by_key: OrderedMap::new(),
            cover_art_by_path: OrderedMap::new(),
            sidecar_by_dir,
            artists: OrderedMap::new(),
            albums: OrderedMap::new(),
            tracks: OrderedMap::new(),
            cover_arts: OrderedMap::new(),
        }
    }

    /// The id of the artist with this name, who is added if missing.
    fn artist_id_for(&mut self, artist_name: &String) -> (r: ArtistId)
        requires
            old(self).deep_view().wf(),
        ensures
            final(self).deep_view() == old(self).deep_view().with_artist(artist_name@),
            final(self).deep_view().wf(),
            r.deep_view() == slug(artist_name@),
    {
        if let Some(existing) = self.artists_by_name.get(artist_name) {
            return existing.duplicate();
        }
        let id = ArtistId(slugify(artist_name));
        let artist = Artist {
            id: id.duplicate(),
            name: artist_name.clone(),
            album_ids: Vec::new(),
        };
        assert(artist.album_ids.deep_view() =~= seq![]);
        self.artists_by_name.insert(artist_name.clone(), id.duplicate());
        self.artists.insert(id.duplicate(), artist);
        id
    }

    /// The id of the album with this name, which is added if missing.
    fn album_id_for(&mut self, artist_name: &String, album_name: &String) -> (r: AlbumId)
        requires
            old(self).deep_view().wf(),
        ensures
            final(self).deep_view() == old(self).deep_view().with_album(
                (artist_name@, album_name@),
            ),
            final(self).deep_view().wf(),
            r.deep_view() == album_id_of((artist_name@, album_name@)),
    {
        let key = AlbumKey { artist: artist_name.clone(), album: album_name.clone() };
        if let Some(existing) = self.albums_by_key.get(&key) {
            return existing.duplicate();
        }
        let mut text = artist_name.clone();
        push_text(&mut text, ":");
        push_text(&mut text, album_name);
        let id = AlbumId(slugify(&text));
        let album = Album {
            id: id.duplicate(),
            title: album_name.clone(),
            artist: artist_name.clone(),
            album_artist: Some(artist_name.clone()),
            track_ids: Vec::new(),
            date: None,
            original_date: None,
            year: None,
            genres: Vec::new(),
            labels: Vec::new(),
            catalog_number: None,
            comment: None,
            musicbrainz_album_id: None,
            musicbrainz_release_group_id: None,
            disc_count: None,
            duration_seconds: None,
            size_bytes: 0,
            cover_art_id: None,
            metadata: None,
        };
        proof {
            assert(album.track_ids.deep_view() =~= seq![]);
            assert(album.genres.deep_view() =~= seq![]);
            assert(album.labels.deep_view() =~= seq![]);
        }
        self.albums_by_key.insert(key, id.duplicate());
        self.albums.insert(id.duplicate(), album);
        id
    }
}

/// Whether `ids` holds `id`.
fn has_album(ids: &Vec<AlbumId>, id: &AlbumId) -> (r: bool)
    ensures
        r == ids.deep_view().contains(id.deep_view()),
{
    let mut i: usize = 0;
    while i < ids.len()
        invariant
            i <= ids@.len(),
            forall|j: int| 0 <= j < i ==> ids.deep_view()[j] != id.deep_view(),
        decreases ids@.len() - i,
    {
        assert(ids.deep_view()[i as int] == ids@[i as int].deep_view());
        if same_text(&ids[i].0, &id.0) {
            return true;
        }
        i = i + 1;
    }
    false
}

/// Whether `ids` holds `id`.
fn has_track(ids: &Vec<TrackId>, id: &TrackId) -> (r: bool)
    ensures
        r == ids.deep_view().contains(id.deep_view()),
{
    let mut i: usize = 0;
    while i < ids.len()
        invariant
            i <= ids@.len(),
            forall|j: int| 0 <= j < i ==> ids.deep_view()[j] != id.deep_view(),
        decreases ids@.len() - i,
    {
        assert(ids.deep_view()[i as int] == ids@[i as int].deep_view());
        if same_text(&ids[i].0, &id.0) {
            return true;
        }
        i = i + 1;
    }
    false
}

/// The place in the library of the image beside the track at `track_path`, and its content type.
fn find_cover(
    sidecar_by_dir: &OrderedMap<FilePath, Option<FilePath>>,
    root: &FilePath,
    track_path: &FilePath,
) -> (r: Result<Option<(FilePath, String)>, Error>)
    ensures
        match r {
            Ok(Some((place, content_type))) => {
                &&& cover_place(
                    sidecar_by_dir.deep_view(),
                    root.deep_view(),
                    track_path.deep_view(),
                ) == Ok::<_, ErrorModel>(Some(place.deep_view()))
                &&& content_type@ == or_octets(
                    image_type(extension_text(root.deep_view() + place.deep_view())),
                )
            },
            Ok(None) => cover_place(
                sidecar_by_dir.deep_view(),
                root.deep_view(),
                track_path.deep_view(),
            ) == Ok::<Option<Seq<Seq<u8>>>, ErrorModel>(None),
            Err(error) => cover_place(
                sidecar_by_dir.deep_view(),
                root.deep_view(),
                track_path.deep_view(),
            ) == Err::<Option<Seq<Seq<u8>>>, _>(error.deep_view()),
        },
{
    let parent = match track_path.parent() {
        Some(parent) => parent,
        None => {
            return Ok(None);
        },
    };
    let sidecar = match sidecar_by_dir.get(&parent) {
        Some(Some(sidecar)) => sidecar,
        _ => {
            return Ok(None);
        },
    };
    match sidecar.below(root) {
        Some(place) => {
            assert(root.deep_view() + place.deep_view() =~= sidecar.deep_view());
            let content_type = match detect_image_content_type(sidecar) {
                Some(content_type) => content_type,
                None => "application/octet-stream".to_owned(),
            };
            Ok(Some((place, content_type)))
        },
        None => {
            let mut reason = "path outside music root: ".to_owned();
            push_text(&mut reason, &sidecar.text());
            Err(Error::InvalidRequest(reason))
        },
    }
}

impl LibraryBuilder {
    /// The id of the cover at `place`, which is added if missing.
    fn cover_art_for(
        &mut self,
        Ghost(root): Ghost<Seq<Seq<u8>>>,
        place: FilePath,
        content_type: String,
    ) -> (r: CoverArtId)
        requires
            old(self).deep_view().wf(),
            content_type@ == or_octets(image_type(extension_text(root + place.deep_view()))),
        ensures
            final(self).deep_view() == old(self).deep_view().with_cover(
                root,
                Some(place.deep_view()),
            ),
            final(self).deep_view().wf(),
            r.deep_view() == cover_id_of(place.deep_view()),
    {
        if let Some(existing) = self.cover_art_by_path.get(&place) {
            return existing.duplicate();
        }
        let mut text = "cover:".to_owned();
        push_text(&mut text, &place.text());
        let id = CoverArtId(slugify(&text));
        self.cover_art_by_path.insert(place.duplicate(), id.duplicate());
        self.cover_arts.insert(
            id.duplicate(),
            CoverArtSource::Sidecar { relative_path: place, content_type },
        );
        id
    }

    /// Adds a scanned track.
    pub fn add_track(&mut self, root: &FilePath, scanned: &ScannedTrack) -> (r: Result<(), Error>)
        requires
            old(self).deep_view().wf(),
        ensures
            final(self).deep_view().wf(),
            match r {
                Ok(()) => old(self).deep_view().added(root.deep_view(), scanned.deep_view())
                    == Ok::<_, ErrorModel>(final(self).deep_view()),
                Err(error) => {
                    &&& old(self).deep_view().added(root.deep_view(), scanned.deep_view())
                        == Err::<LibraryBuilderModel, _>(error.deep_view())
                    &&& final(self).deep_view() == old(self).deep_view().refused(
                        scanned.deep_view(),
                    )
                },
            },
    {
        let tags = match &scanned.tags {
            Some(tags) => tags,
            None => {
                let mut reason = "missing scanned tags for ".to_owned();
                push_text(&mut reason, &scanned.path.text());
                return Err(Error::InvalidRequest(reason));
            },
        };
        let ghost mut place: Option<Seq<Seq<u8>>> = None;
        let album_artist = match &tags.album_artist {
            Some(artist) => artist.clone(),
            None => tags.artist.clone(),
        };
        let artist_id = self.artist_id_for(&album_artist);
        let album_id = self.album_id_for(&album_artist, &tags.album);
        let mut text = album_artist.clone();
        push_text(&mut text, ":");
        push_text(&mut text, &tags.album);
        push_text(&mut text, ":");
        push_text(&mut text, &scanned.relative_path.text());
        let track_id = TrackId(slugify(&text));
        let cover = match find_cover(&self.sidecar_by_dir, root, &scanned.path) {
            Ok(cover) => cover,
            Err(error) => {
                return Err(error);
            },
        };
        let cover_art_id = match cover {
            Some((cover_path, content_type)) => {
                proof {
                    place = Some(cover_path.deep_view());
                }
                Some(self.cover_art_for(Ghost(root.deep_view()), cover_path, content_type))
            },
            None => None,
        };
        let ghost ready = self.deep_view();
        let track = Track {
            id: track_id.duplicate(),
            title: tags.title.clone(),
            artist: tags.artist.clone(),
            album: tags.album.clone(),
            album_artist: tags.album_artist.duplicate(),
            track_number: tags.track_number,
            disc_number: tags.disc_number,
            duration_seconds: tags.duration_seconds,
            bitrate: tags.bitrate,
            sample_rate: tags.sample_rate,
            channels: tags.channels,
            codec: tags.codec.duplicate(),
            genres: tags.genres.duplicate(),
            date: tags.date.duplicate(),
            musicbrainz_track_id: tags.musicbrainz_track_id.duplicate(),
            musicbrainz_recording_id: tags.musicbrainz_recording_id.duplicate(),
            musicbrainz_album_id: tags.musicbrainz_album_id.duplicate(),
            musicbrainz_release_group_id: tags.musicbrainz_release_group_id.duplicate(),
            cover_art_id: cover_art_id.duplicate(),
            suffix: None,
            relative_path: scanned.relative_path.duplicate(),
            file_size: scanned.file_size,
            modified_at: scanned.modified_at,
            content_type: detect_content_type(&scanned.path),
        };
        assert(track.deep_view() == track_of(scanned.deep_view(), tags.deep_view(), place));
        let mut artist = self.artists.remove(&artist_id).unwrap();
        let ghost artist_before = artist.deep_view();
        if !has_album(&artist.album_ids, &album_id) {
            artist.album_ids.push(album_id.duplicate());
            assert(artist.album_ids.deep_view() =~= artist_before.album_ids.push(
                album_id.deep_view(),
            ));
        }
        self.artists.insert(artist_id, artist);
        let mut album = self.albums.remove(&album_id).unwrap();
        let ghost album_before = album.deep_view();
        album.track_ids.push(track_id.duplicate());
        assert(album.track_ids.deep_view() =~= album_before.track_ids.push(track_id.deep_view()));
        merge_album_track_metadata(&mut album, &track, scanned.file_size, cover_art_id);
        self.albums.insert(album_id, album);
        self.tracks.insert(track_id, track);
        proof {
            let done = ready.with_track(
                slug(album_artist@),
                album_id_of((album_artist@, tags.album@)),
                track.deep_view(),
            );
            assert(self.deep_view().artists =~= done.artists);
            assert(self.deep_view().albums =~= done.albums);
            assert(self.deep_view().tracks =~= done.tracks);
            assert(self.deep_view() == done);
        }
        Ok(())
    }

    /// The finished library.
    pub fn build(self) -> (r: LibraryIndex)
        ensures
            r.deep_view() == (LibraryIndexModel {
                artists: self.deep_view().artists,
                albums: self.deep_view().albums,
                tracks: self.deep_view().tracks,
                cover_arts: self.deep_view().cover_arts,
            }),
    {
        LibraryIndex {
            artists: self.artists,
            albums: self.albums,
            tracks: self.tracks,
            cover_arts: self.cover_arts,
        }
    }
}

/// Adds the ids of `more` that are not there.
fn add_album_ids(ids: &mut Vec<AlbumId>, more: &Vec<AlbumId>)
    ensures
        final(ids).deep_view() == ids_union(old(ids).deep_view(), more.deep_view()),
{
    let ghost start = ids.deep_view();
    let mut i: usize = 0;
    assert(more.deep_view().take(0) =~= seq![]);
    while i < more.len()
        invariant
            i <= more@.len(),
            ids.deep_view() == ids_union(start, more.deep_view().take(i as int)),
        decreases more@.len() - i,
    {
        let ghost before = ids.deep_view();
        assert(more.deep_view().take(i + 1).drop_last() =~= more.deep_view().take(i as int));
        assert(more.deep_view().take(i + 1).last() == more@[i as int].deep_view());
        if !has_album(ids, &more[i]) {
            ids.push(more[i].duplicate());
            assert(ids.deep_view() =~= before.push(more@[i as int].deep_view()));
        }
        i = i + 1;
    }
    assert(more.deep_view().take(i as int) =~= more.deep_view());
}

/// Adds the tracks `ids` that the album does not have.
fn add_tracks(album: &mut Album, ids: &Vec<TrackId>, tracks: &OrderedMap<TrackId, Track>)
    ensures
        final(album).deep_view() == album_union(
            old(album).deep_view(),
            ids.deep_view(),
            tracks.deep_view(),
        ),
{
    let ghost start = album.deep_view();
    let mut i: usize = 0;
    assert(ids.deep_view().take(0) =~= seq![]);
    while i < ids.len()
        invariant
            i <= ids@.len(),
            album.deep_view() == album_union(
                start,
                ids.deep_view().take(i as int),
                tracks.deep_view(),
            ),
        decreases ids@.len() - i,
    {
        let ghost before = album.deep_view();
        assert(ids.deep_view().take(i + 1).drop_last() =~= ids.deep_view().take(i as int));
        assert(ids.deep_view().take(i + 1).last() == ids@[i as int].deep_view());
        if let Some(track) = tracks.get(&ids[i]) {
            if !has_track(&album.track_ids, &ids[i]) {
                album.track_ids.push(ids[i].duplicate());
                assert(album.track_ids.deep_view() =~= before.track_ids.push(
                    ids@[i as int].deep_view(),
                ));
                merge_album_track_metadata(
                    album,
                    track,
                    track.file_size,
                    track.cover_art_id.duplicate(),
                );
            }
        }
        i = i + 1;
    }
    assert(ids.deep_view().take(i as int) =~= ids.deep_view());
}

/// Adds the artists of another library.
fn merge_artists(
    artists: &mut OrderedMap<ArtistId, Artist>,
    other: OrderedMap<ArtistId, Artist>,
)
    ensures
        final(artists).deep_view() == all_artists(old(artists).deep_view(), other.deep_view()),
{
    let ghost start = artists.deep_view();
    let ghost entries = other.entries();
    let (mut keys, mut values) = other.into_parts();
    let ghost all_keys = keys@;
    let ghost all_values = values@;
    proof {
        assert(map_of(entries.skip(entries.len() as int)) =~= Map::empty());
        assert(all_artists(start, map_of(entries.skip(entries.len() as int))) =~= start);
        assert(all_keys.take(entries.len() as int) =~= all_keys);
        assert(all_values.take(entries.len() as int) =~= all_values);
    }
    while keys.len() > 0
        invariant
            keys@.len() <= entries.len(),
            all_keys.len() == entries.len(),
            all_values.len() == entries.len(),
            keys@ == all_keys.take(keys@.len() as int),
            values@ == all_values.take(keys@.len() as int),
            ascending::<ArtistId, ArtistModel>(entries),
            forall|i: int|
                0 <= i < entries.len() ==> #[trigger] entries[i] == (
                    all_keys[i].deep_view(),
                    all_values[i].deep_view(),
                ),
            artists.deep_view() == all_artists(start, map_of(entries.skip(keys@.len() as int))),
        decreases keys@.len(),
    {
        let ghost n = keys@.len() as int;
        let key = keys.pop().unwrap();
        let value = values.pop().unwrap();
        let ghost rest = map_of(entries.skip(n));
        proof {
            assert(key == all_keys[n - 1]);
            assert(value == all_values[n - 1]);
            assert(keys@ =~= all_keys.take(n - 1));
            assert(values@ =~= all_values.take(n - 1));
            lemma_map_of_skip::<ArtistId, ArtistModel>(entries, n);
            assert(entries[n - 1] == (key.deep_view(), value.deep_view()));
        }
        let mut target = match artists.remove(&key) {
            Some(artist) => artist,
            None => {
                let fresh = Artist {
                    id: key.duplicate(),
                    name: value.name.clone(),
                    album_ids: Vec::new(),
                };
                assert(fresh.album_ids.deep_view() =~= seq![]);
                fresh
            },
        };
        add_album_ids(&mut target.album_ids, &value.album_ids);
        artists.insert(key, target);
        proof {
            let next = rest.insert(key.deep_view(), value.deep_view());
            assert(artist_in_both(start, rest, key.deep_view()) == start[key.deep_view()]
                || !start.dom().contains(key.deep_view()));
            assert(artists.deep_view() =~= all_artists(start, next));
        }
    }
    assert(entries.skip(0) =~= entries);
}

/// Adds the albums of another library, whose tracks are `tracks`.
fn merge_albums(
    albums: &mut OrderedMap<AlbumId, Album>,
    other: OrderedMap<AlbumId, Album>,
    tracks: &OrderedMap<TrackId, Track>,
)
    ensures
        final(albums).deep_view() == all_albums(
            old(albums).deep_view(),
            other.deep_view(),
            tracks.deep_view(),
        ),
{
    let ghost start = albums.deep_view();
    let ghost entries = other.entries();
    let (mut keys, mut values) = other.into_parts();
    let ghost all_keys = keys@;
    let ghost all_values = values@;
    proof {
        assert(map_of(entries.skip(entries.len() as int)) =~= Map::empty());
        assert(all_albums(start, map_of(entries.skip(entries.len() as int)), tracks.deep_view())
            =~= start);
        assert(all_keys.take(entries.len() as int) =~= all_keys);
        assert(all_values.take(entries.len() as int) =~= all_values);
    }
    while keys.len() > 0
        invariant
            keys@.len() <= entries.len(),
            all_keys.len() == entries.len(),
            all_values.len() == entries.len(),
            keys@ == all_keys.take(keys@.len() as int),
            values@ == all_values.take(keys@.len() as int),
            ascending::<AlbumId, AlbumModel>(entries),
            forall|i: int|
                0 <= i < entries.len() ==> #[trigger] entries[i] == (
                    all_keys[i].deep_view(),
                    all_values[i].deep_view(),
                ),
            albums.deep_view() == all_albums(
                start,
                map_of(entries.skip(keys@.len() as int)),
                tracks.deep_view(),
            ),
        decreases keys@.len(),
    {
        let ghost n = keys@.len() as int;
        let key = keys.pop().unwrap();
        let value = values.pop().unwrap();
        let ghost rest = map_of(entries.skip(n));
        proof {
            assert(key == all_keys[n - 1]);
            assert(value == all_values[n - 1]);
            assert(keys@ =~= all_keys.take(n - 1));
            assert(values@ =~= all_values.take(n - 1));
            lemma_map_of_skip::<AlbumId, AlbumModel>(entries, n);
            assert(entries[n - 1] == (key.deep_view(), value.deep_view()));
        }
        let ghost next = rest.insert(key.deep_view(), value.deep_view());
        match albums.remove(&key) {
            Some(mut target) => {
                add_tracks(&mut target, &value.track_ids, tracks);
                albums.insert(key, target);
            },
            None => {
                albums.insert(key, value);
            },
        }
        assert(albums.deep_view() =~= all_albums(start, next, tracks.deep_view()));
    }
    assert(entries.skip(0) =~= entries);
}

/// Two libraries in one keep the ids of their names.
pub proof fn lemma_merged_wf(first: LibraryBuilderModel, second: LibraryBuilderModel)
    requires
        first.wf(),
        second.wf(),
    ensures
        first.merged(second).wf(),
{
    let m = first.merged(second);
    assert forall|name: Seq<char>| #[trigger] m.artists_by_name.dom().contains(name) implies
        m.artists_by_name[name]
        == slug(name) && m.artists.dom().contains(slug(name)) by {
        if first.artists_by_name.dom().contains(name) {
            assert(first.artists.dom().contains(slug(name)));
        } else {
            assert(second.artists_by_name.dom().contains(name));
        }
    }
    assert forall|key: (Seq<char>, Seq<char>)| #[trigger] m.albums_by_key.dom().contains(key) implies
        m.albums_by_key[key]
        == album_id_of(key) && m.albums.dom().contains(album_id_of(key)) by {
        if first.albums_by_key.dom().contains(key) {
            assert(first.albums.dom().contains(album_id_of(key)));
        } else {
            assert(second.albums_by_key.dom().contains(key));
        }
    }
    assert forall|place: Seq<Seq<u8>>| #[trigger] m.cover_art_by_path.dom().contains(place) implies
        m.cover_art_by_path[place]
        == cover_id_of(place) by {
        if !first.cover_art_by_path.dom().contains(place) {
            assert(second.cover_art_by_path.dom().contains(place));
        }
    }
}

impl LibraryBuilder {
    /// Adds what another library holds.
    pub fn merge(&mut self, other: LibraryBuilder)
        requires
            old(self).deep_view().wf(),
            other.deep_view().wf(),
        ensures
            final(self).deep_view() == old(self).deep_view().merged(other.deep_view()),
            final(self).deep_view().wf(),
    {
        let LibraryBuilder {
            artists_by_name,
            albums_by_key,
            cover_art_by_path,
            sidecar_by_dir: _,
            artists,
            albums,
            tracks,
            cover_arts,
        } = other;
        self.cover_art_by_path.add_missing(cover_art_by_path);
        self.cover_arts.add_missing(cover_arts);
        merge_artists(&mut self.artists, artists);
        self.albums_by_key.add_missing(albums_by_key);
        self.artists_by_name.add_missing(artists_by_name);
        merge_albums(&mut self.albums, albums, &tracks);
        self.tracks.add_missing(tracks);
        proof {
            lemma_merged_wf(old(self).deep_view(), other.deep_view());
        }
    }
}

} // verus!
