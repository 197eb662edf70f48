//! The requests and responses that the backend and its frontends exchange.

use vstd::prelude::*;

use crate::duplicate::Duplicate;
use crate::ordered_map::OrderedKey;
use crate::path::FilePath;
use crate::text::{
    lemma_text_less_irreflexive, lemma_text_less_total, lemma_text_less_transitive, text_before,
    text_less,
};
use crate::utf8::copy_bytes;

verus! {

/// The protocol name under which the backend accepts connections.
pub fn iroh_alpn() -> (r: Vec<u8>)
    ensures
        r@ == seq![105u8, 114u8, 111u8, 104u8, 105u8, 102u8, 105u8, 47u8, 49u8],
{
    vec![105u8, 114u8, 111u8, 104u8, 105u8, 102u8, 105u8, 47u8, 49u8]
}

/// A point in time, counted from the Unix epoch.
#[derive(Debug, Clone, Copy, PartialEq, Eq)]
pub struct FileTime {
    pub seconds: u64,
    pub nanoseconds: u32,
}

/// Names an artist of the library.
#[derive(Debug, PartialEq, Eq, PartialOrd, Ord, Hash)]
pub struct ArtistId(pub String);

impl DeepView for ArtistId {
    type V = Seq<char>;

    open spec fn deep_view(&self) -> Seq<char> {
        self.0@
    }
}

impl Duplicate for ArtistId {
    fn duplicate(&self) -> (r: Self) {
        ArtistId(self.0.clone())
    }
}

impl Clone for ArtistId {
    fn clone(&self) -> (r: Self)
        ensures
            r.deep_view() == self.deep_view(),
    {
        self.duplicate()
    }
}

impl OrderedKey for ArtistId {
    open spec fn less(a: Seq<char>, b: Seq<char>) -> bool {
        text_less(a, b)
    }

    proof fn less_irreflexive(a: Seq<char>) {
        lemma_text_less_irreflexive(a);
    }

    proof fn less_transitive(a: Seq<char>, b: Seq<char>, c: Seq<char>) {
        lemma_text_less_transitive(a, b, c);
    }

    proof fn less_total(a: Seq<char>, b: Seq<char>) {
        lemma_text_less_total(a, b);
    }

    fn before(&self, other: &Self) -> (r: bool) {
        text_before(&self.0, &other.0)
    }
}

/// Names an album of the library.
#[derive(Debug, PartialEq, Eq, PartialOrd, Ord, Hash)]
pub struct AlbumId(pub String);

impl DeepView for AlbumId {
    type V = Seq<char>;

    open spec fn deep_view(&self) -> Seq<char> {
        self.0@
    }
}

impl Duplicate for AlbumId {
    fn duplicate(&self) -> (r: Self) {
        AlbumId(self.0.clone())
    }
}

impl Clone for AlbumId {
    fn clone(&self) -> (r: Self)
        ensures
            r.deep_view() == self.deep_view(),
    {
        self.duplicate()
    }
}

impl OrderedKey for AlbumId {
    open spec fn less(a: Seq<char>, b: Seq<char>) -> bool {
        text_less(a, b)
    }

    proof fn less_irreflexive(a: Seq<char>) {
        lemma_text_less_irreflexive(a);
    }

    proof fn less_transitive(a: Seq<char>, b: Seq<char>, c: Seq<char>) {
        lemma_text_less_transitive(a, b, c);
    }

    proof fn less_total(a: Seq<char>, b: Seq<char>) {
        lemma_text_less_total(a, b);
    }

    fn before(&self, other: &Self) -> (r: bool) {
        text_before(&self.0, &other.0)
    }
}

/// Names a track of the library.
#[derive(Debug, PartialEq, Eq, PartialOrd, Ord, Hash)]
pub struct TrackId(pub String);

impl DeepView for TrackId {
    type V = Seq<char>;

    open spec fn deep_view(&self) -> Seq<char> {
        self.0@
    }
}

impl Duplicate for TrackId {
    fn duplicate(&self) -> (r: Self) {
        TrackId(self.0.clone())
    }
}

impl Clone for TrackId {
    fn clone(&self) -> (r: Self)
        ensures
            r.deep_view() == self.deep_view(),
    {
        self.duplicate()
    }
}

impl OrderedKey for TrackId {
    open spec fn less(a: Seq<char>, b: Seq<char>) -> bool {
        text_less(a, b)
    }

    proof fn less_irreflexive(a: Seq<char>) {
        lemma_text_less_irreflexive(a);
    }

    proof fn less_transitive(a: Seq<char>, b: Seq<char>, c: Seq<char>) {
        lemma_text_less_transitive(a, b, c);
    }

    proof fn less_total(a: Seq<char>, b: Seq<char>) {
        lemma_text_less_total(a, b);
    }

    fn before(&self, other: &Self) -> (r: bool) {
        text_before(&self.0, &other.0)
    }
}

/// Names a cover image of the library.
#[derive(Debug, PartialEq, Eq, PartialOrd, Ord, Hash)]
pub struct CoverArtId(pub String);

impl DeepView for CoverArtId {
    type V = Seq<char>;

    open spec fn deep_view(&self) -> Seq<char> {
        self.0@
    }
}

impl Duplicate for CoverArtId {
    fn duplicate(&self) -> (r: Self) {
        CoverArtId(self.0.clone())
    }
}

impl Clone for CoverArtId {
    fn clone(&self) -> (r: Self)
        ensures
            r.deep_view() == self.deep_view(),
    {
        self.duplicate()
    }
}

impl OrderedKey for CoverArtId {
    open spec fn less(a: Seq<char>, b: Seq<char>) -> bool {
        text_less(a, b)
    }

    proof fn less_irreflexive(a: Seq<char>) {
        lemma_text_less_irreflexive(a);
    }

    proof fn less_transitive(a: Seq<char>, b: Seq<char>, c: Seq<char>) {
        lemma_text_less_transitive(a, b, c);
    }

    proof fn less_total(a: Seq<char>, b: Seq<char>) {
        lemma_text_less_total(a, b);
    }

    fn before(&self, other: &Self) -> (r: bool) {
        text_before(&self.0, &other.0)
    }
}

/// An artist with its albums.
#[derive(Debug)]
pub struct Artist {
    pub id: ArtistId,
    pub name: String,
    pub album_ids: Vec<AlbumId>,
}

/// The mathematical value of an [`Artist`].
pub struct ArtistModel {
    pub id: Seq<char>,
    pub name: Seq<char>,
    pub album_ids: Seq<Seq<char>>,
}

impl DeepView for Artist {
    type V = ArtistModel;

    open spec fn deep_view(&self) -> ArtistModel {
        ArtistModel {
            id: self.id.deep_view(),
            name: self.name@,
            album_ids: self.album_ids.deep_view(),
        }
    }
}

impl Duplicate for Artist {
    fn duplicate(&self) -> (r: Self) {
        Artist {
            id: self.id.duplicate(),
            name: self.name.clone(),
            album_ids: self.album_ids.duplicate(),
        }
    }
}

impl Clone for Artist {
    fn clone(&self) -> (r: Self)
        ensures
            r.deep_view() == self.deep_view(),
    {
        self.duplicate()
    }
}

/// What a metadata service knows of an album.
#[derive(Debug)]
pub struct AlbumMetadata {
    pub lastfm_url: Option<String>,
    pub lastfm_mbid: Option<String>,
    pub published: Option<String>,
    pub summary: Option<String>,
    pub image_url: Option<String>,
    pub tags: Vec<String>,
    pub listeners: Option<u64>,
    pub playcount: Option<u64>,
}

/// The mathematical value of an [`AlbumMetadata`].
pub struct AlbumMetadataModel {
    pub lastfm_url: Option<Seq<char>>,
    pub lastfm_mbid: Option<Seq<char>>,
    pub published: Option<Seq<char>>,
    pub summary: Option<Seq<char>>,
    pub image_url: Option<Seq<char>>,
    pub tags: Seq<Seq<char>>,
    pub listeners: Option<u64>,
    pub playcount: Option<u64>,
}

impl DeepView for AlbumMetadata {
    type V = AlbumMetadataModel;

    open spec fn deep_view(&self) -> AlbumMetadataModel {
        AlbumMetadataModel {
            lastfm_url: self.lastfm_url.deep_view(),
            lastfm_mbid: self.lastfm_mbid.deep_view(),
            published: self.published.deep_view(),
            summary: self.summary.deep_view(),
            image_url: self.image_url.deep_view(),
            tags: self.tags.deep_view(),
            listeners: self.listeners,
            playcount: self.playcount,
        }
    }
}

impl Duplicate for AlbumMetadata {
    fn duplicate(&self) -> (r: Self) {
        AlbumMetadata {
            lastfm_url: self.lastfm_url.duplicate(),
            lastfm_mbid: self.lastfm_mbid.duplicate(),
            published: self.published.duplicate(),
            summary: self.summary.duplicate(),
            image_url: self.image_url.duplicate(),
            tags: self.tags.duplicate(),
            listeners: self.listeners,
            playcount: self.playcount,
        }
    }
}

impl Clone for AlbumMetadata {
    fn clone(&self) -> (r: Self)
        ensures
            r.deep_view() == self.deep_view(),
    {
        self.duplicate()
    }
}

/// An album with its tracks and what they say of it.
#[derive(Debug)]
pub struct Album {
    pub id: AlbumId,
    pub title: String,
    pub artist: String,
    pub album_artist: Option<String>,
    pub track_ids: Vec<TrackId>,
    pub date: Option<String>,
    pub original_date: Option<String>,
    pub year: Option<i32>,
    pub genres: Vec<String>,
    pub labels: Vec<String>,
    pub catalog_number: Option<String>,
    pub comment: Option<String>,
    pub musicbrainz_album_id: Option<String>,
    pub musicbrainz_release_group_id: Option<String>,
    pub disc_count: Option<u32>,
    pub duration_seconds: Option<u32>,
    pub size_bytes: u64,
    pub cover_art_id: Option<CoverArtId>,
    pub metadata: Option<AlbumMetadata>,
}

/// The mathematical value of an [`Album`].
pub struct AlbumModel {
    pub id: Seq<char>,
    pub title: Seq<char>,
    pub artist: Seq<char>,
    pub album_artist: Option<Seq<char>>,
    pub track_ids: Seq<Seq<char>>,
    pub date: Option<Seq<char>>,
    pub original_date: Option<Seq<char>>,
    pub year: Option<i32>,
    pub genres: Seq<Seq<char>>,
    pub labels: Seq<Seq<char>>,
    pub catalog_number: Option<Seq<char>>,
    pub comment: Option<Seq<char>>,
    pub musicbrainz_album_id: Option<Seq<char>>,
    pub musicbrainz_release_group_id: Option<Seq<char>>,
    pub disc_count: Option<u32>,
    pub duration_seconds: Option<u32>,
    pub size_bytes: u64,
    pub cover_art_id: Option<Seq<char>>,
    pub metadata: Option<AlbumMetadataModel>,
}

impl DeepView for Album {
    type V = AlbumModel;

    open spec fn deep_view(&self) -> AlbumModel {
        AlbumModel {
            id: self.id.deep_view(),
            title: self.title@,
            artist: self.artist@,
            album_artist: self.album_artist.deep_view(),
            track_ids: self.track_ids.deep_view(),
            date: self.date.deep_view(),
            original_date: self.original_date.deep_view(),
            year: self.year,
            genres: self.genres.deep_view(),
            labels: self.labels.deep_view(),
            catalog_number: self.catalog_number.deep_view(),
            comment: self.comment.deep_view(),
            musicbrainz_album_id: self.musicbrainz_album_id.deep_view(),
            musicbrainz_release_group_id: self.musicbrainz_release_group_id.deep_view(),
            disc_count: self.disc_count,
            duration_seconds: self.duration_seconds,
            size_bytes: self.size_bytes,
            cover_art_id: self.cover_art_id.deep_view(),
            metadata: self.metadata.deep_view(),
        }
    }
}

impl Duplicate for Album {
    fn duplicate(&self) -> (r: Self) {
        Album {
            id: self.id.duplicate(),
            title: self.title.clone(),
            artist: self.artist.clone(),
            album_artist: self.album_artist.duplicate(),
            track_ids: self.track_ids.duplicate(),
            date: self.date.duplicate(),
            original_date: self.original_date.duplicate(),
            year: self.year,
            genres: self.genres.duplicate(),
            labels: self.labels.duplicate(),
            catalog_number: self.catalog_number.duplicate(),
            comment: self.comment.duplicate(),
            musicbrainz_album_id: self.musicbrainz_album_id.duplicate(),
            musicbrainz_release_group_id: self.musicbrainz_release_group_id.duplicate(),
            disc_count: self.disc_count,
            duration_seconds: self.duration_seconds,
            size_bytes: self.size_bytes,
            cover_art_id: self.cover_art_id.duplicate(),
            metadata: self.metadata.duplicate(),
        }
    }
}

impl Clone for Album {
    fn clone(&self) -> (r: Self)
        ensures
            r.deep_view() == self.deep_view(),
    {
        self.duplicate()
    }
}

/// A track: its tags, its file and the cover image that belongs to it.
#[derive(Debug)]
pub struct Track {
    pub id: TrackId,
    pub title: String,
    pub artist: String,
    pub album: String,
    pub album_artist: Option<String>,
    pub track_number: Option<u32>,
    pub disc_number: Option<u32>,
    pub duration_seconds: Option<u32>,
    pub bitrate: Option<u32>,
    pub sample_rate: Option<u32>,
    pub channels: Option<u32>,
    pub codec: Option<String>,
    pub genres: Vec<String>,
    pub date: Option<String>,
    pub musicbrainz_track_id: Option<String>,
    pub musicbrainz_recording_id: Option<String>,
    pub musicbrainz_album_id: Option<String>,
    pub musicbrainz_release_group_id: Option<String>,
    pub cover_art_id: Option<CoverArtId>,
    pub suffix: Option<String>,
    pub relative_path: FilePath,
    pub file_size: u64,
    pub modified_at: FileTime,
    pub content_type: String,
}

/// The mathematical value of a [`Track`].
pub struct TrackModel {
    pub id: Seq<char>,
    pub title: Seq<char>,
    pub artist: Seq<char>,
    pub album: Seq<char>,
    pub album_artist: Option<Seq<char>>,
    pub track_number: Option<u32>,
    pub disc_number: Option<u32>,
    pub duration_seconds: Option<u32>,
    pub bitrate: Option<u32>,
    pub sample_rate: Option<u32>,
    pub channels: Option<u32>,
    pub codec: Option<Seq<char>>,
    pub genres: Seq<Seq<char>>,
    pub date: Option<Seq<char>>,
    pub musicbrainz_track_id: Option<Seq<char>>,
    pub musicbrainz_recording_id: Option<Seq<char>>,
    pub musicbrainz_album_id: Option<Seq<char>>,
    pub musicbrainz_release_group_id: Option<Seq<char>>,
    pub cover_art_id: Option<Seq<char>>,
    pub suffix: Option<Seq<char>>,
    pub relative_path: Seq<Seq<u8>>,
    pub file_size: u64,
    pub modified_at: FileTime,
    pub content_type: Seq<char>,
}

impl DeepView for Track {
    type V = TrackModel;

    open spec fn deep_view(&self) -> TrackModel {
        TrackModel {
            id: self.id.deep_view(),
            title: self.title@,
            artist: self.artist@,
            album: self.album@,
            album_artist: self.album_artist.deep_view(),
            track_number: self.track_number,
            disc_number: self.disc_number,
            duration_seconds: self.duration_seconds,
            bitrate: self.bitrate,
            sample_rate: self.sample_rate,
            channels: self.channels,
            codec: self.codec.deep_view(),
            genres: self.genres.deep_view(),
            date: self.date.deep_view(),
            musicbrainz_track_id: self.musicbrainz_track_id.deep_view(),
            musicbrainz_recording_id: self.musicbrainz_recording_id.deep_view(),
            musicbrainz_album_id: self.musicbrainz_album_id.deep_view(),
            musicbrainz_release_group_id: self.musicbrainz_release_group_id.deep_view(),
            cover_art_id: self.cover_art_id.deep_view(),
            suffix: self.suffix.deep_view(),
            relative_path: self.relative_path.deep_view(),
            file_size: self.file_size,
            modified_at: self.modified_at,
            content_type: self.content_type@,
        }
    }
}

impl Duplicate for Track {
    fn duplicate(&self) -> (r: Self) {
        Track {
            id: self.id.duplicate(),
            title: self.title.clone(),
            artist: self.artist.clone(),
            album: self.album.clone(),
            album_artist: self.album_artist.duplicate(),
            track_number: self.track_number,
            disc_number: self.disc_number,
            duration_seconds: self.duration_seconds,
            bitrate: self.bitrate,
            sample_rate: self.sample_rate,
            channels: self.channels,
            codec: self.codec.duplicate(),
            genres: self.genres.duplicate(),
            date: self.date.duplicate(),
            musicbrainz_track_id: self.musicbrainz_track_id.duplicate(),
            musicbrainz_recording_id: self.musicbrainz_recording_id.duplicate(),
            musicbrainz_album_id: self.musicbrainz_album_id.duplicate(),
            musicbrainz_release_group_id: self.musicbrainz_release_group_id.duplicate(),
            cover_art_id: self.cover_art_id.duplicate(),
            suffix: self.suffix.duplicate(),
            relative_path: self.relative_path.duplicate(),
            file_size: self.file_size,
            modified_at: self.modified_at,
            content_type: self.content_type.clone(),
        }
    }
}

impl Clone for Track {
    fn clone(&self) -> (r: Self)
        ensures
            r.deep_view() == self.deep_view(),
    {
        self.duplicate()
    }
}

/// What to search for, and how many hits of each kind to return.
#[derive(Debug)]
pub struct SearchQuery {
    pub term: String,
    pub limit: usize,
}

/// The mathematical value of a [`SearchQuery`].
pub struct SearchQueryModel {
    pub term: Seq<char>,
    pub limit: usize,
}

impl DeepView for SearchQuery {
    type V = SearchQueryModel;

    open spec fn deep_view(&self) -> SearchQueryModel {
        SearchQueryModel {
            term: self.term@,
            limit: self.limit,
        }
    }
}

impl Duplicate for SearchQuery {
    fn duplicate(&self) -> (r: Self) {
        SearchQuery {
            term: self.term.clone(),
            limit: self.limit,
        }
    }
}

impl Clone for SearchQuery {
    fn clone(&self) -> (r: Self)
        ensures
            r.deep_view() == self.deep_view(),
    {
        self.duplicate()
    }
}

/// What a client is told before the audio of a track is sent.
#[derive(Debug)]
pub struct StreamDescriptor {
    pub track_id: TrackId,
    pub path: FilePath,
    pub content_type: String,
    pub file_size: u64,
}

/// The mathematical value of a [`StreamDescriptor`].
pub struct StreamDescriptorModel {
    pub track_id: Seq<char>,
    pub path: Seq<Seq<u8>>,
    pub content_type: Seq<char>,
    pub file_size: u64,
}

impl DeepView for StreamDescriptor {
    type V = StreamDescriptorModel;

    open spec fn deep_view(&self) -> StreamDescriptorModel {
        StreamDescriptorModel {
            track_id: self.track_id.deep_view(),
            path: self.path.deep_view(),
            content_type: self.content_type@,
            file_size: self.file_size,
        }
    }
}

impl Duplicate for StreamDescriptor {
    fn duplicate(&self) -> (r: Self) {
        StreamDescriptor {
            track_id: self.track_id.duplicate(),
            path: self.path.duplicate(),
            content_type: self.content_type.clone(),
            file_size: self.file_size,
        }
    }
}

impl Clone for StreamDescriptor {
    fn clone(&self) -> (r: Self)
        ensures
            r.deep_view() == self.deep_view(),
    {
        self.duplicate()
    }
}

/// A cover image.
#[derive(Debug)]
pub struct CoverArtBytes {
    pub cover_art_id: CoverArtId,
    pub content_type: String,
    pub bytes: Vec<u8>,
}

/// The mathematical value of a [`CoverArtBytes`].
pub struct CoverArtBytesModel {
    pub cover_art_id: Seq<char>,
    pub content_type: Seq<char>,
    pub bytes: Seq<u8>,
}

impl DeepView for CoverArtBytes {
    type V = CoverArtBytesModel;

    open spec fn deep_view(&self) -> CoverArtBytesModel {
        CoverArtBytesModel {
            cover_art_id: self.cover_art_id.deep_view(),
            content_type: self.content_type@,
            bytes: self.bytes@,
        }
    }
}

impl Duplicate for CoverArtBytes {
    fn duplicate(&self) -> (r: Self) {
        CoverArtBytes {
            cover_art_id: self.cover_art_id.duplicate(),
            content_type: self.content_type.clone(),
            bytes: copy_bytes(&self.bytes),
        }
    }
}

impl Clone for CoverArtBytes {
    fn clone(&self) -> (r: Self)
        ensures
            r.deep_view() == self.deep_view(),
    {
        self.duplicate()
    }
}

/// What has been starred, each kind with the latest first.
#[derive(Debug)]
pub struct StarredSet {
    pub artists: Vec<Artist>,
    pub albums: Vec<Album>,
    pub tracks: Vec<Track>,
}

/// The mathematical value of a [`StarredSet`].
pub struct StarredSetModel {
    pub artists: Seq<ArtistModel>,
    pub albums: Seq<AlbumModel>,
    pub tracks: Seq<TrackModel>,
}

impl DeepView for StarredSet {
    type V = StarredSetModel;

    open spec fn deep_view(&self) -> StarredSetModel {
        StarredSetModel {
            artists: self.artists.deep_view(),
            albums: self.albums.deep_view(),
            tracks: self.tracks.deep_view(),
        }
    }
}

impl Duplicate for StarredSet {
    fn duplicate(&self) -> (r: Self) {
        StarredSet {
            artists: self.artists.duplicate(),
            albums: self.albums.duplicate(),
            tracks: self.tracks.duplicate(),
        }
    }
}

impl Clone for StarredSet {
    fn clone(&self) -> (r: Self)
        ensures
            r.deep_view() == self.deep_view(),
    {
        self.duplicate()
    }
}

/// What an id names.
#[derive(Debug)]
pub enum ResolvedId {
    Artist(Artist),
    Album(Album),
    Track(Track),
}

/// The mathematical value of a [`ResolvedId`].
pub enum ResolvedIdModel {
    Artist(ArtistModel),
    Album(AlbumModel),
    Track(TrackModel),
}

impl DeepView for ResolvedId {
    type V = ResolvedIdModel;

    open spec fn deep_view(&self) -> ResolvedIdModel {
        match self {
            ResolvedId::Artist(x) => ResolvedIdModel::Artist(x.deep_view()),
            ResolvedId::Album(x) => ResolvedIdModel::Album(x.deep_view()),
            ResolvedId::Track(x) => ResolvedIdModel::Track(x.deep_view()),
        }
    }
}

impl Duplicate for ResolvedId {
    fn duplicate(&self) -> (r: Self) {
        match self {
            ResolvedId::Artist(x) => ResolvedId::Artist(x.duplicate()),
            ResolvedId::Album(x) => ResolvedId::Album(x.duplicate()),
            ResolvedId::Track(x) => ResolvedId::Track(x.duplicate()),
        }
    }
}

impl Clone for ResolvedId {
    fn clone(&self) -> (r: Self)
        ensures
            r.deep_view() == self.deep_view(),
    {
        self.duplicate()
    }
}

/// A request to the backend.
#[derive(Debug)]
pub enum BackendRequest {
    GetLibrarySummary,
    ListArtists,
    GetStarred,
    SetStarred { id: String, starred: bool },
    GetArtist { artist_id: ArtistId },
    GetAlbum { album_id: AlbumId },
    GetAlbumTracks { album_id: AlbumId },
    GetTrack { track_id: TrackId },
    GetCoverArt { cover_art_id: CoverArtId },
    ResolveId { id: String },
    Search { query: SearchQuery },
    OpenStream { track_id: TrackId },
}

/// The mathematical value of a [`BackendRequest`].
pub enum BackendRequestModel {
    GetLibrarySummary,
    ListArtists,
    GetStarred,
    SetStarred { id: Seq<char>, starred: bool },
    GetArtist { artist_id: Seq<char> },
    GetAlbum { album_id: Seq<char> },
    GetAlbumTracks { album_id: Seq<char> },
    GetTrack { track_id: Seq<char> },
    GetCoverArt { cover_art_id: Seq<char> },
    ResolveId { id: Seq<char> },
    Search { query: SearchQueryModel },
    OpenStream { track_id: Seq<char> },
}

impl DeepView for BackendRequest {
    type V = BackendRequestModel;

    open spec fn deep_view(&self) -> BackendRequestModel {
        match self {
            BackendRequest::GetLibrarySummary => BackendRequestModel::GetLibrarySummary,
            BackendRequest::ListArtists => BackendRequestModel::ListArtists,
            BackendRequest::GetStarred => BackendRequestModel::GetStarred,
            BackendRequest::SetStarred { id, starred } => BackendRequestModel::SetStarred {
                id: id@,
                starred: *starred,
            },
            BackendRequest::GetArtist { artist_id } => BackendRequestModel::GetArtist {
                artist_id: artist_id.deep_view(),
            },
            BackendRequest::GetAlbum { album_id } => BackendRequestModel::GetAlbum {
                album_id: album_id.deep_view(),
            },
            BackendRequest::GetAlbumTracks { album_id } => BackendRequestModel::GetAlbumTracks {
                album_id: album_id.deep_view(),
            },
            BackendRequest::GetTrack { track_id } => BackendRequestModel::GetTrack {
                track_id: track_id.deep_view(),
            },
            BackendRequest::GetCoverArt { cover_art_id } => BackendRequestModel::GetCoverArt {
                cover_art_id: cover_art_id.deep_view(),
            },
            BackendRequest::ResolveId { id } => BackendRequestModel::ResolveId {
                id: id@,
            },
            BackendRequest::Search { query } => BackendRequestModel::Search {
                query: query.deep_view(),
            },
            BackendRequest::OpenStream { track_id } => BackendRequestModel::OpenStream {
                track_id: track_id.deep_view(),
            },
        }
    }
}

impl Duplicate for BackendRequest {
    fn duplicate(&self) -> (r: Self) {
        match self {
            BackendRequest::GetLibrarySummary => BackendRequest::GetLibrarySummary,
            BackendRequest::ListArtists => BackendRequest::ListArtists,
            BackendRequest::GetStarred => BackendRequest::GetStarred,
            BackendRequest::SetStarred { id, starred } => BackendRequest::SetStarred {
                id: id.clone(),
                starred: *starred,
            },
            BackendRequest::GetArtist { artist_id } => BackendRequest::GetArtist {
                artist_id: artist_id.duplicate(),
            },
            BackendRequest::GetAlbum { album_id } => BackendRequest::GetAlbum {
                album_id: album_id.duplicate(),
            },
            BackendRequest::GetAlbumTracks { album_id } => BackendRequest::GetAlbumTracks {
                album_id: album_id.duplicate(),
            },
            BackendRequest::GetTrack { track_id } => BackendRequest::GetTrack {
                track_id: track_id.duplicate(),
            },
            BackendRequest::GetCoverArt { cover_art_id } => BackendRequest::GetCoverArt {
                cover_art_id: cover_art_id.duplicate(),
            },
            BackendRequest::ResolveId { id } => BackendRequest::ResolveId {
                id: id.clone(),
            },
            BackendRequest::Search { query } => BackendRequest::Search {
                query: query.duplicate(),
            },
            BackendRequest::OpenStream { track_id } => BackendRequest::OpenStream {
                track_id: track_id.duplicate(),
            },
        }
    }
}

impl Clone for BackendRequest {
    fn clone(&self) -> (r: Self)
        ensures
            r.deep_view() == self.deep_view(),
    {
        self.duplicate()
    }
}

/// The answer of the backend to a request.
#[derive(Debug)]
pub enum BackendResponse {
    Error { message: String },
    LibrarySummary { artist_count: usize, album_count: usize, track_count: usize },
    Artists(Vec<Artist>),
    Artist(Artist),
    Album(Album),
    Tracks(Vec<Track>),
    Track(Track),
    CoverArt(CoverArtBytes),
    ResolvedId(ResolvedId),
    Starred(StarredSet),
    SearchResults { artists: Vec<Artist>, albums: Vec<Album>, tracks: Vec<Track> },
    Stream(StreamDescriptor),
    Empty,
}

/// The mathematical value of a [`BackendResponse`].
pub enum BackendResponseModel {
    Error { message: Seq<char> },
    LibrarySummary { artist_count: usize, album_count: usize, track_count: usize },
    Artists(Seq<ArtistModel>),
    Artist(ArtistModel),
    Album(AlbumModel),
    Tracks(Seq<TrackModel>),
    Track(TrackModel),
    CoverArt(CoverArtBytesModel),
    ResolvedId(ResolvedIdModel),
    Starred(StarredSetModel),
    SearchResults { artists: Seq<ArtistModel>, albums: Seq<AlbumModel>, tracks: Seq<TrackModel> },
    Stream(StreamDescriptorModel),
    Empty,
}

impl DeepView for BackendResponse {
    type V = BackendResponseModel;

    open spec fn deep_view(&self) -> BackendResponseModel {
        match self {
            BackendResponse::Error { message } => BackendResponseModel::Error {
                message: message@,
            },
            BackendResponse::LibrarySummary { artist_count, album_count, track_count } => {
                BackendResponseModel::LibrarySummary {
                    artist_count: *artist_count,
                    album_count: *album_count,
                    track_count: *track_count,
                }
            },
            BackendResponse::Artists(x) => BackendResponseModel::Artists(x.deep_view()),
            BackendResponse::Artist(x) => BackendResponseModel::Artist(x.deep_view()),
            BackendResponse::Album(x) => BackendResponseModel::Album(x.deep_view()),
            BackendResponse::Tracks(x) => BackendResponseModel::Tracks(x.deep_view()),
            BackendResponse::Track(x) => BackendResponseModel::Track(x.deep_view()),
            BackendResponse::CoverArt(x) => BackendResponseModel::CoverArt(x.deep_view()),
            BackendResponse::ResolvedId(x) => BackendResponseModel::ResolvedId(x.deep_view()),
            BackendResponse::Starred(x) => BackendResponseModel::Starred(x.deep_view()),
            BackendResponse::SearchResults { artists, albums, tracks } => {
                BackendResponseModel::SearchResults {
                    artists: artists.deep_view(),
                    albums: albums.deep_view(),
                    tracks: tracks.deep_view(),
                }
            },
            BackendResponse::Stream(x) => BackendResponseModel::Stream(x.deep_view()),
            BackendResponse::Empty => BackendResponseModel::Empty,
        }
    }
}

impl Duplicate for BackendResponse {
    fn duplicate(&self) -> (r: Self) {
        match self {
            BackendResponse::Error { message } => BackendResponse::Error {
                message: message.clone(),
            },
            BackendResponse::LibrarySummary { artist_count, album_count, track_count } => {
                BackendResponse::LibrarySummary {
                    artist_count: *artist_count,
                    album_count: *album_count,
                    track_count: *track_count,
                }
            },
            BackendResponse::Artists(x) => BackendResponse::Artists(x.duplicate()),
            BackendResponse::Artist(x) => BackendResponse::Artist(x.duplicate()),
            BackendResponse::Album(x) => BackendResponse::Album(x.duplicate()),
            BackendResponse::Tracks(x) => BackendResponse::Tracks(x.duplicate()),
            BackendResponse::Track(x) => BackendResponse::Track(x.duplicate()),
            BackendResponse::CoverArt(x) => BackendResponse::CoverArt(x.duplicate()),
            BackendResponse::ResolvedId(x) => BackendResponse::ResolvedId(x.duplicate()),
            BackendResponse::Starred(x) => BackendResponse::Starred(x.duplicate()),
            BackendResponse::SearchResults { artists, albums, tracks } => BackendResponse::SearchResults {
                artists: artists.duplicate(),
                albums: albums.duplicate(),
                tracks: tracks.duplicate(),
            },
            BackendResponse::Stream(x) => BackendResponse::Stream(x.duplicate()),
            BackendResponse::Empty => BackendResponse::Empty,
        }
    }
}

impl Clone for BackendResponse {
    fn clone(&self) -> (r: Self)
        ensures
            r.deep_view() == self.deep_view(),
    {
        self.duplicate()
    }
}

} // verus!
