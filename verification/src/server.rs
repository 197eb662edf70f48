//! How the backend answers requests.

use vstd::prelude::*;

use crate::config::ServerConfig;
use crate::duplicate::Duplicate;
use crate::error::{invalid_request, outcome, Error, ErrorModel};
use crate::index::{CoverArtSource, CoverArtSourceModel, LibraryIndex, LibraryIndexModel};
use crate::integrity::linked;
use crate::media::or_octets;
use crate::ordered_map::{listing, values_of, OrderedKey, OrderedMap};
use crate::path::{joined, FilePath};
use crate::protocol::{
    Album, AlbumId, AlbumModel, Artist, ArtistId, ArtistModel, BackendRequest, BackendRequestModel,
    BackendResponse, BackendResponseModel, CoverArtBytes, CoverArtBytesModel, CoverArtId,
    ResolvedId, ResolvedIdModel, SearchQuery, SearchQueryModel, StarredSet, StarredSetModel,
    StreamDescriptor, StreamDescriptorModel, Track, TrackId, TrackModel,
};
use crate::text::{
    contains, contains_text, lemma_text_less_irreflexive, lower_chars, lower_text, push_text,
    same_text, text_less,
};
use crate::utf8::copy_bytes;

verus! {

/// What can be starred.
#[derive(Debug, Clone, Copy, PartialEq, Eq)]
pub enum StarKind {
    Artist,
    Album,
    Track,
}

/// What has to be done to answer a request.
#[derive(Debug)]
pub enum Action {
    Reply(BackendResponse),
    ListStarred,
    Star { id: String, kind: StarKind },
    Unstar { id: String },
    ReadCover { cover_art_id: CoverArtId, content_type: String, path: FilePath },
    ReadEmbeddedCover { cover_art_id: CoverArtId, track_id: TrackId, path: FilePath },
    FetchCover { cover_art_id: CoverArtId, url: String },
}

/// The mathematical value of an [`Action`].
pub enum ActionModel {
    Reply(BackendResponseModel),
    ListStarred,
    Star { id: Seq<char>, kind: StarKind },
    Unstar { id: Seq<char> },
    ReadCover { cover_art_id: Seq<char>, content_type: Seq<char>, path: Seq<Seq<u8>> },
    ReadEmbeddedCover { cover_art_id: Seq<char>, track_id: Seq<char>, path: Seq<Seq<u8>> },
    FetchCover { cover_art_id: Seq<char>, url: Seq<char> },
}

impl DeepView for Action {
    type V = ActionModel;

    open spec fn deep_view(&self) -> ActionModel {
        match self {
            Action::Reply(x) => ActionModel::Reply(x.deep_view()),
            Action::ListStarred => ActionModel::ListStarred,
            Action::Star { id, kind } => ActionModel::Star {
                id: id@,
                kind: *kind,
            },
            Action::Unstar { id } => ActionModel::Unstar {
                id: id@,
            },
            Action::ReadCover { cover_art_id, content_type, path } => ActionModel::ReadCover {
                cover_art_id: cover_art_id.deep_view(),
                content_type: content_type@,
                path: path.deep_view(),
            },
            Action::ReadEmbeddedCover { cover_art_id, track_id, path } => ActionModel::ReadEmbeddedCover {
                cover_art_id: cover_art_id.deep_view(),
                track_id: track_id.deep_view(),
                path: path.deep_view(),
            },
            Action::FetchCover { cover_art_id, url } => ActionModel::FetchCover {
                cover_art_id: cover_art_id.deep_view(),
                url: url@,
            },
        }
    }
}

/// The name under which a kind is kept in the table of starred items.
pub open spec fn kind_name(kind: StarKind) -> Seq<char> {
    match kind {
        StarKind::Artist => "artist"@,
        StarKind::Album => "album"@,
        StarKind::Track => "track"@,
    }
}

impl StarKind {
    /// The name under which the kind is kept in the table of starred items.
    pub fn name(self) -> (r: &'static str)
        ensures
            r@ == kind_name(self),
    {
        match self {
            StarKind::Artist => "artist",
            StarKind::Album => "album",
            StarKind::Track => "track",
        }
    }
}

/// A row of the table of starred items.
#[derive(Debug)]
pub struct StarredRow {
    pub id: String,
    pub kind: String,
}

/// The mathematical value of a [`StarredRow`].
pub struct StarredRowModel {
    pub id: Seq<char>,
    pub kind: Seq<char>,
}

impl DeepView for StarredRow {
    type V = StarredRowModel;

    open spec fn deep_view(&self) -> StarredRowModel {
        StarredRowModel {
            id: self.id@,
            kind: self.kind@,
        }
    }
}

/// The value under a key.
pub open spec fn found<A, B>(m: Map<A, B>, k: A) -> Option<B> {
    if m.dom().contains(k) {
        Some(m[k])
    } else {
        None
    }
}

/// The tracks with the given ids, or the first id that names none.
pub open spec fn tracks_named(
    tracks: Map<Seq<char>, TrackModel>,
    ids: Seq<Seq<char>>,
) -> Result<Seq<TrackModel>, Seq<char>>
    decreases ids.len(),
{
    if ids.len() == 0 {
        Ok(seq![])
    } else {
        match tracks_named(tracks, ids.drop_last()) {
            Err(id) => Err(id),
            Ok(before) => if tracks.dom().contains(ids.last()) {
                Ok(before.push(tracks[ids.last()]))
            } else {
                Err(ids.last())
            },
        }
    }
}

/// Whether `term` occurs in `text`, whatever the case of ASCII letters.
pub open spec fn mentions(text: Seq<char>, term: Seq<char>) -> bool {
    contains_text(lower_text(text), lower_text(term))
}

/// The first `limit` items of a row that has more.
pub open spec fn at_most<A>(s: Seq<A>, limit: int) -> Seq<A> {
    if s.len() <= limit {
        s
    } else {
        s.take(limit)
    }
}

/// The artists that a search finds.
pub open spec fn artist_hits(index: LibraryIndexModel, query: SearchQueryModel) -> Seq<ArtistModel> {
    at_most(
        values_of::<ArtistId, ArtistModel>(index.artists).filter(
            |artist: ArtistModel| mentions(artist.name, query.term),
        ),
        query.limit as int,
    )
}

/// The albums that a search finds.
pub open spec fn album_hits(index: LibraryIndexModel, query: SearchQueryModel) -> Seq<AlbumModel> {
    at_most(
        values_of::<AlbumId, AlbumModel>(index.albums).filter(
            |album: AlbumModel|
                mentions(album.title, query.term) || mentions(album.artist, query.term),
        ),
        query.limit as int,
    )
}

/// The tracks that a search finds.
pub open spec fn track_hits(index: LibraryIndexModel, query: SearchQueryModel) -> Seq<TrackModel> {
    at_most(
        values_of::<TrackId, TrackModel>(index.tracks).filter(
            |track: TrackModel|
                mentions(track.title, query.term) || mentions(track.artist, query.term) || mentions(
                    track.album,
                    query.term,
                ),
        ),
        query.limit as int,
    )
}

/// What an id names: an album before an artist before a track.
pub open spec fn resolved(index: LibraryIndexModel, id: Seq<char>) -> Result<
    ResolvedIdModel,
    ErrorModel,
> {
    if index.albums.dom().contains(id) {
        Ok(ResolvedIdModel::Album(index.albums[id]))
    } else if index.artists.dom().contains(id) {
        Ok(ResolvedIdModel::Artist(index.artists[id]))
    } else if index.tracks.dom().contains(id) {
        Ok(ResolvedIdModel::Track(index.tracks[id]))
    } else {
        Err(ErrorModel::NotFound("id"@, id))
    }
}

/// As what an id is starred: as an artist before an album before a track.
pub open spec fn star_kind(index: LibraryIndexModel, id: Seq<char>) -> Option<StarKind> {
    if index.artists.dom().contains(id) {
        Some(StarKind::Artist)
    } else if index.albums.dom().contains(id) {
        Some(StarKind::Album)
    } else if index.tracks.dom().contains(id) {
        Some(StarKind::Track)
    } else {
        None
    }
}

/// What has to be done to answer a request for a cover.
pub open spec fn cover_action(
    music_dir: Seq<Seq<u8>>,
    index: LibraryIndexModel,
    cover_art_id: Seq<char>,
) -> Result<ActionModel, ErrorModel> {
    match found(index.cover_arts, cover_art_id) {
        None => Err(ErrorModel::NotFound("cover art"@, cover_art_id)),
        Some(CoverArtSourceModel::Sidecar { relative_path, content_type }) => Ok(
            ActionModel::ReadCover {
                cover_art_id,
                content_type,
                path: joined(music_dir, relative_path),
            },
        ),
        Some(CoverArtSourceModel::Embedded { track_id }) => match found(index.tracks, track_id) {
            Some(track) => Ok(
                ActionModel::ReadEmbeddedCover {
                    cover_art_id,
                    track_id,
                    path: joined(music_dir, track.relative_path),
                },
            ),
            None => Err(ErrorModel::NotFound("track"@, track_id)),
        },
        Some(CoverArtSourceModel::External { url }) => Ok(
            ActionModel::FetchCover { cover_art_id, url },
        ),
    }
}

/// What has to be done to answer a request, or why it cannot be answered.
pub open spec fn answer(
    music_dir: Seq<Seq<u8>>,
    index: LibraryIndexModel,
    request: BackendRequestModel,
) -> Result<ActionModel, ErrorModel> {
    match request {
        BackendRequestModel::GetLibrarySummary => Ok(
            ActionModel::Reply(
                BackendResponseModel::LibrarySummary {
                    artist_count: index.artists.len() as usize,
                    album_count: index.albums.len() as usize,
                    track_count: index.tracks.len() as usize,
                },
            ),
        ),
        BackendRequestModel::ListArtists => Ok(
            ActionModel::Reply(
                BackendResponseModel::Artists(values_of::<ArtistId, ArtistModel>(index.artists)),
            ),
        ),
        BackendRequestModel::GetStarred => Ok(ActionModel::ListStarred),
        BackendRequestModel::SetStarred { id, starred } => match star_kind(index, id) {
            Some(kind) => Ok(
                if starred {
                    ActionModel::Star { id, kind }
                } else {
                    ActionModel::Unstar { id }
                },
            ),
            None => Err(ErrorModel::NotFound("id"@, id)),
        },
        BackendRequestModel::GetArtist { artist_id } => match found(index.artists, artist_id) {
            Some(artist) => Ok(ActionModel::Reply(BackendResponseModel::Artist(artist))),
            None => Err(ErrorModel::NotFound("artist"@, artist_id)),
        },
        BackendRequestModel::GetAlbum { album_id } => match found(index.albums, album_id) {
            Some(album) => Ok(ActionModel::Reply(BackendResponseModel::Album(album))),
            None => Err(ErrorModel::NotFound("album"@, album_id)),
        },
        BackendRequestModel::GetAlbumTracks { album_id } => match found(index.albums, album_id) {
            Some(album) => match tracks_named(index.tracks, album.track_ids) {
                Ok(tracks) => Ok(ActionModel::Reply(BackendResponseModel::Tracks(tracks))),
                Err(id) => Err(ErrorModel::NotFound("track"@, id)),
            },
            None => Err(ErrorModel::NotFound("album"@, album_id)),
        },
        BackendRequestModel::GetTrack { track_id } => match found(index.tracks, track_id) {
            Some(track) => Ok(ActionModel::Reply(BackendResponseModel::Track(track))),
            None => Err(ErrorModel::NotFound("track"@, track_id)),
        },
        BackendRequestModel::GetCoverArt { cover_art_id } => cover_action(
            music_dir,
            index,
            cover_art_id,
        ),
        BackendRequestModel::ResolveId { id } => match resolved(index, id) {
            Ok(resolved) => Ok(ActionModel::Reply(BackendResponseModel::ResolvedId(resolved))),
            Err(error) => Err(error),
        },
        BackendRequestModel::Search { query } => if query.limit == 0 {
            Err(ErrorModel::InvalidRequest("search limit must be greater than zero"@))
        } else {
            Ok(
                ActionModel::Reply(
                    BackendResponseModel::SearchResults {
                        artists: artist_hits(index, query),
                        albums: album_hits(index, query),
                        tracks: track_hits(index, query),
                    },
                ),
            )
        },
        BackendRequestModel::OpenStream { track_id } => match found(index.tracks, track_id) {
            Some(track) => Ok(
                ActionModel::Reply(
                    BackendResponseModel::Stream(
                        StreamDescriptorModel {
                            track_id: track.id,
                            path: joined(music_dir, track.relative_path),
                            content_type: track.content_type,
                            file_size: track.file_size,
                        },
                    ),
                ),
            ),
            None => Err(ErrorModel::NotFound("track"@, track_id)),
        },
    }
}

/// The values of a map in the order of their keys.
fn all_values<K: OrderedKey, V: Duplicate>(m: &OrderedMap<K, V>) -> (r: Vec<V>)
    ensures
        r.deep_view() == values_of::<K, V::V>(m.deep_view()),
{
    let total: usize = m.len();
    let mut out: Vec<V> = Vec::new();
    let mut i: usize = 0;
    while i < total
        invariant
            i <= total,
            total == m.entries().len(),
            m.entries() == listing::<K, V::V>(m.deep_view()),
            out@.len() == i,
            forall|j: int| 0 <= j < i ==> (#[trigger] out@[j]).deep_view() == m.entries()[j].1,
        decreases total - i,
    {
        out.push(m.value_at(i).duplicate());
        i = i + 1;
    }
    assert(out.deep_view() =~= values_of::<K, V::V>(m.deep_view()));
    out
}

fn text_mentions(text: &str, term: &Vec<char>) -> (r: bool)
    ensures
        r == contains_text(lower_text(text@), term@),
{
    contains(&lower_chars(text), term)
}

/// What a filter keeps of the front of a row is the front of what it keeps.
proof fn lemma_filter_prefix<A>(all: Seq<A>, n: int, wanted: spec_fn(A) -> bool)
    requires
        0 <= n <= all.len(),
    ensures
        all.take(n).filter(wanted).is_prefix_of(all.filter(wanted)),
    decreases all.len() - n,
{
    if n < all.len() {
        lemma_filter_prefix(all, n + 1, wanted);
        assert(all.take(n + 1) =~= all.take(n).push(all[n]));
        all.take(n).lemma_filter_push(all[n], wanted);
        let shorter = all.take(n).filter(wanted);
        let longer = all.take(n + 1).filter(wanted);
        assert(shorter.is_prefix_of(longer));
        assert(shorter =~= all.filter(wanted).subrange(0, shorter.len() as int)) by {
            assert(longer =~= all.filter(wanted).subrange(0, longer.len() as int));
            assert forall|i: int| 0 <= i < shorter.len() implies shorter[i] == all.filter(
                wanted,
            )[i] by {
                assert(longer[i] == all.filter(wanted)[i]);
                assert(shorter[i] == longer[i]);
            }
        }
    } else {
        assert(all.take(n) =~= all);
    }
}

fn find_artists(library: &LibraryIndex, query: &SearchQuery) -> (r: Vec<Artist>)
    ensures
        r.deep_view() == artist_hits(library.deep_view(), query.deep_view()),
{
    let term = lower_chars(&query.term);
    let total: usize = library.artists.len();
    let ghost all = values_of::<ArtistId, ArtistModel>(library.artists.deep_view());
    let ghost wanted = |artist: ArtistModel| mentions(artist.name, query.term@);
    let ghost limit = query.limit as int;
    let mut out: Vec<Artist> = Vec::new();
    let mut i: usize = 0;
    proof {
        reveal(Seq::filter);
        assert(all.take(0).filter(wanted) =~= seq![]);
        assert(out.deep_view() =~= seq![]);
    }
    while i < total && out.len() < query.limit
        invariant
            i <= total,
            total == library.artists.entries().len(),
            library.artists.entries() == listing::<ArtistId, ArtistModel>(library.artists.deep_view()),
            all == values_of::<ArtistId, ArtistModel>(library.artists.deep_view()),
            wanted == (|artist: ArtistModel| mentions(artist.name, query.term@)),
            limit == query.limit,
            term@ == lower_text(query.term@),
            out@.len() <= limit,
            out.deep_view() == all.take(i as int).filter(wanted),
        decreases total - i,
    {
        let ghost before = out.deep_view();
        let artist = library.artists.value_at(i);
        proof {
            assert(all[i as int] == artist.deep_view());
            assert(all.take(i + 1) =~= all.take(i as int).push(all[i as int]));
            all.take(i as int).lemma_filter_push(all[i as int], wanted);
        }
        if text_mentions(&artist.name, &term) {
            out.push(artist.duplicate());
            assert(out.deep_view() =~= before.push(all[i as int]));
        }
        i = i + 1;
    }
    proof {
        lemma_filter_prefix(all, i as int, wanted);
        if i == total {
            assert(all.take(i as int) =~= all);
        }
        assert(out.deep_view() =~= at_most(all.filter(wanted), limit));
    }
    out
}

fn find_albums(library: &LibraryIndex, query: &SearchQuery) -> (r: Vec<Album>)
    ensures
        r.deep_view() == album_hits(library.deep_view(), query.deep_view()),
{
    let term = lower_chars(&query.term);
    let total: usize = library.albums.len();
    let ghost all = values_of::<AlbumId, AlbumModel>(library.albums.deep_view());
    let ghost wanted = |album: AlbumModel|
        mentions(album.title, query.term@) || mentions(album.artist, query.term@);
    let ghost limit = query.limit as int;
    let mut out: Vec<Album> = Vec::new();
    let mut i: usize = 0;
    proof {
        reveal(Seq::filter);
        assert(all.take(0).filter(wanted) =~= seq![]);
        assert(out.deep_view() =~= seq![]);
    }
    while i < total && out.len() < query.limit
        invariant
            i <= total,
            total == library.albums.entries().len(),
            library.albums.entries() == listing::<AlbumId, AlbumModel>(library.albums.deep_view()),
            all == values_of::<AlbumId, AlbumModel>(library.albums.deep_view()),
            wanted == (|album: AlbumModel|
                mentions(album.title, query.term@) || mentions(album.artist, query.term@)),
            limit == query.limit,
            term@ == lower_text(query.term@),
            out@.len() <= limit,
            out.deep_view() == all.take(i as int).filter(wanted),
        decreases total - i,
    {
        let ghost before = out.deep_view();
        let album = library.albums.value_at(i);
        proof {
            assert(all[i as int] == album.deep_view());
            assert(all.take(i + 1) =~= all.take(i as int).push(all[i as int]));
            all.take(i as int).lemma_filter_push(all[i as int], wanted);
        }
        if text_mentions(&album.title, &term) || text_mentions(&album.artist, &term) {
            out.push(album.duplicate());
            assert(out.deep_view() =~= before.push(all[i as int]));
        }
        i = i + 1;
    }
    proof {
        lemma_filter_prefix(all, i as int, wanted);
        if i == total {
            assert(all.take(i as int) =~= all);
        }
        assert(out.deep_view() =~= at_most(all.filter(wanted), limit));
    }
    out
}

fn find_tracks(library: &LibraryIndex, query: &SearchQuery) -> (r: Vec<Track>)
    ensures
        r.deep_view() == track_hits(library.deep_view(), query.deep_view()),
{
    let term = lower_chars(&query.term);
    let total: usize = library.tracks.len();
    let ghost all = values_of::<TrackId, TrackModel>(library.tracks.deep_view());
    let ghost wanted = |track: TrackModel|
        mentions(track.title, query.term@) || mentions(track.artist, query.term@) || mentions(
            track.album,
            query.term@,
        );
    let ghost limit = query.limit as int;
    let mut out: Vec<Track> = Vec::new();
    let mut i: usize = 0;
    proof {
        reveal(Seq::filter);
        assert(all.take(0).filter(wanted) =~= seq![]);
        assert(out.deep_view() =~= seq![]);
    }
    while i < total && out.len() < query.limit
        invariant
            i <= total,
            total == library.tracks.entries().len(),
            library.tracks.entries() == listing::<TrackId, TrackModel>(library.tracks.deep_view()),
            all == values_of::<TrackId, TrackModel>(library.tracks.deep_view()),
            wanted == (|track: TrackModel|
                mentions(track.title, query.term@) || mentions(track.artist, query.term@)
                    || mentions(track.album, query.term@)),
            limit == query.limit,
            term@ == lower_text(query.term@),
            out@.len() <= limit,
            out.deep_view() == all.take(i as int).filter(wanted),
        decreases total - i,
    {
        let ghost before = out.deep_view();
        let track = library.tracks.value_at(i);
        proof {
            assert(all[i as int] == track.deep_view());
            assert(all.take(i + 1) =~= all.take(i as int).push(all[i as int]));
            all.take(i as int).lemma_filter_push(all[i as int], wanted);
        }
        if text_mentions(&track.title, &term) || text_mentions(&track.artist, &term) || text_mentions(
            &track.album,
            &term,
        ) {
            out.push(track.duplicate());
            assert(out.deep_view() =~= before.push(all[i as int]));
        }
        i = i + 1;
    }
    proof {
        lemma_filter_prefix(all, i as int, wanted);
        if i == total {
            assert(all.take(i as int) =~= all);
        }
        assert(out.deep_view() =~= at_most(all.filter(wanted), limit));
    }
    out
}

/// The backend: its settings and its library.
pub struct MusicServer {
    config: ServerConfig,
    library: LibraryIndex,
}

impl MusicServer {
    /// The directory that holds the music.
    pub closed spec fn music_dir(&self) -> Seq<Seq<u8>> {
        self.config.music_dir.deep_view()
    }

    /// The settings of the backend.
    pub closed spec fn settings(&self) -> ServerConfig {
        self.config
    }

    /// The mathematical value of the library.
    pub closed spec fn index(&self) -> LibraryIndexModel {
        self.library.deep_view()
    }

    /// The backend for a library.
    pub fn new(config: ServerConfig, library: LibraryIndex) -> (r: Self)
        ensures
            r.settings() == config,
            r.music_dir() == config.music_dir.deep_view(),
            r.index() == library.deep_view(),
    {
        MusicServer { config, library }
    }

    /// The settings.
    pub fn config(&self) -> (r: &ServerConfig)
        ensures
            *r == self.settings(),
    {
        &self.config
    }

    /// A copy of the library.
    pub fn library(&self) -> (r: LibraryIndex)
        ensures
            r.deep_view() == self.index(),
    {
        self.library.duplicate()
    }

    /// Puts a library in the place of the present one.
    pub fn set_library(&mut self, library: LibraryIndex)
        ensures
            final(self).index() == library.deep_view(),
            final(self).settings() == old(self).settings(),
            final(self).music_dir() == old(self).music_dir(),
    {
        self.library = library;
    }

    /// What has to be done to answer a request.
    pub fn handle(&self, request: BackendRequest) -> (r: Result<Action, Error>)
        ensures
            outcome(r) == answer(self.music_dir(), self.index(), request.deep_view()),
    {
        match request {
            BackendRequest::GetLibrarySummary => {
                let artist_count: usize = self.library.artist_count();
                let album_count: usize = self.library.album_count();
                let track_count: usize = self.library.track_count();
                Ok(
                    Action::Reply(
                        BackendResponse::LibrarySummary { artist_count, album_count, track_count },
                    ),
                )
            },
            BackendRequest::ListArtists => Ok(
                Action::Reply(BackendResponse::Artists(all_values(&self.library.artists))),
            ),
            BackendRequest::GetStarred => Ok(Action::ListStarred),
            BackendRequest::SetStarred { id, starred } => self.set_starred(id, starred),
            BackendRequest::GetArtist { artist_id } => self.get_artist(artist_id),
            BackendRequest::GetAlbum { album_id } => self.get_album(album_id),
            BackendRequest::GetAlbumTracks { album_id } => self.get_album_tracks(album_id),
            BackendRequest::GetTrack { track_id } => self.get_track(track_id),
            BackendRequest::GetCoverArt { cover_art_id } => self.get_cover_art(cover_art_id),
            BackendRequest::ResolveId { id } => self.resolve_id(id),
            BackendRequest::Search { query } => self.search(query),
            BackendRequest::OpenStream { track_id } => self.open_stream(track_id),
        }
    }

    fn get_artist(&self, artist_id: ArtistId) -> (r: Result<Action, Error>)
        ensures
            outcome(r) == answer(
                self.music_dir(),
                self.index(),
                BackendRequestModel::GetArtist { artist_id: artist_id.deep_view() },
            ),
    {
        match self.library.artists.get(&artist_id) {
            Some(artist) => Ok(Action::Reply(BackendResponse::Artist(artist.duplicate()))),
            None => Err(Error::NotFound("artist", artist_id.0)),
        }
    }

    fn get_album(&self, album_id: AlbumId) -> (r: Result<Action, Error>)
        ensures
            outcome(r) == answer(
                self.music_dir(),
                self.index(),
                BackendRequestModel::GetAlbum { album_id: album_id.deep_view() },
            ),
    {
        match self.library.albums.get(&album_id) {
            Some(album) => Ok(Action::Reply(BackendResponse::Album(album.duplicate()))),
            None => Err(Error::NotFound("album", album_id.0)),
        }
    }

    fn get_album_tracks(&self, album_id: AlbumId) -> (r: Result<Action, Error>)
        ensures
            outcome(r) == answer(
                self.music_dir(),
                self.index(),
                BackendRequestModel::GetAlbumTracks { album_id: album_id.deep_view() },
            ),
    {
        let album = match self.library.albums.get(&album_id) {
            Some(album) => album,
            None => {
                return Err(Error::NotFound("album", album_id.0));
            },
        };
        let ghost ids = album.track_ids.deep_view();
        let ghost known = self.index().tracks;
        let total: usize = album.track_ids.len();
        let mut tracks: Vec<Track> = Vec::new();
        let mut i: usize = 0;
        assert(tracks.deep_view() =~= seq![]);
        while i < total
            invariant
                i <= total,
                total == album.track_ids@.len(),
                ids == album.track_ids.deep_view(),
                known == self.index().tracks,
                self.index().albums.dom().contains(album_id.deep_view()),
                self.index().albums[album_id.deep_view()] == album.deep_view(),
                tracks_named(known, ids.take(i as int)) == Ok::<Seq<TrackModel>, Seq<char>>(
                    tracks.deep_view(),
                ),
            decreases total - i,
        {
            let ghost before = tracks.deep_view();
            let track_id = &album.track_ids[i];
            proof {
                assert(ids.take(i + 1).drop_last() =~= ids.take(i as int));
                assert(ids.take(i + 1).last() == track_id.deep_view());
            }
            match self.library.tracks.get(track_id) {
                Some(track) => {
                    tracks.push(track.duplicate());
                    assert(tracks.deep_view() =~= before.push(known[track_id.deep_view()]));
                },
                None => {
                    proof {
                        lemma_first_missing(known, ids, i + 1, track_id.deep_view());
                    }
                    return Err(Error::NotFound("track", track_id.0.clone()));
                },
            }
            i = i + 1;
        }
        assert(ids.take(total as int) =~= ids);
        Ok(Action::Reply(BackendResponse::Tracks(tracks)))
    }

    fn get_track(&self, track_id: TrackId) -> (r: Result<Action, Error>)
        ensures
            outcome(r) == answer(
                self.music_dir(),
                self.index(),
                BackendRequestModel::GetTrack { track_id: track_id.deep_view() },
            ),
    {
        match self.library.tracks.get(&track_id) {
            Some(track) => Ok(Action::Reply(BackendResponse::Track(track.duplicate()))),
            None => Err(Error::NotFound("track", track_id.0)),
        }
    }

    /// What has to be done to star what an id names, or to unstar it.
    pub fn set_starred(&self, id: String, starred: bool) -> (r: Result<Action, Error>)
        ensures
            outcome(r) == answer(
                self.music_dir(),
                self.index(),
                BackendRequestModel::SetStarred { id: id@, starred },
            ),
    {
        let kind = if self.library.artists.contains_key(&ArtistId(id.clone())) {
            StarKind::Artist
        } else if self.library.albums.contains_key(&AlbumId(id.clone())) {
            StarKind::Album
        } else if self.library.tracks.contains_key(&TrackId(id.clone())) {
            StarKind::Track
        } else {
            return Err(Error::NotFound("id", id));
        };
        if starred {
            Ok(Action::Star { id, kind })
        } else {
            Ok(Action::Unstar { id })
        }
    }

    fn resolve_id(&self, id: String) -> (r: Result<Action, Error>)
        ensures
            outcome(r) == answer(
                self.music_dir(),
                self.index(),
                BackendRequestModel::ResolveId { id: id@ },
            ),
    {
        if let Some(album) = self.library.albums.get(&AlbumId(id.clone())) {
            return Ok(
                Action::Reply(BackendResponse::ResolvedId(ResolvedId::Album(album.duplicate()))),
            );
        }
        if let Some(artist) = self.library.artists.get(&ArtistId(id.clone())) {
            return Ok(
                Action::Reply(BackendResponse::ResolvedId(ResolvedId::Artist(artist.duplicate()))),
            );
        }
        if let Some(track) = self.library.tracks.get(&TrackId(id.clone())) {
            return Ok(
                Action::Reply(BackendResponse::ResolvedId(ResolvedId::Track(track.duplicate()))),
            );
        }
        Err(Error::NotFound("id", id))
    }

    fn search(&self, query: SearchQuery) -> (r: Result<Action, Error>)
        ensures
            outcome(r) == answer(
                self.music_dir(),
                self.index(),
                BackendRequestModel::Search { query: query.deep_view() },
            ),
    {
        if query.limit == 0 {
            return Err(invalid_request("search limit must be greater than zero"));
        }
        Ok(
            Action::Reply(
                BackendResponse::SearchResults {
                    artists: find_artists(&self.library, &query),
                    albums: find_albums(&self.library, &query),
                    tracks: find_tracks(&self.library, &query),
                },
            ),
        )
    }

    fn open_stream(&self, track_id: TrackId) -> (r: Result<Action, Error>)
        ensures
            outcome(r) == answer(
                self.music_dir(),
                self.index(),
                BackendRequestModel::OpenStream { track_id: track_id.deep_view() },
            ),
    {
        match self.library.tracks.get(&track_id) {
            Some(track) => Ok(
                Action::Reply(
                    BackendResponse::Stream(
                        StreamDescriptor {
                            track_id: track.id.duplicate(),
                            path: self.config.music_dir.join(&track.relative_path),
                            content_type: track.content_type.clone(),
                            file_size: track.file_size,
                        },
                    ),
                ),
            ),
            None => Err(Error::NotFound("track", track_id.0)),
        }
    }

    fn get_cover_art(&self, cover_art_id: CoverArtId) -> (r: Result<Action, Error>)
        ensures
            outcome(r) == cover_action(self.music_dir(), self.index(), cover_art_id.deep_view()),
    {
        let source = match self.library.cover_arts.get(&cover_art_id) {
            Some(source) => source,
            None => {
                return Err(Error::NotFound("cover art", cover_art_id.0));
            },
        };
        match source {
            CoverArtSource::Sidecar { relative_path, content_type } => Ok(
                Action::ReadCover {
                    cover_art_id,
                    content_type: content_type.clone(),
                    path: self.config.music_dir.join(relative_path),
                },
            ),
            CoverArtSource::Embedded { track_id } => match self.library.tracks.get(track_id) {
                Some(track) => Ok(
                    Action::ReadEmbeddedCover {
                        cover_art_id,
                        track_id: track_id.duplicate(),
                        path: self.config.music_dir.join(&track.relative_path),
                    },
                ),
                None => Err(Error::NotFound("track", track_id.0.clone())),
            },
            CoverArtSource::External { url } => Ok(
                Action::FetchCover { cover_art_id, url: url.clone() },
            ),
        }
    }

    /// The answer to a request for what is starred, given the rows of the table of starred items
    /// in the order in which they are to be listed.
    pub fn get_starred(&self, rows: Vec<StarredRow>) -> (r: BackendResponse)
        ensures
            r.deep_view() == BackendResponseModel::Starred(
                starred_set(self.index(), rows.deep_view()),
            ),
    {
        let ghost all = rows.deep_view();
        let mut artists: Vec<Artist> = Vec::new();
        let mut albums: Vec<Album> = Vec::new();
        let mut tracks: Vec<Track> = Vec::new();
        let total: usize = rows.len();
        let mut i: usize = 0;
        proof {
            assert(artists.deep_view() =~= seq![]);
            assert(albums.deep_view() =~= seq![]);
            assert(tracks.deep_view() =~= seq![]);
        }
        while i < total
            invariant
                i <= total,
                total == rows@.len(),
                all == rows.deep_view(),
                starred_set(self.index(), all.take(i as int)) == (StarredSetModel {
                    artists: artists.deep_view(),
                    albums: albums.deep_view(),
                    tracks: tracks.deep_view(),
                }),
            decreases total - i,
        {
            let ghost some_artists = artists.deep_view();
            let ghost some_albums = albums.deep_view();
            let ghost some_tracks = tracks.deep_view();
            proof {
                assert(all.take(i + 1).drop_last() =~= all.take(i as int));
                assert(all.take(i + 1).last() == rows@[i as int].deep_view());
                lemma_kind_names_differ();
            }
            let row = &rows[i];
            if same_text(&row.kind, "artist") {
                if let Some(artist) = self.library.artists.get(&ArtistId(row.id.clone())) {
                    artists.push(artist.duplicate());
                    assert(artists.deep_view() =~= some_artists.push(artist.deep_view()));
                }
            } else if same_text(&row.kind, "album") {
                if let Some(album) = self.library.albums.get(&AlbumId(row.id.clone())) {
                    albums.push(album.duplicate());
                    assert(albums.deep_view() =~= some_albums.push(album.deep_view()));
                }
            } else if same_text(&row.kind, "track") {
                if let Some(track) = self.library.tracks.get(&TrackId(row.id.clone())) {
                    tracks.push(track.duplicate());
                    assert(tracks.deep_view() =~= some_tracks.push(track.deep_view()));
                }
            }
            i = i + 1;
        }
        assert(all.take(total as int) =~= all);
        BackendResponse::Starred(StarredSet { artists, albums, tracks })
    }
}

/// The id that is missing stays missing whatever ids follow.
proof fn lemma_first_missing(
    tracks: Map<Seq<char>, TrackModel>,
    ids: Seq<Seq<char>>,
    n: int,
    id: Seq<char>,
)
    requires
        0 <= n <= ids.len(),
        tracks_named(tracks, ids.take(n)) == Err::<Seq<TrackModel>, Seq<char>>(id),
    ensures
        tracks_named(tracks, ids) == Err::<Seq<TrackModel>, Seq<char>>(id),
    decreases ids.len(),
{
    if n == ids.len() {
        assert(ids.take(n) =~= ids);
    } else {
        assert(ids.drop_last().take(n) =~= ids.take(n));
        lemma_first_missing(tracks, ids.drop_last(), n, id);
    }
}

/// A row of things with one more, where there is one more.
pub open spec fn with_found<B>(s: Seq<B>, one: Option<B>) -> Seq<B> {
    match one {
        Some(b) => s.push(b),
        None => s,
    }
}

/// What is starred: what the rows of the table name and the library has.
pub open spec fn starred_set(index: LibraryIndexModel, rows: Seq<StarredRowModel>) -> StarredSetModel
    decreases rows.len(),
{
    if rows.len() == 0 {
        StarredSetModel { artists: seq![], albums: seq![], tracks: seq![] }
    } else {
        let before = starred_set(index, rows.drop_last());
        let row = rows.last();
        StarredSetModel {
            artists: if row.kind == kind_name(StarKind::Artist) {
                with_found(before.artists, found(index.artists, row.id))
            } else {
                before.artists
            },
            albums: if row.kind == kind_name(StarKind::Album) {
                with_found(before.albums, found(index.albums, row.id))
            } else {
                before.albums
            },
            tracks: if row.kind == kind_name(StarKind::Track) {
                with_found(before.tracks, found(index.tracks, row.id))
            } else {
                before.tracks
            },
        }
    }
}

/// The answer to a request to star or to unstar, once its change to the table was made or failed.
pub open spec fn change_answer<E>(change: Result<(), E>) -> Result<BackendResponseModel, E> {
    match change {
        Ok(()) => Ok(BackendResponseModel::Empty),
        Err(error) => Err(error),
    }
}

/// The answer to a request to star or to unstar: `change` is what came of its change to the table.
pub fn change_response<E>(change: Result<(), E>) -> (r: Result<BackendResponse, E>)
    ensures
        match r {
            Ok(response) => change_answer(change) == Ok::<_, E>(response.deep_view()),
            Err(error) => change_answer(change) == Err::<BackendResponseModel, E>(error),
        },
{
    match change {
        Ok(()) => Ok(BackendResponse::Empty),
        Err(error) => Err(error),
    }
}

/// A picture in the tags of a track.
#[derive(Debug)]
pub struct EmbeddedPicture {
    pub is_front_cover: bool,
    pub content_type: Option<String>,
    pub bytes: Vec<u8>,
}

/// The mathematical value of an [`EmbeddedPicture`].
pub struct EmbeddedPictureModel {
    pub is_front_cover: bool,
    pub content_type: Option<Seq<char>>,
    pub bytes: Seq<u8>,
}

impl DeepView for EmbeddedPicture {
    type V = EmbeddedPictureModel;

    open spec fn deep_view(&self) -> EmbeddedPictureModel {
        EmbeddedPictureModel {
            is_front_cover: self.is_front_cover,
            content_type: self.content_type.deep_view(),
            bytes: self.bytes@,
        }
    }
}

/// The picture among those of a track that is its cover: the first front cover, or else the first.
pub open spec fn chosen_picture(pictures: Seq<EmbeddedPictureModel>) -> Option<EmbeddedPictureModel> {
    let fronts = pictures.filter(|picture: EmbeddedPictureModel| picture.is_front_cover);
    if fronts.len() > 0 {
        Some(fronts[0])
    } else if pictures.len() > 0 {
        Some(pictures[0])
    } else {
        None
    }
}

/// The picture among those of a track that is its cover.
pub fn select_embedded_picture(pictures: &Vec<EmbeddedPicture>) -> (r: Option<&EmbeddedPicture>)
    ensures
        r.deep_view() == chosen_picture(pictures.deep_view()),
{
    let ghost all = pictures.deep_view();
    let ghost front = |picture: EmbeddedPictureModel| picture.is_front_cover;
    let total: usize = pictures.len();
    let mut i: usize = 0;
    proof {
        reveal(Seq::filter);
        assert(all.take(0).filter(front) =~= seq![]);
    }
    while i < total
        invariant
            i <= total,
            total == pictures@.len(),
            all == pictures.deep_view(),
            front == (|picture: EmbeddedPictureModel| picture.is_front_cover),
            all.take(i as int).filter(front).len() == 0,
        decreases total - i,
    {
        proof {
            assert(all.take(i + 1) =~= all.take(i as int).push(all[i as int]));
            all.take(i as int).lemma_filter_push(all[i as int], front);
        }
        if pictures[i].is_front_cover {
            proof {
                lemma_filter_prefix(all, i + 1, front);
                assert(all.take(i + 1).filter(front)[0] == all[i as int]);
                assert(all.take(i + 1).filter(front).len() == 1);
                assert(all.filter(front).subrange(0, 1)[0] == all.filter(front)[0]);
            }
            return Some(&pictures[i]);
        }
        i = i + 1;
    }
    assert(all.take(total as int) =~= all);
    if total > 0 {
        Some(&pictures[0])
    } else {
        None
    }
}

/// The pictures of a track that count: those of its primary tag, or else of its first tag.
pub fn cover_pictures(
    primary: Option<Vec<EmbeddedPicture>>,
    first: Option<Vec<EmbeddedPicture>>,
) -> (r: Option<Vec<EmbeddedPicture>>)
    ensures
        r.deep_view() == (if primary is Some {
            primary.deep_view()
        } else {
            first.deep_view()
        }),
{
    match primary {
        Some(pictures) => Some(pictures),
        None => first,
    }
}

/// The answer to a request for a cover.
pub open spec fn cover_reply(
    cover_art_id: Seq<char>,
    content_type: Seq<char>,
    bytes: Seq<u8>,
) -> BackendResponseModel {
    BackendResponseModel::CoverArt(CoverArtBytesModel { cover_art_id, content_type, bytes })
}

/// The answer to a request for a cover that was read from its file.
pub fn cover_response(
    cover_art_id: CoverArtId,
    content_type: String,
    bytes: Vec<u8>,
) -> (r: BackendResponse)
    ensures
        r.deep_view() == cover_reply(cover_art_id.deep_view(), content_type@, bytes@),
{
    BackendResponse::CoverArt(CoverArtBytes { cover_art_id, content_type, bytes })
}

/// The answer to a request for a cover that came with the content type that its sender gave.
pub fn fetched_cover_response(
    cover_art_id: CoverArtId,
    content_type: Option<String>,
    bytes: Vec<u8>,
) -> (r: BackendResponse)
    ensures
        r.deep_view() == cover_reply(
            cover_art_id.deep_view(),
            or_octets(content_type.deep_view()),
            bytes@,
        ),
{
    let content_type = match content_type {
        Some(content_type) => content_type,
        None => "application/octet-stream".to_owned(),
    };
    cover_response(cover_art_id, content_type, bytes)
}

/// The answer to a request for a cover that is embedded in a track: `pictures` are those of its
/// tags, if it has tags.
pub fn embedded_cover_response(
    cover_art_id: CoverArtId,
    track_id: &TrackId,
    pictures: Option<Vec<EmbeddedPicture>>,
) -> (r: Result<BackendResponse, Error>)
    ensures
        outcome(r) == embedded_reply(
            cover_art_id.deep_view(),
            track_id.deep_view(),
            pictures.deep_view(),
        ),
{
    let chosen = match &pictures {
        Some(pictures) => select_embedded_picture(pictures),
        None => None,
    };
    match chosen {
        Some(picture) => {
            let content_type = match &picture.content_type {
                Some(content_type) => content_type.clone(),
                None => "application/octet-stream".to_owned(),
            };
            Ok(cover_response(cover_art_id, content_type, copy_bytes(&picture.bytes)))
        },
        None => {
            let mut reason = "embedded cover art missing for track ".to_owned();
            push_text(&mut reason, &track_id.0);
            Err(Error::InvalidRequest(reason))
        },
    }
}

/// The answer to a request for a cover that is embedded in a track.
pub open spec fn embedded_reply(
    cover_art_id: Seq<char>,
    track_id: Seq<char>,
    pictures: Option<Seq<EmbeddedPictureModel>>,
) -> Result<BackendResponseModel, ErrorModel> {
    let chosen = match pictures {
        Some(pictures) => chosen_picture(pictures),
        None => None,
    };
    match chosen {
        Some(picture) => Ok(
            cover_reply(cover_art_id, or_octets(picture.content_type), picture.bytes),
        ),
        None => Err(
            ErrorModel::InvalidRequest("embedded cover art missing for track "@ + track_id),
        ),
    }
}

/// In a library whose ids lead somewhere, the tracks of every album are found.
pub proof fn law_album_tracks_are_found(
    music_dir: Seq<Seq<u8>>,
    index: LibraryIndexModel,
    album_id: Seq<char>,
)
    requires
        linked(index),
        index.albums.dom().contains(album_id),
    ensures
        answer(music_dir, index, BackendRequestModel::GetAlbumTracks { album_id }) matches Ok(
            ActionModel::Reply(BackendResponseModel::Tracks(tracks)),
        ) && tracks.len() == index.albums[album_id].track_ids.len() && forall|i: int|
            0 <= i < tracks.len() ==> (#[trigger] tracks[i]).id
                == index.albums[album_id].track_ids[i],
{
    let ids = index.albums[album_id].track_ids;
    assert forall|i: int| 0 <= i < ids.len() implies index.tracks.dom().contains(#[trigger] ids[i]) by {
        assert(ids.contains(ids[i]));
    }
    lemma_tracks_found(index.tracks, ids);
}

pub proof fn lemma_tracks_found(tracks: Map<Seq<char>, TrackModel>, ids: Seq<Seq<char>>)
    requires
        forall|i: int| 0 <= i < ids.len() ==> tracks.dom().contains(#[trigger] ids[i]),
    ensures
        tracks_named(tracks, ids) matches Ok(listed) && listed.len() == ids.len() && forall|i: int|
            0 <= i < ids.len() ==> #[trigger] listed[i] == tracks[ids[i]],
    decreases ids.len(),
{
    if ids.len() > 0 {
        assert forall|i: int| 0 <= i < ids.drop_last().len() implies tracks.dom().contains(
            #[trigger] ids.drop_last()[i],
        ) by {
            assert(ids.drop_last()[i] == ids[i]);
        }
        lemma_tracks_found(tracks, ids.drop_last());
        assert(ids[ids.len() - 1] == ids.last());
    }
}

/// In a library whose ids lead somewhere, every album of an artist is found.
pub proof fn law_artist_albums_are_found(
    music_dir: Seq<Seq<u8>>,
    index: LibraryIndexModel,
    artist_id: Seq<char>,
    i: int,
)
    requires
        linked(index),
        index.artists.dom().contains(artist_id),
        0 <= i < index.artists[artist_id].album_ids.len(),
    ensures
        answer(
            music_dir,
            index,
            BackendRequestModel::GetAlbum { album_id: index.artists[artist_id].album_ids[i] },
        ) matches Ok(ActionModel::Reply(BackendResponseModel::Album(album))) && album.id
            == index.artists[artist_id].album_ids[i],
{
    let ids = index.artists[artist_id].album_ids;
    assert(ids.contains(ids[i]));
}

/// In a library whose ids lead somewhere, a request for the cover of a track or an album is never
/// answered with an error that the cover is unknown.
pub proof fn law_covers_are_found(
    music_dir: Seq<Seq<u8>>,
    index: LibraryIndexModel,
    cover_art_id: Seq<char>,
)
    requires
        linked(index),
        (exists|id: Seq<char>| #[trigger]
            index.albums.dom().contains(id) && index.albums[id].cover_art_id == Some(cover_art_id))
            || (exists|id: Seq<char>| #[trigger]
            index.tracks.dom().contains(id) && index.tracks[id].cover_art_id == Some(cover_art_id)),
    ensures
        answer(music_dir, index, BackendRequestModel::GetCoverArt { cover_art_id })
            != Err::<ActionModel, ErrorModel>(ErrorModel::NotFound("cover art"@, cover_art_id)),
{
    assert(index.cover_arts.dom().contains(cover_art_id));
    reveal_strlit("cover art");
    reveal_strlit("track");
    assert("cover art"@.len() != "track"@.len());
}

/// Whether `hits` is what a search for the wanted items of a row finds: nothing but wanted items, no
/// more than the limit, and all of them where they are no more.
pub open spec fn is_search_result<A>(
    hits: Seq<A>,
    all: Seq<A>,
    wanted: spec_fn(A) -> bool,
    limit: int,
) -> bool {
    &&& hits.len() <= limit
    &&& forall|i: int| 0 <= i < hits.len() ==> wanted(#[trigger] hits[i]) && all.contains(hits[i])
    &&& hits.len() < limit ==> forall|k: int|
        0 <= k < all.len() && wanted(#[trigger] all[k]) ==> hits.contains(all[k])
}

proof fn lemma_hits<A>(all: Seq<A>, wanted: spec_fn(A) -> bool, limit: int)
    requires
        limit >= 0,
    ensures
        is_search_result(at_most(all.filter(wanted), limit), all, wanted, limit),
{
    let hits = at_most(all.filter(wanted), limit);
    assert forall|i: int| 0 <= i < hits.len() implies wanted(#[trigger] hits[i]) && all.contains(
        hits[i],
    ) by {
        assert(hits[i] == all.filter(wanted)[i]);
        all.lemma_filter_pred(wanted, i);
        assert(all.filter(wanted).contains(hits[i]));
        all.lemma_filter_contains_rev(wanted, hits[i]);
    }
    if hits.len() < limit {
        assert forall|k: int| 0 <= k < all.len() && wanted(#[trigger] all[k]) implies hits.contains(
            all[k],
        ) by {
            all.lemma_filter_contains(wanted, k);
        }
    }
}

/// A search finds what mentions the term: nothing else, no more of each kind than asked for, and all of
/// it where that is less.
pub proof fn law_search_finds_what_mentions_the_term(
    index: LibraryIndexModel,
    query: SearchQueryModel,
)
    ensures
        is_search_result(
            artist_hits(index, query),
            values_of::<ArtistId, ArtistModel>(index.artists),
            |artist: ArtistModel| mentions(artist.name, query.term),
            query.limit as int,
        ),
        is_search_result(
            album_hits(index, query),
            values_of::<AlbumId, AlbumModel>(index.albums),
            |album: AlbumModel|
                mentions(album.title, query.term) || mentions(album.artist, query.term),
            query.limit as int,
        ),
        is_search_result(
            track_hits(index, query),
            values_of::<TrackId, TrackModel>(index.tracks),
            |track: TrackModel|
                mentions(track.title, query.term) || mentions(track.artist, query.term) || mentions(
                    track.album,
                    query.term,
                ),
            query.limit as int,
        ),
{
    lemma_hits(
        values_of::<ArtistId, ArtistModel>(index.artists),
        |artist: ArtistModel| mentions(artist.name, query.term),
        query.limit as int,
    );
    lemma_hits(
        values_of::<AlbumId, AlbumModel>(index.albums),
        |album: AlbumModel|
            mentions(album.title, query.term) || mentions(album.artist, query.term),
        query.limit as int,
    );
    lemma_hits(
        values_of::<TrackId, TrackModel>(index.tracks),
        |track: TrackModel|
            mentions(track.title, query.term) || mentions(track.artist, query.term) || mentions(
                track.album,
                query.term,
            ),
        query.limit as int,
    );
}

/// The table of starred items: of each the kind and when it was starred, by its id.
pub open spec fn star_added(
    table: Map<Seq<char>, (StarKind, i64)>,
    id: Seq<char>,
    kind: StarKind,
    now: i64,
) -> Map<Seq<char>, (StarKind, i64)> {
    table.insert(id, (kind, now))
}

/// Whether one starred item is listed before another: the later first, and of two from the same
/// time the one with the lesser id.
pub open spec fn listed_before(
    table: Map<Seq<char>, (StarKind, i64)>,
    a: Seq<char>,
    b: Seq<char>,
) -> bool {
    table[a].1 > table[b].1 || (table[a].1 == table[b].1 && text_less(a, b))
}

/// Whether `rows` lists the table of starred items.
pub open spec fn lists_starred(
    rows: Seq<StarredRowModel>,
    table: Map<Seq<char>, (StarKind, i64)>,
) -> bool {
    &&& forall|i: int|
        0 <= i < rows.len() ==> table.dom().contains((#[trigger] rows[i]).id) && rows[i].kind
            == kind_name(table[rows[i].id].0)
    &&& forall|id: Seq<char>| #[trigger]
        table.dom().contains(id) ==> exists|i: int| 0 <= i < rows.len() && (#[trigger] rows[i]).id == id
    &&& forall|i: int, j: int|
        0 <= i < j < rows.len() ==> listed_before(
            table,
            (#[trigger] rows[i]).id,
            (#[trigger] rows[j]).id,
        )
}

/// Whether what an id names is among what is starred.
pub open spec fn is_listed(index: LibraryIndexModel, set: StarredSetModel, id: Seq<char>) -> bool {
    match star_kind(index, id) {
        Some(StarKind::Artist) => set.artists.contains(index.artists[id]),
        Some(StarKind::Album) => set.albums.contains(index.albums[id]),
        Some(StarKind::Track) => set.tracks.contains(index.tracks[id]),
        None => false,
    }
}

proof fn lemma_kind_names_differ()
    ensures
        kind_name(StarKind::Artist) != kind_name(StarKind::Album),
        kind_name(StarKind::Artist) != kind_name(StarKind::Track),
        kind_name(StarKind::Album) != kind_name(StarKind::Track),
{
    reveal_strlit("artist");
    reveal_strlit("album");
    reveal_strlit("track");
    assert("artist"@.len() == 6);
    assert("album"@[0] != "track"@[0]);
}

proof fn lemma_row_is_listed(index: LibraryIndexModel, rows: Seq<StarredRowModel>, i: int)
    requires
        0 <= i < rows.len(),
    ensures
        rows[i].kind == kind_name(StarKind::Artist) && index.artists.dom().contains(rows[i].id)
            ==> starred_set(index, rows).artists.contains(index.artists[rows[i].id]),
        rows[i].kind == kind_name(StarKind::Album) && index.albums.dom().contains(rows[i].id)
            ==> starred_set(index, rows).albums.contains(index.albums[rows[i].id]),
        rows[i].kind == kind_name(StarKind::Track) && index.tracks.dom().contains(rows[i].id)
            ==> starred_set(index, rows).tracks.contains(index.tracks[rows[i].id]),
    decreases rows.len(),
{
    let before = starred_set(index, rows.drop_last());
    let all = starred_set(index, rows);
    if i < rows.len() - 1 {
        lemma_row_is_listed(index, rows.drop_last(), i);
        let row = rows[i];
        assert(rows.drop_last()[i] == row);
        if before.artists.contains(index.artists[row.id]) {
            let k = choose|k: int|
                0 <= k < before.artists.len() && before.artists[k] == index.artists[row.id];
            assert(all.artists[k] == before.artists[k]);
        }
        if before.albums.contains(index.albums[row.id]) {
            let k = choose|k: int|
                0 <= k < before.albums.len() && before.albums[k] == index.albums[row.id];
            assert(all.albums[k] == before.albums[k]);
        }
        if before.tracks.contains(index.tracks[row.id]) {
            let k = choose|k: int|
                0 <= k < before.tracks.len() && before.tracks[k] == index.tracks[row.id];
            assert(all.tracks[k] == before.tracks[k]);
        }
    } else {
        let row = rows.last();
        if row.kind == kind_name(StarKind::Artist) && index.artists.dom().contains(row.id) {
            assert(all.artists[before.artists.len() as int] == index.artists[row.id]);
        }
        if row.kind == kind_name(StarKind::Album) && index.albums.dom().contains(row.id) {
            assert(all.albums[before.albums.len() as int] == index.albums[row.id]);
        }
        if row.kind == kind_name(StarKind::Track) && index.tracks.dom().contains(row.id) {
            assert(all.tracks[before.tracks.len() as int] == index.tracks[row.id]);
        }
    }
}

proof fn lemma_listed_from_row(index: LibraryIndexModel, rows: Seq<StarredRowModel>, id: Seq<char>)
    requires
        linked(index),
        forall|i: int| 0 <= i < rows.len() ==> (#[trigger] rows[i]).id != id,
    ensures
        forall|k: int|
            0 <= k < starred_set(index, rows).artists.len() ==> (#[trigger] starred_set(
                index,
                rows,
            ).artists[k]).id != id,
        forall|k: int|
            0 <= k < starred_set(index, rows).albums.len() ==> (#[trigger] starred_set(
                index,
                rows,
            ).albums[k]).id != id,
        forall|k: int|
            0 <= k < starred_set(index, rows).tracks.len() ==> (#[trigger] starred_set(
                index,
                rows,
            ).tracks[k]).id != id,
    decreases rows.len(),
{
    if rows.len() > 0 {
        assert forall|i: int| 0 <= i < rows.drop_last().len() implies (
        #[trigger] rows.drop_last()[i]).id != id by {
            assert(rows.drop_last()[i] == rows[i]);
        }
        lemma_listed_from_row(index, rows.drop_last(), id);
        assert(rows[rows.len() - 1] == rows.last());
        let row = rows.last();
        if index.artists.dom().contains(row.id) {
            assert(index.artists[row.id].id == row.id);
        }
        if index.albums.dom().contains(row.id) {
            assert(index.albums[row.id].id == row.id);
        }
        if index.tracks.dom().contains(row.id) {
            assert(index.tracks[row.id].id == row.id);
        }
    }
}

/// What was starred is listed: when the request to star an id was granted, and what it asks for
/// was done to the table, the next list of what is starred holds what the id names.
pub proof fn law_starred_is_listed(
    music_dir: Seq<Seq<u8>>,
    index: LibraryIndexModel,
    id: Seq<char>,
    kind: StarKind,
    table: Map<Seq<char>, (StarKind, i64)>,
    now: i64,
    rows: Seq<StarredRowModel>,
)
    requires
        answer(music_dir, index, BackendRequestModel::SetStarred { id, starred: true })
            == Ok::<ActionModel, ErrorModel>(ActionModel::Star { id, kind }),
        lists_starred(rows, star_added(table, id, kind, now)),
    ensures
        is_listed(index, starred_set(index, rows), id),
{
    let after = star_added(table, id, kind, now);
    assert(after.dom().contains(id));
    let i = choose|i: int| 0 <= i < rows.len() && (#[trigger] rows[i]).id == id;
    lemma_row_is_listed(index, rows, i);
}

/// What is no longer starred is not listed.
pub proof fn law_unstarred_is_not_listed(
    index: LibraryIndexModel,
    id: Seq<char>,
    table: Map<Seq<char>, (StarKind, i64)>,
    rows: Seq<StarredRowModel>,
)
    requires
        linked(index),
        lists_starred(rows, table.remove(id)),
    ensures
        forall|k: int|
            0 <= k < starred_set(index, rows).artists.len() ==> (#[trigger] starred_set(
                index,
                rows,
            ).artists[k]).id != id,
        forall|k: int|
            0 <= k < starred_set(index, rows).albums.len() ==> (#[trigger] starred_set(
                index,
                rows,
            ).albums[k]).id != id,
        forall|k: int|
            0 <= k < starred_set(index, rows).tracks.len() ==> (#[trigger] starred_set(
                index,
                rows,
            ).tracks[k]).id != id,
{
    assert forall|i: int| 0 <= i < rows.len() implies (#[trigger] rows[i]).id != id by {
        assert(table.remove(id).dom().contains(rows[i].id));
    }
    lemma_listed_from_row(index, rows, id);
}

/// The table once an id was starred at each of `times`, one after the other.
pub open spec fn starred_at(
    table: Map<Seq<char>, (StarKind, i64)>,
    id: Seq<char>,
    kind: StarKind,
    times: Seq<i64>,
) -> Map<Seq<char>, (StarKind, i64)>
    decreases times.len(),
{
    if times.len() == 0 {
        table
    } else {
        star_added(starred_at(table, id, kind, times.drop_last()), id, kind, times.last())
    }
}

/// Whether one row of a list, and no other, is that of an id.
pub open spec fn listed_once(rows: Seq<StarredRowModel>, id: Seq<char>, kind: StarKind) -> bool {
    exists|i: int|
        0 <= i < rows.len() && (#[trigger] rows[i]).id == id && rows[i].kind == kind_name(kind) && (
        forall|j: int| 0 <= j < rows.len() && j != i ==> (#[trigger] rows[j]).id != id)
}

proof fn lemma_starred_again(
    table: Map<Seq<char>, (StarKind, i64)>,
    id: Seq<char>,
    kind: StarKind,
    times: Seq<i64>,
)
    requires
        times.len() > 0,
    ensures
        starred_at(table, id, kind, times) == star_added(table, id, kind, times.last()),
    decreases times.len(),
{
    if times.len() > 1 {
        lemma_starred_again(table, id, kind, times.drop_last());
    } else {
        assert(starred_at(table, id, kind, times.drop_last()) == table);
    }
    assert(starred_at(table, id, kind, times) =~= star_added(table, id, kind, times.last()));
}

/// To star what an id names is granted however often it is asked for, and leaves one row for the id:
/// that of what the id names, from the last time. No other row changes.
pub proof fn law_starring_again_leaves_one_row(
    music_dir: Seq<Seq<u8>>,
    index: LibraryIndexModel,
    id: Seq<char>,
    kind: StarKind,
    table: Map<Seq<char>, (StarKind, i64)>,
    times: Seq<i64>,
)
    requires
        star_kind(index, id) == Some(kind),
        times.len() > 0,
    ensures
        answer(music_dir, index, BackendRequestModel::SetStarred { id, starred: true })
            == Ok::<ActionModel, ErrorModel>(ActionModel::Star { id, kind }),
        starred_at(table, id, kind, times) == star_added(table, id, kind, times.last()),
        starred_at(table, id, kind, times).dom().contains(id),
        starred_at(table, id, kind, times)[id] == (kind, times.last()),
        starred_at(table, id, kind, times).remove(id) == table.remove(id),
        forall|rows: Seq<StarredRowModel>| #[trigger]
            lists_starred(rows, starred_at(table, id, kind, times)) ==> listed_once(rows, id, kind),
{
    lemma_starred_again(table, id, kind, times);
    let after = starred_at(table, id, kind, times);
    assert(after.remove(id) =~= table.remove(id));
    assert forall|rows: Seq<StarredRowModel>| #[trigger] lists_starred(rows, after) implies
        listed_once(rows, id, kind) by {
        assert(after.dom().contains(id));
        let i = choose|i: int| 0 <= i < rows.len() && (#[trigger] rows[i]).id == id;
        lemma_text_less_irreflexive(id);
        assert forall|j: int| 0 <= j < rows.len() && j != i implies (#[trigger] rows[j]).id
            != id by {
            if j < i {
                assert(listed_before(after, rows[j].id, rows[i].id));
            } else {
                assert(listed_before(after, rows[i].id, rows[j].id));
            }
        }
    }
}

/// To unstar what an id names is granted however often it is asked for: it leaves no row for the id,
/// however often the id was starred before, to ask again changes nothing, and no other row changes.
pub proof fn law_unstarring_again_changes_nothing(
    music_dir: Seq<Seq<u8>>,
    index: LibraryIndexModel,
    id: Seq<char>,
    kind: StarKind,
    table: Map<Seq<char>, (StarKind, i64)>,
    times: Seq<i64>,
)
    requires
        star_kind(index, id) == Some(kind),
    ensures
        answer(music_dir, index, BackendRequestModel::SetStarred { id, starred: false })
            == Ok::<ActionModel, ErrorModel>(ActionModel::Unstar { id }),
        !table.remove(id).dom().contains(id),
        table.remove(id).remove(id) == table.remove(id),
        starred_at(table, id, kind, times).remove(id) == table.remove(id),
        forall|other: Seq<char>|
            other != id ==> {
                &&& #[trigger] table.remove(id).dom().contains(other) == table.dom().contains(other)
                &&& table.dom().contains(other) ==> table.remove(id)[other] == table[other]
            },
{
    assert(table.remove(id).remove(id) =~= table.remove(id));
    if times.len() > 0 {
        lemma_starred_again(table, id, kind, times);
        assert(starred_at(table, id, kind, times).remove(id) =~= table.remove(id));
    }
}

/// What was starred later than all the rest comes first in the table's list.
pub proof fn law_latest_star_is_first(
    table: Map<Seq<char>, (StarKind, i64)>,
    id: Seq<char>,
    kind: StarKind,
    now: i64,
    rows: Seq<StarredRowModel>,
)
    requires
        forall|other: Seq<char>| #[trigger] table.dom().contains(other) ==> table[other].1 < now,
        lists_starred(rows, star_added(table, id, kind, now)),
    ensures
        rows.len() > 0,
        rows[0].id == id,
        rows[0].kind == kind_name(kind),
{
    let after = star_added(table, id, kind, now);
    assert(after.dom().contains(id));
    let i = choose|i: int| 0 <= i < rows.len() && (#[trigger] rows[i]).id == id;
    if i > 0 {
        assert(listed_before(after, rows[0].id, rows[i].id));
        if rows[0].id == id {
            lemma_text_less_irreflexive(id);
        } else {
            assert(table.dom().contains(rows[0].id));
        }
    }
}

} // verus!
