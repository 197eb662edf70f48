//! How requests of Subsonic clients are served.

use vstd::prelude::*;

use crate::auth::{credentials_of, is_user, Credentials};
use crate::builder::or_else;
use crate::config::SubsonicConfig;
use crate::duplicate::Duplicate;
use crate::error::{invalid_request, outcome, Error, ErrorModel};
use crate::index::LibraryIndexModel;
use crate::integrity::linked;
use crate::models::{first_value, query_value, RequestContext, RequestContextModel};
use crate::ordered_map::values_of;
use crate::protocol::{
    Album, AlbumId, AlbumModel, Artist, ArtistId, ArtistModel, BackendRequest, BackendRequestModel,
    BackendResponse, BackendResponseModel, CoverArtId, ResolvedId, ResolvedIdModel, SearchQuery,
    SearchQueryModel, Track, TrackId, TrackModel,
};
use crate::render::{
    album_reply, artists_reply, change_reply, cover_art_reply, directory_reply, empty_ok,
    empty_reply, error_response, failed, folders_reply, indexes_reply, license_reply, map_album,
    map_artists, map_cover_art, map_empty, map_indexes, map_license, map_music_folders, map_search,
    map_starred2, map_track, message_reply, ok_message, render_directory, response_format,
    search_reply, song_reply, starred_reply, wanted_format, DirectoryChild, DirectoryChildModel,
    ResponseFormat, SubsonicResponse, SubsonicResponseModel,
};
use crate::server::{
    answer, law_album_tracks_are_found, lemma_tracks_found, resolved, tracks_named, ActionModel,
};
use crate::text::{is_blank, push_text, same_text, strip_suffix, trimmed};

verus! {

/// What a request waits for.
#[derive(Debug)]
pub enum Pending {
    /// The artists, for a list of them.
    Artists,
    /// The artists, for the indexes.
    Indexes,
    /// An album.
    Album,
    /// A track.
    Song,
    /// A cover.
    CoverArt,
    /// What is starred.
    Starred,
    /// What a search finds.
    Search,
    /// The consent to a change.
    Change,
    /// The artists, for the directory of them all.
    RootDirectory,
    /// What the id of a directory names.
    DirectoryId { id: String },
    /// The tracks of an album, for its directory.
    AlbumDirectory { id: String, title: String },
    /// The first of `albums`, for the directory of an artist: `children` are those before it.
    ArtistDirectory { id: String, name: String, albums: Vec<AlbumId>, children: Vec<DirectoryChild> },
}

/// The mathematical value of a [`Pending`].
pub enum PendingModel {
    Artists,
    Indexes,
    Album,
    Song,
    CoverArt,
    Starred,
    Search,
    Change,
    RootDirectory,
    DirectoryId { id: Seq<char> },
    AlbumDirectory { id: Seq<char>, title: Seq<char> },
    ArtistDirectory {
        id: Seq<char>,
        name: Seq<char>,
        albums: Seq<Seq<char>>,
        children: Seq<DirectoryChildModel>,
    },
}

impl DeepView for Pending {
    type V = PendingModel;

    open spec fn deep_view(&self) -> PendingModel {
        match self {
            Pending::Artists => PendingModel::Artists,
            Pending::Indexes => PendingModel::Indexes,
            Pending::Album => PendingModel::Album,
            Pending::Song => PendingModel::Song,
            Pending::CoverArt => PendingModel::CoverArt,
            Pending::Starred => PendingModel::Starred,
            Pending::Search => PendingModel::Search,
            Pending::Change => PendingModel::Change,
            Pending::RootDirectory => PendingModel::RootDirectory,
            Pending::DirectoryId { id } => PendingModel::DirectoryId {
                id: id@,
            },
            Pending::AlbumDirectory { id, title } => PendingModel::AlbumDirectory {
                id: id@,
                title: title@,
            },
            Pending::ArtistDirectory { id, name, albums, children } => PendingModel::ArtistDirectory {
                id: id@,
                name: name@,
                albums: albums.deep_view(),
                children: children.deep_view(),
            },
        }
    }
}

/// What comes next on the way to a response.
#[derive(Debug)]
pub enum Step {
    /// The response is there.
    Done(SubsonicResponse),
    /// The backend has to be asked.
    Ask { request: BackendRequest, pending: Pending },
    /// The backend has to be asked for a stream.
    Stream { track_id: TrackId },
}

/// The mathematical value of a [`Step`].
pub enum StepModel {
    Done(SubsonicResponseModel),
    Ask { request: BackendRequestModel, pending: PendingModel },
    Stream { track_id: Seq<char> },
}

impl DeepView for Step {
    type V = StepModel;

    open spec fn deep_view(&self) -> StepModel {
        match self {
            Step::Done(x) => StepModel::Done(x.deep_view()),
            Step::Ask { request, pending } => StepModel::Ask {
                request: request.deep_view(),
                pending: pending.deep_view(),
            },
            Step::Stream { track_id } => StepModel::Stream {
                track_id: track_id.deep_view(),
            },
        }
    }
}

/// A text, which is empty where there is none.
pub open spec fn or_blank(text: Option<Seq<char>>) -> Seq<char> {
    match text {
        Some(text) => text,
        None => seq![],
    }
}

/// The id in a request.
pub open spec fn requested_id(request: RequestContextModel) -> Seq<char> {
    or_blank(first_value(request.query, "id"@))
}

/// The first step towards a directory.
pub open spec fn directory_step(id: Seq<char>) -> StepModel {
    if id == "root"@ {
        StepModel::Ask {
            request: BackendRequestModel::ListArtists,
            pending: PendingModel::RootDirectory,
        }
    } else {
        StepModel::Ask {
            request: BackendRequestModel::ResolveId { id },
            pending: PendingModel::DirectoryId { id },
        }
    }
}

/// The first step towards a search.
pub open spec fn search_step(term: Seq<char>) -> Result<StepModel, ErrorModel> {
    if trimmed(term).len() == 0 {
        Err(ErrorModel::InvalidRequest("search term must not be empty"@))
    } else {
        Ok(
            StepModel::Ask {
                request: BackendRequestModel::Search { query: SearchQueryModel { term, limit: 20 } },
                pending: PendingModel::Search,
            },
        )
    }
}

/// The first step towards the response to a request of the user.
pub open spec fn route(format: ResponseFormat, request: RequestContextModel) -> Result<
    StepModel,
    ErrorModel,
> {
    let path = request.path;
    let id = requested_id(request);
    if path == "/rest/ping"@ {
        Ok(StepModel::Done(message_reply(format, "pong"@)))
    } else if path == "/rest/getLicense"@ {
        Ok(StepModel::Done(license_reply(format)))
    } else if path == "/rest/getMusicFolders"@ {
        Ok(StepModel::Done(folders_reply(format)))
    } else if path == "/rest/getArtists"@ {
        Ok(
            StepModel::Ask {
                request: BackendRequestModel::ListArtists,
                pending: PendingModel::Artists,
            },
        )
    } else if path == "/rest/getIndexes"@ {
        Ok(
            StepModel::Ask {
                request: BackendRequestModel::ListArtists,
                pending: PendingModel::Indexes,
            },
        )
    } else if path == "/rest/getMusicDirectory"@ {
        Ok(
            directory_step(
                match first_value(request.query, "id"@) {
                    Some(id) => id,
                    None => "root"@,
                },
            ),
        )
    } else if path == "/rest/getAlbum"@ {
        Ok(
            StepModel::Ask {
                request: BackendRequestModel::GetAlbum { album_id: id },
                pending: PendingModel::Album,
            },
        )
    } else if path == "/rest/getSong"@ {
        Ok(
            StepModel::Ask {
                request: BackendRequestModel::GetTrack { track_id: id },
                pending: PendingModel::Song,
            },
        )
    } else if path == "/rest/getCoverArt"@ {
        Ok(
            StepModel::Ask {
                request: BackendRequestModel::GetCoverArt { cover_art_id: id },
                pending: PendingModel::CoverArt,
            },
        )
    } else if path == "/rest/getStarred2"@ {
        Ok(
            StepModel::Ask {
                request: BackendRequestModel::GetStarred,
                pending: PendingModel::Starred,
            },
        )
    } else if path == "/rest/search3"@ {
        search_step(or_blank(first_value(request.query, "query"@)))
    } else if path == "/rest/scrobble"@ {
        Ok(StepModel::Done(empty_reply(format)))
    } else if path == "/rest/star"@ {
        Ok(
            StepModel::Ask {
                request: BackendRequestModel::SetStarred { id, starred: true },
                pending: PendingModel::Change,
            },
        )
    } else if path == "/rest/unstar"@ {
        Ok(
            StepModel::Ask {
                request: BackendRequestModel::SetStarred { id, starred: false },
                pending: PendingModel::Change,
            },
        )
    } else if path == "/rest/stream"@ {
        Ok(StepModel::Stream { track_id: id })
    } else {
        Ok(StepModel::Done(failed(format, "unsupported route: "@ + path)))
    }
}

/// The first step towards the response to a request: only the user gets further.
pub open spec fn first_step(
    username: Seq<char>,
    password: Seq<char>,
    request: RequestContextModel,
) -> Result<StepModel, ErrorModel> {
    let format = wanted_format(request);
    if is_user(credentials_of(request), username, password) {
        route(format, request)
    } else {
        Ok(StepModel::Done(failed(format, "authentication failed"@)))
    }
}

fn text_or_blank(text: Option<&str>) -> (r: String)
    ensures
        r@ == or_blank(text.deep_view()),
{
    match text {
        Some(text) => text.to_owned(),
        None => {
            let none = String::new();
            assert(none@ =~= seq![]);
            none
        },
    }
}

fn start_directory(id: String) -> (r: Step)
    ensures
        r.deep_view() == directory_step(id@),
{
    if same_text(&id, "root") {
        Step::Ask { request: BackendRequest::ListArtists, pending: Pending::RootDirectory }
    } else {
        Step::Ask {
            request: BackendRequest::ResolveId { id: id.clone() },
            pending: Pending::DirectoryId { id },
        }
    }
}

fn start_search(term: String) -> (r: Result<Step, Error>)
    ensures
        outcome(r) == search_step(term@),
{
    if is_blank(&term) {
        return Err(invalid_request("search term must not be empty"));
    }
    Ok(
        Step::Ask {
            request: BackendRequest::Search { query: SearchQuery { term, limit: 20 } },
            pending: Pending::Search,
        },
    )
}

/// The first step towards the response to a request.
pub fn handle_request(config: &SubsonicConfig, request: &RequestContext) -> (r: Result<Step, Error>)
    ensures
        outcome(r) == first_step(config.username@, config.password@, request.deep_view()),
{
    let format = response_format(request);
    let credentials = Credentials::from_request(request);
    if !credentials.matches(config) {
        return Ok(Step::Done(error_response(format, "authentication failed")));
    }
    let path = &request.path;
    if same_text(path, "/rest/ping") {
        Ok(Step::Done(ok_message(format, "pong")))
    } else if same_text(path, "/rest/getLicense") {
        Ok(Step::Done(map_license(format)))
    } else if same_text(path, "/rest/getMusicFolders") {
        Ok(Step::Done(map_music_folders(format)))
    } else if same_text(path, "/rest/getArtists") {
        Ok(Step::Ask { request: BackendRequest::ListArtists, pending: Pending::Artists })
    } else if same_text(path, "/rest/getIndexes") {
        Ok(Step::Ask { request: BackendRequest::ListArtists, pending: Pending::Indexes })
    } else if same_text(path, "/rest/getMusicDirectory") {
        let id = match query_value(request, "id") {
            Some(id) => id.to_owned(),
            None => "root".to_owned(),
        };
        Ok(start_directory(id))
    } else if same_text(path, "/rest/getAlbum") {
        let album_id = AlbumId(text_or_blank(query_value(request, "id")));
        Ok(
            Step::Ask { request: BackendRequest::GetAlbum { album_id }, pending: Pending::Album },
        )
    } else if same_text(path, "/rest/getSong") {
        let track_id = TrackId(text_or_blank(query_value(request, "id")));
        Ok(Step::Ask { request: BackendRequest::GetTrack { track_id }, pending: Pending::Song })
    } else if same_text(path, "/rest/getCoverArt") {
        let cover_art_id = CoverArtId(text_or_blank(query_value(request, "id")));
        Ok(
            Step::Ask {
                request: BackendRequest::GetCoverArt { cover_art_id },
                pending: Pending::CoverArt,
            },
        )
    } else if same_text(path, "/rest/getStarred2") {
        Ok(Step::Ask { request: BackendRequest::GetStarred, pending: Pending::Starred })
    } else if same_text(path, "/rest/search3") {
        start_search(text_or_blank(query_value(request, "query")))
    } else if same_text(path, "/rest/scrobble") {
        Ok(Step::Done(empty_ok(format)))
    } else if same_text(path, "/rest/star") {
        let id = text_or_blank(query_value(request, "id"));
        Ok(
            Step::Ask {
                request: BackendRequest::SetStarred { id, starred: true },
                pending: Pending::Change,
            },
        )
    } else if same_text(path, "/rest/unstar") {
        let id = text_or_blank(query_value(request, "id"));
        Ok(
            Step::Ask {
                request: BackendRequest::SetStarred { id, starred: false },
                pending: Pending::Change,
            },
        )
    } else if same_text(path, "/rest/stream") {
        Ok(Step::Stream { track_id: TrackId(text_or_blank(query_value(request, "id"))) })
    } else {
        let mut message = "unsupported route: ".to_owned();
        push_text(&mut message, path);
        Ok(Step::Done(error_response(format, &message)))
    }
}

/// An artist as an entry of the directory of them all.
pub open spec fn artist_child(artist: ArtistModel) -> DirectoryChildModel {
    DirectoryChildModel {
        id: artist.id,
        title: artist.name,
        is_dir: true,
        artist: None,
        album: None,
        content_type: None,
        cover_art: None,
        track: None,
        disc_number: None,
        duration: None,
        size: None,
        parent: Some("root"@),
    }
}

/// An album as an entry of the directory of its artist.
pub open spec fn album_child(album: AlbumModel, parent: Seq<char>) -> DirectoryChildModel {
    DirectoryChildModel {
        id: album.id,
        title: album.title,
        is_dir: true,
        artist: Some(album.artist),
        album: Some(album.title),
        content_type: None,
        cover_art: album.cover_art_id,
        track: None,
        disc_number: None,
        duration: album.duration_seconds,
        size: Some(album.size_bytes),
        parent: Some(parent),
    }
}

/// A track as an entry of a directory.
pub open spec fn track_child(track: TrackModel, parent: Option<Seq<char>>) -> DirectoryChildModel {
    DirectoryChildModel {
        id: track.id,
        title: track.title,
        is_dir: false,
        artist: Some(track.artist),
        album: Some(track.album),
        content_type: Some(track.content_type),
        cover_art: track.cover_art_id,
        track: track.track_number,
        disc_number: track.disc_number,
        duration: track.duration_seconds,
        size: Some(track.file_size),
        parent,
    }
}

fn cover_text(id: Option<CoverArtId>) -> (r: Option<String>)
    ensures
        r.deep_view() == id.deep_view(),
{
    match id {
        Some(id) => Some(id.0),
        None => None,
    }
}

fn child_of_artist(artist: &Artist) -> (r: DirectoryChild)
    ensures
        r.deep_view() == artist_child(artist.deep_view()),
{
    DirectoryChild {
        id: artist.id.0.clone(),
        title: artist.name.clone(),
        is_dir: true,
        artist: None,
        album: None,
        content_type: None,
        cover_art: None,
        track: None,
        disc_number: None,
        duration: None,
        size: None,
        parent: Some("root".to_owned()),
    }
}

fn child_of_album(album: Album, parent: &str) -> (r: DirectoryChild)
    ensures
        r.deep_view() == album_child(album.deep_view(), parent@),
{
    DirectoryChild {
        id: album.id.0,
        title: album.title.clone(),
        is_dir: true,
        artist: Some(album.artist),
        album: Some(album.title),
        content_type: None,
        cover_art: cover_text(album.cover_art_id),
        track: None,
        disc_number: None,
        duration: album.duration_seconds,
        size: Some(album.size_bytes),
        parent: Some(parent.to_owned()),
    }
}

fn child_of_track(track: &Track, parent: Option<String>) -> (r: DirectoryChild)
    ensures
        r.deep_view() == track_child(track.deep_view(), parent.deep_view()),
{
    DirectoryChild {
        id: track.id.0.clone(),
        title: track.title.clone(),
        is_dir: false,
        artist: Some(track.artist.clone()),
        album: Some(track.album.clone()),
        content_type: Some(track.content_type.clone()),
        cover_art: cover_text(track.cover_art_id.duplicate()),
        track: track.track_number,
        disc_number: track.disc_number,
        duration: track.duration_seconds,
        size: Some(track.file_size),
        parent,
    }
}

/// The entries of the directory of all artists.
pub open spec fn artist_children(artists: Seq<ArtistModel>) -> Seq<DirectoryChildModel> {
    artists.map_values(|artist: ArtistModel| artist_child(artist))
}

/// The entries of the directory of an album.
pub open spec fn track_children(tracks: Seq<TrackModel>, id: Seq<char>) -> Seq<DirectoryChildModel> {
    tracks.map_values(|track: TrackModel| track_child(track, Some(id)))
}

fn children_of_artists(artists: &Vec<Artist>) -> (r: Vec<DirectoryChild>)
    ensures
        r.deep_view() == artist_children(artists.deep_view()),
{
    let total: usize = artists.len();
    let mut children: Vec<DirectoryChild> = Vec::new();
    let mut i: usize = 0;
    while i < total
        invariant
            i <= total,
            total == artists@.len(),
            children@.len() == i,
            forall|j: int|
                0 <= j < i ==> (#[trigger] children@[j]).deep_view() == artist_child(
                    artists@[j].deep_view(),
                ),
        decreases total - i,
    {
        children.push(child_of_artist(&artists[i]));
        i = i + 1;
    }
    assert(children.deep_view() =~= artist_children(artists.deep_view()));
    children
}

fn children_of_album(tracks: &Vec<Track>, id: &str) -> (r: Vec<DirectoryChild>)
    ensures
        r.deep_view() == track_children(tracks.deep_view(), id@),
{
    let total: usize = tracks.len();
    let mut children: Vec<DirectoryChild> = Vec::new();
    let mut i: usize = 0;
    while i < total
        invariant
            i <= total,
            total == tracks@.len(),
            children@.len() == i,
            forall|j: int|
                0 <= j < i ==> (#[trigger] children@[j]).deep_view() == track_child(
                    tracks@[j].deep_view(),
                    Some(id@),
                ),
        decreases total - i,
    {
        children.push(child_of_track(&tracks[i], Some(id.to_owned())));
        i = i + 1;
    }
    assert(children.deep_view() =~= track_children(tracks.deep_view(), id@));
    children
}

/// The next step towards the directory of an artist, given the albums that are still missing.
pub open spec fn artist_step(
    format: ResponseFormat,
    id: Seq<char>,
    name: Seq<char>,
    albums: Seq<Seq<char>>,
    children: Seq<DirectoryChildModel>,
) -> StepModel {
    if albums.len() == 0 {
        StepModel::Done(directory_reply(format, id, name, Some("root"@), children))
    } else {
        StepModel::Ask {
            request: BackendRequestModel::GetAlbum { album_id: albums[0] },
            pending: PendingModel::ArtistDirectory { id, name, albums, children },
        }
    }
}

/// A row without its first item.
pub open spec fn after_first<A>(s: Seq<A>) -> Seq<A> {
    if s.len() > 0 {
        s.skip(1)
    } else {
        s
    }
}

/// The next step towards the directory that an id names.
pub open spec fn resolved_step(
    format: ResponseFormat,
    id: Seq<char>,
    resolved: ResolvedIdModel,
) -> StepModel {
    match resolved {
        ResolvedIdModel::Album(album) => StepModel::Ask {
            request: BackendRequestModel::GetAlbumTracks { album_id: id },
            pending: PendingModel::AlbumDirectory { id, title: album.title },
        },
        ResolvedIdModel::Artist(artist) => artist_step(
            format,
            id,
            artist.name,
            artist.album_ids,
            seq![],
        ),
        ResolvedIdModel::Track(track) => StepModel::Done(
            directory_reply(format, id, track.title, None, seq![track_child(track, None)]),
        ),
    }
}

/// A finished response, where there is one.
pub open spec fn finished(response: Result<SubsonicResponseModel, ErrorModel>) -> Result<
    StepModel,
    ErrorModel,
> {
    match response {
        Ok(response) => Ok(StepModel::Done(response)),
        Err(error) => Err(error),
    }
}

/// The next step once the backend has answered.
pub open spec fn next_step(
    format: ResponseFormat,
    pending: PendingModel,
    response: BackendResponseModel,
) -> Result<StepModel, ErrorModel> {
    match pending {
        PendingModel::Artists => finished(artists_reply(format, response)),
        PendingModel::Indexes => finished(indexes_reply(format, response)),
        PendingModel::Album => finished(album_reply(format, response)),
        PendingModel::Song => finished(song_reply(format, response)),
        PendingModel::CoverArt => finished(cover_art_reply(response)),
        PendingModel::Starred => finished(starred_reply(format, response)),
        PendingModel::Search => finished(search_reply(format, response)),
        PendingModel::Change => finished(change_reply(response, format)),
        PendingModel::RootDirectory => match response {
            BackendResponseModel::Artists(artists) => Ok(
                StepModel::Done(
                    directory_reply(format, "root"@, "Music"@, None, artist_children(artists)),
                ),
            ),
            _ => Err(
                ErrorModel::InvalidRequest(
                    "backend returned unexpected response for getMusicDirectory root"@,
                ),
            ),
        },
        PendingModel::DirectoryId { id } => match response {
            BackendResponseModel::ResolvedId(resolved) => Ok(resolved_step(format, id, resolved)),
            _ => Err(
                ErrorModel::InvalidRequest("backend returned unexpected response for ResolveId"@),
            ),
        },
        PendingModel::AlbumDirectory { id, title } => match response {
            BackendResponseModel::Tracks(tracks) => Ok(
                StepModel::Done(
                    directory_reply(format, id, title, None, track_children(tracks, id)),
                ),
            ),
            _ => Err(
                ErrorModel::InvalidRequest(
                    "backend returned unexpected response for album tracks"@,
                ),
            ),
        },
        PendingModel::ArtistDirectory { id, name, albums, children } => match response {
            BackendResponseModel::Album(album) => Ok(
                artist_step(
                    format,
                    id,
                    name,
                    after_first(albums),
                    children.push(album_child(album, id)),
                ),
            ),
            _ => Err(
                ErrorModel::InvalidRequest(
                    "backend returned unexpected response for artist album"@,
                ),
            ),
        },
    }
}

/// The response to a request where the backend gave no answer: only the id of a directory that
/// names nothing has one.
pub open spec fn fallback(format: ResponseFormat, pending: PendingModel) -> Option<
    SubsonicResponseModel,
> {
    match pending {
        PendingModel::DirectoryId { .. } => Some(failed(format, "unknown directory id"@)),
        _ => None,
    }
}

fn done(response: Result<SubsonicResponse, Error>) -> (r: Result<Step, Error>)
    ensures
        outcome(r) == finished(outcome(response)),
{
    match response {
        Ok(response) => Ok(Step::Done(response)),
        Err(error) => Err(error),
    }
}

fn continue_artist(
    format: ResponseFormat,
    id: String,
    name: String,
    albums: Vec<AlbumId>,
    children: Vec<DirectoryChild>,
) -> (r: Step)
    ensures
        r.deep_view() == artist_step(
            format,
            id@,
            name@,
            albums.deep_view(),
            children.deep_view(),
        ),
{
    if albums.len() == 0 {
        Step::Done(render_directory(format, &id, &name, Some("root"), children))
    } else {
        let album_id = albums[0].duplicate();
        Step::Ask {
            request: BackendRequest::GetAlbum { album_id },
            pending: Pending::ArtistDirectory { id, name, albums, children },
        }
    }
}

fn continue_resolved(format: ResponseFormat, id: String, resolved: ResolvedId) -> (r: Step)
    ensures
        r.deep_view() == resolved_step(format, id@, resolved.deep_view()),
{
    match resolved {
        ResolvedId::Album(album) => Step::Ask {
            request: BackendRequest::GetAlbumTracks { album_id: AlbumId(id.clone()) },
            pending: Pending::AlbumDirectory { id, title: album.title },
        },
        ResolvedId::Artist(artist) => {
            let children: Vec<DirectoryChild> = Vec::new();
            assert(children.deep_view() =~= seq![]);
            continue_artist(format, id, artist.name, artist.album_ids, children)
        },
        ResolvedId::Track(track) => {
            let children = vec![child_of_track(&track, None)];
            assert(children.deep_view() =~= seq![track_child(track.deep_view(), None)]);
            Step::Done(render_directory(format, &id, &track.title, None, children))
        },
    }
}

impl Pending {
    /// The next step once the backend has answered.
    pub fn resume(self, format: ResponseFormat, response: BackendResponse) -> (r: Result<
        Step,
        Error,
    >)
        ensures
            outcome(r) == next_step(format, self.deep_view(), response.deep_view()),
    {
        match self {
            Pending::Artists => done(map_artists(format, response)),
            Pending::Indexes => done(map_indexes(format, response)),
            Pending::Album => done(map_album(format, response)),
            Pending::Song => done(map_track(format, response)),
            Pending::CoverArt => done(map_cover_art(response)),
            Pending::Starred => done(map_starred2(format, response)),
            Pending::Search => done(map_search(format, response)),
            Pending::Change => done(map_empty(response, format)),
            Pending::RootDirectory => match response {
                BackendResponse::Artists(artists) => Ok(
                    Step::Done(
                        render_directory(
                            format,
                            "root",
                            "Music",
                            None,
                            children_of_artists(&artists),
                        ),
                    ),
                ),
                _ => Err(
                    invalid_request(
                        "backend returned unexpected response for getMusicDirectory root",
                    ),
                ),
            },
            Pending::DirectoryId { id } => match response {
                BackendResponse::ResolvedId(resolved) => Ok(continue_resolved(format, id, resolved)),
                _ => Err(invalid_request("backend returned unexpected response for ResolveId")),
            },
            Pending::AlbumDirectory { id, title } => match response {
                BackendResponse::Tracks(tracks) => Ok(
                    Step::Done(
                        render_directory(
                            format,
                            &id,
                            &title,
                            None,
                            children_of_album(&tracks, &id),
                        ),
                    ),
                ),
                _ => Err(invalid_request("backend returned unexpected response for album tracks")),
            },
            Pending::ArtistDirectory { id, name, albums, children } => match response {
                BackendResponse::Album(album) => {
                    let ghost asked = albums.deep_view();
                    let ghost before = children.deep_view();
                    let mut albums = albums;
                    let mut children = children;
                    children.push(child_of_album(album, &id));
                    assert(children.deep_view() =~= before.push(
                        album_child(album.deep_view(), id@),
                    ));
                    if albums.len() > 0 {
                        albums.remove(0);
                    }
                    assert(albums.deep_view() =~= after_first(asked));
                    Ok(continue_artist(format, id, name, albums, children))
                },
                _ => Err(invalid_request("backend returned unexpected response for artist album")),
            },
        }
    }

    /// The response to a request where the backend gave no answer, if there is one.
    pub fn without_answer(&self, format: ResponseFormat) -> (r: Option<SubsonicResponse>)
        ensures
            r.deep_view() == fallback(format, self.deep_view()),
    {
        match self {
            Pending::DirectoryId { .. } => Some(error_response(format, "unknown directory id")),
            _ => None,
        }
    }
}

/// The response to a request that failed.
pub fn failure_response(format: ResponseFormat, error: &str) -> (r: SubsonicResponse)
    ensures
        r.deep_view() == failed(format, "backend error: "@ + error@),
{
    let mut message = "backend error: ".to_owned();
    push_text(&mut message, error);
    error_response(format, &message)
}

/// The path of a request: what follows `/rest/`, whatever its ending says.
pub open spec fn rest_path(rest: Seq<char>) -> Seq<char> {
    if ".view"@.is_suffix_of(rest) {
        "/rest/"@ + rest.take(rest.len() - ".view"@.len())
    } else {
        "/rest/"@ + rest
    }
}

/// The path of a request: what follows `/rest/`, whatever its ending says.
pub fn normalize_rest_path(rest: &str) -> (r: String)
    ensures
        r@ == rest_path(rest@),
{
    let mut path = "/rest/".to_owned();
    match strip_suffix(rest, ".view") {
        Some(name) => push_text(&mut path, &name),
        None => push_text(&mut path, rest),
    }
    path
}

/// The parts of a query that are looked at.
#[derive(Debug)]
pub struct RawQuery {
    pub u: Option<String>,
    pub p: Option<String>,
    pub t: Option<String>,
    pub s: Option<String>,
    pub f: Option<String>,
    pub id: Option<String>,
    pub query: Option<String>,
}

/// The mathematical value of a [`RawQuery`].
pub struct RawQueryModel {
    pub u: Option<Seq<char>>,
    pub p: Option<Seq<char>>,
    pub t: Option<Seq<char>>,
    pub s: Option<Seq<char>>,
    pub f: Option<Seq<char>>,
    pub id: Option<Seq<char>>,
    pub query: Option<Seq<char>>,
}

impl DeepView for RawQuery {
    type V = RawQueryModel;

    open spec fn deep_view(&self) -> RawQueryModel {
        RawQueryModel {
            u: self.u.deep_view(),
            p: self.p.deep_view(),
            t: self.t.deep_view(),
            s: self.s.deep_view(),
            f: self.f.deep_view(),
            id: self.id.deep_view(),
            query: self.query.deep_view(),
        }
    }
}

/// A query with one more pair, where there is a value.
pub open spec fn with_pair(
    query: Seq<(Seq<char>, Seq<char>)>,
    key: Seq<char>,
    value: Option<Seq<char>>,
) -> Seq<(Seq<char>, Seq<char>)> {
    match value {
        Some(value) => query.push((key, value)),
        None => query,
    }
}

/// The pairs of a query.
pub open spec fn pairs_of(raw: RawQueryModel) -> Seq<(Seq<char>, Seq<char>)> {
    let none: Seq<(Seq<char>, Seq<char>)> = seq![];
    let known = with_pair(
        with_pair(with_pair(with_pair(none, "u"@, raw.u), "p"@, raw.p), "t"@, raw.t),
        "s"@,
        raw.s,
    );
    with_pair(with_pair(with_pair(known, "f"@, raw.f), "id"@, raw.id), "query"@, raw.query)
}

fn add_pair(query: &mut Vec<(String, String)>, key: &str, value: Option<String>)
    ensures
        final(query).deep_view() == with_pair(old(query).deep_view(), key@, value.deep_view()),
{
    let ghost before = query.deep_view();
    if let Some(value) = value {
        query.push((key.to_owned(), value));
        assert(query.deep_view() =~= before.push((key@, value@)));
    }
}

impl RawQuery {
    /// The request for what follows `/rest/` with this query.
    pub fn into_request(self, rest: &str) -> (r: RequestContext)
        ensures
            r.deep_view() == (RequestContextModel {
                path: rest_path(rest@),
                query: pairs_of(self.deep_view()),
            }),
    {
        let mut query: Vec<(String, String)> = Vec::new();
        assert(query.deep_view() =~= seq![]);
        add_pair(&mut query, "u", self.u);
        add_pair(&mut query, "p", self.p);
        add_pair(&mut query, "t", self.t);
        add_pair(&mut query, "s", self.s);
        add_pair(&mut query, "f", self.f);
        add_pair(&mut query, "id", self.id);
        add_pair(&mut query, "query", self.query);
        RequestContext { path: normalize_rest_path(rest), query }
    }
}

/// The value of a pair, where its key is the wanted one.
spec fn given(key: Seq<char>, value: Option<Seq<char>>, wanted: Seq<char>) -> Option<Seq<char>> {
    if key == wanted {
        value
    } else {
        None
    }
}

proof fn lemma_first_value_pair(
    query: Seq<(Seq<char>, Seq<char>)>,
    key: Seq<char>,
    value: Option<Seq<char>>,
    wanted: Seq<char>,
)
    ensures
        first_value(with_pair(query, key, value), wanted) == or_else(
            first_value(query, wanted),
            given(key, value, wanted),
        ),
    decreases query.len(),
{
    if let Some(v) = value {
        let all = query.push((key, v));
        if query.len() == 0 {
            let none: Seq<(Seq<char>, Seq<char>)> = seq![];
            assert(all.drop_first() =~= none);
            assert(first_value(none, wanted) is None);
        } else {
            assert(all.drop_first() =~= query.drop_first().push((key, v)));
            lemma_first_value_pair(query.drop_first(), key, value, wanted);
        }
    }
}

/// Looking up a key in a query is trying its parts one after the other.
proof fn lemma_first_value(raw: RawQueryModel, wanted: Seq<char>)
    ensures
        first_value(pairs_of(raw), wanted) == or_else(
            or_else(
                or_else(
                    or_else(
                        or_else(
                            or_else(given("u"@, raw.u, wanted), given("p"@, raw.p, wanted)),
                            given("t"@, raw.t, wanted),
                        ),
                        given("s"@, raw.s, wanted),
                    ),
                    given("f"@, raw.f, wanted),
                ),
                given("id"@, raw.id, wanted),
            ),
            given("query"@, raw.query, wanted),
        ),
{
    let none: Seq<(Seq<char>, Seq<char>)> = seq![];
    lemma_first_value_pair(none, "u"@, raw.u, wanted);
    let with_u = with_pair(none, "u"@, raw.u);
    lemma_first_value_pair(with_u, "p"@, raw.p, wanted);
    let with_p = with_pair(with_u, "p"@, raw.p);
    lemma_first_value_pair(with_p, "t"@, raw.t, wanted);
    let with_t = with_pair(with_p, "t"@, raw.t);
    lemma_first_value_pair(with_t, "s"@, raw.s, wanted);
    let with_s = with_pair(with_t, "s"@, raw.s);
    lemma_first_value_pair(with_s, "f"@, raw.f, wanted);
    let with_f = with_pair(with_s, "f"@, raw.f);
    lemma_first_value_pair(with_f, "id"@, raw.id, wanted);
    let with_id = with_pair(with_f, "id"@, raw.id);
    lemma_first_value_pair(with_id, "query"@, raw.query, wanted);
}

/// What a query says reaches the request, each part under its own key.
pub proof fn law_query_reaches_the_request(raw: RawQueryModel)
    ensures
        first_value(pairs_of(raw), "u"@) == raw.u,
        first_value(pairs_of(raw), "p"@) == raw.p,
        first_value(pairs_of(raw), "t"@) == raw.t,
        first_value(pairs_of(raw), "s"@) == raw.s,
        first_value(pairs_of(raw), "f"@) == raw.f,
        first_value(pairs_of(raw), "id"@) == raw.id,
        first_value(pairs_of(raw), "query"@) == raw.query,
{
    reveal_strlit("u");
    reveal_strlit("p");
    reveal_strlit("t");
    reveal_strlit("s");
    reveal_strlit("f");
    reveal_strlit("id");
    reveal_strlit("query");
    assert("u"@[0] == 'u' && "p"@[0] == 'p' && "t"@[0] == 't' && "s"@[0] == 's' && "f"@[0] == 'f');
    assert("id"@.len() == 2 && "query"@.len() == 5);
    lemma_first_value(raw, "u"@);
    lemma_first_value(raw, "p"@);
    lemma_first_value(raw, "t"@);
    lemma_first_value(raw, "s"@);
    lemma_first_value(raw, "f"@);
    lemma_first_value(raw, "id"@);
    lemma_first_value(raw, "query"@);
}

/// Whoever is not the user gets no further than the refusal, whatever they ask for.
pub proof fn law_only_the_user_is_served(
    username: Seq<char>,
    password: Seq<char>,
    request: RequestContextModel,
)
    requires
        !is_user(credentials_of(request), username, password),
    ensures
        first_step(username, password, request) == Ok::<StepModel, ErrorModel>(
            StepModel::Done(failed(wanted_format(request), "authentication failed"@)),
        ),
{
}

/// Whether a response is in a notation, as far as it has one.
pub open spec fn in_format(response: SubsonicResponseModel, format: ResponseFormat) -> bool {
    match response {
        SubsonicResponseModel::Xml(_) => format == ResponseFormat::Xml,
        SubsonicResponseModel::Json(_) => format == ResponseFormat::Json,
        _ => true,
    }
}

/// A client gets what it asks for: every response is in the notation of the request.
pub proof fn law_response_is_in_the_wanted_format(
    username: Seq<char>,
    password: Seq<char>,
    request: RequestContextModel,
    pending: PendingModel,
    response: BackendResponseModel,
)
    ensures
        first_step(username, password, request) matches Ok(StepModel::Done(done)) ==> in_format(
            done,
            wanted_format(request),
        ),
        next_step(wanted_format(request), pending, response) matches Ok(StepModel::Done(done))
            ==> in_format(done, wanted_format(request)),
        fallback(wanted_format(request), pending) matches Some(done) ==> in_format(
            done,
            wanted_format(request),
        ),
{
}

/// What a library answers to requests that need nothing but the library.
pub open spec fn library_reply(
    music_dir: Seq<Seq<u8>>,
    index: LibraryIndexModel,
    request: BackendRequestModel,
) -> Option<BackendResponseModel> {
    match answer(music_dir, index, request) {
        Ok(ActionModel::Reply(response)) => Some(response),
        _ => None,
    }
}

/// What comes of a step when the backend answers from its library, within a number of questions.
pub open spec fn outcome_of(
    format: ResponseFormat,
    music_dir: Seq<Seq<u8>>,
    index: LibraryIndexModel,
    step: StepModel,
    questions: nat,
) -> Option<Result<SubsonicResponseModel, ErrorModel>>
    decreases questions,
{
    match step {
        StepModel::Done(response) => Some(Ok(response)),
        StepModel::Stream { .. } => None,
        StepModel::Ask { request, pending } => if questions == 0 {
            None
        } else {
            match library_reply(music_dir, index, request) {
                None => match fallback(format, pending) {
                    Some(response) => Some(Ok(response)),
                    None => None,
                },
                Some(response) => match next_step(format, pending, response) {
                    Err(error) => Some(Err(error)),
                    Ok(step) => outcome_of(
                        format,
                        music_dir,
                        index,
                        step,
                        (questions - 1) as nat,
                    ),
                },
            }
        },
    }
}

/// The directory that an id names in a library.
pub open spec fn directory_of(
    format: ResponseFormat,
    index: LibraryIndexModel,
    id: Seq<char>,
) -> SubsonicResponseModel {
    if id == "root"@ {
        directory_reply(
            format,
            "root"@,
            "Music"@,
            None,
            artist_children(values_of::<ArtistId, ArtistModel>(index.artists)),
        )
    } else {
        match resolved(index, id) {
            Ok(ResolvedIdModel::Album(album)) => directory_reply(
                format,
                id,
                album.title,
                None,
                track_children(
                    album.track_ids.map_values(|track_id: Seq<char>| index.tracks[track_id]),
                    id,
                ),
            ),
            Ok(ResolvedIdModel::Artist(artist)) => directory_reply(
                format,
                id,
                artist.name,
                Some("root"@),
                album_children(index, artist.album_ids, id),
            ),
            Ok(ResolvedIdModel::Track(track)) => directory_reply(
                format,
                id,
                track.title,
                None,
                seq![track_child(track, None)],
            ),
            Err(_) => failed(format, "unknown directory id"@),
        }
    }
}

/// The entries of the directory of an artist with these albums.
pub open spec fn album_children(
    index: LibraryIndexModel,
    album_ids: Seq<Seq<char>>,
    id: Seq<char>,
) -> Seq<DirectoryChildModel> {
    album_ids.map_values(|album_id: Seq<char>| album_child(index.albums[album_id], id))
}

proof fn lemma_album_is_answered(
    music_dir: Seq<Seq<u8>>,
    index: LibraryIndexModel,
    album_id: Seq<char>,
)
    requires
        index.albums.dom().contains(album_id),
    ensures
        library_reply(music_dir, index, BackendRequestModel::GetAlbum { album_id }) == Some(
            BackendResponseModel::Album(index.albums[album_id]),
        ),
{
}

/// The answer for one album of an artist leads to the question for the next.
#[verifier::rlimit(50)]
#[verifier::spinoff_prover]
proof fn lemma_artist_question(
    format: ResponseFormat,
    music_dir: Seq<Seq<u8>>,
    index: LibraryIndexModel,
    id: Seq<char>,
    name: Seq<char>,
    albums: Seq<Seq<char>>,
    children: Seq<DirectoryChildModel>,
    questions: nat,
)
    requires
        questions > 0,
        albums.len() > 0,
        index.albums.dom().contains(albums[0]),
    ensures
        outcome_of(
            format,
            music_dir,
            index,
            artist_step(format, id, name, albums, children),
            questions,
        ) == outcome_of(
            format,
            music_dir,
            index,
            artist_step(
                format,
                id,
                name,
                albums.skip(1),
                children.push(album_child(index.albums[albums[0]], id)),
            ),
            (questions - 1) as nat,
        ),
{
    lemma_album_is_answered(music_dir, index, albums[0]);
}

#[verifier::spinoff_prover]
proof fn lemma_artist_directory(
    format: ResponseFormat,
    music_dir: Seq<Seq<u8>>,
    index: LibraryIndexModel,
    id: Seq<char>,
    name: Seq<char>,
    albums: Seq<Seq<char>>,
    children: Seq<DirectoryChildModel>,
    questions: nat,
)
    requires
        questions >= albums.len(),
        forall|i: int| 0 <= i < albums.len() ==> index.albums.dom().contains(#[trigger] albums[i]),
    ensures
        outcome_of(
            format,
            music_dir,
            index,
            artist_step(format, id, name, albums, children),
            questions,
        ) == Some(
            Ok::<SubsonicResponseModel, ErrorModel>(
                directory_reply(
                    format,
                    id,
                    name,
                    Some("root"@),
                    children + album_children(index, albums, id),
                ),
            ),
        ),
    decreases albums.len(),
{
    if albums.len() == 0 {
        assert(children + album_children(index, albums, id) =~= children);
    } else {
        let child = album_child(index.albums[albums[0]], id);
        let rest = albums.skip(1);
        assert forall|i: int| 0 <= i < rest.len() implies index.albums.dom().contains(
            #[trigger] rest[i],
        ) by {
            assert(rest[i] == albums[i + 1]);
        }
        assert(index.albums.dom().contains(albums[0]));
        lemma_artist_question(format, music_dir, index, id, name, albums, children, questions);
        lemma_artist_directory(
            format,
            music_dir,
            index,
            id,
            name,
            rest,
            children.push(child),
            (questions - 1) as nat,
        );
        assert(children.push(child) + album_children(index, rest, id) =~= children
            + album_children(index, albums, id));
    }
}

/// A directory is complete: from a library whose ids lead somewhere every directory holds all that
/// the library has in it, and whatever the id, the questions come to an end.
#[verifier::rlimit(50)]
#[verifier::spinoff_prover]
pub proof fn law_directory_is_complete(
    format: ResponseFormat,
    music_dir: Seq<Seq<u8>>,
    index: LibraryIndexModel,
    id: Seq<char>,
    questions: nat,
)
    requires
        linked(index),
        questions >= 2,
        index.artists.dom().contains(id) ==> questions > index.artists[id].album_ids.len(),
    ensures
        outcome_of(format, music_dir, index, directory_step(id), questions) == Some(
            Ok::<SubsonicResponseModel, ErrorModel>(directory_of(format, index, id)),
        ),
{
    reveal_with_fuel(outcome_of, 3);
    if id != "root"@ {
        if index.albums.dom().contains(id) {
            law_album_tracks_are_found(music_dir, index, id);
            let ids = index.albums[id].track_ids;
            let tracks = tracks_named(index.tracks, ids)->Ok_0;
            assert forall|i: int| 0 <= i < ids.len() implies index.tracks.dom().contains(
                #[trigger] ids[i],
            ) by {
                assert(ids.contains(ids[i]));
            }
            lemma_tracks_found(index.tracks, ids);
            assert(tracks =~= ids.map_values(|track_id: Seq<char>| index.tracks[track_id]));
        } else if index.artists.dom().contains(id) {
            let artist = index.artists[id];
            let none: Seq<DirectoryChildModel> = seq![];
            assert forall|i: int| 0 <= i < artist.album_ids.len() implies index.albums.dom().contains(
                #[trigger] artist.album_ids[i],
            ) by {
                assert(artist.album_ids.contains(artist.album_ids[i]));
            }
            lemma_artist_directory(
                format,
                music_dir,
                index,
                id,
                artist.name,
                artist.album_ids,
                none,
                (questions - 1) as nat,
            );
            assert(none + album_children(index, artist.album_ids, id) =~= album_children(
                index,
                artist.album_ids,
                id,
            ));
        }
    }
}

} // verus!
