//! What a client gets, from the request and the library to the response.

use vstd::prelude::*;

use crate::auth::{credentials_of, is_user};
use crate::error::ErrorModel;
use crate::index::LibraryIndexModel;
use crate::integrity::linked;
use crate::json::{json_text, Json};
use crate::models::{first_value, RequestContextModel};
use crate::ordered_map::values_of;
use crate::protocol::{
    AlbumModel, ArtistId, ArtistModel, BackendRequestModel, BackendResponseModel,
    CoverArtBytesModel,
    SearchQueryModel, StarredSetModel, TrackModel,
};
use crate::reading::{attribute, tags};
use crate::render::{ordered_groups, wanted_format, ResponseFormat, SubsonicResponseModel};
use crate::response_laws::{
    album_object_told, album_told, artist_hit_told, child_object_told, child_told, directory_told,
    entry,
    error_told, group_told, hits_object_told, hits_told, holds_inside, index_told, is_array,
    is_ok_with,
    item, law_album_is_told, law_artists_are_told, law_directory_is_told, law_empty_response_is_ok,
    law_failure_is_told, law_indexes_are_told, law_license_is_told, law_message_is_told,
    law_music_folders_are_told, law_search_hits_are_told, law_song_is_told,
    law_starred_items_are_told,
    response_tag, song_object_told, song_told, text_told,
};
use crate::routes::{
    album_children, artist_children, directory_step, first_step,
    law_directory_is_complete, next_step, outcome_of, rest_path, track_child, track_children,
    PendingModel,
    StepModel,
};
use crate::text::{decimal, is_space, law_trimming, trimmed};
use crate::xml::escaped;

verus! {

/// Whether a tag is the entry of a track in a directory, with what is known of it under its own name.
pub open spec fn track_entry_told(
    tag: Seq<char>,
    track: TrackModel,
    parent: Option<Seq<char>>,
) -> bool {
    &&& text_told(tag, "child"@, "id"@) == Some(track.id)
    &&& text_told(tag, "child"@, "title"@) == Some(track.title)
    &&& attribute(tag, "child"@, "isDir"@) == Some("false"@)
    &&& text_told(tag, "child"@, "artist"@) == Some(track.artist)
    &&& text_told(tag, "child"@, "album"@) == Some(track.album)
    &&& text_told(tag, "child"@, "contentType"@) == Some(track.content_type)
    &&& text_told(tag, "child"@, "coverArt"@) == track.cover_art_id
    &&& attribute(tag, "child"@, "track"@) == (match track.track_number {
        Some(number) => Some(decimal(number as nat)),
        None => None,
    })
    &&& attribute(tag, "child"@, "discNumber"@) == (match track.disc_number {
        Some(number) => Some(decimal(number as nat)),
        None => None,
    })
    &&& attribute(tag, "child"@, "duration"@) == (match track.duration_seconds {
        Some(number) => Some(decimal(number as nat)),
        None => None,
    })
    &&& attribute(tag, "child"@, "size"@) == Some(decimal(track.file_size as nat))
    &&& text_told(tag, "child"@, "parent"@) == parent
}

/// Whether an object is the entry of a track in a directory, with what is known of it under its own name.
pub open spec fn track_entry_object_told(
    object: Json,
    track: TrackModel,
    parent: Option<Seq<char>>,
) -> bool {
    &&& entry(object, "id"@) == Some(Json::Text(track.id))
    &&& entry(object, "title"@) == Some(Json::Text(track.title))
    &&& entry(object, "isDir"@) == Some(Json::Bool(false))
    &&& entry(object, "artist"@) == Some(Json::Text(track.artist))
    &&& entry(object, "album"@) == Some(Json::Text(track.album))
    &&& entry(object, "contentType"@) == Some(Json::Text(track.content_type))
    &&& entry(object, "coverArt"@) == (match track.cover_art_id {
        Some(text) => Some(Json::Text(text)),
        None => None,
    })
    &&& entry(object, "track"@) == (match track.track_number {
        Some(number) => Some(Json::Number(number as nat)),
        None => None,
    })
    &&& entry(object, "discNumber"@) == (match track.disc_number {
        Some(number) => Some(Json::Number(number as nat)),
        None => None,
    })
    &&& entry(object, "duration"@) == (match track.duration_seconds {
        Some(number) => Some(Json::Number(number as nat)),
        None => None,
    })
    &&& entry(object, "size"@) == Some(Json::Number(track.file_size as nat))
    &&& entry(object, "parent"@) == (match parent {
        Some(text) => Some(Json::Text(text)),
        None => None,
    })
}

/// Whether a tag is the entry of an album in a directory, with what is known of it under its own name.
pub open spec fn album_entry_told(tag: Seq<char>, album: AlbumModel, parent: Seq<char>) -> bool {
    &&& text_told(tag, "child"@, "id"@) == Some(album.id)
    &&& text_told(tag, "child"@, "title"@) == Some(album.title)
    &&& attribute(tag, "child"@, "isDir"@) == Some("true"@)
    &&& text_told(tag, "child"@, "artist"@) == Some(album.artist)
    &&& text_told(tag, "child"@, "album"@) == Some(album.title)
    &&& attribute(tag, "child"@, "contentType"@) is None
    &&& text_told(tag, "child"@, "coverArt"@) == album.cover_art_id
    &&& attribute(tag, "child"@, "track"@) is None
    &&& attribute(tag, "child"@, "discNumber"@) is None
    &&& attribute(tag, "child"@, "duration"@) == (match album.duration_seconds {
        Some(number) => Some(decimal(number as nat)),
        None => None,
    })
    &&& attribute(tag, "child"@, "size"@) == Some(decimal(album.size_bytes as nat))
    &&& text_told(tag, "child"@, "parent"@) == Some(parent)
}

/// Whether an object is the entry of an album in a directory, with what is known of it under its own name.
pub open spec fn album_entry_object_told(object: Json, album: AlbumModel, parent: Seq<char>) -> bool {
    &&& entry(object, "id"@) == Some(Json::Text(album.id))
    &&& entry(object, "title"@) == Some(Json::Text(album.title))
    &&& entry(object, "isDir"@) == Some(Json::Bool(true))
    &&& entry(object, "artist"@) == Some(Json::Text(album.artist))
    &&& entry(object, "album"@) == Some(Json::Text(album.title))
    &&& entry(object, "contentType"@) is None
    &&& entry(object, "coverArt"@) == (match album.cover_art_id {
        Some(text) => Some(Json::Text(text)),
        None => None,
    })
    &&& entry(object, "track"@) is None
    &&& entry(object, "discNumber"@) is None
    &&& entry(object, "duration"@) == (match album.duration_seconds {
        Some(number) => Some(Json::Number(number as nat)),
        None => None,
    })
    &&& entry(object, "size"@) == Some(Json::Number(album.size_bytes as nat))
    &&& entry(object, "parent"@) == Some(Json::Text(parent))
}

/// Whether a tag is the entry of an artist in a directory, with what is known of it under its own name.
pub open spec fn artist_entry_told(tag: Seq<char>, artist: ArtistModel) -> bool {
    &&& text_told(tag, "child"@, "id"@) == Some(artist.id)
    &&& text_told(tag, "child"@, "title"@) == Some(artist.name)
    &&& attribute(tag, "child"@, "isDir"@) == Some("true"@)
    &&& attribute(tag, "child"@, "artist"@) is None
    &&& attribute(tag, "child"@, "album"@) is None
    &&& attribute(tag, "child"@, "contentType"@) is None
    &&& attribute(tag, "child"@, "coverArt"@) is None
    &&& attribute(tag, "child"@, "track"@) is None
    &&& attribute(tag, "child"@, "discNumber"@) is None
    &&& attribute(tag, "child"@, "duration"@) is None
    &&& attribute(tag, "child"@, "size"@) is None
    &&& text_told(tag, "child"@, "parent"@) == Some("root"@)
}

/// Whether an object is the entry of an artist in a directory, with what is known of it under its own name.
pub open spec fn artist_entry_object_told(object: Json, artist: ArtistModel) -> bool {
    &&& entry(object, "id"@) == Some(Json::Text(artist.id))
    &&& entry(object, "title"@) == Some(Json::Text(artist.name))
    &&& entry(object, "isDir"@) == Some(Json::Bool(true))
    &&& entry(object, "artist"@) is None
    &&& entry(object, "album"@) is None
    &&& entry(object, "contentType"@) is None
    &&& entry(object, "coverArt"@) is None
    &&& entry(object, "track"@) is None
    &&& entry(object, "discNumber"@) is None
    &&& entry(object, "duration"@) is None
    &&& entry(object, "size"@) is None
    &&& entry(object, "parent"@) == Some(Json::Text("root"@))
}

/// In the directory of an album the entry of each track tells what the library knows of the track, each
/// thing under its own name, in the order of the album.
pub proof fn law_album_directory_tells_its_tracks(
    music_dir: Seq<Seq<u8>>,
    index: LibraryIndexModel,
    id: Seq<char>,
    questions: nat,
) -> (told: (Seq<char>, Seq<char>, Seq<Seq<char>>, Json, Json))
    requires
        linked(index),
        id != "root"@,
        index.albums.dom().contains(id),
        questions >= 2,
        index.artists.dom().contains(id) ==> questions > index.artists[id].album_ids.len(),
    ensures
        outcome_of(ResponseFormat::Xml, music_dir, index, directory_step(id), questions) == Some(
            Ok::<SubsonicResponseModel, ErrorModel>(SubsonicResponseModel::Xml(told.0)),
        ),
        holds_inside(told.0, told.1, told.2, "/directory>"@),
        directory_told(told.1, (id, index.albums[id].title, None::<Seq<char>>)),
        told.2.len() == index.albums[id].track_ids.len(),
        forall|i: int|
            0 <= i < told.2.len()
                ==> track_entry_told(
                    #[trigger] told.2[i],
                    index.tracks[index.albums[id].track_ids[i]],
                    Some(id),
                ),
        outcome_of(ResponseFormat::Json, music_dir, index, directory_step(id), questions) == Some(
            Ok::<SubsonicResponseModel, ErrorModel>(
                SubsonicResponseModel::Json(json_text(told.3)),
            ),
        ),
        is_ok_with(told.3, "directory"@, told.4),
        entry(told.4, "id"@) == Some(Json::Text(id)),
        entry(told.4, "name"@) == Some(Json::Text(index.albums[id].title)),
        entry(told.4, "parent"@) == None::<Json>,
        entry(told.4, "child"@) matches Some(row) && is_array(row, index.albums[id].track_ids.len())
            && forall|i: int|
            0 <= i < index.albums[id].track_ids.len()
                ==> track_entry_object_told(
                    #[trigger] item(row, i),
                    index.tracks[index.albums[id].track_ids[i]],
                    Some(id),
                ),
{
    let children = track_children(
        index.albums[id].track_ids.map_values(|track_id: Seq<char>| index.tracks[track_id]),
        id,
    );
    law_directory_is_complete(ResponseFormat::Xml, music_dir, index, id, questions);
    law_directory_is_complete(ResponseFormat::Json, music_dir, index, id, questions);
    let told = law_directory_is_told(id, index.albums[id].title, None::<Seq<char>>, children);
    assert forall|i: int| 0 <= i < told.2.len() implies track_entry_told(
        #[trigger] told.2[i],
        index.tracks[index.albums[id].track_ids[i]], Some(id),
    ) by {
        assert(child_told(told.2[i], children[i]));
    }
    let row = entry(told.4, "child"@)->0;
    assert forall|i: int| 0 <= i < index.albums[id].track_ids.len() implies track_entry_object_told(
        #[trigger] item(row, i),
        index.tracks[index.albums[id].track_ids[i]], Some(id),
    ) by {
        assert(child_object_told(item(row, i), children[i]));
    }
    told
}

/// In the directory of an artist the entry of each album tells what the library knows of the album, each
/// thing under its own name, in the order of the artist.
pub proof fn law_artist_directory_tells_its_albums(
    music_dir: Seq<Seq<u8>>,
    index: LibraryIndexModel,
    id: Seq<char>,
    questions: nat,
) -> (told: (Seq<char>, Seq<char>, Seq<Seq<char>>, Json, Json))
    requires
        linked(index),
        id != "root"@,
        !index.albums.dom().contains(id),
        index.artists.dom().contains(id),
        questions >= 2,
        questions > index.artists[id].album_ids.len(),
    ensures
        outcome_of(ResponseFormat::Xml, music_dir, index, directory_step(id), questions) == Some(
            Ok::<SubsonicResponseModel, ErrorModel>(SubsonicResponseModel::Xml(told.0)),
        ),
        holds_inside(told.0, told.1, told.2, "/directory>"@),
        directory_told(told.1, (id, index.artists[id].name, Some("root"@))),
        told.2.len() == index.artists[id].album_ids.len(),
        forall|i: int|
            0 <= i < told.2.len()
                ==> album_entry_told(
                    #[trigger] told.2[i],
                    index.albums[index.artists[id].album_ids[i]],
                    id,
                ),
        outcome_of(ResponseFormat::Json, music_dir, index, directory_step(id), questions) == Some(
            Ok::<SubsonicResponseModel, ErrorModel>(
                SubsonicResponseModel::Json(json_text(told.3)),
            ),
        ),
        is_ok_with(told.3, "directory"@, told.4),
        entry(told.4, "id"@) == Some(Json::Text(id)),
        entry(told.4, "name"@) == Some(Json::Text(index.artists[id].name)),
        entry(told.4, "parent"@) == Some(Json::Text("root"@)),
        entry(told.4, "child"@) matches Some(row)
            && is_array(row, index.artists[id].album_ids.len())
            && forall|i: int|
            0 <= i < index.artists[id].album_ids.len()
                ==> album_entry_object_told(
                    #[trigger] item(row, i),
                    index.albums[index.artists[id].album_ids[i]],
                    id,
                ),
{
    let children = album_children(index, index.artists[id].album_ids, id);
    law_directory_is_complete(ResponseFormat::Xml, music_dir, index, id, questions);
    law_directory_is_complete(ResponseFormat::Json, music_dir, index, id, questions);
    let told = law_directory_is_told(id, index.artists[id].name, Some("root"@), children);
    assert forall|i: int| 0 <= i < told.2.len() implies album_entry_told(
        #[trigger] told.2[i],
        index.albums[index.artists[id].album_ids[i]], id,
    ) by {
        assert(child_told(told.2[i], children[i]));
    }
    let row = entry(told.4, "child"@)->0;
    assert forall|i: int| 0 <= i < index.artists[id].album_ids.len() implies album_entry_object_told(
        #[trigger] item(row, i),
        index.albums[index.artists[id].album_ids[i]], id,
    ) by {
        assert(child_object_told(item(row, i), children[i]));
    }
    told
}

/// The directory that the id of a track names has one entry, which tells what the library knows of the
/// track.
pub proof fn law_directory_of_a_track_tells_it(
    music_dir: Seq<Seq<u8>>,
    index: LibraryIndexModel,
    id: Seq<char>,
    questions: nat,
) -> (told: (Seq<char>, Seq<char>, Seq<Seq<char>>, Json, Json))
    requires
        linked(index),
        id != "root"@,
        !index.albums.dom().contains(id),
        !index.artists.dom().contains(id),
        index.tracks.dom().contains(id),
        questions >= 2,
    ensures
        outcome_of(ResponseFormat::Xml, music_dir, index, directory_step(id), questions) == Some(
            Ok::<SubsonicResponseModel, ErrorModel>(SubsonicResponseModel::Xml(told.0)),
        ),
        holds_inside(told.0, told.1, told.2, "/directory>"@),
        directory_told(told.1, (id, index.tracks[id].title, None::<Seq<char>>)),
        told.2.len() == 1,
        forall|i: int|
            0 <= i < told.2.len() ==> track_entry_told(#[trigger] told.2[i], index.tracks[id], None),
        outcome_of(ResponseFormat::Json, music_dir, index, directory_step(id), questions) == Some(
            Ok::<SubsonicResponseModel, ErrorModel>(
                SubsonicResponseModel::Json(json_text(told.3)),
            ),
        ),
        is_ok_with(told.3, "directory"@, told.4),
        entry(told.4, "id"@) == Some(Json::Text(id)),
        entry(told.4, "name"@) == Some(Json::Text(index.tracks[id].title)),
        entry(told.4, "parent"@) == None::<Json>,
        entry(told.4, "child"@) matches Some(row) && is_array(row, 1)
            && forall|i: int|
            0 <= i < 1 ==> track_entry_object_told(#[trigger] item(row, i), index.tracks[id], None),
{
    let children = seq![track_child(index.tracks[id], None)];
    law_directory_is_complete(ResponseFormat::Xml, music_dir, index, id, questions);
    law_directory_is_complete(ResponseFormat::Json, music_dir, index, id, questions);
    let told = law_directory_is_told(id, index.tracks[id].title, None::<Seq<char>>, children);
    assert forall|i: int| 0 <= i < told.2.len() implies track_entry_told(
        #[trigger] told.2[i],
        index.tracks[id], None,
    ) by {
        assert(child_told(told.2[i], children[i]));
    }
    let row = entry(told.4, "child"@)->0;
    assert forall|i: int| 0 <= i < 1 implies track_entry_object_told(
        #[trigger] item(row, i),
        index.tracks[id], None,
    ) by {
        assert(child_object_told(item(row, i), children[i]));
    }
    told
}

/// The directory of all has an entry for each artist, which tells the id and the name.
pub proof fn law_root_directory_tells_the_artists(
    music_dir: Seq<Seq<u8>>,
    index: LibraryIndexModel,
    questions: nat,
) -> (told: (Seq<char>, Seq<char>, Seq<Seq<char>>, Json, Json))
    requires
        linked(index),
        questions >= 2,
        index.artists.dom().contains("root"@) ==> questions
            > index.artists["root"@].album_ids.len(),
    ensures
        outcome_of(ResponseFormat::Xml, music_dir, index, directory_step("root"@), questions)
            == Some(
            Ok::<SubsonicResponseModel, ErrorModel>(SubsonicResponseModel::Xml(told.0)),
        ),
        holds_inside(told.0, told.1, told.2, "/directory>"@),
        directory_told(told.1, ("root"@, "Music"@, None::<Seq<char>>)),
        told.2.len() == values_of::<ArtistId, ArtistModel>(index.artists).len(),
        forall|i: int|
            0 <= i < told.2.len()
                ==> artist_entry_told(
                    #[trigger] told.2[i],
                    values_of::<ArtistId,
                    ArtistModel>(index.artists)[i],
                ),
        outcome_of(ResponseFormat::Json, music_dir, index, directory_step("root"@), questions)
            == Some(
            Ok::<SubsonicResponseModel, ErrorModel>(
                SubsonicResponseModel::Json(json_text(told.3)),
            ),
        ),
        is_ok_with(told.3, "directory"@, told.4),
        entry(told.4, "id"@) == Some(Json::Text("root"@)),
        entry(told.4, "name"@) == Some(Json::Text("Music"@)),
        entry(told.4, "parent"@) == None::<Json>,
        entry(told.4, "child"@) matches Some(row)
            && is_array(row, values_of::<ArtistId, ArtistModel>(index.artists).len())
            && forall|i: int|
            0 <= i < values_of::<ArtistId, ArtistModel>(index.artists).len()
                ==> artist_entry_object_told(
                    #[trigger] item(row, i),
                    values_of::<ArtistId,
                    ArtistModel>(index.artists)[i],
                ),
{
    let children = artist_children(values_of::<ArtistId, ArtistModel>(index.artists));
    law_directory_is_complete(ResponseFormat::Xml, music_dir, index, "root"@, questions);
    law_directory_is_complete(ResponseFormat::Json, music_dir, index, "root"@, questions);
    let told = law_directory_is_told("root"@, "Music"@, None::<Seq<char>>, children);
    assert forall|i: int| 0 <= i < told.2.len() implies artist_entry_told(
        #[trigger] told.2[i],
        values_of::<ArtistId, ArtistModel>(index.artists)[i],
    ) by {
        assert(child_told(told.2[i], children[i]));
    }
    let row = entry(told.4, "child"@)->0;
    assert forall|i: int| 0 <= i < values_of::<ArtistId, ArtistModel>(index.artists).len()
        implies artist_entry_object_told(
        #[trigger] item(row, i),
        values_of::<ArtistId, ArtistModel>(index.artists)[i],
    ) by {
        assert(child_object_told(item(row, i), children[i]));
    }
    told
}

/// Where the id of a directory names nothing, the client is told so.
pub proof fn law_unknown_directory_is_told(
    music_dir: Seq<Seq<u8>>,
    index: LibraryIndexModel,
    id: Seq<char>,
    questions: nat,
) -> (told: (Seq<char>, Json))
    requires
        linked(index),
        id != "root"@,
        !index.albums.dom().contains(id),
        !index.artists.dom().contains(id),
        !index.tracks.dom().contains(id),
        questions >= 2,
    ensures
        outcome_of(ResponseFormat::Xml, music_dir, index, directory_step(id), questions) == Some(
            Ok::<SubsonicResponseModel, ErrorModel>(SubsonicResponseModel::Xml(told.0)),
        ),
        response_tag(tags(told.0)[2], "failed"@),
        error_told(tags(told.0)[3], "unknown directory id"@),
        outcome_of(ResponseFormat::Json, music_dir, index, directory_step(id), questions) == Some(
            Ok::<SubsonicResponseModel, ErrorModel>(
                SubsonicResponseModel::Json(json_text(told.1)),
            ),
        ),
{
    law_directory_is_complete(ResponseFormat::Xml, music_dir, index, id, questions);
    law_directory_is_complete(ResponseFormat::Json, music_dir, index, id, questions);
    law_failure_is_told("unknown directory id"@)
}

/// Whether something is served under a path.
pub open spec fn served(path: Seq<char>) -> bool {
    ||| path == "/rest/ping"@
    ||| path == "/rest/getLicense"@
    ||| path == "/rest/getMusicFolders"@
    ||| path == "/rest/getArtists"@
    ||| path == "/rest/getIndexes"@
    ||| path == "/rest/getMusicDirectory"@
    ||| path == "/rest/getAlbum"@
    ||| path == "/rest/getSong"@
    ||| path == "/rest/getCoverArt"@
    ||| path == "/rest/getStarred2"@
    ||| path == "/rest/search3"@
    ||| path == "/rest/scrobble"@
    ||| path == "/rest/star"@
    ||| path == "/rest/unstar"@
    ||| path == "/rest/stream"@
}

/// Whether a request comes from the user and asks for something.
pub open spec fn asks_for(
    request: RequestContextModel,
    username: Seq<char>,
    password: Seq<char>,
    path: Seq<char>,
) -> bool {
    is_user(credentials_of(request), username, password) && request.path == path
}

/// Whether the first step for a request is a question to the backend.
pub open spec fn leads_to(
    username: Seq<char>,
    password: Seq<char>,
    request: RequestContextModel,
    question: BackendRequestModel,
    pending: PendingModel,
) -> bool {
    first_step(username, password, request) == Ok::<StepModel, ErrorModel>(
        StepModel::Ask { request: question, pending },
    )
}

/// Each request for something in the library asks the backend for that thing.
pub proof fn law_requests_ask_for_what_they_name(
    username: Seq<char>,
    password: Seq<char>,
    request: RequestContextModel,
    id: Seq<char>,
)
    requires
        first_value(request.query, "id"@) == Some(id),
    ensures
        asks_for(request, username, password, "/rest/getAlbum"@) ==> leads_to(
            username,
            password,
            request,
            BackendRequestModel::GetAlbum { album_id: id },
            PendingModel::Album,
        ),
        asks_for(request, username, password, "/rest/getSong"@) ==> leads_to(
            username,
            password,
            request,
            BackendRequestModel::GetTrack { track_id: id },
            PendingModel::Song,
        ),
        asks_for(request, username, password, "/rest/getCoverArt"@) ==> leads_to(
            username,
            password,
            request,
            BackendRequestModel::GetCoverArt { cover_art_id: id },
            PendingModel::CoverArt,
        ),
        asks_for(request, username, password, "/rest/star"@) ==> leads_to(
            username,
            password,
            request,
            BackendRequestModel::SetStarred { id, starred: true },
            PendingModel::Change,
        ),
        asks_for(request, username, password, "/rest/unstar"@) ==> leads_to(
            username,
            password,
            request,
            BackendRequestModel::SetStarred { id, starred: false },
            PendingModel::Change,
        ),
        asks_for(request, username, password, "/rest/stream"@) ==> first_step(
            username,
            password,
            request,
        ) == Ok::<StepModel, ErrorModel>(StepModel::Stream { track_id: id }),
        asks_for(request, username, password, "/rest/getMusicDirectory"@) ==> first_step(
            username,
            password,
            request,
        ) == Ok::<StepModel, ErrorModel>(directory_step(id)),
{
    reveal_strlit("/rest/ping");
    reveal_strlit("/rest/getLicense");
    reveal_strlit("/rest/getMusicFolders");
    reveal_strlit("/rest/getArtists");
    reveal_strlit("/rest/getIndexes");
    reveal_strlit("/rest/getMusicDirectory");
    reveal_strlit("/rest/getAlbum");
    reveal_strlit("/rest/getSong");
    reveal_strlit("/rest/getCoverArt");
    reveal_strlit("/rest/getStarred2");
    reveal_strlit("/rest/search3");
    reveal_strlit("/rest/scrobble");
    reveal_strlit("/rest/star");
    reveal_strlit("/rest/unstar");
    reveal_strlit("/rest/stream");
    assert("/rest/ping"@.len() == 10 && "/rest/ping"@[6] == 'p');
    assert("/rest/getLicense"@.len() == 16 && "/rest/getLicense"@[9] == 'L');
    assert("/rest/getMusicFolders"@.len() == 21);
    assert("/rest/getArtists"@.len() == 16 && "/rest/getArtists"@[9] == 'A');
    assert("/rest/getIndexes"@.len() == 16 && "/rest/getIndexes"@[9] == 'I');
    assert("/rest/getMusicDirectory"@.len() == 23);
    assert("/rest/getAlbum"@.len() == 14 && "/rest/getAlbum"@[6] == 'g');
    assert("/rest/getSong"@.len() == 13 && "/rest/getSong"@[6] == 'g');
    assert("/rest/getCoverArt"@.len() == 17 && "/rest/getCoverArt"@[9] == 'C');
    assert("/rest/getStarred2"@.len() == 17 && "/rest/getStarred2"@[9] == 'S');
    assert("/rest/search3"@.len() == 13 && "/rest/search3"@[6] == 's');
    assert("/rest/scrobble"@.len() == 14 && "/rest/scrobble"@[6] == 's');
    assert("/rest/star"@.len() == 10 && "/rest/star"@[6] == 's');
    assert("/rest/unstar"@.len() == 12 && "/rest/unstar"@[6] == 'u');
    assert("/rest/stream"@.len() == 12 && "/rest/stream"@[6] == 's');
}

/// The requests that name nothing ask the backend for the lists.
pub proof fn law_requests_for_lists(
    username: Seq<char>,
    password: Seq<char>,
    request: RequestContextModel,
)
    ensures
        asks_for(request, username, password, "/rest/getArtists"@) ==> leads_to(
            username,
            password,
            request,
            BackendRequestModel::ListArtists,
            PendingModel::Artists,
        ),
        asks_for(request, username, password, "/rest/getIndexes"@) ==> leads_to(
            username,
            password,
            request,
            BackendRequestModel::ListArtists,
            PendingModel::Indexes,
        ),
        asks_for(request, username, password, "/rest/getStarred2"@) ==> leads_to(
            username,
            password,
            request,
            BackendRequestModel::GetStarred,
            PendingModel::Starred,
        ),
        asks_for(request, username, password, "/rest/getMusicDirectory"@) && first_value(
            request.query,
            "id"@,
        ) is None ==> first_step(username, password, request) == Ok::<StepModel, ErrorModel>(
            directory_step("root"@),
        ),
{
    reveal_strlit("/rest/ping");
    reveal_strlit("/rest/getLicense");
    reveal_strlit("/rest/getMusicFolders");
    reveal_strlit("/rest/getArtists");
    reveal_strlit("/rest/getIndexes");
    reveal_strlit("/rest/getMusicDirectory");
    reveal_strlit("/rest/getAlbum");
    reveal_strlit("/rest/getSong");
    reveal_strlit("/rest/getCoverArt");
    reveal_strlit("/rest/getStarred2");
    reveal_strlit("/rest/search3");
    reveal_strlit("/rest/scrobble");
    reveal_strlit("/rest/star");
    reveal_strlit("/rest/unstar");
    reveal_strlit("/rest/stream");
    assert("/rest/ping"@.len() == 10 && "/rest/ping"@[6] == 'p');
    assert("/rest/getLicense"@.len() == 16 && "/rest/getLicense"@[9] == 'L');
    assert("/rest/getMusicFolders"@.len() == 21);
    assert("/rest/getArtists"@.len() == 16 && "/rest/getArtists"@[9] == 'A');
    assert("/rest/getIndexes"@.len() == 16 && "/rest/getIndexes"@[9] == 'I');
    assert("/rest/getMusicDirectory"@.len() == 23);
    assert("/rest/getAlbum"@.len() == 14 && "/rest/getAlbum"@[6] == 'g');
    assert("/rest/getSong"@.len() == 13 && "/rest/getSong"@[6] == 'g');
    assert("/rest/getCoverArt"@.len() == 17 && "/rest/getCoverArt"@[9] == 'C');
    assert("/rest/getStarred2"@.len() == 17 && "/rest/getStarred2"@[9] == 'S');
    assert("/rest/search3"@.len() == 13 && "/rest/search3"@[6] == 's');
    assert("/rest/scrobble"@.len() == 14 && "/rest/scrobble"@[6] == 's');
    assert("/rest/star"@.len() == 10 && "/rest/star"@[6] == 's');
    assert("/rest/unstar"@.len() == 12 && "/rest/unstar"@[6] == 'u');
    assert("/rest/stream"@.len() == 12 && "/rest/stream"@[6] == 's');
}

proof fn lemma_blank(term: Seq<char>)
    ensures
        (trimmed(term).len() == 0) == (forall|i: int|
            0 <= i < term.len() ==> is_space(#[trigger] term[i])),
{
    if forall|i: int| 0 <= i < term.len() ==> is_space(#[trigger] term[i]) {
        law_trimming(term, Seq::empty(), Seq::empty());
        assert(term + Seq::<char>::empty() + Seq::<char>::empty() =~= term);
    } else {
        let first = lemma_first_other(term);
        let last = lemma_last_other(term);
        let a = term.take(first);
        let t = term.subrange(first, last + 1);
        let b = term.skip(last + 1);
        assert forall|i: int| 0 <= i < b.len() implies is_space(#[trigger] b[i]) by {
            assert(b[i] == term[last + 1 + i]);
        }
        law_trimming(a, t, b);
        assert(a + t + b =~= term);
    }
}

proof fn lemma_first_other(s: Seq<char>) -> (first: int)
    requires
        exists|i: int| 0 <= i < s.len() && !is_space(#[trigger] s[i]),
    ensures
        0 <= first < s.len(),
        !is_space(s[first]),
        forall|i: int| 0 <= i < first ==> is_space(#[trigger] s[i]),
    decreases s.len(),
{
    if !is_space(s[0]) {
        0
    } else {
        let rest = s.skip(1);
        let i = choose|i: int| 0 <= i < s.len() && !is_space(#[trigger] s[i]);
        assert(rest[i - 1] == s[i]);
        let first = lemma_first_other(rest) + 1;
        assert(rest[first - 1] == s[first]);
        assert forall|k: int| 0 <= k < first implies is_space(#[trigger] s[k]) by {
            if k > 0 {
                assert(rest[k - 1] == s[k]);
            }
        }
        first
    }
}

proof fn lemma_last_other(s: Seq<char>) -> (last: int)
    requires
        exists|i: int| 0 <= i < s.len() && !is_space(#[trigger] s[i]),
    ensures
        0 <= last < s.len(),
        !is_space(s[last]),
        forall|i: int| last < i < s.len() ==> is_space(#[trigger] s[i]),
    decreases s.len(),
{
    if !is_space(s.last()) {
        s.len() - 1
    } else {
        let rest = s.drop_last();
        let i = choose|i: int| 0 <= i < s.len() && !is_space(#[trigger] s[i]);
        assert(rest[i] == s[i]);
        let last = lemma_last_other(rest);
        assert forall|k: int| last < k < s.len() implies is_space(#[trigger] s[k]) by {
            if k < s.len() - 1 {
                assert(rest[k] == s[k]);
            }
        }
        last
    }
}

/// A search asks the backend for the term as the client gave it, and for twenty hits of each kind; a
/// search for nothing but white space is refused.
pub proof fn law_search_asks_for_the_term(
    username: Seq<char>,
    password: Seq<char>,
    request: RequestContextModel,
    term: Seq<char>,
)
    requires
        asks_for(request, username, password, "/rest/search3"@),
        first_value(request.query, "query"@) == Some(term),
    ensures
        (exists|i: int| 0 <= i < term.len() && !is_space(#[trigger] term[i])) ==> leads_to(
            username,
            password,
            request,
            BackendRequestModel::Search { query: SearchQueryModel { term, limit: 20 } },
            PendingModel::Search,
        ),
        (forall|i: int| 0 <= i < term.len() ==> is_space(#[trigger] term[i])) ==> first_step(
            username,
            password,
            request,
        ) == Err::<StepModel, ErrorModel>(
            ErrorModel::InvalidRequest("search term must not be empty"@),
        ),
{
    reveal_strlit("/rest/ping");
    reveal_strlit("/rest/getLicense");
    reveal_strlit("/rest/getMusicFolders");
    reveal_strlit("/rest/getArtists");
    reveal_strlit("/rest/getIndexes");
    reveal_strlit("/rest/getMusicDirectory");
    reveal_strlit("/rest/getAlbum");
    reveal_strlit("/rest/getSong");
    reveal_strlit("/rest/getCoverArt");
    reveal_strlit("/rest/getStarred2");
    reveal_strlit("/rest/search3");
    reveal_strlit("/rest/scrobble");
    reveal_strlit("/rest/star");
    reveal_strlit("/rest/unstar");
    reveal_strlit("/rest/stream");
    assert("/rest/ping"@.len() == 10 && "/rest/ping"@[6] == 'p');
    assert("/rest/getLicense"@.len() == 16 && "/rest/getLicense"@[9] == 'L');
    assert("/rest/getMusicFolders"@.len() == 21);
    assert("/rest/getArtists"@.len() == 16 && "/rest/getArtists"@[9] == 'A');
    assert("/rest/getIndexes"@.len() == 16 && "/rest/getIndexes"@[9] == 'I');
    assert("/rest/getMusicDirectory"@.len() == 23);
    assert("/rest/getAlbum"@.len() == 14 && "/rest/getAlbum"@[6] == 'g');
    assert("/rest/getSong"@.len() == 13 && "/rest/getSong"@[6] == 'g');
    assert("/rest/getCoverArt"@.len() == 17 && "/rest/getCoverArt"@[9] == 'C');
    assert("/rest/getStarred2"@.len() == 17 && "/rest/getStarred2"@[9] == 'S');
    assert("/rest/search3"@.len() == 13 && "/rest/search3"@[6] == 's');
    assert("/rest/scrobble"@.len() == 14 && "/rest/scrobble"@[6] == 's');
    assert("/rest/star"@.len() == 10 && "/rest/star"@[6] == 's');
    assert("/rest/unstar"@.len() == 12 && "/rest/unstar"@[6] == 'u');
    assert("/rest/stream"@.len() == 12 && "/rest/stream"@[6] == 's');
    lemma_blank(term);
}

/// What is answered at once: that the server is there, that nothing is done for a scrobble, and that any
/// other path leads nowhere.
pub proof fn law_requests_answered_at_once(
    username: Seq<char>,
    password: Seq<char>,
    request: RequestContextModel,
) -> (told: (Seq<char>, Seq<char>, Seq<char>))
    requires
        wanted_format(request) == ResponseFormat::Xml,
    ensures
        asks_for(request, username, password, "/rest/ping"@) ==> first_step(
            username,
            password,
            request,
        ) == Ok::<StepModel, ErrorModel>(StepModel::Done(SubsonicResponseModel::Xml(told.0))),
        response_tag(tags(told.0)[2], "ok"@),
        tags(told.0)[3] == "message>"@ + escaped("pong"@),
        asks_for(request, username, password, "/rest/scrobble"@) ==> first_step(
            username,
            password,
            request,
        ) == Ok::<StepModel, ErrorModel>(StepModel::Done(SubsonicResponseModel::Xml(told.1))),
        response_tag(tags(told.1)[2], "ok"@),
        tags(told.1).len() == 4,
        is_user(credentials_of(request), username, password) && !served(request.path) ==> first_step(
            username,
            password,
            request,
        ) == Ok::<StepModel, ErrorModel>(StepModel::Done(SubsonicResponseModel::Xml(told.2))),
        response_tag(tags(told.2)[2], "failed"@),
        error_told(tags(told.2)[3], "unsupported route: "@ + request.path),
{
    reveal_strlit("/rest/ping");
    reveal_strlit("/rest/getLicense");
    reveal_strlit("/rest/getMusicFolders");
    reveal_strlit("/rest/getArtists");
    reveal_strlit("/rest/getIndexes");
    reveal_strlit("/rest/getMusicDirectory");
    reveal_strlit("/rest/getAlbum");
    reveal_strlit("/rest/getSong");
    reveal_strlit("/rest/getCoverArt");
    reveal_strlit("/rest/getStarred2");
    reveal_strlit("/rest/search3");
    reveal_strlit("/rest/scrobble");
    reveal_strlit("/rest/star");
    reveal_strlit("/rest/unstar");
    reveal_strlit("/rest/stream");
    assert("/rest/ping"@.len() == 10 && "/rest/ping"@[6] == 'p');
    assert("/rest/getLicense"@.len() == 16 && "/rest/getLicense"@[9] == 'L');
    assert("/rest/getMusicFolders"@.len() == 21);
    assert("/rest/getArtists"@.len() == 16 && "/rest/getArtists"@[9] == 'A');
    assert("/rest/getIndexes"@.len() == 16 && "/rest/getIndexes"@[9] == 'I');
    assert("/rest/getMusicDirectory"@.len() == 23);
    assert("/rest/getAlbum"@.len() == 14 && "/rest/getAlbum"@[6] == 'g');
    assert("/rest/getSong"@.len() == 13 && "/rest/getSong"@[6] == 'g');
    assert("/rest/getCoverArt"@.len() == 17 && "/rest/getCoverArt"@[9] == 'C');
    assert("/rest/getStarred2"@.len() == 17 && "/rest/getStarred2"@[9] == 'S');
    assert("/rest/search3"@.len() == 13 && "/rest/search3"@[6] == 's');
    assert("/rest/scrobble"@.len() == 14 && "/rest/scrobble"@[6] == 's');
    assert("/rest/star"@.len() == 10 && "/rest/star"@[6] == 's');
    assert("/rest/unstar"@.len() == 12 && "/rest/unstar"@[6] == 'u');
    assert("/rest/stream"@.len() == 12 && "/rest/stream"@[6] == 's');
    let pong = law_message_is_told("pong"@);
    let nothing = law_empty_response_is_ok();
    let failure = law_failure_is_told("unsupported route: "@ + request.path);
    (pong.0, nothing.0, failure.0)
}

/// Whoever does not show the name and the password of the user is refused, whatever the request.
pub proof fn law_strangers_are_refused(
    username: Seq<char>,
    password: Seq<char>,
    request: RequestContextModel,
) -> (told: (Seq<char>, Json))
    requires
        !is_user(credentials_of(request), username, password),
    ensures
        wanted_format(request) == ResponseFormat::Xml ==> first_step(username, password, request)
            == Ok::<StepModel, ErrorModel>(StepModel::Done(SubsonicResponseModel::Xml(told.0))),
        response_tag(tags(told.0)[2], "failed"@),
        error_told(tags(told.0)[3], "authentication failed"@),
        wanted_format(request) == ResponseFormat::Json ==> first_step(username, password, request)
            == Ok::<StepModel, ErrorModel>(
            StepModel::Done(SubsonicResponseModel::Json(json_text(told.1))),
        ),
{
    law_failure_is_told("authentication failed"@)
}

/// What the backend says is starred reaches the client: one element for each artist, each album and each
/// track, in their order.
pub proof fn law_starred_items_reach_the_client(starred: StarredSetModel) -> (
    told: (Seq<char>, Seq<Seq<char>>, Json, Json)
)
    ensures
        next_step(
            ResponseFormat::Xml,
            PendingModel::Starred,
            BackendResponseModel::Starred(starred),
        )
            == Ok::<StepModel, ErrorModel>(
            StepModel::Done(SubsonicResponseModel::Xml(told.0)),
        ),
        holds_inside(told.0, "starred2>"@, told.1, "/starred2>"@),
        hits_told(told.1, starred.artists, starred.albums, starred.tracks),
        next_step(
            ResponseFormat::Json,
            PendingModel::Starred,
            BackendResponseModel::Starred(starred),
        )
            == Ok::<StepModel, ErrorModel>(
            StepModel::Done(SubsonicResponseModel::Json(json_text(told.2))),
        ),
        is_ok_with(told.2, "starred2"@, told.3),
        hits_object_told(told.3, starred.artists, starred.albums, starred.tracks),
{
    law_starred_items_are_told(starred)
}

/// What a search finds reaches the client: one element for each artist, each album and each track, in their
/// order.
pub proof fn law_search_hits_reach_the_client(
    artists: Seq<ArtistModel>,
    albums: Seq<AlbumModel>,
    tracks: Seq<TrackModel>,
) -> (told: (Seq<char>, Seq<Seq<char>>, Json, Json))
    ensures
        next_step(
            ResponseFormat::Xml,
            PendingModel::Search,
            BackendResponseModel::SearchResults { artists, albums, tracks },
        )
            == Ok::<StepModel, ErrorModel>(
            StepModel::Done(SubsonicResponseModel::Xml(told.0)),
        ),
        holds_inside(told.0, "searchResult3>"@, told.1, "/searchResult3>"@),
        hits_told(told.1, artists, albums, tracks),
        next_step(
            ResponseFormat::Json,
            PendingModel::Search,
            BackendResponseModel::SearchResults { artists, albums, tracks },
        )
            == Ok::<StepModel, ErrorModel>(
            StepModel::Done(SubsonicResponseModel::Json(json_text(told.2))),
        ),
        is_ok_with(told.2, "searchResult3"@, told.3),
        hits_object_told(told.3, artists, albums, tracks),
{
    law_search_hits_are_told(artists, albums, tracks)
}

/// The track that the backend has reaches the client that asked for a song.
pub proof fn law_song_reaches_the_client(track: TrackModel) -> (told: (Seq<char>, Json, Json))
    ensures
        next_step(ResponseFormat::Xml, PendingModel::Song, BackendResponseModel::Track(track))
            == Ok::<StepModel, ErrorModel>(
            StepModel::Done(SubsonicResponseModel::Xml(told.0)),
        ),
        response_tag(tags(told.0)[2], "ok"@),
        song_told(tags(told.0)[3], track),
        next_step(ResponseFormat::Json, PendingModel::Song, BackendResponseModel::Track(track))
            == Ok::<StepModel, ErrorModel>(
            StepModel::Done(SubsonicResponseModel::Json(json_text(told.1))),
        ),
        is_ok_with(told.1, "song"@, told.2),
        song_object_told(told.2, track),
{
    law_song_is_told(track)
}

/// The album that the backend has reaches the client that asked for it.
pub proof fn law_album_reaches_the_client(album: AlbumModel) -> (told: (Seq<char>, Json, Json))
    ensures
        next_step(ResponseFormat::Xml, PendingModel::Album, BackendResponseModel::Album(album))
            == Ok::<StepModel, ErrorModel>(
            StepModel::Done(SubsonicResponseModel::Xml(told.0)),
        ),
        response_tag(tags(told.0)[2], "ok"@),
        album_told(tags(told.0)[3], album),
        next_step(ResponseFormat::Json, PendingModel::Album, BackendResponseModel::Album(album))
            == Ok::<StepModel, ErrorModel>(
            StepModel::Done(SubsonicResponseModel::Json(json_text(told.1))),
        ),
        is_ok_with(told.1, "album"@, told.2),
        album_object_told(told.2, album),
{
    law_album_is_told(album)
}

/// The artists that the backend lists reach the client, each in an index of its own.
pub proof fn law_artists_reach_the_client(artists: Seq<ArtistModel>) -> (
    told: (Seq<char>, Seq<Seq<char>>, Json, Json)
)
    ensures
        next_step(
            ResponseFormat::Xml,
            PendingModel::Artists,
            BackendResponseModel::Artists(artists),
        )
            == Ok::<StepModel, ErrorModel>(
            StepModel::Done(SubsonicResponseModel::Xml(told.0)),
        ),
        holds_inside(told.0, "artists>"@, told.1, "/artists>"@),
        told.1.len() == 3 * artists.len(),
        forall|i: int|
            0 <= i < artists.len() ==> index_told(told.1[3 * i], (#[trigger] artists[i]).name)
                && artist_hit_told(told.1[3 * i + 1], artists[i]),
        next_step(
            ResponseFormat::Json,
            PendingModel::Artists,
            BackendResponseModel::Artists(artists),
        )
            == Ok::<StepModel, ErrorModel>(
            StepModel::Done(SubsonicResponseModel::Json(json_text(told.2))),
        ),
        is_ok_with(told.2, "artists"@, told.3),
{
    law_artists_are_told(artists)
}

/// The image that the backend has reaches the client byte for byte, under its content type.
pub proof fn law_image_reaches_the_client(cover: CoverArtBytesModel, format: ResponseFormat)
    ensures
        next_step(format, PendingModel::CoverArt, BackendResponseModel::CoverArt(cover)) == Ok::<
            StepModel,
            ErrorModel,
        >(
            StepModel::Done(
                SubsonicResponseModel::Binary {
                    content_type: cover.content_type,
                    bytes: cover.bytes,
                },
            ),
        ),
{
}

/// A change that was made is answered with no more than that all is well.
pub proof fn law_change_reaches_the_client() -> (told: (Seq<char>, Json))
    ensures
        next_step(ResponseFormat::Xml, PendingModel::Change, BackendResponseModel::Empty) == Ok::<
            StepModel,
            ErrorModel,
        >(StepModel::Done(SubsonicResponseModel::Xml(told.0))),
        tags(told.0).len() == 4,
        response_tag(tags(told.0)[2], "ok"@),
        next_step(ResponseFormat::Json, PendingModel::Change, BackendResponseModel::Empty) == Ok::<
            StepModel,
            ErrorModel,
        >(StepModel::Done(SubsonicResponseModel::Json(json_text(told.1)))),
{
    law_empty_response_is_ok()
}

/// The same in the other notation.
pub proof fn law_requests_answered_at_once_in_json(
    username: Seq<char>,
    password: Seq<char>,
    request: RequestContextModel,
) -> (told: (Json, Json, Json))
    requires
        wanted_format(request) == ResponseFormat::Json,
    ensures
        asks_for(request, username, password, "/rest/ping"@) ==> first_step(
            username,
            password,
            request,
        ) == Ok::<StepModel, ErrorModel>(
            StepModel::Done(SubsonicResponseModel::Json(json_text(told.0))),
        ),
        is_ok_with(told.0, "message"@, Json::Text("pong"@)),
        asks_for(request, username, password, "/rest/scrobble"@) ==> first_step(
            username,
            password,
            request,
        ) == Ok::<StepModel, ErrorModel>(
            StepModel::Done(SubsonicResponseModel::Json(json_text(told.1))),
        ),
        entry(told.1, "subsonic-response"@) matches Some(envelope) && entry(envelope, "status"@)
            == Some(Json::Text("ok"@)),
        is_user(credentials_of(request), username, password) && !served(request.path) ==> first_step(
            username,
            password,
            request,
        ) == Ok::<StepModel, ErrorModel>(
            StepModel::Done(SubsonicResponseModel::Json(json_text(told.2))),
        ),
        entry(told.2, "subsonic-response"@) matches Some(envelope) && entry(envelope, "status"@)
            == Some(Json::Text("failed"@)) && (entry(envelope, "error"@) matches Some(error) && entry(
            error,
            "message"@,
        ) == Some(Json::Text("unsupported route: "@ + request.path))),
{
    reveal_strlit("/rest/ping");
    reveal_strlit("/rest/getLicense");
    reveal_strlit("/rest/getMusicFolders");
    reveal_strlit("/rest/getArtists");
    reveal_strlit("/rest/getIndexes");
    reveal_strlit("/rest/getMusicDirectory");
    reveal_strlit("/rest/getAlbum");
    reveal_strlit("/rest/getSong");
    reveal_strlit("/rest/getCoverArt");
    reveal_strlit("/rest/getStarred2");
    reveal_strlit("/rest/search3");
    reveal_strlit("/rest/scrobble");
    reveal_strlit("/rest/star");
    reveal_strlit("/rest/unstar");
    reveal_strlit("/rest/stream");
    assert("/rest/ping"@.len() == 10 && "/rest/ping"@[6] == 'p');
    assert("/rest/getLicense"@.len() == 16 && "/rest/getLicense"@[9] == 'L');
    assert("/rest/getMusicFolders"@.len() == 21);
    assert("/rest/getArtists"@.len() == 16 && "/rest/getArtists"@[9] == 'A');
    assert("/rest/getIndexes"@.len() == 16 && "/rest/getIndexes"@[9] == 'I');
    assert("/rest/getMusicDirectory"@.len() == 23);
    assert("/rest/getAlbum"@.len() == 14 && "/rest/getAlbum"@[6] == 'g');
    assert("/rest/getSong"@.len() == 13 && "/rest/getSong"@[6] == 'g');
    assert("/rest/getCoverArt"@.len() == 17 && "/rest/getCoverArt"@[9] == 'C');
    assert("/rest/getStarred2"@.len() == 17 && "/rest/getStarred2"@[9] == 'S');
    assert("/rest/search3"@.len() == 13 && "/rest/search3"@[6] == 's');
    assert("/rest/scrobble"@.len() == 14 && "/rest/scrobble"@[6] == 's');
    assert("/rest/star"@.len() == 10 && "/rest/star"@[6] == 's');
    assert("/rest/unstar"@.len() == 12 && "/rest/unstar"@[6] == 'u');
    assert("/rest/stream"@.len() == 12 && "/rest/stream"@[6] == 's');
    let pong = law_message_is_told("pong"@);
    let nothing = law_empty_response_is_ok();
    let failure = law_failure_is_told("unsupported route: "@ + request.path);
    (pong.1, nothing.1, failure.1)
}

/// The license and the music folders are told to whoever asks for them.
pub proof fn law_license_and_folders_are_served(
    username: Seq<char>,
    password: Seq<char>,
    request: RequestContextModel,
) -> (told: (Seq<char>, Seq<char>))
    requires
        wanted_format(request) == ResponseFormat::Xml,
    ensures
        asks_for(request, username, password, "/rest/getLicense"@) ==> first_step(
            username,
            password,
            request,
        ) == Ok::<StepModel, ErrorModel>(StepModel::Done(SubsonicResponseModel::Xml(told.0))),
        attribute(tags(told.0)[3], "license"@, "valid"@) == Some("true"@),
        asks_for(request, username, password, "/rest/getMusicFolders"@) ==> first_step(
            username,
            password,
            request,
        ) == Ok::<StepModel, ErrorModel>(StepModel::Done(SubsonicResponseModel::Xml(told.1))),
        attribute(tags(told.1)[4], "musicFolder"@, "name"@) == Some("Music"@),
{
    reveal_strlit("/rest/ping");
    reveal_strlit("/rest/getLicense");
    reveal_strlit("/rest/getMusicFolders");
    reveal_strlit("/rest/getArtists");
    reveal_strlit("/rest/getIndexes");
    reveal_strlit("/rest/getMusicDirectory");
    reveal_strlit("/rest/getAlbum");
    reveal_strlit("/rest/getSong");
    reveal_strlit("/rest/getCoverArt");
    reveal_strlit("/rest/getStarred2");
    reveal_strlit("/rest/search3");
    reveal_strlit("/rest/scrobble");
    reveal_strlit("/rest/star");
    reveal_strlit("/rest/unstar");
    reveal_strlit("/rest/stream");
    assert("/rest/ping"@.len() == 10 && "/rest/ping"@[6] == 'p');
    assert("/rest/getLicense"@.len() == 16 && "/rest/getLicense"@[9] == 'L');
    assert("/rest/getMusicFolders"@.len() == 21);
    assert("/rest/getArtists"@.len() == 16 && "/rest/getArtists"@[9] == 'A');
    assert("/rest/getIndexes"@.len() == 16 && "/rest/getIndexes"@[9] == 'I');
    assert("/rest/getMusicDirectory"@.len() == 23);
    assert("/rest/getAlbum"@.len() == 14 && "/rest/getAlbum"@[6] == 'g');
    assert("/rest/getSong"@.len() == 13 && "/rest/getSong"@[6] == 'g');
    assert("/rest/getCoverArt"@.len() == 17 && "/rest/getCoverArt"@[9] == 'C');
    assert("/rest/getStarred2"@.len() == 17 && "/rest/getStarred2"@[9] == 'S');
    assert("/rest/search3"@.len() == 13 && "/rest/search3"@[6] == 's');
    assert("/rest/scrobble"@.len() == 14 && "/rest/scrobble"@[6] == 's');
    assert("/rest/star"@.len() == 10 && "/rest/star"@[6] == 's');
    assert("/rest/unstar"@.len() == 12 && "/rest/unstar"@[6] == 'u');
    assert("/rest/stream"@.len() == 12 && "/rest/stream"@[6] == 's');
    let license = law_license_is_told();
    let folders = law_music_folders_are_told();
    (license.0, folders.0)
}

/// A request is answered in JSON where it asks for `json`, and in XML where it asks for anything else or
/// for nothing.
pub proof fn law_notation_is_asked_for(request: RequestContextModel, f: Seq<char>)
    ensures
        first_value(request.query, "f"@) == Some("json"@) ==> wanted_format(request)
            == ResponseFormat::Json,
        first_value(request.query, "f"@) == Some(f) && f != "json"@ ==> wanted_format(request)
            == ResponseFormat::Xml,
        first_value(request.query, "f"@) is None ==> wanted_format(request) == ResponseFormat::Xml,
{
}

/// A path is served with the ending `.view` as without it.
pub proof fn law_ending_does_not_matter(name: Seq<char>)
    ensures
        rest_path(name + ".view"@) == "/rest/"@ + name,
        (forall|front: Seq<char>| name != #[trigger] (front + ".view"@)) ==> rest_path(name)
            == "/rest/"@ + name,
{
    let with = name + ".view"@;
    assert(".view"@.is_suffix_of(with)) by {
        assert(".view"@ =~= with.subrange((with.len() - ".view"@.len()) as int, with.len() as int));
    }
    assert(with.take(with.len() - ".view"@.len()) =~= name);
    if ".view"@.is_suffix_of(name) {
        let front = name.take(name.len() - ".view"@.len());
        assert(name =~= front + ".view"@);
    }
}

/// The artists that the backend lists reach the client in their indexes.
pub proof fn law_indexes_reach_the_client(artists: Seq<ArtistModel>) -> (told: (
    Seq<char>,
    Seq<Seq<Seq<char>>>,
    Json,
    Json,
))
    ensures
        next_step(
            ResponseFormat::Xml,
            PendingModel::Indexes,
            BackendResponseModel::Artists(artists),
        ) == Ok::<StepModel, ErrorModel>(StepModel::Done(SubsonicResponseModel::Xml(told.0))),
        holds_inside(
            told.0,
            "indexes lastModified=\"0\" ignoredArticles=\"\">"@,
            told.1.flatten(),
            "/indexes>"@,
        ),
        told.1.len() == ordered_groups(artists).len(),
        forall|k: int|
            0 <= k < told.1.len() ==> group_told(
                #[trigger] told.1[k],
                ordered_groups(artists)[k].0,
                ordered_groups(artists)[k].1,
            ),
        next_step(
            ResponseFormat::Json,
            PendingModel::Indexes,
            BackendResponseModel::Artists(artists),
        ) == Ok::<StepModel, ErrorModel>(
            StepModel::Done(SubsonicResponseModel::Json(json_text(told.2))),
        ),
        is_ok_with(told.2, "indexes"@, told.3),
{
    law_indexes_are_told(artists)
}

/// Every answer of the backend but the one that was asked for is an error, in whatever notation.
pub proof fn law_other_answers_are_errors(format: ResponseFormat, response: BackendResponseModel)
    ensures
        !(response is Artists) ==> next_step(format, PendingModel::Artists, response) == Err::<
            StepModel,
            ErrorModel,
        >(ErrorModel::InvalidRequest("backend returned unexpected response for getArtists"@)),
        !(response is Artists) ==> next_step(format, PendingModel::Indexes, response) == Err::<
            StepModel,
            ErrorModel,
        >(ErrorModel::InvalidRequest("backend returned unexpected response for getIndexes"@)),
        !(response is Artists)
            ==> next_step(format, PendingModel::RootDirectory, response) == Err::<
            StepModel,
            ErrorModel,
        >(
            ErrorModel::InvalidRequest(
                "backend returned unexpected response for getMusicDirectory root"@,
            ),
        ),
        !(response is Album) ==> next_step(format, PendingModel::Album, response) == Err::<
            StepModel,
            ErrorModel,
        >(ErrorModel::InvalidRequest("backend returned unexpected response for getAlbum"@)),
        !(response is Track) ==> next_step(format, PendingModel::Song, response) == Err::<
            StepModel,
            ErrorModel,
        >(ErrorModel::InvalidRequest("backend returned unexpected response for getSong"@)),
        !(response is CoverArt) ==> next_step(format, PendingModel::CoverArt, response) == Err::<
            StepModel,
            ErrorModel,
        >(ErrorModel::InvalidRequest("backend returned unexpected response for getCoverArt"@)),
        !(response is Starred) ==> next_step(format, PendingModel::Starred, response) == Err::<
            StepModel,
            ErrorModel,
        >(ErrorModel::InvalidRequest("backend returned unexpected response for getStarred2"@)),
        !(response is SearchResults) ==> next_step(format, PendingModel::Search, response) == Err::<
            StepModel,
            ErrorModel,
        >(ErrorModel::InvalidRequest("backend returned unexpected response for search3"@)),
        !(response is Empty) ==> next_step(format, PendingModel::Change, response) == Err::<
            StepModel,
            ErrorModel,
        >(ErrorModel::InvalidRequest("backend returned unexpected response for empty result"@)),
{
}

/// A request that names nothing asks for what has no name, and a search for nothing is refused.
pub proof fn law_requests_that_name_nothing(
    username: Seq<char>,
    password: Seq<char>,
    request: RequestContextModel,
)
    ensures
        first_value(request.query, "id"@) is None && asks_for(
            request,
            username,
            password,
            "/rest/getAlbum"@,
        ) ==> leads_to(
            username,
            password,
            request,
            BackendRequestModel::GetAlbum { album_id: Seq::empty() },
            PendingModel::Album,
        ),
        first_value(request.query, "id"@) is None && asks_for(
            request,
            username,
            password,
            "/rest/getSong"@,
        ) ==> leads_to(
            username,
            password,
            request,
            BackendRequestModel::GetTrack { track_id: Seq::empty() },
            PendingModel::Song,
        ),
        first_value(request.query, "query"@) is None && asks_for(
            request,
            username,
            password,
            "/rest/search3"@,
        ) ==> first_step(username, password, request) == Err::<StepModel, ErrorModel>(
            ErrorModel::InvalidRequest("search term must not be empty"@),
        ),
{
    reveal_strlit("/rest/ping");
    reveal_strlit("/rest/getLicense");
    reveal_strlit("/rest/getMusicFolders");
    reveal_strlit("/rest/getArtists");
    reveal_strlit("/rest/getIndexes");
    reveal_strlit("/rest/getMusicDirectory");
    reveal_strlit("/rest/getAlbum");
    reveal_strlit("/rest/getSong");
    reveal_strlit("/rest/getCoverArt");
    reveal_strlit("/rest/getStarred2");
    reveal_strlit("/rest/search3");
    reveal_strlit("/rest/scrobble");
    reveal_strlit("/rest/star");
    reveal_strlit("/rest/unstar");
    reveal_strlit("/rest/stream");
    assert("/rest/ping"@.len() == 10 && "/rest/ping"@[6] == 'p');
    assert("/rest/getLicense"@.len() == 16 && "/rest/getLicense"@[9] == 'L');
    assert("/rest/getMusicFolders"@.len() == 21);
    assert("/rest/getArtists"@.len() == 16 && "/rest/getArtists"@[9] == 'A');
    assert("/rest/getIndexes"@.len() == 16 && "/rest/getIndexes"@[9] == 'I');
    assert("/rest/getMusicDirectory"@.len() == 23);
    assert("/rest/getAlbum"@.len() == 14 && "/rest/getAlbum"@[6] == 'g');
    assert("/rest/getSong"@.len() == 13 && "/rest/getSong"@[6] == 'g');
    assert("/rest/getCoverArt"@.len() == 17 && "/rest/getCoverArt"@[9] == 'C');
    assert("/rest/getStarred2"@.len() == 17 && "/rest/getStarred2"@[9] == 'S');
    assert("/rest/search3"@.len() == 13 && "/rest/search3"@[6] == 's');
    assert("/rest/scrobble"@.len() == 14 && "/rest/scrobble"@[6] == 's');
    assert("/rest/star"@.len() == 10 && "/rest/star"@[6] == 's');
    assert("/rest/unstar"@.len() == 12 && "/rest/unstar"@[6] == 'u');
    assert("/rest/stream"@.len() == 12 && "/rest/stream"@[6] == 's');
    lemma_blank(Seq::empty());
}

} // verus!
