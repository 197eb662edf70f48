//! The answers of the backend.

use iroh_fm::builder::ScannedTrack;
use iroh_fm::config::ServerConfig;
use iroh_fm::error::Error;
use iroh_fm::index::{CoverArtSource, LibraryIndex};
use iroh_fm::lastfm::{enrich_library, LastfmAlbum, LastfmWiki};
use iroh_fm::ordered_map::OrderedMap;
use iroh_fm::path::FilePath;
use iroh_fm::protocol::{
    iroh_alpn, AlbumId, ArtistId, BackendRequest, BackendResponse, CoverArtId, FileTime, ResolvedId,
    SearchQuery, TrackId,
};
use iroh_fm::rpc::{
    frame, message_length, messages_to_send, opened_stream, read_response, request_name,
    response_to_send, stream_to_send, wants_stream,
};
use iroh_fm::scanner::index_library;
use iroh_fm::server::{
    change_response, cover_pictures, cover_response, embedded_cover_response,
    fetched_cover_response, Action, EmbeddedPicture, MusicServer, StarKind, StarredRow,
};

fn path(text: &str) -> FilePath {
    let mut parts: Vec<Vec<u8>> = Vec::new();
    if text.starts_with('/') {
        parts.push(b"/".to_vec());
    }
    for part in text.split('/') {
        if !part.is_empty() {
            parts.push(part.as_bytes().to_vec());
        }
    }
    FilePath { parts }
}

fn library() -> LibraryIndex {
    let mut covers = OrderedMap::new();
    covers.insert(path("/m/Björk - Debut"), Some(path("/m/Björk - Debut/cover.png")));
    let mut tracks = Vec::new();
    for file in [
        "/m/Aphex Twin/Drukqs/01 - Jynweythek.mp3",
        "/m/Aphex Twin/Syro/01 - Minipops.mp3",
        "/m/Björk - Debut/01 - Human Behaviour.flac",
        "/m/Björk - Debut/02 - Crying.flac",
    ] {
        let time = FileTime { seconds: 5, nanoseconds: 0 };
        let mut track = ScannedTrack::from_path(&path("/m"), &path(file), 10, Ok(time)).unwrap();
        track.apply_cached(None);
        track.fill_tags(None);
        tracks.push(track);
    }
    index_library(&path("/m"), &tracks, covers).unwrap()
}

fn server() -> MusicServer {
    MusicServer::new(ServerConfig::new(path("/m"), None), library())
}

fn reply(request: BackendRequest) -> BackendResponse {
    match server().handle(request) {
        Ok(Action::Reply(response)) => response,
        _ => panic!("a reply was expected"),
    }
}

fn refusal(request: BackendRequest) -> String {
    match server().handle(request) {
        Err(error) => error.message(),
        Ok(_) => panic!("an error was expected"),
    }
}

#[test]
fn summary_counts_the_library() {
    match reply(BackendRequest::GetLibrarySummary) {
        BackendResponse::LibrarySummary { artist_count, album_count, track_count } => {
            assert_eq!((artist_count, album_count, track_count), (2, 3, 4));
        }
        _ => panic!("a summary was expected"),
    }
}

#[test]
fn artists_come_in_the_order_of_their_ids() {
    match reply(BackendRequest::ListArtists) {
        BackendResponse::Artists(artists) => {
            let ids: Vec<&str> = artists.iter().map(|artist| artist.id.0.as_str()).collect();
            assert_eq!(ids, vec!["aphex-twin", "bj-rk"]);
            assert_eq!(artists[0].album_ids.len(), 2);
        }
        _ => panic!("artists were expected"),
    }
}

#[test]
fn tracks_of_an_album_come_in_order() {
    let album_id = AlbumId("bj-rk-debut".to_string());
    match reply(BackendRequest::GetAlbumTracks { album_id }) {
        BackendResponse::Tracks(tracks) => {
            assert_eq!(tracks.len(), 2);
            assert_eq!(tracks[0].title, "Human Behaviour");
            assert_eq!(tracks[1].title, "Crying");
        }
        _ => panic!("tracks were expected"),
    }
}

#[test]
fn unknown_ids_are_not_found() {
    assert_eq!(
        refusal(BackendRequest::GetArtist { artist_id: ArtistId("x".to_string()) }),
        "artist not found: x"
    );
    assert_eq!(
        refusal(BackendRequest::GetAlbum { album_id: AlbumId("x".to_string()) }),
        "album not found: x"
    );
    assert_eq!(
        refusal(BackendRequest::GetAlbumTracks { album_id: AlbumId("x".to_string()) }),
        "album not found: x"
    );
    assert_eq!(
        refusal(BackendRequest::GetTrack { track_id: TrackId("x".to_string()) }),
        "track not found: x"
    );
    assert_eq!(
        refusal(BackendRequest::OpenStream { track_id: TrackId("x".to_string()) }),
        "track not found: x"
    );
    assert_eq!(
        refusal(BackendRequest::GetCoverArt { cover_art_id: CoverArtId("x".to_string()) }),
        "cover art not found: x"
    );
    assert_eq!(refusal(BackendRequest::ResolveId { id: "x".to_string() }), "id not found: x");
    assert_eq!(
        refusal(BackendRequest::SetStarred { id: "x".to_string(), starred: false }),
        "id not found: x"
    );
}

#[test]
fn invalid_music_dir_is_named() {
    assert_eq!(Error::InvalidMusicDir(path("/m/n")).message(), "invalid music dir: /m/n");
}

#[test]
fn ids_are_resolved() {
    match reply(BackendRequest::ResolveId { id: "aphex-twin-syro".to_string() }) {
        BackendResponse::ResolvedId(ResolvedId::Album(album)) => assert_eq!(album.title, "Syro"),
        _ => panic!("an album was expected"),
    }
    match reply(BackendRequest::ResolveId { id: "bj-rk".to_string() }) {
        BackendResponse::ResolvedId(ResolvedId::Artist(artist)) => assert_eq!(artist.name, "Björk"),
        _ => panic!("an artist was expected"),
    }
}

#[test]
fn search_does_not_heed_case_and_stops_at_the_limit() {
    let query = SearchQuery { term: "APHEX".to_string(), limit: 1 };
    match reply(BackendRequest::Search { query }) {
        BackendResponse::SearchResults { artists, albums, tracks } => {
            assert_eq!(artists.len(), 1);
            assert_eq!(albums.len(), 1);
            assert_eq!(albums[0].title, "Drukqs");
            assert_eq!(tracks.len(), 1);
        }
        _ => panic!("results were expected"),
    }
    let query = SearchQuery { term: "human".to_string(), limit: 20 };
    match reply(BackendRequest::Search { query }) {
        BackendResponse::SearchResults { artists, albums, tracks } => {
            assert!(artists.is_empty());
            assert!(albums.is_empty());
            assert_eq!(tracks.len(), 1);
        }
        _ => panic!("results were expected"),
    }
    let query = SearchQuery { term: "a".to_string(), limit: 0 };
    assert_eq!(
        refusal(BackendRequest::Search { query }),
        "invalid request: search limit must be greater than zero"
    );
}

#[test]
fn stream_leads_to_the_file() {
    let track_id = TrackId("aphex-twin-syro-aphex-twin-syro-01-minipops-mp3".to_string());
    match reply(BackendRequest::OpenStream { track_id }) {
        BackendResponse::Stream(stream) => {
            assert_eq!(stream.path.text(), "/m/Aphex Twin/Syro/01 - Minipops.mp3");
            assert_eq!(stream.content_type, "audio/mpeg");
            assert_eq!(stream.file_size, 10);
        }
        _ => panic!("a stream was expected"),
    }
}

#[test]
fn starring_asks_for_the_right_kind() {
    let starred = |id: &str, starred| {
        server().handle(BackendRequest::SetStarred { id: id.to_string(), starred })
    };
    match starred("bj-rk", true) {
        Ok(Action::Star { id, kind }) => {
            assert_eq!(id, "bj-rk");
            assert_eq!(kind, StarKind::Artist);
            assert_eq!(kind.name(), "artist");
        }
        _ => panic!("a star was expected"),
    }
    match starred("bj-rk-debut", true) {
        Ok(Action::Star { kind, .. }) => assert_eq!(kind.name(), "album"),
        _ => panic!("a star was expected"),
    }
    match server().set_starred("no-such-id".to_string(), true) {
        Err(error) => assert_eq!(error.message(), "id not found: no-such-id"),
        Ok(_) => panic!("an error was expected"),
    }
    match starred("bj-rk-debut", false) {
        Ok(Action::Unstar { id }) => assert_eq!(id, "bj-rk-debut"),
        _ => panic!("the loss of a star was expected"),
    }
    assert!(matches!(server().handle(BackendRequest::GetStarred), Ok(Action::ListStarred)));
}

#[test]
fn granted_star_is_answered_with_the_empty_response() {
    match change_response::<String>(Ok(())) {
        Ok(BackendResponse::Empty) => {}
        _ => panic!("the empty response was expected"),
    }
    match read_response(response_to_send(change_response(Ok(())))) {
        Ok(BackendResponse::Empty) => {}
        _ => panic!("the empty response was expected"),
    }
    match read_response(response_to_send(change_response(Err("locked".to_string())))) {
        Err(error) => assert_eq!(error.message(), "invalid request: locked"),
        Ok(_) => panic!("an error was expected"),
    }
}

#[test]
fn pictures_of_the_primary_tag_count() {
    let pictures = |byte| {
        Some(vec![EmbeddedPicture { is_front_cover: false, content_type: None, bytes: vec![byte] }])
    };
    assert_eq!(cover_pictures(pictures(1), pictures(2)).unwrap()[0].bytes, vec![1]);
    assert_eq!(cover_pictures(None, pictures(2)).unwrap()[0].bytes, vec![2]);
    assert!(cover_pictures(Some(vec![]), pictures(2)).unwrap().is_empty());
    assert!(cover_pictures(None, None).is_none());
}

#[test]
fn starred_items_are_listed_in_the_order_of_the_rows() {
    let row = |id: &str, kind: &str| StarredRow { id: id.to_string(), kind: kind.to_string() };
    let rows = vec![
        row("aphex-twin-syro", "album"),
        row("gone", "album"),
        row("bj-rk", "artist"),
        row("aphex-twin-drukqs", "album"),
        row("bj-rk", "label"),
    ];
    match server().get_starred(rows) {
        BackendResponse::Starred(set) => {
            assert_eq!(set.artists.len(), 1);
            let titles: Vec<&str> = set.albums.iter().map(|album| album.title.as_str()).collect();
            assert_eq!(titles, vec!["Syro", "Drukqs"]);
            assert!(set.tracks.is_empty());
        }
        _ => panic!("what is starred was expected"),
    }
}

#[test]
fn cover_beside_the_tracks_is_read() {
    let library = library();
    let cover_art_id = library.albums.value_at(2).cover_art_id.clone().unwrap();
    match server().handle(BackendRequest::GetCoverArt { cover_art_id }) {
        Ok(Action::ReadCover { cover_art_id, content_type, path }) => {
            assert_eq!(cover_art_id.0, "cover-bj-rk-debut-cover-png");
            assert_eq!(content_type, "image/png");
            assert_eq!(path.text(), "/m/Björk - Debut/cover.png");
        }
        _ => panic!("the file of a cover was expected"),
    }
    match cover_response(CoverArtId("c".to_string()), "image/png".to_string(), vec![1, 2]) {
        BackendResponse::CoverArt(cover) => assert_eq!(cover.bytes, vec![1, 2]),
        _ => panic!("a cover was expected"),
    }
    match fetched_cover_response(CoverArtId("c".to_string()), None, vec![3]) {
        BackendResponse::CoverArt(cover) => {
            assert_eq!(cover.content_type, "application/octet-stream")
        }
        _ => panic!("a cover was expected"),
    }
}

#[test]
fn embedded_cover_is_the_front_cover() {
    let mut library = library();
    let track_id = library.tracks.value_at(0).id.clone();
    library.cover_arts.insert(
        CoverArtId("e".to_string()),
        CoverArtSource::Embedded { track_id: track_id.clone() },
    );
    library.cover_arts.insert(
        CoverArtId("lost".to_string()),
        CoverArtSource::Embedded { track_id: TrackId("gone".to_string()) },
    );
    let server = MusicServer::new(ServerConfig::new(path("/m"), None), library);
    let ask = |id: &str| {
        server.handle(BackendRequest::GetCoverArt { cover_art_id: CoverArtId(id.to_string()) })
    };
    match ask("e") {
        Ok(Action::ReadEmbeddedCover { track_id: asked, path, .. }) => {
            assert_eq!(asked, track_id);
            assert_eq!(path.text(), "/m/Aphex Twin/Drukqs/01 - Jynweythek.mp3");
        }
        _ => panic!("the file of a track was expected"),
    }
    match ask("lost") {
        Err(error) => assert_eq!(error.message(), "track not found: gone"),
        Ok(_) => panic!("an error was expected"),
    }
    let picture = |is_front_cover, byte| EmbeddedPicture {
        is_front_cover,
        content_type: None,
        bytes: vec![byte],
    };
    let id = || CoverArtId("e".to_string());
    let chosen = |pictures| match embedded_cover_response(id(), &track_id, pictures) {
        Ok(BackendResponse::CoverArt(cover)) => {
            assert_eq!(cover.content_type, "application/octet-stream");
            cover.bytes[0]
        }
        _ => panic!("a cover was expected"),
    };
    assert_eq!(chosen(Some(vec![picture(false, 1), picture(true, 2), picture(true, 3)])), 2);
    assert_eq!(chosen(Some(vec![picture(false, 1), picture(false, 2)])), 1);
    match embedded_cover_response(id(), &TrackId("t".to_string()), Some(vec![])) {
        Err(error) => assert_eq!(
            error.message(),
            "invalid request: embedded cover art missing for track t"
        ),
        Ok(_) => panic!("an error was expected"),
    }
}

#[test]
fn new_library_takes_the_place_of_the_old() {
    let mut server = server();
    server.set_library(LibraryIndex::default());
    assert_eq!(server.library().track_count(), 0);
    assert_eq!(server.config().music_dir.text(), "/m");
}

fn lastfm_album() -> LastfmAlbum {
    LastfmAlbum {
        url: Some("https://last.fm/a".to_string()),
        mbid: Some(String::new()),
        listeners: Some("1234".to_string()),
        playcount: Some("many".to_string()),
        wiki: Some(LastfmWiki { published: None, summary: Some("Good.".to_string()) }),
        tags: Some(vec!["idm".to_string()]),
        images: Some(vec!["small".to_string(), "large".to_string(), String::new()]),
    }
}

#[test]
fn lastfm_album_becomes_metadata() {
    let metadata = lastfm_album().into_metadata();
    assert_eq!(metadata.lastfm_mbid, None);
    assert_eq!(metadata.image_url, Some("large".to_string()));
    assert_eq!(metadata.listeners, Some(1234));
    assert_eq!(metadata.playcount, None);
    assert_eq!(metadata.summary, Some("Good.".to_string()));
    assert_eq!(metadata.tags, vec!["idm"]);
}

#[test]
fn enriching_gives_covers_only_to_albums_without() {
    let mut library = library();
    let mut found = OrderedMap::new();
    found.insert(AlbumId("aphex-twin-syro".to_string()), lastfm_album().into_metadata());
    found.insert(AlbumId("bj-rk-debut".to_string()), lastfm_album().into_metadata());
    found.insert(AlbumId("unknown".to_string()), lastfm_album().into_metadata());
    enrich_library(&mut library, found);
    let syro = library.albums.get(&AlbumId("aphex-twin-syro".to_string())).unwrap();
    let cover = syro.cover_art_id.clone().unwrap();
    assert_eq!(cover.0, "lastfm-album-aphex-twin-syro");
    match library.cover_arts.get(&cover) {
        Some(CoverArtSource::External { url }) => assert_eq!(url, "large"),
        _ => panic!("a cover from elsewhere was expected"),
    }
    let debut = library.albums.get(&AlbumId("bj-rk-debut".to_string())).unwrap();
    assert_eq!(debut.cover_art_id.as_ref().unwrap().0, "cover-bj-rk-debut-cover-png");
    assert!(debut.metadata.is_some());
    let drukqs = library.albums.get(&AlbumId("aphex-twin-drukqs".to_string())).unwrap();
    assert!(drukqs.metadata.is_none());
    assert_eq!(library.album_count(), 3);
    let server = MusicServer::new(ServerConfig::new(path("/m"), None), library);
    match server.handle(BackendRequest::GetCoverArt { cover_art_id: cover }) {
        Ok(Action::FetchCover { url, .. }) => assert_eq!(url, "large"),
        _ => panic!("an address was expected"),
    }
}

#[test]
fn message_is_framed_by_its_length() {
    let sent = frame(&vec![7; 300]).unwrap();
    assert_eq!(&sent[..4], &[0, 0, 1, 44]);
    assert_eq!(sent.len(), 304);
    assert_eq!(message_length(&[sent[0], sent[1], sent[2], sent[3]]), 300);
    assert_eq!(message_length(&[255, 255, 255, 255]), u32::MAX);
    assert_eq!(frame(&vec![]).unwrap(), vec![0, 0, 0, 0]);
    assert_eq!(iroh_alpn(), b"irohifi/1".to_vec());
}

#[test]
fn refusal_reaches_the_client() {
    let sent = response_to_send(Err("artist not found: x".to_string()));
    match read_response(sent) {
        Err(error) => assert_eq!(error.message(), "invalid request: artist not found: x"),
        Ok(_) => panic!("an error was expected"),
    }
    match read_response(response_to_send(Ok(BackendResponse::Empty))) {
        Ok(BackendResponse::Empty) => {}
        _ => panic!("the answer was expected"),
    }
}

#[test]
fn stream_is_announced_before_it_is_sent() {
    let track_id = TrackId("aphex-twin-syro-aphex-twin-syro-01-minipops-mp3".to_string());
    let (sent, file) = stream_to_send(Ok(reply(BackendRequest::OpenStream { track_id })));
    assert_eq!(file.unwrap().text(), "/m/Aphex Twin/Syro/01 - Minipops.mp3");
    assert_eq!(opened_stream(sent).unwrap().file_size, 10);
    let (sent, file) = stream_to_send(Ok(BackendResponse::Empty));
    assert!(file.is_none());
    match opened_stream(sent) {
        Err(error) => assert_eq!(error.message(), "invalid request: unexpected stream response"),
        Ok(_) => panic!("an error was expected"),
    }
    match opened_stream(BackendResponse::Empty) {
        Err(error) => assert_eq!(
            error.message(),
            "invalid request: backend returned unexpected response for stream"
        ),
        Ok(_) => panic!("an error was expected"),
    }
}

#[test]
fn only_a_stream_is_followed_by_a_file() {
    let track_id = TrackId("aphex-twin-syro-aphex-twin-syro-01-minipops-mp3".to_string());
    assert!(wants_stream(&BackendRequest::OpenStream { track_id: track_id.clone() }));
    assert!(!wants_stream(&BackendRequest::GetTrack { track_id: track_id.clone() }));
    let stream = reply(BackendRequest::OpenStream { track_id: track_id.clone() });
    let (_, file) = messages_to_send(true, Ok(stream));
    assert_eq!(file.unwrap().text(), "/m/Aphex Twin/Syro/01 - Minipops.mp3");
    let (sent, file) = messages_to_send(false, Ok(reply(BackendRequest::GetTrack { track_id })));
    assert!(file.is_none());
    match read_response(sent) {
        Ok(BackendResponse::Track(track)) => assert_eq!(track.file_size, 10),
        _ => panic!("the track was expected"),
    }
    let (sent, file) = messages_to_send(true, Err("gone".to_string()));
    assert!(file.is_none());
    match opened_stream(sent) {
        Err(error) => assert_eq!(error.message(), "invalid request: gone"),
        Ok(_) => panic!("an error was expected"),
    }
}

#[test]
fn requests_have_names() {
    assert_eq!(request_name(&BackendRequest::GetLibrarySummary), "GetLibrarySummary");
    assert_eq!(
        request_name(&BackendRequest::OpenStream { track_id: TrackId(String::new()) }),
        "OpenStream"
    );
}
