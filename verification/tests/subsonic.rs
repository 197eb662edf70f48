//! The Subsonic frontend.

use iroh_fm::auth::{decode_hex_utf8, encode_hex, matches_digest, matches_password, Credentials};
use iroh_fm::builder::ScannedTrack;
use iroh_fm::config::{ServerConfig, SubsonicConfig};
use iroh_fm::index::LibraryIndex;
use iroh_fm::models::{query_value, RequestContext};
use iroh_fm::ordered_map::OrderedMap;
use iroh_fm::path::FilePath;
use iroh_fm::protocol::{
    AlbumId, Artist, ArtistId, BackendResponse, CoverArtBytes, CoverArtId, FileTime, StreamDescriptor,
    TrackId,
};
use iroh_fm::render::{
    error_response, map_album, map_artists, map_cover_art, map_empty, map_indexes, map_search,
    map_starred2, map_stream, map_track, response_format, ResponseFormat, SubsonicResponse,
};
use iroh_fm::routes::{
    failure_response, handle_request, normalize_rest_path, Pending, RawQuery, Step,
};
use iroh_fm::scanner::index_library;
use iroh_fm::server::{Action, MusicServer};
use iroh_fm::xml::{optional_attr, optional_number_attr, wrap_xml, xml_escape};

fn path(text: &str) -> FilePath {
    let mut parts: Vec<Vec<u8>> = Vec::new();
    if text.starts_with('/') {
        parts.push(b"/".to_vec());
    }
    for part in text.split('/') {
        if !part.is_empty() {
            parts.push(part.as_bytes().to_vec());
        }
    }
    FilePath { parts }
}

fn library() -> LibraryIndex {
    let mut tracks = Vec::new();
    for file in ["/m/R&B/Live/01 - One.mp3", "/m/R&B/Studio/02 - Two.mp3", "/m/abba/Gold/03 - SOS.mp3"] {
        let time = FileTime { seconds: 5, nanoseconds: 0 };
        let mut track = ScannedTrack::from_path(&path("/m"), &path(file), 10, Ok(time)).unwrap();
        track.apply_cached(None);
        track.fill_tags(None);
        tracks.push(track);
    }
    index_library(&path("/m"), &tracks, OrderedMap::new()).unwrap()
}

fn request(path: &str, query: &[(&str, &str)]) -> RequestContext {
    let mut all = vec![
        ("u".to_string(), "admin".to_string()),
        ("p".to_string(), "admin".to_string()),
    ];
    for (key, value) in query {
        all.push((key.to_string(), value.to_string()));
    }
    RequestContext { path: path.to_string(), query: all }
}

fn serve(request: &RequestContext) -> Result<SubsonicResponse, String> {
    let server = MusicServer::new(ServerConfig::new(path("/m"), None), library());
    let format = response_format(request);
    let mut step = handle_request(&SubsonicConfig::default(), request).map_err(|e| e.message())?;
    loop {
        match step {
            Step::Done(response) => return Ok(response),
            Step::Stream { track_id } => return Err(format!("stream of {}", track_id.0)),
            Step::Ask { request, pending } => match server.handle(request) {
                Ok(Action::Reply(response)) => {
                    step = pending.resume(format, response).map_err(|e| e.message())?;
                }
                Ok(_) => return Err("more than the library".to_string()),
                Err(error) => match pending.without_answer(format) {
                    Some(response) => return Ok(response),
                    None => return Err(error.message()),
                },
            },
        }
    }
}

fn xml(body: &str) -> String {
    format!(
        "<?xml version=\"1.0\" encoding=\"UTF-8\"?><subsonic-response status=\"ok\" version=\"1.16.1\">{body}</subsonic-response>"
    )
}

fn served_xml(path: &str, query: &[(&str, &str)]) -> String {
    match serve(&request(path, query)).unwrap() {
        SubsonicResponse::Xml(text) => text,
        _ => panic!("XML was expected"),
    }
}

fn served_json(path: &str, query: &[(&str, &str)]) -> String {
    let mut query = query.to_vec();
    query.push(("f", "json"));
    match serve(&request(path, &query)).unwrap() {
        SubsonicResponse::Json(text) => text,
        _ => panic!("JSON was expected"),
    }
}

#[test]
fn ping_is_answered_in_both_notations() {
    assert_eq!(served_xml("/rest/ping", &[]), xml("<message>pong</message>"));
    assert_eq!(
        served_json("/rest/ping", &[]),
        "{\"subsonic-response\":{\"message\":\"pong\",\"status\":\"ok\",\"version\":\"1.16.1\"}}"
    );
}

#[test]
fn license_and_folders_are_fixed() {
    assert_eq!(
        served_xml("/rest/getLicense", &[]),
        xml("<license valid=\"true\" email=\"\" licenseExpires=\"\" />")
    );
    assert_eq!(
        served_json("/rest/getLicense", &[]),
        "{\"subsonic-response\":{\"license\":{\"email\":\"\",\"licenseExpires\":\"\",\"valid\":true},\"status\":\"ok\",\"version\":\"1.16.1\"}}"
    );
    assert_eq!(
        served_xml("/rest/getMusicFolders", &[]),
        xml("<musicFolders><musicFolder id=\"1\" name=\"Music\" /></musicFolders>")
    );
    assert_eq!(
        served_json("/rest/getMusicFolders", &[]),
        "{\"subsonic-response\":{\"musicFolders\":{\"musicFolder\":[{\"id\":1,\"name\":\"Music\"}]},\"status\":\"ok\",\"version\":\"1.16.1\"}}"
    );
}

#[test]
fn scrobbles_are_welcome_and_ignored() {
    assert_eq!(served_xml("/rest/scrobble", &[]), xml(""));
    assert_eq!(
        served_json("/rest/scrobble", &[]),
        "{\"subsonic-response\":{\"status\":\"ok\",\"version\":\"1.16.1\"}}"
    );
}

#[test]
fn artists_have_an_index_each() {
    assert_eq!(
        served_xml("/rest/getArtists", &[]),
        xml("<artists><index name=\"abba\"><artist id=\"abba\" name=\"abba\" /></index><index name=\"R&amp;B\"><artist id=\"r-b\" name=\"R&amp;B\" /></index></artists>")
    );
    assert_eq!(
        served_json("/rest/getArtists", &[]),
        "{\"subsonic-response\":{\"artists\":{\"index\":[{\"artist\":[{\"id\":\"abba\",\"name\":\"abba\"}],\"name\":\"abba\"},{\"artist\":[{\"id\":\"r-b\",\"name\":\"R&B\"}],\"name\":\"R&B\"}]},\"status\":\"ok\",\"version\":\"1.16.1\"}}"
    );
}

#[test]
fn indexes_group_artists_by_their_first_letter() {
    let artist = |id: &str, name: &str| Artist {
        id: ArtistId(id.to_string()),
        name: name.to_string(),
        album_ids: vec![],
    };
    let artists = || {
        BackendResponse::Artists(vec![
            artist("1", "beck"),
            artist("2", ""),
            artist("3", "Abba"),
            artist("4", "Blur"),
        ])
    };
    match map_indexes(ResponseFormat::Xml, artists()).unwrap() {
        SubsonicResponse::Xml(text) => assert_eq!(
            text,
            xml("<indexes lastModified=\"0\" ignoredArticles=\"\"><index name=\"#\"><artist id=\"2\" name=\"\" /></index><index name=\"A\"><artist id=\"3\" name=\"Abba\" /></index><index name=\"B\"><artist id=\"1\" name=\"beck\" /><artist id=\"4\" name=\"Blur\" /></index></indexes>")
        ),
        _ => panic!("XML was expected"),
    }
    match map_indexes(ResponseFormat::Json, artists()).unwrap() {
        SubsonicResponse::Json(text) => assert_eq!(
            text,
            "{\"subsonic-response\":{\"indexes\":{\"ignoredArticles\":\"\",\"index\":[{\"artist\":[{\"id\":\"2\",\"name\":\"\"}],\"name\":\"#\"},{\"artist\":[{\"id\":\"3\",\"name\":\"Abba\"}],\"name\":\"A\"},{\"artist\":[{\"id\":\"1\",\"name\":\"beck\"},{\"id\":\"4\",\"name\":\"Blur\"}],\"name\":\"B\"}],\"lastModified\":0},\"status\":\"ok\",\"version\":\"1.16.1\"}}"
        ),
        _ => panic!("JSON was expected"),
    }
}

#[test]
fn root_directory_holds_the_artists() {
    assert_eq!(
        served_xml("/rest/getMusicDirectory", &[]),
        xml("<directory id=\"root\" name=\"Music\"><child id=\"abba\" title=\"abba\" isDir=\"true\" parent=\"root\" /><child id=\"r-b\" title=\"R&amp;B\" isDir=\"true\" parent=\"root\" /></directory>")
    );
}

#[test]
fn artist_directory_holds_every_album() {
    assert_eq!(
        served_xml("/rest/getMusicDirectory", &[("id", "r-b")]),
        xml("<directory id=\"r-b\" name=\"R&amp;B\" parent=\"root\"><child id=\"r-b-live\" title=\"Live\" isDir=\"true\" artist=\"R&amp;B\" album=\"Live\" size=\"10\" parent=\"r-b\" /><child id=\"r-b-studio\" title=\"Studio\" isDir=\"true\" artist=\"R&amp;B\" album=\"Studio\" size=\"10\" parent=\"r-b\" /></directory>")
    );
    assert_eq!(
        served_json("/rest/getMusicDirectory", &[("id", "abba")]),
        "{\"subsonic-response\":{\"directory\":{\"child\":[{\"album\":\"Gold\",\"artist\":\"abba\",\"id\":\"abba-gold\",\"isDir\":true,\"parent\":\"abba\",\"size\":10,\"title\":\"Gold\"}],\"id\":\"abba\",\"name\":\"abba\",\"parent\":\"root\"},\"status\":\"ok\",\"version\":\"1.16.1\"}}"
    );
}

#[test]
fn album_directory_holds_every_track() {
    assert_eq!(
        served_xml("/rest/getMusicDirectory", &[("id", "abba-gold")]),
        xml("<directory id=\"abba-gold\" name=\"Gold\"><child id=\"abba-gold-abba-gold-03-sos-mp3\" title=\"SOS\" isDir=\"false\" artist=\"abba\" album=\"Gold\" contentType=\"audio/mpeg\" track=\"3\" size=\"10\" parent=\"abba-gold\" /></directory>")
    );
}

#[test]
fn track_directory_holds_the_track() {
    assert_eq!(
        served_xml("/rest/getMusicDirectory", &[("id", "abba-gold-abba-gold-03-sos-mp3")]),
        xml("<directory id=\"abba-gold-abba-gold-03-sos-mp3\" name=\"SOS\"><child id=\"abba-gold-abba-gold-03-sos-mp3\" title=\"SOS\" isDir=\"false\" artist=\"abba\" album=\"Gold\" contentType=\"audio/mpeg\" track=\"3\" size=\"10\" /></directory>")
    );
}

#[test]
fn unknown_directory_is_told() {
    assert_eq!(
        served_xml("/rest/getMusicDirectory", &[("id", "nobody")]),
        "<?xml version=\"1.0\" encoding=\"UTF-8\"?><subsonic-response status=\"failed\" version=\"1.16.1\"><error code=\"0\" message=\"unknown directory id\" /></subsonic-response>"
    );
}

#[test]
fn album_and_song_are_told_in_full() {
    assert_eq!(
        served_xml("/rest/getAlbum", &[("id", "abba-gold")]),
        xml("<album id=\"abba-gold\" name=\"Gold\" artist=\"abba\" songCount=\"1\" albumArtist=\"abba\" size=\"10\" />")
    );
    assert_eq!(
        served_json("/rest/getAlbum", &[("id", "abba-gold")]),
        "{\"subsonic-response\":{\"album\":{\"albumArtist\":\"abba\",\"artist\":\"abba\",\"coverArt\":null,\"duration\":null,\"genre\":null,\"id\":\"abba-gold\",\"name\":\"Gold\",\"size\":10,\"songCount\":1,\"year\":null},\"status\":\"ok\",\"version\":\"1.16.1\"}}"
    );
    assert_eq!(
        served_xml("/rest/getSong", &[("id", "abba-gold-abba-gold-03-sos-mp3")]),
        xml("<song id=\"abba-gold-abba-gold-03-sos-mp3\" title=\"SOS\" artist=\"abba\" album=\"Gold\" contentType=\"audio/mpeg\" track=\"3\" />")
    );
    assert_eq!(
        served_json("/rest/getSong", &[("id", "abba-gold-abba-gold-03-sos-mp3")]),
        "{\"subsonic-response\":{\"song\":{\"album\":\"Gold\",\"albumArtist\":null,\"artist\":\"abba\",\"bitRate\":null,\"contentType\":\"audio/mpeg\",\"coverArt\":null,\"discNumber\":null,\"duration\":null,\"genre\":null,\"id\":\"abba-gold-abba-gold-03-sos-mp3\",\"size\":10,\"suffix\":null,\"title\":\"SOS\",\"track\":3},\"status\":\"ok\",\"version\":\"1.16.1\"}}"
    );
}

#[test]
fn year_and_genre_are_told_where_they_are_known() {
    let library = library();
    let mut album = library.albums.get(&AlbumId("abba-gold".to_string())).unwrap().clone();
    album.year = Some(-44);
    album.genres = vec!["Pop \"&\" <Rock>".to_string(), "Other".to_string()];
    album.cover_art_id = Some(CoverArtId("c".to_string()));
    album.duration_seconds = Some(61);
    match map_album(ResponseFormat::Xml, BackendResponse::Album(album)).unwrap() {
        SubsonicResponse::Xml(text) => assert_eq!(
            text,
            xml("<album id=\"abba-gold\" name=\"Gold\" artist=\"abba\" songCount=\"1\" albumArtist=\"abba\" genre=\"Pop &quot;&amp;&quot; &lt;Rock&gt;\" year=\"-44\" coverArt=\"c\" duration=\"61\" size=\"10\" />")
        ),
        _ => panic!("XML was expected"),
    }
}

#[test]
fn search_finds_all_kinds() {
    assert_eq!(
        served_xml("/rest/search3", &[("query", "GOLD")]),
        xml("<searchResult3><album id=\"abba-gold\" name=\"Gold\" artist=\"abba\" /><song id=\"abba-gold-abba-gold-03-sos-mp3\" title=\"SOS\" artist=\"abba\" album=\"Gold\" /></searchResult3>")
    );
    assert_eq!(
        served_json("/rest/search3", &[("query", "abba")]),
        "{\"subsonic-response\":{\"searchResult3\":{\"album\":[{\"artist\":\"abba\",\"coverArt\":null,\"id\":\"abba-gold\",\"name\":\"Gold\"}],\"artist\":[{\"id\":\"abba\",\"name\":\"abba\"}],\"song\":[{\"album\":\"Gold\",\"artist\":\"abba\",\"coverArt\":null,\"id\":\"abba-gold-abba-gold-03-sos-mp3\",\"title\":\"SOS\"}]},\"status\":\"ok\",\"version\":\"1.16.1\"}}"
    );
    assert_eq!(
        serve(&request("/rest/search3", &[("query", "  ")])).unwrap_err(),
        "invalid request: search term must not be empty"
    );
}

#[test]
fn streams_are_asked_for_by_id() {
    assert_eq!(serve(&request("/rest/stream", &[("id", "t1")])).unwrap_err(), "stream of t1");
    let stream = StreamDescriptor {
        track_id: TrackId("t1".to_string()),
        path: path("x"),
        content_type: "audio/ogg".to_string(),
        file_size: 99,
    };
    match map_stream(stream) {
        SubsonicResponse::Stream { content_type, content_length } => {
            assert_eq!(content_type, "audio/ogg");
            assert_eq!(content_length, Some(99));
        }
        _ => panic!("a stream was expected"),
    }
}

#[test]
fn starring_goes_to_the_backend() {
    let config = SubsonicConfig::default();
    for (route, wanted) in [("/rest/star", true), ("/rest/unstar", false)] {
        match handle_request(&config, &request(route, &[("id", "abba")])).unwrap() {
            Step::Ask {
                request: iroh_fm::protocol::BackendRequest::SetStarred { id, starred },
                pending,
            } => {
                assert_eq!(id, "abba");
                assert_eq!(starred, wanted);
                assert!(matches!(pending, Pending::Change));
            }
            _ => panic!("a request to the backend was expected"),
        }
    }
    match map_empty(BackendResponse::Empty, ResponseFormat::Xml).unwrap() {
        SubsonicResponse::Xml(text) => assert_eq!(text, xml("")),
        _ => panic!("XML was expected"),
    }
}

#[test]
fn unsupported_route_is_told() {
    assert_eq!(
        served_xml("/rest/get<All>", &[]),
        "<?xml version=\"1.0\" encoding=\"UTF-8\"?><subsonic-response status=\"failed\" version=\"1.16.1\"><error code=\"0\" message=\"unsupported route: /rest/get&lt;All&gt;\" /></subsonic-response>"
    );
    assert_eq!(
        served_json("/rest/none", &[]),
        "{\"subsonic-response\":{\"error\":{\"code\":0,\"message\":\"unsupported route: /rest/none\"},\"status\":\"failed\",\"version\":\"1.16.1\"}}"
    );
}

#[test]
fn strangers_get_no_further() {
    let stranger = RequestContext {
        path: "/rest/getArtists".to_string(),
        query: vec![("u".to_string(), "admin".to_string()), ("p".to_string(), "guess".to_string())],
    };
    match serve(&stranger).unwrap() {
        SubsonicResponse::Xml(text) => assert!(text.contains("authentication failed")),
        _ => panic!("XML was expected"),
    }
}

#[test]
fn passwords_may_be_encoded() {
    assert!(matches_password("sesame", "sesame"));
    assert!(matches_password("enc:736573616D65", "sesame"));
    assert!(matches_password("enc:c3a9", "é"));
    assert!(!matches_password("enc:73657361", "sesame"));
    assert!(!matches_password("enc:7", "sesame"));
    assert!(!matches_password("enc:zz", "sesame"));
    assert!(!matches_password("enc:é", "sesame"));
    assert!(!matches_password("enc:ff", "sesame"));
    assert_eq!(decode_hex_utf8(""), Ok(String::new()));
    assert_eq!(encode_hex(&vec![0, 10, 255]), "000aff");
}

#[test]
fn tokens_are_salted_digests() {
    let config = SubsonicConfig { password: "sesame".to_string(), ..SubsonicConfig::default() };
    let credentials = |token: &str, salt: Option<&str>| Credentials {
        username: "admin".to_string(),
        password: None,
        token: Some(token.to_string()),
        salt: salt.map(|salt| salt.to_string()),
    };
    assert!(credentials("26719a1196d2a940705a59634eb18eab", Some("c19b2d")).matches(&config));
    assert!(credentials("26719A1196D2A940705A59634EB18EAB", Some("c19b2d")).matches(&config));
    assert!(!credentials("26719a1196d2a940705a59634eb18eab", Some("c19b2e")).matches(&config));
    assert!(!credentials("26719a1196d2a940705a59634eb18eab", None).matches(&config));
    assert!(matches_digest("0Aff", &vec![10, 255]));
    assert!(!matches_digest("0af", &vec![10, 255]));
    let other = SubsonicConfig { username: "root".to_string(), ..config };
    assert!(!credentials("26719a1196d2a940705a59634eb18eab", Some("c19b2d")).matches(&other));
}

#[test]
fn credentials_come_from_the_query() {
    let request = RequestContext {
        path: String::new(),
        query: vec![
            ("t".to_string(), "token".to_string()),
            ("t".to_string(), "second".to_string()),
            ("s".to_string(), "salt".to_string()),
        ],
    };
    let credentials = Credentials::from_request(&request);
    assert_eq!(credentials.username, "");
    assert_eq!(credentials.password, None);
    assert_eq!(credentials.token, Some("token".to_string()));
    assert_eq!(credentials.salt, Some("salt".to_string()));
    assert_eq!(query_value(&request, "x"), None);
}

#[test]
fn query_reaches_the_request() {
    let raw = RawQuery {
        u: Some("admin".to_string()),
        p: None,
        t: None,
        s: Some("salt".to_string()),
        f: Some("json".to_string()),
        id: Some("x".to_string()),
        query: None,
    };
    let request = raw.into_request("ping.view");
    assert_eq!(request.path, "/rest/ping");
    assert_eq!(query_value(&request, "u"), Some("admin"));
    assert_eq!(query_value(&request, "p"), None);
    assert_eq!(query_value(&request, "s"), Some("salt"));
    assert_eq!(query_value(&request, "id"), Some("x"));
    assert_eq!(response_format(&request), ResponseFormat::Json);
    assert_eq!(ResponseFormat::Json.as_str(), "json");
    assert_eq!(ResponseFormat::Xml.as_str(), "xml");
    assert_eq!(normalize_rest_path("getAlbum"), "/rest/getAlbum");
}

#[test]
fn escaped_text_stays_text() {
    assert_eq!(xml_escape("a<b>&\"c\"&amp;"), "a&lt;b&gt;&amp;&quot;c&quot;&amp;amp;");
    assert_eq!(optional_attr("x", Some("\"")), " x=\"&quot;\"");
    assert_eq!(optional_attr("x", None), "");
    assert_eq!(optional_number_attr("n", Some(12)), " n=\"12\"");
    assert_eq!(optional_number_attr("n", None), "");
    assert_eq!(wrap_xml("<x />"), xml("<x />"));
}

#[test]
fn failure_of_the_backend_is_told() {
    match failure_response(ResponseFormat::Json, "album not found: \"x\"\n\u{1}") {
        SubsonicResponse::Json(text) => assert_eq!(
            text,
            "{\"subsonic-response\":{\"error\":{\"code\":0,\"message\":\"backend error: album not found: \\\"x\\\"\\n\\u0001\"},\"status\":\"failed\",\"version\":\"1.16.1\"}}"
        ),
        _ => panic!("JSON was expected"),
    }
    match error_response(ResponseFormat::Xml, "a & b") {
        SubsonicResponse::Xml(text) => assert!(text.contains("message=\"a &amp; b\"")),
        _ => panic!("XML was expected"),
    }
}

#[test]
fn covers_are_passed_on() {
    let cover = CoverArtBytes {
        cover_art_id: CoverArtId("c".to_string()),
        content_type: "image/png".to_string(),
        bytes: vec![1, 2, 3],
    };
    match map_cover_art(BackendResponse::CoverArt(cover)).unwrap() {
        SubsonicResponse::Binary { content_type, bytes } => {
            assert_eq!(content_type, "image/png");
            assert_eq!(bytes, vec![1, 2, 3]);
        }
        _ => panic!("bytes were expected"),
    }
}

#[test]
fn unexpected_answers_are_errors() {
    let format = ResponseFormat::Xml;
    let told = |result: Result<SubsonicResponse, iroh_fm::error::Error>| match result {
        Err(error) => error.message(),
        Ok(_) => panic!("an error was expected"),
    };
    let prefix = "invalid request: backend returned unexpected response for ";
    let wrong = || BackendResponse::Empty;
    assert_eq!(told(map_artists(format, wrong())), format!("{prefix}getArtists"));
    assert_eq!(told(map_indexes(format, wrong())), format!("{prefix}getIndexes"));
    assert_eq!(told(map_album(format, wrong())), format!("{prefix}getAlbum"));
    assert_eq!(told(map_track(format, wrong())), format!("{prefix}getSong"));
    assert_eq!(told(map_search(format, wrong())), format!("{prefix}search3"));
    assert_eq!(told(map_starred2(format, wrong())), format!("{prefix}getStarred2"));
    assert_eq!(told(map_cover_art(wrong())), format!("{prefix}getCoverArt"));
    let artists = BackendResponse::Artists(vec![]);
    assert_eq!(told(map_empty(artists, format)), format!("{prefix}empty result"));
    for (pending, name) in [
        (Pending::RootDirectory, "getMusicDirectory root"),
        (Pending::DirectoryId { id: "x".to_string() }, "ResolveId"),
        (
            Pending::AlbumDirectory { id: "x".to_string(), title: "t".to_string() },
            "album tracks",
        ),
        (
            Pending::ArtistDirectory {
                id: "x".to_string(),
                name: "n".to_string(),
                albums: vec![AlbumId("a".to_string())],
                children: vec![],
            },
            "artist album",
        ),
    ] {
        match pending.resume(format, wrong()) {
            Err(error) => assert_eq!(error.message(), format!("{prefix}{name}")),
            Ok(_) => panic!("an error was expected"),
        }
    }
}
