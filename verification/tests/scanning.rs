//! From files to the library.

use iroh_fm::builder::{LibraryBuilder, ScannedTrack};
use iroh_fm::chunks::{build_index_in_chunks, build_partial};
use iroh_fm::error::Error;
use iroh_fm::index::CoverArtSource;
use iroh_fm::ordered_map::OrderedMap;
use iroh_fm::path::FilePath;
use iroh_fm::protocol::FileTime;
use iroh_fm::scanner::{
    cache_misses, cache_row_is_fresh, choose_sidecar_image, index_library, infer_artist_and_album,
    modified_unix, parse_track_name, places_to_keep, rows_to_store, split_artist_album_dir,
    LibraryFiles,
};
use iroh_fm::tags::TrackTags;
use iroh_fm::watch::{
    event_kind_needs_rescan, event_needs_rescan, is_library_relevant_path, DataChange, Event,
    EventKind, ModifyKind,
};

fn path(text: &str) -> FilePath {
    let mut parts: Vec<Vec<u8>> = Vec::new();
    if text.starts_with('/') {
        parts.push(b"/".to_vec());
    }
    for part in text.split('/') {
        if !part.is_empty() {
            parts.push(part.as_bytes().to_vec());
        }
    }
    FilePath { parts }
}

fn time() -> FileTime {
    FileTime { seconds: 1000, nanoseconds: 5 }
}

fn scanned(file: &str) -> ScannedTrack {
    ScannedTrack::from_path(&path("/m"), &path(file), 7, Ok(time())).unwrap()
}

fn filled(file: &str) -> ScannedTrack {
    let mut track = scanned(file);
    track.apply_cached(None);
    track.fill_tags(None);
    track
}

fn tags(artist: &str, album: &str, title: &str) -> TrackTags {
    TrackTags {
        title: title.to_string(),
        artist: artist.to_string(),
        album: album.to_string(),
        album_artist: None,
        track_number: None,
        disc_number: Some(2),
        duration_seconds: Some(100),
        bitrate: None,
        sample_rate: None,
        channels: None,
        codec: None,
        genres: vec!["Pop".to_string()],
        date: Some("2001-02-03".to_string()),
        musicbrainz_track_id: None,
        musicbrainz_recording_id: None,
        musicbrainz_album_id: None,
        musicbrainz_release_group_id: None,
    }
}

#[test]
fn album_folder_with_two_tracks_and_a_cover_becomes_one_album() {
    let root = path("/music");
    let dir = path("/music/Yunomi - Oedo Controller");
    let mut files = LibraryFiles::new();
    files.add_dir(
        dir.clone(),
        vec![
            path("/music/Yunomi - Oedo Controller/02 - Wakusei Rabbit (feat. TORIENA).flac"),
            path("/music/Yunomi - Oedo Controller/cover.jpg"),
            path("/music/Yunomi - Oedo Controller/01 - Oedo Controller (feat. TORIENA).flac"),
        ],
    );
    files.add_dir(root.clone(), vec![path("/music/iroh-music-server.db")]);
    let files = files.sorted();
    assert_eq!(files.audio_files.len(), 2);
    let mut tracks = Vec::new();
    for file in &files.audio_files {
        let mut track = ScannedTrack::from_path(&root, file, 0, Ok(time())).unwrap();
        track.apply_cached(None);
        track.fill_tags(None);
        tracks.push(track);
    }
    let library = index_library(&root, &tracks, files.sidecar_by_dir).unwrap();
    assert_eq!(library.artist_count(), 1);
    assert_eq!(library.album_count(), 1);
    assert_eq!(library.track_count(), 2);
    assert_eq!(library.cover_arts.len(), 1);
    let album = library.albums.value_at(0);
    assert_eq!(album.artist, "Yunomi");
    assert_eq!(album.title, "Oedo Controller");
    assert!(album.cover_art_id.is_some());
    assert_eq!(album.id.0, "yunomi-oedo-controller");
    assert_eq!(album.track_ids.len(), 2);
    let first = library.tracks.get(&album.track_ids[0]).unwrap();
    assert_eq!(first.title, "Oedo Controller (feat. TORIENA)");
    assert_eq!(first.track_number, Some(1));
    assert_eq!(first.content_type, "audio/flac");
    match library.cover_arts.value_at(0) {
        CoverArtSource::Sidecar { relative_path, content_type } => {
            assert_eq!(relative_path.text(), "Yunomi - Oedo Controller/cover.jpg");
            assert_eq!(content_type, "image/jpeg");
        }
        _ => panic!("a cover beside the tracks was expected"),
    }
}

#[test]
fn cover_is_chosen_by_name() {
    let chosen = choose_sidecar_image(vec![
        path("a.png"),
        path("Front.png"),
        path("folder.jpg"),
        path("COVER.jpg"),
    ]);
    assert_eq!(chosen.unwrap().text(), "COVER.jpg");
    assert_eq!(
        choose_sidecar_image(vec![path("z.png"), path("B.png"), path("b.png")]).unwrap().text(),
        "B.png"
    );
    assert!(choose_sidecar_image(vec![]).is_none());
}

#[test]
fn place_gives_artist_and_album() {
    let infer = |text: &str| infer_artist_and_album(&path(text));
    assert_eq!(infer("A/B/C/x.mp3"), ("A".to_string(), "B".to_string()));
    assert_eq!(infer("A - B/x.mp3"), ("A".to_string(), "B".to_string()));
    assert_eq!(infer("Best of/x.mp3"), ("Unknown Artist".to_string(), "Best of".to_string()));
    assert_eq!(infer("x.mp3"), ("Unknown Artist".to_string(), "Unknown Album".to_string()));
    assert_eq!(
        split_artist_album_dir(" A  -  B - C "),
        ("A".to_string(), "B - C".to_string())
    );
}

#[test]
fn name_gives_number_and_title() {
    assert_eq!(parse_track_name("07 - Song - Live"), (Some(7), "Song - Live".to_string()));
    assert_eq!(parse_track_name("Side A - Song"), (None, "Song".to_string()));
    assert_eq!(parse_track_name(" Song "), (None, "Song".to_string()));
}

#[test]
fn file_outside_the_root_is_refused() {
    match ScannedTrack::from_path(&path("/m"), &path("/n/x.mp3"), 0, Ok(time())) {
        Err(Error::InvalidRequest(reason)) => {
            assert_eq!(reason, "path outside music root: /n/x.mp3")
        }
        _ => panic!("an error was expected"),
    }
}

#[test]
fn file_from_before_the_epoch_is_refused() {
    match modified_unix(&Err("too early".to_string())) {
        Err(error) => assert_eq!(
            error.message(),
            "invalid request: file modified before unix epoch: too early"
        ),
        Ok(_) => panic!("an error was expected"),
    }
    let late = FileTime { seconds: u64::MAX, nanoseconds: 0 };
    assert_eq!(modified_unix(&Ok(late)).unwrap(), i64::MAX);
}

#[test]
fn cache_row_counts_only_for_the_same_size_and_time() {
    assert!(cache_row_is_fresh(7, 1000, 7, 1000));
    assert!(!cache_row_is_fresh(8, 1000, 7, 1000));
    assert!(!cache_row_is_fresh(7, 1001, 7, 1000));
    assert!(cache_row_is_fresh(i64::MAX, 0, u64::MAX, 0));
}

#[test]
fn second_scan_finds_every_track_in_the_cache() {
    let tracks = vec![filled("/m/A - B/1 - x.mp3"), filled("/m/A - B/2 - y.mp3")];
    assert_eq!(cache_misses(&tracks), 2);
    let rows = rows_to_store(&tracks);
    assert_eq!(rows.len(), 2);
    assert_eq!(
        places_to_keep(&tracks),
        Some(vec!["A - B/1 - x.mp3".to_string(), "A - B/2 - y.mp3".to_string()])
    );
    let mut again = Vec::new();
    for (file, row) in ["/m/A - B/1 - x.mp3", "/m/A - B/2 - y.mp3"].iter().zip(rows) {
        let mut track = scanned(file);
        assert_eq!(row.relative_path, track.relative_path_string);
        assert!(cache_row_is_fresh(
            row.file_size,
            row.modified_unix,
            track.file_size,
            track.modified_unix
        ));
        track.apply_cached(Some(row.tags));
        again.push(track);
    }
    assert_eq!(cache_misses(&again), 0);
    assert!(rows_to_store(&again).is_empty());
    assert_eq!(places_to_keep(&again), None);
    assert_eq!(again[0].tags.as_ref().unwrap().title, "x");
}

#[test]
fn tags_from_the_cache_are_not_read_again() {
    let mut track = scanned("/m/x.mp3");
    track.apply_cached(Some(tags("Artist", "Album", "Cached")));
    track.fill_tags(None);
    assert_eq!(track.tags.unwrap().title, "Cached");
    assert!(!track.needs_cache_store);
}

#[test]
fn track_without_tags_stops_the_building() {
    let tracks = vec![scanned("/m/x.mp3")];
    match index_library(&path("/m"), &tracks, OrderedMap::new()) {
        Err(error) => assert_eq!(
            error.message(),
            "invalid request: missing scanned tags for /m/x.mp3"
        ),
        Ok(_) => panic!("an error was expected"),
    }
}

#[test]
fn cover_outside_the_root_stops_the_building() {
    let mut covers = OrderedMap::new();
    covers.insert(path("/m"), Some(path("/n/cover.jpg")));
    match index_library(&path("/m"), &vec![filled("/m/x.mp3")], covers) {
        Err(error) => assert_eq!(
            error.message(),
            "invalid request: path outside music root: /n/cover.jpg"
        ),
        Ok(_) => panic!("an error was expected"),
    }
}

#[test]
fn refused_track_leaves_its_artist_and_its_album() {
    let mut covers = OrderedMap::new();
    covers.insert(path("/m"), Some(path("/n/cover.jpg")));
    let mut builder = LibraryBuilder::new(covers);
    assert!(builder.add_track(&path("/m"), &scanned("/m/x.mp3")).is_err());
    assert!(builder.add_track(&path("/m"), &filled("/m/x.mp3")).is_err());
    let library = builder.build();
    assert_eq!(library.artist_count(), 1);
    assert_eq!(library.album_count(), 1);
    assert_eq!(library.track_count(), 0);
    let artist = library.artists.value_at(0);
    assert_eq!(artist.name, "Unknown Artist");
    assert!(artist.album_ids.is_empty());
    assert!(library.albums.value_at(0).track_ids.is_empty());

    let mut builder = LibraryBuilder::new(OrderedMap::new());
    assert!(builder.add_track(&path("/m"), &scanned("/m/x.mp3")).is_err());
    assert_eq!(builder.build().artist_count(), 0);
}

#[test]
fn every_track_is_kept_where_artists_share_an_id() {
    let mut first = scanned("/m/1.mp3");
    first.apply_cached(Some(tags("AC/DC", "Album", "One")));
    let mut second = scanned("/m/2.mp3");
    second.apply_cached(Some(tags("AC DC", "Album", "Two")));
    let library = index_library(&path("/m"), &vec![first, second], OrderedMap::new()).unwrap();
    assert_eq!(library.artist_count(), 1);
    assert_eq!(library.track_count(), 2);
    assert_eq!(library.tracks.value_at(0).title, "One");
    assert_eq!(library.tracks.value_at(1).title, "Two");
}

#[test]
fn artist_names_an_album_once() {
    let mut tracks = Vec::new();
    for file in ["/m/1.mp3", "/m/2.mp3", "/m/3.mp3"] {
        let mut track = scanned(file);
        track.apply_cached(Some(tags("Artist", "Album", "Title")));
        tracks.push(track);
    }
    let library =
        build_index_in_chunks(&path("/m"), &tracks, OrderedMap::new(), 1).unwrap().build();
    assert_eq!(library.artists.value_at(0).album_ids.len(), 1);
    assert_eq!(library.albums.value_at(0).track_ids.len(), 3);
}

#[test]
fn album_gathers_what_its_tracks_say() {
    let mut first = scanned("/m/1.mp3");
    first.apply_cached(Some(tags("Artist", "Album", "One")));
    let mut other = tags("Guest", "Album", "Two");
    other.album_artist = Some("Artist".to_string());
    other.genres = vec!["POP".to_string(), "Rock".to_string()];
    let mut second = scanned("/m/2.mp3");
    second.apply_cached(Some(other));
    let library = index_library(&path("/m"), &vec![first, second], OrderedMap::new()).unwrap();
    assert_eq!(library.album_count(), 1);
    let album = library.albums.value_at(0);
    assert_eq!(album.size_bytes, 14);
    assert_eq!(album.duration_seconds, Some(200));
    assert_eq!(album.disc_count, Some(2));
    assert_eq!(album.year, Some(2001));
    assert_eq!(album.genres, vec!["Pop", "Rock"]);
    assert_eq!(album.track_ids[0].0, "artist-album-1-mp3");
}

#[test]
fn chunks_make_the_same_library_as_one_piece() {
    let mut tracks = Vec::new();
    for i in 0..10 {
        tracks.push(filled(&format!("/m/Artist {}/Album/{} - t.mp3", i % 3, i)));
    }
    let root = path("/m");
    let whole = build_partial(&root, &tracks, &OrderedMap::new()).unwrap().build();
    for size in [1, 3, 10, 11] {
        let parts = build_index_in_chunks(&root, &tracks, OrderedMap::new(), size).unwrap().build();
        assert_eq!(parts.artist_count(), 3);
        assert_eq!(parts.track_count(), whole.track_count());
        for i in 0..3 {
            let a = whole.albums.value_at(i);
            let b = parts.albums.value_at(i);
            assert_eq!(a.id, b.id);
            assert_eq!(a.track_ids, b.track_ids);
            assert_eq!(a.size_bytes, b.size_bytes);
        }
    }
}

#[test]
fn every_id_in_a_library_leads_somewhere() {
    let tracks = vec![
        filled("/m/A - B/1 - x.mp3"),
        filled("/m/a - b/1 - x.mp3"),
        filled("/m/A - C/1 - x.mp3"),
    ];
    let library = index_library(&path("/m"), &tracks, OrderedMap::new()).unwrap();
    for i in 0..library.artists.len() {
        let artist = library.artists.value_at(i);
        for id in &artist.album_ids {
            assert!(library.albums.contains_key(id));
        }
    }
    for i in 0..library.albums.len() {
        let album = library.albums.value_at(i);
        for id in &album.track_ids {
            assert!(library.tracks.contains_key(id));
        }
    }
}

#[test]
fn only_real_changes_call_for_a_scan() {
    assert!(event_kind_needs_rescan(EventKind::Create));
    assert!(event_kind_needs_rescan(EventKind::Modify(ModifyKind::Data(DataChange::Size))));
    assert!(event_kind_needs_rescan(EventKind::Modify(ModifyKind::Name)));
    assert!(!event_kind_needs_rescan(EventKind::Modify(ModifyKind::Metadata)));
    assert!(!event_kind_needs_rescan(EventKind::Access));
    assert!(!event_kind_needs_rescan(EventKind::Other));
    let change = |kind, file: &str| Event { kind, paths: vec![path("/m/notes.txt"), path(file)] };
    assert!(event_needs_rescan(&change(EventKind::Remove, "/m/x.MP3")));
    assert!(!event_needs_rescan(&change(EventKind::Access, "/m/x.mp3")));
    assert!(!event_needs_rescan(&change(EventKind::Remove, "/m/iroh-fm.db-wal")));
}

#[test]
fn files_of_the_server_do_not_matter() {
    assert!(!is_library_relevant_path(&path("/m/iroh-music-server.db")));
    assert!(!is_library_relevant_path(&path("/m/x.txt")));
    assert!(is_library_relevant_path(&path("/m/cover.gif")));
}

#[test]
fn order_of_the_listing_does_not_matter() {
    let listing = ["/m/b.mp3", "/m/front.png", "/m/a/z.mp3", "/m/a.mp3", "/m/Folder.jpg"];
    let mut forwards = LibraryFiles::new();
    forwards.add_dir(path("/m"), listing.iter().map(|file| path(file)).collect());
    let mut backwards = LibraryFiles::new();
    backwards.add_dir(path("/m"), listing.iter().rev().map(|file| path(file)).collect());
    for files in [forwards.sorted(), backwards.sorted()] {
        let names: Vec<String> = files.audio_files.iter().map(|file| file.text()).collect();
        assert_eq!(names, ["/m/a/z.mp3", "/m/a.mp3", "/m/b.mp3"]);
        match files.sidecar_by_dir.get(&path("/m")) {
            Some(Some(cover)) => assert_eq!(cover.text(), "/m/Folder.jpg"),
            _ => panic!("a cover was expected"),
        }
    }
}
