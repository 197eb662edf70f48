//! Texts, slugs, tags and media types.

use iroh_fm::media::{classify_file, detect_content_type, detect_image_content_type, FileRole};
use iroh_fm::path::FilePath;
use iroh_fm::slug::slugify;
use iroh_fm::sorting::sorted;
use iroh_fm::tags::{extract_year, read_track_tags, split_multi_value, TagFields, TaggedFile};
use iroh_fm::text::{
    decimal_text, parse_number, same_ignoring_case, signed_decimal_text, split_once, strip_suffix,
    text_before, trim,
};

fn path(text: &str) -> FilePath {
    let mut parts: Vec<Vec<u8>> = Vec::new();
    if text.starts_with('/') {
        parts.push(b"/".to_vec());
    }
    for part in text.split('/') {
        if !part.is_empty() {
            parts.push(part.as_bytes().to_vec());
        }
    }
    FilePath { parts }
}

fn no_fields() -> TagFields {
    TagFields {
        title: None,
        artist: None,
        album: None,
        album_artist: None,
        track: None,
        disk: None,
        genre: None,
        recording_date: None,
        year: None,
        musicbrainz_track_id: None,
        musicbrainz_recording_id: None,
        musicbrainz_release_id: None,
        musicbrainz_release_group_id: None,
    }
}

#[test]
fn slug_joins_words_with_single_hyphens() {
    assert_eq!(slugify("Oedo Controller (feat. TORIENA)"), "oedo-controller-feat-toriena");
    assert_eq!(slugify("--A  b--"), "a-b");
    assert_eq!(slugify("!!!"), "");
    assert_eq!(slugify("Björk"), "bj-rk");
}

#[test]
fn slug_of_a_slug_is_the_slug() {
    let once = slugify("Sigur Rós: ( )");
    assert_eq!(slugify(&once), once);
}

#[test]
fn slug_does_not_heed_case() {
    assert_eq!(slugify("YUNOMI"), slugify("yunomi"));
}

#[test]
fn names_split_at_the_first_separator_only() {
    assert_eq!(
        split_once("a - b - c", " - "),
        Some(("a".to_string(), "b - c".to_string()))
    );
    assert_eq!(split_once("a-b", " - "), None);
}

#[test]
fn trimming_takes_white_space_of_every_kind() {
    assert_eq!(trim("\u{3000}\t a b \n"), "a b");
    assert_eq!(trim("   "), "");
}

#[test]
fn numbers_are_read_and_written_in_decimal() {
    assert_eq!(parse_number("+012", u32::MAX as u64), Some(12));
    assert_eq!(parse_number("4294967296", u32::MAX as u64), None);
    assert_eq!(parse_number("4294967295", u32::MAX as u64), Some(4294967295));
    assert_eq!(parse_number("", 10), None);
    assert_eq!(parse_number("+", 10), None);
    assert_eq!(parse_number("1x", 10), None);
    assert_eq!(decimal_text(0), "0");
    assert_eq!(decimal_text(u64::MAX), "18446744073709551615");
    assert_eq!(signed_decimal_text(-2147483648), "-2147483648");
}

#[test]
fn texts_compare_by_code_points_and_ignore_only_ascii_case() {
    assert!(text_before("Z", "a"));
    assert!(text_before("a", "ab"));
    assert!(!text_before("ab", "ab"));
    assert!(same_ignoring_case("RoCk", "rOcK"));
    assert!(!same_ignoring_case("É", "é"));
    assert_eq!(strip_suffix("ping.view", ".view"), Some("ping".to_string()));
}

#[test]
fn genres_split_at_semicolons_and_commas() {
    assert_eq!(split_multi_value(" Rock ;; Pop,Jazz , "), vec!["Rock", "Pop", "Jazz"]);
    assert!(split_multi_value(" ; ").is_empty());
}

#[test]
fn year_is_the_first_four_digits() {
    assert_eq!(extract_year("2019-03-01"), Some(2019));
    assert_eq!(extract_year("03/2019"), Some(320));
    assert_eq!(extract_year("201"), None);
}

#[test]
fn paths_know_their_names() {
    let p = path("/music/A - B/01 - x.FLAC");
    assert_eq!(p.file_name_text(), Some("01 - x.FLAC".to_string()));
    assert_eq!(p.stem_text(), Some("01 - x".to_string()));
    assert_eq!(p.extension(), Some("flac".to_string()));
    assert_eq!(p.text(), "/music/A - B/01 - x.FLAC");
    assert_eq!(p.below(&path("/music")).unwrap().text(), "A - B/01 - x.FLAC");
    assert!(p.below(&path("/other")).is_none());
    assert_eq!(path("/music").join(&path("a/b")).text(), "/music/a/b");
    assert_eq!(path("/music").join(&path("/b")).text(), "/b");
    assert_eq!(path(".hidden").extension(), None);
}

#[test]
fn bytes_that_are_no_text_are_replaced() {
    let p = FilePath { parts: vec![vec![0x61, 0xff, 0x62]] };
    assert_eq!(p.text(), "a\u{fffd}b");
    assert_eq!(p.file_name_text(), None);
    assert_eq!(path("é").text(), "é");
}

#[test]
fn paths_are_sorted_part_by_part() {
    let all = sorted(vec![path("b"), path("a/c"), path("a b"), path("a"), path("a/b/z")]);
    let texts: Vec<String> = all.iter().map(|p| p.text()).collect();
    assert_eq!(texts, vec!["a", "a/b/z", "a/c", "a b", "b"]);
}

#[test]
fn extensions_give_the_content_type() {
    assert_eq!(detect_content_type(&path("a.Opus")), "audio/ogg");
    assert_eq!(detect_content_type(&path("a.m4a")), "audio/mp4");
    assert_eq!(detect_content_type(&path("a.txt")), "application/octet-stream");
    assert_eq!(detect_image_content_type(&path("a.JPEG")), Some("image/jpeg".to_string()));
    assert_eq!(detect_image_content_type(&path("a.mp3")), None);
    assert_eq!(classify_file(&path("a.wav")), FileRole::Audio);
    assert_eq!(classify_file(&path("a.webp")), FileRole::Image);
    assert_eq!(classify_file(&path("iroh-music-server.db")), FileRole::Other);
}

#[test]
fn unreadable_file_keeps_the_fallbacks() {
    let tags = read_track_tags(
        &path("/m/x.FLAC"),
        "Artist".to_string(),
        "Album".to_string(),
        "Title".to_string(),
        Some(3),
        None,
    );
    assert_eq!(tags.title, "Title");
    assert_eq!(tags.artist, "Artist");
    assert_eq!(tags.track_number, Some(3));
    assert_eq!(tags.codec, Some("flac".to_string()));
    assert_eq!(tags.duration_seconds, None);
}

#[test]
fn tags_of_the_file_come_before_the_fallbacks() {
    let mut fields = no_fields();
    fields.title = Some("  Real  ".to_string());
    fields.artist = Some("   ".to_string());
    fields.album_artist = Some("Various".to_string());
    fields.genre = Some("Pop; Rock".to_string());
    fields.year = Some("1999".to_string());
    let file = TaggedFile {
        duration_seconds: u64::from(u32::MAX) + 1,
        bitrate: Some(320),
        sample_rate: Some(44100),
        channels: Some(2),
        primary_tag: None,
        first_tag: Some(fields),
    };
    let tags = read_track_tags(
        &path("x"),
        "Artist".to_string(),
        "Album".to_string(),
        "Title".to_string(),
        Some(3),
        Some(file),
    );
    assert_eq!(tags.title, "Real");
    assert_eq!(tags.artist, "Artist");
    assert_eq!(tags.album_artist, Some("Various".to_string()));
    assert_eq!(tags.genres, vec!["Pop", "Rock"]);
    assert_eq!(tags.date, Some("1999".to_string()));
    assert_eq!(tags.track_number, Some(3));
    assert_eq!(tags.duration_seconds, None);
    assert_eq!(tags.channels, Some(2));
    assert_eq!(tags.codec, None);
}
