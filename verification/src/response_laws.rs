//! What the responses tell a client that reads them.

use vstd::prelude::*;

use crate::error::ErrorModel;
use crate::json::{json_text, Json};
use crate::models::IndexArtistModel;
use crate::ordered_map::{lemma_listing, lemma_map_of_entry, OrderedKey};
use crate::protocol::{
    AlbumModel, ArtistModel, BackendResponseModel, StarredSetModel, TrackModel,
};
use crate::reading::{
    attribute, clean, is_row, lacks, law_escaped_text_is_read_back, lemma_attribute_of,
    lemma_decimal_clean, lemma_empty_row, lemma_escaped_clean, lemma_row_push, lemma_split_one,
    lemma_tag_clean, lemma_tags_push, pairs_in, quoted, tags, unescaped,
};
use crate::render::{
    album_hit_json, album_hit_xml, album_hits_xml, album_json, album_reply, album_xml,
    all_indexed_xml, artist_hit_xml, artist_hits_xml, artist_json, artists_reply, child_json,
    child_xml, children_xml, directory_reply, empty_reply, failed, first_of, folders_reply,
    group_json, group_xml,
    grouped, index_name, license_reply, or_empty,
    groups_xml, hits_json, hits_xml, index_xml, indexed_json, indexed_xml, indexes_reply,
    indexes_xml, json_document, json_failure, message_reply, ordered_groups, search_reply,
    song_hit_json, song_hit_xml, song_hits_xml, song_json, song_reply, song_xml, starred_reply,
    truth_text, wide, year_text, DirectoryChildModel, ResponseFormat, SubsonicResponseModel,
};
use crate::server::found;
use crate::text::{decimal, signed_decimal, text_less, upper_char};
use crate::xml::{attr, escaped, number_attr, xml_document, xml_failure};

verus! {

/// The start of a directory.
spec fn directory_open(directory: (Seq<char>, Seq<char>, Option<Seq<char>>)) -> Seq<char> {
    "<directory id=\""@ + escaped(directory.0) + "\" name=\""@ + escaped(directory.1) + "\""@ + attr(
        "parent"@,
        directory.2,
    ) + ">"@
}

/// The start of an index.
spec fn index_open(name: Seq<char>) -> Seq<char> {
    "<index name=\""@ + escaped(name) + "\">"@
}

/// A failure.
spec fn error_element(message: Seq<char>) -> Seq<char> {
    "<error code=\""@ + "0"@ + "\" message=\""@ + escaped(message) + "\" />"@
}

/// The text that an attribute of a tag stands for.
pub open spec fn text_told(tag: Seq<char>, element: Seq<char>, name: Seq<char>) -> Option<
    Seq<char>,
> {
    match attribute(tag, element, name) {
        Some(value) => Some(unescaped(value)),
        None => None,
    }
}

/// The pairs with one more, where there is a value.
spec fn with_value(
    pairs: Map<Seq<char>, Seq<char>>,
    name: Seq<char>,
    value: Option<Seq<char>>,
) -> Map<Seq<char>, Seq<char>> {
    match value {
        Some(value) => pairs.insert(name, value),
        None => pairs,
    }
}

spec fn escaped_option(value: Option<Seq<char>>) -> Option<Seq<char>> {
    match value {
        Some(value) => Some(escaped(value)),
        None => None,
    }
}

spec fn decimal_option(value: Option<u64>) -> Option<Seq<char>> {
    match value {
        Some(value) => Some(decimal(value as nat)),
        None => None,
    }
}

proof fn lemma_row_attr(row: Seq<char>, name: Seq<char>, value: Option<Seq<char>>)
    requires
        is_row(row),
        clean(name),
    ensures
        is_row(row + attr(name, value)),
        pairs_in(row + attr(name, value)) == with_value(pairs_in(row), name, escaped_option(value)),
{
    match value {
        Some(value) => {
            lemma_escaped_clean(value);
            lemma_row_push(row, name, escaped(value));
        },
        None => {
            assert(row + attr(name, value) =~= row);
        },
    }
}

proof fn lemma_row_number(row: Seq<char>, name: Seq<char>, value: Option<u64>)
    requires
        is_row(row),
        clean(name),
    ensures
        is_row(row + number_attr(name, value)),
        pairs_in(row + number_attr(name, value)) == with_value(
            pairs_in(row),
            name,
            decimal_option(value),
        ),
{
    match value {
        Some(value) => {
            lemma_decimal_clean(value as nat);
            lemma_row_push(row, name, decimal(value as nat));
        },
        None => {
            assert(row + number_attr(name, value) =~= row);
        },
    }
}

proof fn lemma_next_attr(
    written: Seq<char>,
    done: Seq<char>,
    between: Seq<char>,
    name: Seq<char>,
    value: Seq<char>,
)
    requires
        written + "\""@ == done,
        between == "\""@ + " "@ + name + "=\""@,
    ensures
        written + between + value + "\""@ == done + quoted(name, value),
{
    assert(written + between + value + "\""@ =~= done + quoted(name, value));
}

proof fn lemma_add(a: Seq<char>, b: Seq<char>, c: Seq<char>)
    ensures
        a + b + c == a + (b + c),
{
    assert(a + b + c =~= a + (b + c));
}

proof fn lemma_names_are_clean()
    ensures
        clean("id"@),
        clean("title"@),
        clean("artist"@),
        clean("album"@),
        clean("contentType"@),
        clean("coverArt"@),
        clean("track"@),
        clean("discNumber"@),
        clean("duration"@),
        clean("song"@),
        clean("name"@),
        clean("songCount"@),
        clean("albumArtist"@),
        clean("genre"@),
        clean("year"@),
        clean("size"@),
        clean("parent"@),
        clean("directory"@),
        clean("index"@),
        clean("code"@),
        clean("message"@),
        clean("error"@),
        clean("isDir"@),
        clean("child"@),
        clean("0"@),
        clean("ok"@),
        clean("failed"@),
        clean("1.16.1"@),
        clean("status"@),
        clean("version"@),
        clean("subsonic-response"@),
        clean(" />"@),
        clean(">"@),
        clean("true"@),
        clean("false"@),
{
    reveal_strlit("id");
    assert("id"@ =~= seq!['i', 'd']);
    reveal_strlit("title");
    assert("title"@ =~= seq!['t', 'i', 't', 'l', 'e']);
    reveal_strlit("artist");
    assert("artist"@ =~= seq!['a', 'r', 't', 'i', 's', 't']);
    reveal_strlit("album");
    assert("album"@ =~= seq!['a', 'l', 'b', 'u', 'm']);
    reveal_strlit("contentType");
    assert("contentType"@ =~= seq!['c', 'o', 'n', 't', 'e', 'n', 't', 'T', 'y', 'p', 'e']);
    reveal_strlit("coverArt");
    assert("coverArt"@ =~= seq!['c', 'o', 'v', 'e', 'r', 'A', 'r', 't']);
    reveal_strlit("track");
    assert("track"@ =~= seq!['t', 'r', 'a', 'c', 'k']);
    reveal_strlit("discNumber");
    assert("discNumber"@ =~= seq!['d', 'i', 's', 'c', 'N', 'u', 'm', 'b', 'e', 'r']);
    reveal_strlit("duration");
    assert("duration"@ =~= seq!['d', 'u', 'r', 'a', 't', 'i', 'o', 'n']);
    reveal_strlit("song");
    assert("song"@ =~= seq!['s', 'o', 'n', 'g']);
    reveal_strlit("name");
    assert("name"@ =~= seq!['n', 'a', 'm', 'e']);
    reveal_strlit("songCount");
    assert("songCount"@ =~= seq!['s', 'o', 'n', 'g', 'C', 'o', 'u', 'n', 't']);
    reveal_strlit("albumArtist");
    assert("albumArtist"@ =~= seq!['a', 'l', 'b', 'u', 'm', 'A', 'r', 't', 'i', 's', 't']);
    reveal_strlit("genre");
    assert("genre"@ =~= seq!['g', 'e', 'n', 'r', 'e']);
    reveal_strlit("year");
    assert("year"@ =~= seq!['y', 'e', 'a', 'r']);
    reveal_strlit("size");
    assert("size"@ =~= seq!['s', 'i', 'z', 'e']);
    reveal_strlit("parent");
    assert("parent"@ =~= seq!['p', 'a', 'r', 'e', 'n', 't']);
    reveal_strlit("directory");
    assert("directory"@ =~= seq!['d', 'i', 'r', 'e', 'c', 't', 'o', 'r', 'y']);
    reveal_strlit("index");
    assert("index"@ =~= seq!['i', 'n', 'd', 'e', 'x']);
    reveal_strlit("code");
    assert("code"@ =~= seq!['c', 'o', 'd', 'e']);
    reveal_strlit("message");
    assert("message"@ =~= seq!['m', 'e', 's', 's', 'a', 'g', 'e']);
    reveal_strlit("error");
    assert("error"@ =~= seq!['e', 'r', 'r', 'o', 'r']);
    reveal_strlit("isDir");
    assert("isDir"@ =~= seq!['i', 's', 'D', 'i', 'r']);
    reveal_strlit("child");
    assert("child"@ =~= seq!['c', 'h', 'i', 'l', 'd']);
    reveal_strlit("0");
    assert("0"@ =~= seq!['0']);
    reveal_strlit("ok");
    assert("ok"@ =~= seq!['o', 'k']);
    reveal_strlit("failed");
    assert("failed"@ =~= seq!['f', 'a', 'i', 'l', 'e', 'd']);
    reveal_strlit("1.16.1");
    assert("1.16.1"@ =~= seq!['1', '.', '1', '6', '.', '1']);
    reveal_strlit("status");
    assert("status"@ =~= seq!['s', 't', 'a', 't', 'u', 's']);
    reveal_strlit("version");
    assert("version"@ =~= seq!['v', 'e', 'r', 's', 'i', 'o', 'n']);
    reveal_strlit("subsonic-response");
    assert(
        "subsonic-response"@ =~= seq![
            's', 'u', 'b', 's', 'o', 'n', 'i', 'c', '-', 'r', 'e', 's', 'p', 'o', 'n', 's', 'e',
        ]
    );
    reveal_strlit(" />");
    assert(" />"@ =~= seq![' ', '/', '>']);
    reveal_strlit(">");
    assert(">"@ =~= seq!['>']);
    reveal_strlit("true");
    assert("true"@ =~= seq!['t', 'r', 'u', 'e']);
    reveal_strlit("false");
    assert("false"@ =~= seq!['f', 'a', 'l', 's', 'e']);
}

/// A song of which all is told: whether a tag tells it, each thing under its own name.
pub open spec fn song_told(tag: Seq<char>, track: TrackModel) -> bool {
    &&& text_told(tag, "song"@, "id"@) == Some(track.id)
    &&& text_told(tag, "song"@, "title"@) == Some(track.title)
    &&& text_told(tag, "song"@, "artist"@) == Some(track.artist)
    &&& text_told(tag, "song"@, "album"@) == Some(track.album)
    &&& text_told(tag, "song"@, "contentType"@) == Some(track.content_type)
    &&& text_told(tag, "song"@, "coverArt"@) == track.cover_art_id
    &&& attribute(tag, "song"@, "track"@)
        == (match track.track_number { Some(n) => Some(decimal(n as nat)), None => None })
    &&& attribute(tag, "song"@, "discNumber"@)
        == (match track.disc_number { Some(n) => Some(decimal(n as nat)), None => None })
    &&& attribute(tag, "song"@, "duration"@)
        == (match track.duration_seconds { Some(n) => Some(decimal(n as nat)), None => None })
}

spec fn song_row(track: TrackModel) -> Seq<char> {
    Seq::<char>::empty()
        + quoted("id"@, escaped(track.id))
        + quoted("title"@, escaped(track.title))
        + quoted("artist"@, escaped(track.artist))
        + quoted("album"@, escaped(track.album))
        + quoted("contentType"@, escaped(track.content_type))
        + attr("coverArt"@, track.cover_art_id)
        + number_attr("track"@, wide(track.track_number))
        + number_attr("discNumber"@, wide(track.disc_number))
        + number_attr("duration"@, wide(track.duration_seconds))
}

spec fn song_pairs(track: TrackModel) -> Map<Seq<char>, Seq<char>> {
    let pairs0 = Map::<Seq<char>, Seq<char>>::empty();
    let pairs1 = pairs0.insert("id"@, escaped(track.id));
    let pairs2 = pairs1.insert("title"@, escaped(track.title));
    let pairs3 = pairs2.insert("artist"@, escaped(track.artist));
    let pairs4 = pairs3.insert("album"@, escaped(track.album));
    let pairs5 = pairs4.insert("contentType"@, escaped(track.content_type));
    let pairs6 = with_value(pairs5, "coverArt"@, escaped_option(track.cover_art_id));
    let pairs7 = with_value(pairs6, "track"@, decimal_option(wide(track.track_number)));
    let pairs8 = with_value(pairs7, "discNumber"@, decimal_option(wide(track.disc_number)));
    let pairs9 = with_value(pairs8, "duration"@, decimal_option(wide(track.duration_seconds)));
    pairs9
}

#[verifier::spinoff_prover]
#[verifier::rlimit(40)]
proof fn lemma_song_row(track: TrackModel)
    ensures
        is_row(song_row(track)),
        pairs_in(song_row(track)) == song_pairs(track),
{
    lemma_names_are_clean();
    lemma_empty_row();
    let row0: Seq<char> = Seq::<char>::empty();
    lemma_escaped_clean(track.id);
    lemma_row_push(row0, "id"@, escaped(track.id));
    let row1 = row0 + quoted("id"@, escaped(track.id));
    lemma_escaped_clean(track.title);
    lemma_row_push(row1, "title"@, escaped(track.title));
    let row2 = row1 + quoted("title"@, escaped(track.title));
    lemma_escaped_clean(track.artist);
    lemma_row_push(row2, "artist"@, escaped(track.artist));
    let row3 = row2 + quoted("artist"@, escaped(track.artist));
    lemma_escaped_clean(track.album);
    lemma_row_push(row3, "album"@, escaped(track.album));
    let row4 = row3 + quoted("album"@, escaped(track.album));
    lemma_escaped_clean(track.content_type);
    lemma_row_push(row4, "contentType"@, escaped(track.content_type));
    let row5 = row4 + quoted("contentType"@, escaped(track.content_type));
    lemma_row_attr(row5, "coverArt"@, track.cover_art_id);
    let row6 = row5 + attr("coverArt"@, track.cover_art_id);
    lemma_row_number(row6, "track"@, wide(track.track_number));
    let row7 = row6 + number_attr("track"@, wide(track.track_number));
    lemma_row_number(row7, "discNumber"@, wide(track.disc_number));
    let row8 = row7 + number_attr("discNumber"@, wide(track.disc_number));
    lemma_row_number(row8, "duration"@, wide(track.duration_seconds));
    let row9 = row8 + number_attr("duration"@, wide(track.duration_seconds));
}

#[verifier::spinoff_prover]
#[verifier::rlimit(40)]
proof fn lemma_song_text(track: TrackModel)
    ensures
        song_xml(track) == seq!['<'] + "song"@ + song_row(track) + " />"@,
{
    let open = seq!['<'] + "song"@;
    let row0: Seq<char> = Seq::<char>::empty();
    let row1 = row0 + quoted("id"@, escaped(track.id));
    let row2 = row1 + quoted("title"@, escaped(track.title));
    let row3 = row2 + quoted("artist"@, escaped(track.artist));
    let row4 = row3 + quoted("album"@, escaped(track.album));
    let row5 = row4 + quoted("contentType"@, escaped(track.content_type));
    let row6 = row5 + attr("coverArt"@, track.cover_art_id);
    let row7 = row6 + number_attr("track"@, wide(track.track_number));
    let row8 = row7 + number_attr("discNumber"@, wide(track.disc_number));
    let row9 = row8 + number_attr("duration"@, wide(track.duration_seconds));
    let written1 = "<song id=\""@ + escaped(track.id);
    assert(written1 + "\""@ =~= open + row1) by {
        reveal_strlit("<song id=\"");
        reveal_strlit("song");
        reveal_strlit(" ");
        reveal_strlit("id");
        reveal_strlit("=\"");
        reveal_strlit("\"");
    }
    assert("\" title=\""@ =~= "\""@ + " "@ + "title"@ + "=\""@) by {
        reveal_strlit("\" title=\"");
        reveal_strlit("\"");
        reveal_strlit(" ");
        reveal_strlit("title");
        reveal_strlit("=\"");
    }
    lemma_next_attr(written1, open + row1, "\" title=\""@, "title"@, escaped(track.title));
    let written2 = written1 + "\" title=\""@ + escaped(track.title);
    lemma_add(open, row1, quoted("title"@, escaped(track.title)));
    assert("\" artist=\""@ =~= "\""@ + " "@ + "artist"@ + "=\""@) by {
        reveal_strlit("\" artist=\"");
        reveal_strlit("\"");
        reveal_strlit(" ");
        reveal_strlit("artist");
        reveal_strlit("=\"");
    }
    lemma_next_attr(written2, open + row2, "\" artist=\""@, "artist"@, escaped(track.artist));
    let written3 = written2 + "\" artist=\""@ + escaped(track.artist);
    lemma_add(open, row2, quoted("artist"@, escaped(track.artist)));
    assert("\" album=\""@ =~= "\""@ + " "@ + "album"@ + "=\""@) by {
        reveal_strlit("\" album=\"");
        reveal_strlit("\"");
        reveal_strlit(" ");
        reveal_strlit("album");
        reveal_strlit("=\"");
    }
    lemma_next_attr(written3, open + row3, "\" album=\""@, "album"@, escaped(track.album));
    let written4 = written3 + "\" album=\""@ + escaped(track.album);
    lemma_add(open, row3, quoted("album"@, escaped(track.album)));
    assert("\" contentType=\""@ =~= "\""@ + " "@ + "contentType"@ + "=\""@) by {
        reveal_strlit("\" contentType=\"");
        reveal_strlit("\"");
        reveal_strlit(" ");
        reveal_strlit("contentType");
        reveal_strlit("=\"");
    }
    lemma_next_attr(
        written4,
        open + row4,
        "\" contentType=\""@,
        "contentType"@,
        escaped(track.content_type),
    );
    let written5 = written4 + "\" contentType=\""@ + escaped(track.content_type);
    lemma_add(open, row4, quoted("contentType"@, escaped(track.content_type)));
    let text5 = written5 + "\""@;
    let text6 = text5 + attr("coverArt"@, track.cover_art_id);
    lemma_add(open, row5, attr("coverArt"@, track.cover_art_id));
    let text7 = text6 + number_attr("track"@, wide(track.track_number));
    lemma_add(open, row6, number_attr("track"@, wide(track.track_number)));
    let text8 = text7 + number_attr("discNumber"@, wide(track.disc_number));
    lemma_add(open, row7, number_attr("discNumber"@, wide(track.disc_number)));
    let text9 = text8 + number_attr("duration"@, wide(track.duration_seconds));
    lemma_add(open, row8, number_attr("duration"@, wide(track.duration_seconds)));
    assert(song_xml(track) == text9 + " />"@);
}

#[verifier::spinoff_prover]
#[verifier::rlimit(80)]
proof fn lemma_song_tag(track: TrackModel) -> (tag: Seq<char>)
    ensures
        song_xml(track) == seq!['<'] + tag,
        lacks(tag, '<'),
        song_told(tag, track),
{
    lemma_names_are_clean();
    lemma_song_row(track);
    lemma_song_text(track);
    let row = song_row(track);
    let tag = "song"@ + row + " />"@;
    assert(seq!['<'] + "song"@ + row + " />"@ =~= seq!['<'] + tag);
    lemma_tag_clean("song"@, row, " />"@);
    reveal_strlit("id");
    reveal_strlit("title");
    reveal_strlit("artist");
    reveal_strlit("album");
    reveal_strlit("contentType");
    reveal_strlit("coverArt");
    reveal_strlit("track");
    reveal_strlit("discNumber");
    reveal_strlit("duration");
    assert("id"@.len() == 2);
    assert("title"@.len() == 5 && "title"@[0] == 't' && "title"@[1] == 'i');
    assert("artist"@.len() == 6);
    assert("album"@.len() == 5 && "album"@[0] == 'a');
    assert("contentType"@.len() == 11);
    assert("coverArt"@.len() == 8 && "coverArt"@[0] == 'c');
    assert("track"@.len() == 5 && "track"@[0] == 't' && "track"@[1] == 'r');
    assert("discNumber"@.len() == 10);
    assert("duration"@.len() == 8 && "duration"@[0] == 'd');
    lemma_attribute_of(tag, "song"@, row, " />"@, "id"@);
    lemma_attribute_of(tag, "song"@, row, " />"@, "title"@);
    lemma_attribute_of(tag, "song"@, row, " />"@, "artist"@);
    lemma_attribute_of(tag, "song"@, row, " />"@, "album"@);
    lemma_attribute_of(tag, "song"@, row, " />"@, "contentType"@);
    lemma_attribute_of(tag, "song"@, row, " />"@, "coverArt"@);
    lemma_attribute_of(tag, "song"@, row, " />"@, "track"@);
    lemma_attribute_of(tag, "song"@, row, " />"@, "discNumber"@);
    lemma_attribute_of(tag, "song"@, row, " />"@, "duration"@);
    law_escaped_text_is_read_back(track.id);
    law_escaped_text_is_read_back(track.title);
    law_escaped_text_is_read_back(track.artist);
    law_escaped_text_is_read_back(track.album);
    law_escaped_text_is_read_back(track.content_type);
    if let Some(text) = track.cover_art_id {
        law_escaped_text_is_read_back(text);
    }
    tag
}

/// An album of which all is told: whether a tag tells it, each thing under its own name.
pub open spec fn album_told(tag: Seq<char>, album: AlbumModel) -> bool {
    &&& text_told(tag, "album"@, "id"@) == Some(album.id)
    &&& text_told(tag, "album"@, "name"@) == Some(album.title)
    &&& text_told(tag, "album"@, "artist"@) == Some(album.artist)
    &&& attribute(tag, "album"@, "songCount"@) == Some(decimal(album.track_ids.len()))
    &&& text_told(tag, "album"@, "albumArtist"@) == album.album_artist
    &&& text_told(tag, "album"@, "genre"@)
        == (if album.genres.len() > 0 { Some(album.genres[0]) } else { None })
    &&& text_told(tag, "album"@, "year"@)
        == (match album.year { Some(year) => Some(signed_decimal(year as int)), None => None })
    &&& text_told(tag, "album"@, "coverArt"@) == album.cover_art_id
    &&& attribute(tag, "album"@, "duration"@)
        == (match album.duration_seconds { Some(n) => Some(decimal(n as nat)), None => None })
    &&& attribute(tag, "album"@, "size"@) == Some(decimal(album.size_bytes as nat))
}

spec fn album_row(album: AlbumModel) -> Seq<char> {
    Seq::<char>::empty()
        + quoted("id"@, escaped(album.id))
        + quoted("name"@, escaped(album.title))
        + quoted("artist"@, escaped(album.artist))
        + quoted("songCount"@, decimal(album.track_ids.len()))
        + attr("albumArtist"@, album.album_artist)
        + attr("genre"@, first_of(album.genres))
        + attr("year"@, year_text(album.year))
        + attr("coverArt"@, album.cover_art_id)
        + number_attr("duration"@, wide(album.duration_seconds))
        + number_attr("size"@, Some(album.size_bytes))
}

spec fn album_pairs(album: AlbumModel) -> Map<Seq<char>, Seq<char>> {
    let pairs0 = Map::<Seq<char>, Seq<char>>::empty();
    let pairs1 = pairs0.insert("id"@, escaped(album.id));
    let pairs2 = pairs1.insert("name"@, escaped(album.title));
    let pairs3 = pairs2.insert("artist"@, escaped(album.artist));
    let pairs4 = pairs3.insert("songCount"@, decimal(album.track_ids.len()));
    let pairs5 = with_value(pairs4, "albumArtist"@, escaped_option(album.album_artist));
    let pairs6 = with_value(pairs5, "genre"@, escaped_option(first_of(album.genres)));
    let pairs7 = with_value(pairs6, "year"@, escaped_option(year_text(album.year)));
    let pairs8 = with_value(pairs7, "coverArt"@, escaped_option(album.cover_art_id));
    let pairs9 = with_value(pairs8, "duration"@, decimal_option(wide(album.duration_seconds)));
    let pairs10 = with_value(pairs9, "size"@, decimal_option(Some(album.size_bytes)));
    pairs10
}

#[verifier::spinoff_prover]
#[verifier::rlimit(40)]
proof fn lemma_album_row(album: AlbumModel)
    ensures
        is_row(album_row(album)),
        pairs_in(album_row(album)) == album_pairs(album),
{
    lemma_names_are_clean();
    lemma_empty_row();
    let row0: Seq<char> = Seq::<char>::empty();
    lemma_escaped_clean(album.id);
    lemma_row_push(row0, "id"@, escaped(album.id));
    let row1 = row0 + quoted("id"@, escaped(album.id));
    lemma_escaped_clean(album.title);
    lemma_row_push(row1, "name"@, escaped(album.title));
    let row2 = row1 + quoted("name"@, escaped(album.title));
    lemma_escaped_clean(album.artist);
    lemma_row_push(row2, "artist"@, escaped(album.artist));
    let row3 = row2 + quoted("artist"@, escaped(album.artist));
    lemma_decimal_clean(album.track_ids.len());
    lemma_row_push(row3, "songCount"@, decimal(album.track_ids.len()));
    let row4 = row3 + quoted("songCount"@, decimal(album.track_ids.len()));
    lemma_row_attr(row4, "albumArtist"@, album.album_artist);
    let row5 = row4 + attr("albumArtist"@, album.album_artist);
    lemma_row_attr(row5, "genre"@, first_of(album.genres));
    let row6 = row5 + attr("genre"@, first_of(album.genres));
    lemma_row_attr(row6, "year"@, year_text(album.year));
    let row7 = row6 + attr("year"@, year_text(album.year));
    lemma_row_attr(row7, "coverArt"@, album.cover_art_id);
    let row8 = row7 + attr("coverArt"@, album.cover_art_id);
    lemma_row_number(row8, "duration"@, wide(album.duration_seconds));
    let row9 = row8 + number_attr("duration"@, wide(album.duration_seconds));
    lemma_row_number(row9, "size"@, Some(album.size_bytes));
    let row10 = row9 + number_attr("size"@, Some(album.size_bytes));
}

#[verifier::spinoff_prover]
#[verifier::rlimit(40)]
proof fn lemma_album_text(album: AlbumModel)
    ensures
        album_xml(album) == seq!['<'] + "album"@ + album_row(album) + " />"@,
{
    let open = seq!['<'] + "album"@;
    let row0: Seq<char> = Seq::<char>::empty();
    let row1 = row0 + quoted("id"@, escaped(album.id));
    let row2 = row1 + quoted("name"@, escaped(album.title));
    let row3 = row2 + quoted("artist"@, escaped(album.artist));
    let row4 = row3 + quoted("songCount"@, decimal(album.track_ids.len()));
    let row5 = row4 + attr("albumArtist"@, album.album_artist);
    let row6 = row5 + attr("genre"@, first_of(album.genres));
    let row7 = row6 + attr("year"@, year_text(album.year));
    let row8 = row7 + attr("coverArt"@, album.cover_art_id);
    let row9 = row8 + number_attr("duration"@, wide(album.duration_seconds));
    let row10 = row9 + number_attr("size"@, Some(album.size_bytes));
    let written1 = "<album id=\""@ + escaped(album.id);
    assert(written1 + "\""@ =~= open + row1) by {
        reveal_strlit("<album id=\"");
        reveal_strlit("album");
        reveal_strlit(" ");
        reveal_strlit("id");
        reveal_strlit("=\"");
        reveal_strlit("\"");
    }
    assert("\" name=\""@ =~= "\""@ + " "@ + "name"@ + "=\""@) by {
        reveal_strlit("\" name=\"");
        reveal_strlit("\"");
        reveal_strlit(" ");
        reveal_strlit("name");
        reveal_strlit("=\"");
    }
    lemma_next_attr(written1, open + row1, "\" name=\""@, "name"@, escaped(album.title));
    let written2 = written1 + "\" name=\""@ + escaped(album.title);
    lemma_add(open, row1, quoted("name"@, escaped(album.title)));
    assert("\" artist=\""@ =~= "\""@ + " "@ + "artist"@ + "=\""@) by {
        reveal_strlit("\" artist=\"");
        reveal_strlit("\"");
        reveal_strlit(" ");
        reveal_strlit("artist");
        reveal_strlit("=\"");
    }
    lemma_next_attr(written2, open + row2, "\" artist=\""@, "artist"@, escaped(album.artist));
    let written3 = written2 + "\" artist=\""@ + escaped(album.artist);
    lemma_add(open, row2, quoted("artist"@, escaped(album.artist)));
    assert("\" songCount=\""@ =~= "\""@ + " "@ + "songCount"@ + "=\""@) by {
        reveal_strlit("\" songCount=\"");
        reveal_strlit("\"");
        reveal_strlit(" ");
        reveal_strlit("songCount");
        reveal_strlit("=\"");
    }
    lemma_next_attr(
        written3,
        open + row3,
        "\" songCount=\""@,
        "songCount"@,
        decimal(album.track_ids.len()),
    );
    let written4 = written3 + "\" songCount=\""@ + decimal(album.track_ids.len());
    lemma_add(open, row3, quoted("songCount"@, decimal(album.track_ids.len())));
    let text4 = written4 + "\""@;
    let text5 = text4 + attr("albumArtist"@, album.album_artist);
    lemma_add(open, row4, attr("albumArtist"@, album.album_artist));
    let text6 = text5 + attr("genre"@, first_of(album.genres));
    lemma_add(open, row5, attr("genre"@, first_of(album.genres)));
    let text7 = text6 + attr("year"@, year_text(album.year));
    lemma_add(open, row6, attr("year"@, year_text(album.year)));
    let text8 = text7 + attr("coverArt"@, album.cover_art_id);
    lemma_add(open, row7, attr("coverArt"@, album.cover_art_id));
    let text9 = text8 + number_attr("duration"@, wide(album.duration_seconds));
    lemma_add(open, row8, number_attr("duration"@, wide(album.duration_seconds)));
    let text10 = text9 + number_attr("size"@, Some(album.size_bytes));
    lemma_add(open, row9, number_attr("size"@, Some(album.size_bytes)));
    assert(album_xml(album) == text10 + " />"@);
}

#[verifier::spinoff_prover]
#[verifier::rlimit(80)]
proof fn lemma_album_tag(album: AlbumModel) -> (tag: Seq<char>)
    ensures
        album_xml(album) == seq!['<'] + tag,
        lacks(tag, '<'),
        album_told(tag, album),
{
    lemma_names_are_clean();
    lemma_album_row(album);
    lemma_album_text(album);
    let row = album_row(album);
    let tag = "album"@ + row + " />"@;
    assert(seq!['<'] + "album"@ + row + " />"@ =~= seq!['<'] + tag);
    lemma_tag_clean("album"@, row, " />"@);
    reveal_strlit("id");
    reveal_strlit("name");
    reveal_strlit("artist");
    reveal_strlit("songCount");
    reveal_strlit("albumArtist");
    reveal_strlit("genre");
    reveal_strlit("year");
    reveal_strlit("coverArt");
    reveal_strlit("duration");
    reveal_strlit("size");
    assert("id"@.len() == 2);
    assert("name"@.len() == 4 && "name"@[0] == 'n');
    assert("artist"@.len() == 6);
    assert("songCount"@.len() == 9);
    assert("albumArtist"@.len() == 11);
    assert("genre"@.len() == 5);
    assert("year"@.len() == 4 && "year"@[0] == 'y');
    assert("coverArt"@.len() == 8 && "coverArt"@[0] == 'c');
    assert("duration"@.len() == 8 && "duration"@[0] == 'd');
    assert("size"@.len() == 4 && "size"@[0] == 's');
    lemma_attribute_of(tag, "album"@, row, " />"@, "id"@);
    lemma_attribute_of(tag, "album"@, row, " />"@, "name"@);
    lemma_attribute_of(tag, "album"@, row, " />"@, "artist"@);
    lemma_attribute_of(tag, "album"@, row, " />"@, "songCount"@);
    lemma_attribute_of(tag, "album"@, row, " />"@, "albumArtist"@);
    lemma_attribute_of(tag, "album"@, row, " />"@, "genre"@);
    lemma_attribute_of(tag, "album"@, row, " />"@, "year"@);
    lemma_attribute_of(tag, "album"@, row, " />"@, "coverArt"@);
    lemma_attribute_of(tag, "album"@, row, " />"@, "duration"@);
    lemma_attribute_of(tag, "album"@, row, " />"@, "size"@);
    law_escaped_text_is_read_back(album.id);
    law_escaped_text_is_read_back(album.title);
    law_escaped_text_is_read_back(album.artist);
    if let Some(text) = album.album_artist {
        law_escaped_text_is_read_back(text);
    }
    if let Some(text) = first_of(album.genres) {
        law_escaped_text_is_read_back(text);
    }
    if let Some(text) = year_text(album.year) {
        law_escaped_text_is_read_back(text);
    }
    if let Some(text) = album.cover_art_id {
        law_escaped_text_is_read_back(text);
    }
    tag
}

/// An artist among others: whether a tag tells it, each thing under its own name.
pub open spec fn artist_hit_told(tag: Seq<char>, artist: ArtistModel) -> bool {
    &&& text_told(tag, "artist"@, "id"@) == Some(artist.id)
    &&& text_told(tag, "artist"@, "name"@) == Some(artist.name)
}

spec fn artist_hit_row(artist: ArtistModel) -> Seq<char> {
    Seq::<char>::empty()
        + quoted("id"@, escaped(artist.id))
        + quoted("name"@, escaped(artist.name))
}

spec fn artist_hit_pairs(artist: ArtistModel) -> Map<Seq<char>, Seq<char>> {
    let pairs0 = Map::<Seq<char>, Seq<char>>::empty();
    let pairs1 = pairs0.insert("id"@, escaped(artist.id));
    let pairs2 = pairs1.insert("name"@, escaped(artist.name));
    pairs2
}

#[verifier::spinoff_prover]
#[verifier::rlimit(40)]
proof fn lemma_artist_hit_row(artist: ArtistModel)
    ensures
        is_row(artist_hit_row(artist)),
        pairs_in(artist_hit_row(artist)) == artist_hit_pairs(artist),
{
    lemma_names_are_clean();
    lemma_empty_row();
    let row0: Seq<char> = Seq::<char>::empty();
    lemma_escaped_clean(artist.id);
    lemma_row_push(row0, "id"@, escaped(artist.id));
    let row1 = row0 + quoted("id"@, escaped(artist.id));
    lemma_escaped_clean(artist.name);
    lemma_row_push(row1, "name"@, escaped(artist.name));
    let row2 = row1 + quoted("name"@, escaped(artist.name));
}

#[verifier::spinoff_prover]
#[verifier::rlimit(40)]
proof fn lemma_artist_hit_text(artist: ArtistModel)
    ensures
        artist_hit_xml(artist) == seq!['<'] + "artist"@ + artist_hit_row(artist) + " />"@,
{
    let open = seq!['<'] + "artist"@;
    let row0: Seq<char> = Seq::<char>::empty();
    let row1 = row0 + quoted("id"@, escaped(artist.id));
    let row2 = row1 + quoted("name"@, escaped(artist.name));
    let written1 = "<artist id=\""@ + escaped(artist.id);
    assert(written1 + "\""@ =~= open + row1) by {
        reveal_strlit("<artist id=\"");
        reveal_strlit("artist");
        reveal_strlit(" ");
        reveal_strlit("id");
        reveal_strlit("=\"");
        reveal_strlit("\"");
    }
    assert("\" name=\""@ =~= "\""@ + " "@ + "name"@ + "=\""@) by {
        reveal_strlit("\" name=\"");
        reveal_strlit("\"");
        reveal_strlit(" ");
        reveal_strlit("name");
        reveal_strlit("=\"");
    }
    lemma_next_attr(written1, open + row1, "\" name=\""@, "name"@, escaped(artist.name));
    let written2 = written1 + "\" name=\""@ + escaped(artist.name);
    lemma_add(open, row1, quoted("name"@, escaped(artist.name)));
    assert(artist_hit_xml(artist) =~= written2 + "\""@ + " />"@) by {
        reveal_strlit("\" />");
        reveal_strlit("\"");
        reveal_strlit(" />");
    }
}

#[verifier::spinoff_prover]
#[verifier::rlimit(80)]
proof fn lemma_artist_hit_tag(artist: ArtistModel) -> (tag: Seq<char>)
    ensures
        artist_hit_xml(artist) == seq!['<'] + tag,
        lacks(tag, '<'),
        artist_hit_told(tag, artist),
{
    lemma_names_are_clean();
    lemma_artist_hit_row(artist);
    lemma_artist_hit_text(artist);
    let row = artist_hit_row(artist);
    let tag = "artist"@ + row + " />"@;
    assert(seq!['<'] + "artist"@ + row + " />"@ =~= seq!['<'] + tag);
    lemma_tag_clean("artist"@, row, " />"@);
    reveal_strlit("id");
    reveal_strlit("name");
    assert("id"@.len() == 2);
    assert("name"@.len() == 4);
    lemma_attribute_of(tag, "artist"@, row, " />"@, "id"@);
    lemma_attribute_of(tag, "artist"@, row, " />"@, "name"@);
    law_escaped_text_is_read_back(artist.id);
    law_escaped_text_is_read_back(artist.name);
    tag
}

/// An artist in an index: whether a tag tells it, each thing under its own name.
pub open spec fn indexed_told(tag: Seq<char>, artist: IndexArtistModel) -> bool {
    &&& text_told(tag, "artist"@, "id"@) == Some(artist.id)
    &&& text_told(tag, "artist"@, "name"@) == Some(artist.name)
}

spec fn indexed_row(artist: IndexArtistModel) -> Seq<char> {
    Seq::<char>::empty()
        + quoted("id"@, escaped(artist.id))
        + quoted("name"@, escaped(artist.name))
}

spec fn indexed_pairs(artist: IndexArtistModel) -> Map<Seq<char>, Seq<char>> {
    let pairs0 = Map::<Seq<char>, Seq<char>>::empty();
    let pairs1 = pairs0.insert("id"@, escaped(artist.id));
    let pairs2 = pairs1.insert("name"@, escaped(artist.name));
    pairs2
}

#[verifier::spinoff_prover]
#[verifier::rlimit(40)]
proof fn lemma_indexed_row(artist: IndexArtistModel)
    ensures
        is_row(indexed_row(artist)),
        pairs_in(indexed_row(artist)) == indexed_pairs(artist),
{
    lemma_names_are_clean();
    lemma_empty_row();
    let row0: Seq<char> = Seq::<char>::empty();
    lemma_escaped_clean(artist.id);
    lemma_row_push(row0, "id"@, escaped(artist.id));
    let row1 = row0 + quoted("id"@, escaped(artist.id));
    lemma_escaped_clean(artist.name);
    lemma_row_push(row1, "name"@, escaped(artist.name));
    let row2 = row1 + quoted("name"@, escaped(artist.name));
}

#[verifier::spinoff_prover]
#[verifier::rlimit(40)]
proof fn lemma_indexed_text(artist: IndexArtistModel)
    ensures
        indexed_xml(artist) == seq!['<'] + "artist"@ + indexed_row(artist) + " />"@,
{
    let open = seq!['<'] + "artist"@;
    let row0: Seq<char> = Seq::<char>::empty();
    let row1 = row0 + quoted("id"@, escaped(artist.id));
    let row2 = row1 + quoted("name"@, escaped(artist.name));
    let written1 = "<artist id=\""@ + escaped(artist.id);
    assert(written1 + "\""@ =~= open + row1) by {
        reveal_strlit("<artist id=\"");
        reveal_strlit("artist");
        reveal_strlit(" ");
        reveal_strlit("id");
        reveal_strlit("=\"");
        reveal_strlit("\"");
    }
    assert("\" name=\""@ =~= "\""@ + " "@ + "name"@ + "=\""@) by {
        reveal_strlit("\" name=\"");
        reveal_strlit("\"");
        reveal_strlit(" ");
        reveal_strlit("name");
        reveal_strlit("=\"");
    }
    lemma_next_attr(written1, open + row1, "\" name=\""@, "name"@, escaped(artist.name));
    let written2 = written1 + "\" name=\""@ + escaped(artist.name);
    lemma_add(open, row1, quoted("name"@, escaped(artist.name)));
    assert(indexed_xml(artist) =~= written2 + "\""@ + " />"@) by {
        reveal_strlit("\" />");
        reveal_strlit("\"");
        reveal_strlit(" />");
    }
}

#[verifier::spinoff_prover]
#[verifier::rlimit(80)]
proof fn lemma_indexed_tag(artist: IndexArtistModel) -> (tag: Seq<char>)
    ensures
        indexed_xml(artist) == seq!['<'] + tag,
        lacks(tag, '<'),
        indexed_told(tag, artist),
{
    lemma_names_are_clean();
    lemma_indexed_row(artist);
    lemma_indexed_text(artist);
    let row = indexed_row(artist);
    let tag = "artist"@ + row + " />"@;
    assert(seq!['<'] + "artist"@ + row + " />"@ =~= seq!['<'] + tag);
    lemma_tag_clean("artist"@, row, " />"@);
    reveal_strlit("id");
    reveal_strlit("name");
    assert("id"@.len() == 2);
    assert("name"@.len() == 4);
    lemma_attribute_of(tag, "artist"@, row, " />"@, "id"@);
    lemma_attribute_of(tag, "artist"@, row, " />"@, "name"@);
    law_escaped_text_is_read_back(artist.id);
    law_escaped_text_is_read_back(artist.name);
    tag
}

/// An album among others: whether a tag tells it, each thing under its own name.
pub open spec fn album_hit_told(tag: Seq<char>, album: AlbumModel) -> bool {
    &&& text_told(tag, "album"@, "id"@) == Some(album.id)
    &&& text_told(tag, "album"@, "name"@) == Some(album.title)
    &&& text_told(tag, "album"@, "artist"@) == Some(album.artist)
    &&& text_told(tag, "album"@, "coverArt"@) == album.cover_art_id
}

spec fn album_hit_row(album: AlbumModel) -> Seq<char> {
    Seq::<char>::empty()
        + quoted("id"@, escaped(album.id))
        + quoted("name"@, escaped(album.title))
        + quoted("artist"@, escaped(album.artist))
        + attr("coverArt"@, album.cover_art_id)
}

spec fn album_hit_pairs(album: AlbumModel) -> Map<Seq<char>, Seq<char>> {
    let pairs0 = Map::<Seq<char>, Seq<char>>::empty();
    let pairs1 = pairs0.insert("id"@, escaped(album.id));
    let pairs2 = pairs1.insert("name"@, escaped(album.title));
    let pairs3 = pairs2.insert("artist"@, escaped(album.artist));
    let pairs4 = with_value(pairs3, "coverArt"@, escaped_option(album.cover_art_id));
    pairs4
}

#[verifier::spinoff_prover]
#[verifier::rlimit(40)]
proof fn lemma_album_hit_row(album: AlbumModel)
    ensures
        is_row(album_hit_row(album)),
        pairs_in(album_hit_row(album)) == album_hit_pairs(album),
{
    lemma_names_are_clean();
    lemma_empty_row();
    let row0: Seq<char> = Seq::<char>::empty();
    lemma_escaped_clean(album.id);
    lemma_row_push(row0, "id"@, escaped(album.id));
    let row1 = row0 + quoted("id"@, escaped(album.id));
    lemma_escaped_clean(album.title);
    lemma_row_push(row1, "name"@, escaped(album.title));
    let row2 = row1 + quoted("name"@, escaped(album.title));
    lemma_escaped_clean(album.artist);
    lemma_row_push(row2, "artist"@, escaped(album.artist));
    let row3 = row2 + quoted("artist"@, escaped(album.artist));
    lemma_row_attr(row3, "coverArt"@, album.cover_art_id);
    let row4 = row3 + attr("coverArt"@, album.cover_art_id);
}

#[verifier::spinoff_prover]
#[verifier::rlimit(40)]
proof fn lemma_album_hit_text(album: AlbumModel)
    ensures
        album_hit_xml(album) == seq!['<'] + "album"@ + album_hit_row(album) + " />"@,
{
    let open = seq!['<'] + "album"@;
    let row0: Seq<char> = Seq::<char>::empty();
    let row1 = row0 + quoted("id"@, escaped(album.id));
    let row2 = row1 + quoted("name"@, escaped(album.title));
    let row3 = row2 + quoted("artist"@, escaped(album.artist));
    let row4 = row3 + attr("coverArt"@, album.cover_art_id);
    let written1 = "<album id=\""@ + escaped(album.id);
    assert(written1 + "\""@ =~= open + row1) by {
        reveal_strlit("<album id=\"");
        reveal_strlit("album");
        reveal_strlit(" ");
        reveal_strlit("id");
        reveal_strlit("=\"");
        reveal_strlit("\"");
    }
    assert("\" name=\""@ =~= "\""@ + " "@ + "name"@ + "=\""@) by {
        reveal_strlit("\" name=\"");
        reveal_strlit("\"");
        reveal_strlit(" ");
        reveal_strlit("name");
        reveal_strlit("=\"");
    }
    lemma_next_attr(written1, open + row1, "\" name=\""@, "name"@, escaped(album.title));
    let written2 = written1 + "\" name=\""@ + escaped(album.title);
    lemma_add(open, row1, quoted("name"@, escaped(album.title)));
    assert("\" artist=\""@ =~= "\""@ + " "@ + "artist"@ + "=\""@) by {
        reveal_strlit("\" artist=\"");
        reveal_strlit("\"");
        reveal_strlit(" ");
        reveal_strlit("artist");
        reveal_strlit("=\"");
    }
    lemma_next_attr(written2, open + row2, "\" artist=\""@, "artist"@, escaped(album.artist));
    let written3 = written2 + "\" artist=\""@ + escaped(album.artist);
    lemma_add(open, row2, quoted("artist"@, escaped(album.artist)));
    let text3 = written3 + "\""@;
    let text4 = text3 + attr("coverArt"@, album.cover_art_id);
    lemma_add(open, row3, attr("coverArt"@, album.cover_art_id));
    assert(album_hit_xml(album) == text4 + " />"@);
}

#[verifier::spinoff_prover]
#[verifier::rlimit(80)]
proof fn lemma_album_hit_tag(album: AlbumModel) -> (tag: Seq<char>)
    ensures
        album_hit_xml(album) == seq!['<'] + tag,
        lacks(tag, '<'),
        album_hit_told(tag, album),
{
    lemma_names_are_clean();
    lemma_album_hit_row(album);
    lemma_album_hit_text(album);
    let row = album_hit_row(album);
    let tag = "album"@ + row + " />"@;
    assert(seq!['<'] + "album"@ + row + " />"@ =~= seq!['<'] + tag);
    lemma_tag_clean("album"@, row, " />"@);
    reveal_strlit("id");
    reveal_strlit("name");
    reveal_strlit("artist");
    reveal_strlit("coverArt");
    assert("id"@.len() == 2);
    assert("name"@.len() == 4);
    assert("artist"@.len() == 6);
    assert("coverArt"@.len() == 8);
    lemma_attribute_of(tag, "album"@, row, " />"@, "id"@);
    lemma_attribute_of(tag, "album"@, row, " />"@, "name"@);
    lemma_attribute_of(tag, "album"@, row, " />"@, "artist"@);
    lemma_attribute_of(tag, "album"@, row, " />"@, "coverArt"@);
    law_escaped_text_is_read_back(album.id);
    law_escaped_text_is_read_back(album.title);
    law_escaped_text_is_read_back(album.artist);
    if let Some(text) = album.cover_art_id {
        law_escaped_text_is_read_back(text);
    }
    tag
}

/// A song among others: whether a tag tells it, each thing under its own name.
pub open spec fn song_hit_told(tag: Seq<char>, track: TrackModel) -> bool {
    &&& text_told(tag, "song"@, "id"@) == Some(track.id)
    &&& text_told(tag, "song"@, "title"@) == Some(track.title)
    &&& text_told(tag, "song"@, "artist"@) == Some(track.artist)
    &&& text_told(tag, "song"@, "album"@) == Some(track.album)
    &&& text_told(tag, "song"@, "coverArt"@) == track.cover_art_id
}

spec fn song_hit_row(track: TrackModel) -> Seq<char> {
    Seq::<char>::empty()
        + quoted("id"@, escaped(track.id))
        + quoted("title"@, escaped(track.title))
        + quoted("artist"@, escaped(track.artist))
        + quoted("album"@, escaped(track.album))
        + attr("coverArt"@, track.cover_art_id)
}

spec fn song_hit_pairs(track: TrackModel) -> Map<Seq<char>, Seq<char>> {
    let pairs0 = Map::<Seq<char>, Seq<char>>::empty();
    let pairs1 = pairs0.insert("id"@, escaped(track.id));
    let pairs2 = pairs1.insert("title"@, escaped(track.title));
    let pairs3 = pairs2.insert("artist"@, escaped(track.artist));
    let pairs4 = pairs3.insert("album"@, escaped(track.album));
    let pairs5 = with_value(pairs4, "coverArt"@, escaped_option(track.cover_art_id));
    pairs5
}

#[verifier::spinoff_prover]
#[verifier::rlimit(40)]
proof fn lemma_song_hit_row(track: TrackModel)
    ensures
        is_row(song_hit_row(track)),
        pairs_in(song_hit_row(track)) == song_hit_pairs(track),
{
    lemma_names_are_clean();
    lemma_empty_row();
    let row0: Seq<char> = Seq::<char>::empty();
    lemma_escaped_clean(track.id);
    lemma_row_push(row0, "id"@, escaped(track.id));
    let row1 = row0 + quoted("id"@, escaped(track.id));
    lemma_escaped_clean(track.title);
    lemma_row_push(row1, "title"@, escaped(track.title));
    let row2 = row1 + quoted("title"@, escaped(track.title));
    lemma_escaped_clean(track.artist);
    lemma_row_push(row2, "artist"@, escaped(track.artist));
    let row3 = row2 + quoted("artist"@, escaped(track.artist));
    lemma_escaped_clean(track.album);
    lemma_row_push(row3, "album"@, escaped(track.album));
    let row4 = row3 + quoted("album"@, escaped(track.album));
    lemma_row_attr(row4, "coverArt"@, track.cover_art_id);
    let row5 = row4 + attr("coverArt"@, track.cover_art_id);
}

#[verifier::spinoff_prover]
#[verifier::rlimit(40)]
proof fn lemma_song_hit_text(track: TrackModel)
    ensures
        song_hit_xml(track) == seq!['<'] + "song"@ + song_hit_row(track) + " />"@,
{
    let open = seq!['<'] + "song"@;
    let row0: Seq<char> = Seq::<char>::empty();
    let row1 = row0 + quoted("id"@, escaped(track.id));
    let row2 = row1 + quoted("title"@, escaped(track.title));
    let row3 = row2 + quoted("artist"@, escaped(track.artist));
    let row4 = row3 + quoted("album"@, escaped(track.album));
    let row5 = row4 + attr("coverArt"@, track.cover_art_id);
    let written1 = "<song id=\""@ + escaped(track.id);
    assert(written1 + "\""@ =~= open + row1) by {
        reveal_strlit("<song id=\"");
        reveal_strlit("song");
        reveal_strlit(" ");
        reveal_strlit("id");
        reveal_strlit("=\"");
        reveal_strlit("\"");
    }
    assert("\" title=\""@ =~= "\""@ + " "@ + "title"@ + "=\""@) by {
        reveal_strlit("\" title=\"");
        reveal_strlit("\"");
        reveal_strlit(" ");
        reveal_strlit("title");
        reveal_strlit("=\"");
    }
    lemma_next_attr(written1, open + row1, "\" title=\""@, "title"@, escaped(track.title));
    let written2 = written1 + "\" title=\""@ + escaped(track.title);
    lemma_add(open, row1, quoted("title"@, escaped(track.title)));
    assert("\" artist=\""@ =~= "\""@ + " "@ + "artist"@ + "=\""@) by {
        reveal_strlit("\" artist=\"");
        reveal_strlit("\"");
        reveal_strlit(" ");
        reveal_strlit("artist");
        reveal_strlit("=\"");
    }
    lemma_next_attr(written2, open + row2, "\" artist=\""@, "artist"@, escaped(track.artist));
    let written3 = written2 + "\" artist=\""@ + escaped(track.artist);
    lemma_add(open, row2, quoted("artist"@, escaped(track.artist)));
    assert("\" album=\""@ =~= "\""@ + " "@ + "album"@ + "=\""@) by {
        reveal_strlit("\" album=\"");
        reveal_strlit("\"");
        reveal_strlit(" ");
        reveal_strlit("album");
        reveal_strlit("=\"");
    }
    lemma_next_attr(written3, open + row3, "\" album=\""@, "album"@, escaped(track.album));
    let written4 = written3 + "\" album=\""@ + escaped(track.album);
    lemma_add(open, row3, quoted("album"@, escaped(track.album)));
    let text4 = written4 + "\""@;
    let text5 = text4 + attr("coverArt"@, track.cover_art_id);
    lemma_add(open, row4, attr("coverArt"@, track.cover_art_id));
    assert(song_hit_xml(track) == text5 + " />"@);
}

#[verifier::spinoff_prover]
#[verifier::rlimit(80)]
proof fn lemma_song_hit_tag(track: TrackModel) -> (tag: Seq<char>)
    ensures
        song_hit_xml(track) == seq!['<'] + tag,
        lacks(tag, '<'),
        song_hit_told(tag, track),
{
    lemma_names_are_clean();
    lemma_song_hit_row(track);
    lemma_song_hit_text(track);
    let row = song_hit_row(track);
    let tag = "song"@ + row + " />"@;
    assert(seq!['<'] + "song"@ + row + " />"@ =~= seq!['<'] + tag);
    lemma_tag_clean("song"@, row, " />"@);
    reveal_strlit("id");
    reveal_strlit("title");
    reveal_strlit("artist");
    reveal_strlit("album");
    reveal_strlit("coverArt");
    assert("id"@.len() == 2);
    assert("title"@.len() == 5 && "title"@[0] == 't');
    assert("artist"@.len() == 6);
    assert("album"@.len() == 5 && "album"@[0] == 'a');
    assert("coverArt"@.len() == 8);
    lemma_attribute_of(tag, "song"@, row, " />"@, "id"@);
    lemma_attribute_of(tag, "song"@, row, " />"@, "title"@);
    lemma_attribute_of(tag, "song"@, row, " />"@, "artist"@);
    lemma_attribute_of(tag, "song"@, row, " />"@, "album"@);
    lemma_attribute_of(tag, "song"@, row, " />"@, "coverArt"@);
    law_escaped_text_is_read_back(track.id);
    law_escaped_text_is_read_back(track.title);
    law_escaped_text_is_read_back(track.artist);
    law_escaped_text_is_read_back(track.album);
    if let Some(text) = track.cover_art_id {
        law_escaped_text_is_read_back(text);
    }
    tag
}

/// A directory, with its id, its name and the directory that holds it: whether a tag tells it, each thing
/// under its own name.
pub open spec fn directory_told(
    tag: Seq<char>,
    directory: (Seq<char>, Seq<char>, Option<Seq<char>>),
) -> bool {
    &&& text_told(tag, "directory"@, "id"@) == Some(directory.0)
    &&& text_told(tag, "directory"@, "name"@) == Some(directory.1)
    &&& text_told(tag, "directory"@, "parent"@) == directory.2
}

spec fn directory_row(directory: (Seq<char>, Seq<char>, Option<Seq<char>>)) -> Seq<char> {
    Seq::<char>::empty()
        + quoted("id"@, escaped(directory.0))
        + quoted("name"@, escaped(directory.1))
        + attr("parent"@, directory.2)
}

spec fn directory_pairs(
    directory: (Seq<char>, Seq<char>, Option<Seq<char>>),
) -> Map<Seq<char>, Seq<char>> {
    let pairs0 = Map::<Seq<char>, Seq<char>>::empty();
    let pairs1 = pairs0.insert("id"@, escaped(directory.0));
    let pairs2 = pairs1.insert("name"@, escaped(directory.1));
    let pairs3 = with_value(pairs2, "parent"@, escaped_option(directory.2));
    pairs3
}

#[verifier::spinoff_prover]
#[verifier::rlimit(40)]
proof fn lemma_directory_row(directory: (Seq<char>, Seq<char>, Option<Seq<char>>))
    ensures
        is_row(directory_row(directory)),
        pairs_in(directory_row(directory)) == directory_pairs(directory),
{
    lemma_names_are_clean();
    lemma_empty_row();
    let row0: Seq<char> = Seq::<char>::empty();
    lemma_escaped_clean(directory.0);
    lemma_row_push(row0, "id"@, escaped(directory.0));
    let row1 = row0 + quoted("id"@, escaped(directory.0));
    lemma_escaped_clean(directory.1);
    lemma_row_push(row1, "name"@, escaped(directory.1));
    let row2 = row1 + quoted("name"@, escaped(directory.1));
    lemma_row_attr(row2, "parent"@, directory.2);
    let row3 = row2 + attr("parent"@, directory.2);
}

#[verifier::spinoff_prover]
#[verifier::rlimit(40)]
proof fn lemma_directory_text(directory: (Seq<char>, Seq<char>, Option<Seq<char>>))
    ensures
        directory_open(directory) == seq!['<'] + "directory"@ + directory_row(directory) + ">"@,
{
    let open = seq!['<'] + "directory"@;
    let row0: Seq<char> = Seq::<char>::empty();
    let row1 = row0 + quoted("id"@, escaped(directory.0));
    let row2 = row1 + quoted("name"@, escaped(directory.1));
    let row3 = row2 + attr("parent"@, directory.2);
    let written1 = "<directory id=\""@ + escaped(directory.0);
    assert(written1 + "\""@ =~= open + row1) by {
        reveal_strlit("<directory id=\"");
        reveal_strlit("directory");
        reveal_strlit(" ");
        reveal_strlit("id");
        reveal_strlit("=\"");
        reveal_strlit("\"");
    }
    assert("\" name=\""@ =~= "\""@ + " "@ + "name"@ + "=\""@) by {
        reveal_strlit("\" name=\"");
        reveal_strlit("\"");
        reveal_strlit(" ");
        reveal_strlit("name");
        reveal_strlit("=\"");
    }
    lemma_next_attr(written1, open + row1, "\" name=\""@, "name"@, escaped(directory.1));
    let written2 = written1 + "\" name=\""@ + escaped(directory.1);
    lemma_add(open, row1, quoted("name"@, escaped(directory.1)));
    let text2 = written2 + "\""@;
    let text3 = text2 + attr("parent"@, directory.2);
    lemma_add(open, row2, attr("parent"@, directory.2));
    assert(directory_open(directory) == text3 + ">"@);
}

#[verifier::spinoff_prover]
#[verifier::rlimit(80)]
proof fn lemma_directory_tag(
    directory: (Seq<char>, Seq<char>, Option<Seq<char>>),
) -> (tag: Seq<char>)
    ensures
        directory_open(directory) == seq!['<'] + tag,
        lacks(tag, '<'),
        directory_told(tag, directory),
{
    lemma_names_are_clean();
    lemma_directory_row(directory);
    lemma_directory_text(directory);
    let row = directory_row(directory);
    let tag = "directory"@ + row + ">"@;
    assert(seq!['<'] + "directory"@ + row + ">"@ =~= seq!['<'] + tag);
    lemma_tag_clean("directory"@, row, ">"@);
    reveal_strlit("id");
    reveal_strlit("name");
    reveal_strlit("parent");
    assert("id"@.len() == 2);
    assert("name"@.len() == 4);
    assert("parent"@.len() == 6);
    lemma_attribute_of(tag, "directory"@, row, ">"@, "id"@);
    lemma_attribute_of(tag, "directory"@, row, ">"@, "name"@);
    lemma_attribute_of(tag, "directory"@, row, ">"@, "parent"@);
    law_escaped_text_is_read_back(directory.0);
    law_escaped_text_is_read_back(directory.1);
    if let Some(text) = directory.2 {
        law_escaped_text_is_read_back(text);
    }
    tag
}

/// An index: whether a tag tells it, each thing under its own name.
pub open spec fn index_told(tag: Seq<char>, name: Seq<char>) -> bool {
    &&& text_told(tag, "index"@, "name"@) == Some(name)
}

spec fn index_row(name: Seq<char>) -> Seq<char> {
    Seq::<char>::empty()
        + quoted("name"@, escaped(name))
}

spec fn index_pairs(name: Seq<char>) -> Map<Seq<char>, Seq<char>> {
    let pairs0 = Map::<Seq<char>, Seq<char>>::empty();
    let pairs1 = pairs0.insert("name"@, escaped(name));
    pairs1
}

#[verifier::spinoff_prover]
#[verifier::rlimit(40)]
proof fn lemma_index_row(name: Seq<char>)
    ensures
        is_row(index_row(name)),
        pairs_in(index_row(name)) == index_pairs(name),
{
    lemma_names_are_clean();
    lemma_empty_row();
    let row0: Seq<char> = Seq::<char>::empty();
    lemma_escaped_clean(name);
    lemma_row_push(row0, "name"@, escaped(name));
    let row1 = row0 + quoted("name"@, escaped(name));
}

#[verifier::spinoff_prover]
#[verifier::rlimit(40)]
proof fn lemma_index_text(name: Seq<char>)
    ensures
        index_open(name) == seq!['<'] + "index"@ + index_row(name) + ">"@,
{
    let open = seq!['<'] + "index"@;
    let row0: Seq<char> = Seq::<char>::empty();
    let row1 = row0 + quoted("name"@, escaped(name));
    let written1 = "<index name=\""@ + escaped(name);
    assert(written1 + "\""@ =~= open + row1) by {
        reveal_strlit("<index name=\"");
        reveal_strlit("index");
        reveal_strlit(" ");
        reveal_strlit("name");
        reveal_strlit("=\"");
        reveal_strlit("\"");
    }
    assert(index_open(name) =~= written1 + "\""@ + ">"@) by {
        reveal_strlit("\">");
        reveal_strlit("\"");
        reveal_strlit(">");
    }
}

#[verifier::spinoff_prover]
#[verifier::rlimit(80)]
proof fn lemma_index_tag(name: Seq<char>) -> (tag: Seq<char>)
    ensures
        index_open(name) == seq!['<'] + tag,
        lacks(tag, '<'),
        index_told(tag, name),
{
    lemma_names_are_clean();
    lemma_index_row(name);
    lemma_index_text(name);
    let row = index_row(name);
    let tag = "index"@ + row + ">"@;
    assert(seq!['<'] + "index"@ + row + ">"@ =~= seq!['<'] + tag);
    lemma_tag_clean("index"@, row, ">"@);
    reveal_strlit("name");
    assert("name"@.len() == 4);
    lemma_attribute_of(tag, "index"@, row, ">"@, "name"@);
    law_escaped_text_is_read_back(name);
    tag
}

/// A failure: whether a tag tells it, each thing under its own name.
pub open spec fn error_told(tag: Seq<char>, message: Seq<char>) -> bool {
    &&& attribute(tag, "error"@, "code"@) == Some("0"@)
    &&& text_told(tag, "error"@, "message"@) == Some(message)
}

spec fn error_row(message: Seq<char>) -> Seq<char> {
    Seq::<char>::empty()
        + quoted("code"@, "0"@)
        + quoted("message"@, escaped(message))
}

spec fn error_pairs(message: Seq<char>) -> Map<Seq<char>, Seq<char>> {
    let pairs0 = Map::<Seq<char>, Seq<char>>::empty();
    let pairs1 = pairs0.insert("code"@, "0"@);
    let pairs2 = pairs1.insert("message"@, escaped(message));
    pairs2
}

#[verifier::spinoff_prover]
#[verifier::rlimit(40)]
proof fn lemma_error_row(message: Seq<char>)
    ensures
        is_row(error_row(message)),
        pairs_in(error_row(message)) == error_pairs(message),
{
    lemma_names_are_clean();
    lemma_empty_row();
    let row0: Seq<char> = Seq::<char>::empty();
    lemma_row_push(row0, "code"@, "0"@);
    let row1 = row0 + quoted("code"@, "0"@);
    lemma_escaped_clean(message);
    lemma_row_push(row1, "message"@, escaped(message));
    let row2 = row1 + quoted("message"@, escaped(message));
}

#[verifier::spinoff_prover]
#[verifier::rlimit(40)]
proof fn lemma_error_text(message: Seq<char>)
    ensures
        error_element(message) == seq!['<'] + "error"@ + error_row(message) + " />"@,
{
    let open = seq!['<'] + "error"@;
    let row0: Seq<char> = Seq::<char>::empty();
    let row1 = row0 + quoted("code"@, "0"@);
    let row2 = row1 + quoted("message"@, escaped(message));
    let written1 = "<error code=\""@ + "0"@;
    assert(written1 + "\""@ =~= open + row1) by {
        reveal_strlit("<error code=\"");
        reveal_strlit("error");
        reveal_strlit(" ");
        reveal_strlit("code");
        reveal_strlit("=\"");
        reveal_strlit("\"");
    }
    assert("\" message=\""@ =~= "\""@ + " "@ + "message"@ + "=\""@) by {
        reveal_strlit("\" message=\"");
        reveal_strlit("\"");
        reveal_strlit(" ");
        reveal_strlit("message");
        reveal_strlit("=\"");
    }
    lemma_next_attr(written1, open + row1, "\" message=\""@, "message"@, escaped(message));
    let written2 = written1 + "\" message=\""@ + escaped(message);
    lemma_add(open, row1, quoted("message"@, escaped(message)));
    assert(error_element(message) =~= written2 + "\""@ + " />"@) by {
        reveal_strlit("\" />");
        reveal_strlit("\"");
        reveal_strlit(" />");
    }
}

#[verifier::spinoff_prover]
#[verifier::rlimit(80)]
proof fn lemma_error_tag(message: Seq<char>) -> (tag: Seq<char>)
    ensures
        error_element(message) == seq!['<'] + tag,
        lacks(tag, '<'),
        error_told(tag, message),
{
    lemma_names_are_clean();
    lemma_error_row(message);
    lemma_error_text(message);
    let row = error_row(message);
    let tag = "error"@ + row + " />"@;
    assert(seq!['<'] + "error"@ + row + " />"@ =~= seq!['<'] + tag);
    lemma_tag_clean("error"@, row, " />"@);
    reveal_strlit("code");
    reveal_strlit("message");
    assert("code"@.len() == 4);
    assert("message"@.len() == 7);
    lemma_attribute_of(tag, "error"@, row, " />"@, "code"@);
    lemma_attribute_of(tag, "error"@, row, " />"@, "message"@);
    law_escaped_text_is_read_back(message);
    tag
}

/// An entry of a directory: whether a tag tells it, each thing under its own name.
pub open spec fn child_told(tag: Seq<char>, child: DirectoryChildModel) -> bool {
    &&& text_told(tag, "child"@, "id"@) == Some(child.id)
    &&& text_told(tag, "child"@, "title"@) == Some(child.title)
    &&& attribute(tag, "child"@, "isDir"@) == Some(if child.is_dir { "true"@ } else { "false"@ })
    &&& text_told(tag, "child"@, "artist"@) == child.artist
    &&& text_told(tag, "child"@, "album"@) == child.album
    &&& text_told(tag, "child"@, "contentType"@) == child.content_type
    &&& text_told(tag, "child"@, "coverArt"@) == child.cover_art
    &&& attribute(tag, "child"@, "track"@)
        == (match child.track { Some(n) => Some(decimal(n as nat)), None => None })
    &&& attribute(tag, "child"@, "discNumber"@)
        == (match child.disc_number { Some(n) => Some(decimal(n as nat)), None => None })
    &&& attribute(tag, "child"@, "duration"@)
        == (match child.duration { Some(n) => Some(decimal(n as nat)), None => None })
    &&& attribute(tag, "child"@, "size"@)
        == (match child.size { Some(n) => Some(decimal(n as nat)), None => None })
    &&& text_told(tag, "child"@, "parent"@) == child.parent
}

spec fn child_row(child: DirectoryChildModel) -> Seq<char> {
    Seq::<char>::empty()
        + quoted("id"@, escaped(child.id))
        + quoted("title"@, escaped(child.title))
        + quoted("isDir"@, truth_text(child.is_dir))
        + attr("artist"@, child.artist)
        + attr("album"@, child.album)
        + attr("contentType"@, child.content_type)
        + attr("coverArt"@, child.cover_art)
        + number_attr("track"@, wide(child.track))
        + number_attr("discNumber"@, wide(child.disc_number))
        + number_attr("duration"@, wide(child.duration))
        + number_attr("size"@, child.size)
        + attr("parent"@, child.parent)
}

spec fn child_pairs(child: DirectoryChildModel) -> Map<Seq<char>, Seq<char>> {
    let pairs0 = Map::<Seq<char>, Seq<char>>::empty();
    let pairs1 = pairs0.insert("id"@, escaped(child.id));
    let pairs2 = pairs1.insert("title"@, escaped(child.title));
    let pairs3 = pairs2.insert("isDir"@, truth_text(child.is_dir));
    let pairs4 = with_value(pairs3, "artist"@, escaped_option(child.artist));
    let pairs5 = with_value(pairs4, "album"@, escaped_option(child.album));
    let pairs6 = with_value(pairs5, "contentType"@, escaped_option(child.content_type));
    let pairs7 = with_value(pairs6, "coverArt"@, escaped_option(child.cover_art));
    let pairs8 = with_value(pairs7, "track"@, decimal_option(wide(child.track)));
    let pairs9 = with_value(pairs8, "discNumber"@, decimal_option(wide(child.disc_number)));
    let pairs10 = with_value(pairs9, "duration"@, decimal_option(wide(child.duration)));
    let pairs11 = with_value(pairs10, "size"@, decimal_option(child.size));
    let pairs12 = with_value(pairs11, "parent"@, escaped_option(child.parent));
    pairs12
}

#[verifier::spinoff_prover]
#[verifier::rlimit(40)]
proof fn lemma_child_row(child: DirectoryChildModel)
    ensures
        is_row(child_row(child)),
        pairs_in(child_row(child)) == child_pairs(child),
{
    lemma_names_are_clean();
    lemma_empty_row();
    let row0: Seq<char> = Seq::<char>::empty();
    lemma_escaped_clean(child.id);
    lemma_row_push(row0, "id"@, escaped(child.id));
    let row1 = row0 + quoted("id"@, escaped(child.id));
    lemma_escaped_clean(child.title);
    lemma_row_push(row1, "title"@, escaped(child.title));
    let row2 = row1 + quoted("title"@, escaped(child.title));
    lemma_row_push(row2, "isDir"@, truth_text(child.is_dir));
    let row3 = row2 + quoted("isDir"@, truth_text(child.is_dir));
    lemma_row_attr(row3, "artist"@, child.artist);
    let row4 = row3 + attr("artist"@, child.artist);
    lemma_row_attr(row4, "album"@, child.album);
    let row5 = row4 + attr("album"@, child.album);
    lemma_row_attr(row5, "contentType"@, child.content_type);
    let row6 = row5 + attr("contentType"@, child.content_type);
    lemma_row_attr(row6, "coverArt"@, child.cover_art);
    let row7 = row6 + attr("coverArt"@, child.cover_art);
    lemma_row_number(row7, "track"@, wide(child.track));
    let row8 = row7 + number_attr("track"@, wide(child.track));
    lemma_row_number(row8, "discNumber"@, wide(child.disc_number));
    let row9 = row8 + number_attr("discNumber"@, wide(child.disc_number));
    lemma_row_number(row9, "duration"@, wide(child.duration));
    let row10 = row9 + number_attr("duration"@, wide(child.duration));
    lemma_row_number(row10, "size"@, child.size);
    let row11 = row10 + number_attr("size"@, child.size);
    lemma_row_attr(row11, "parent"@, child.parent);
    let row12 = row11 + attr("parent"@, child.parent);
}

#[verifier::spinoff_prover]
#[verifier::rlimit(40)]
proof fn lemma_child_text(child: DirectoryChildModel)
    ensures
        child_xml(child) == seq!['<'] + "child"@ + child_row(child) + " />"@,
{
    let open = seq!['<'] + "child"@;
    let row0: Seq<char> = Seq::<char>::empty();
    let row1 = row0 + quoted("id"@, escaped(child.id));
    let row2 = row1 + quoted("title"@, escaped(child.title));
    let row3 = row2 + quoted("isDir"@, truth_text(child.is_dir));
    let row4 = row3 + attr("artist"@, child.artist);
    let row5 = row4 + attr("album"@, child.album);
    let row6 = row5 + attr("contentType"@, child.content_type);
    let row7 = row6 + attr("coverArt"@, child.cover_art);
    let row8 = row7 + number_attr("track"@, wide(child.track));
    let row9 = row8 + number_attr("discNumber"@, wide(child.disc_number));
    let row10 = row9 + number_attr("duration"@, wide(child.duration));
    let row11 = row10 + number_attr("size"@, child.size);
    let row12 = row11 + attr("parent"@, child.parent);
    let written1 = "<child id=\""@ + escaped(child.id);
    assert(written1 + "\""@ =~= open + row1) by {
        reveal_strlit("<child id=\"");
        reveal_strlit("child");
        reveal_strlit(" ");
        reveal_strlit("id");
        reveal_strlit("=\"");
        reveal_strlit("\"");
    }
    assert("\" title=\""@ =~= "\""@ + " "@ + "title"@ + "=\""@) by {
        reveal_strlit("\" title=\"");
        reveal_strlit("\"");
        reveal_strlit(" ");
        reveal_strlit("title");
        reveal_strlit("=\"");
    }
    lemma_next_attr(written1, open + row1, "\" title=\""@, "title"@, escaped(child.title));
    let written2 = written1 + "\" title=\""@ + escaped(child.title);
    lemma_add(open, row1, quoted("title"@, escaped(child.title)));
    assert("\" isDir=\""@ =~= "\""@ + " "@ + "isDir"@ + "=\""@) by {
        reveal_strlit("\" isDir=\"");
        reveal_strlit("\"");
        reveal_strlit(" ");
        reveal_strlit("isDir");
        reveal_strlit("=\"");
    }
    lemma_next_attr(written2, open + row2, "\" isDir=\""@, "isDir"@, truth_text(child.is_dir));
    let written3 = written2 + "\" isDir=\""@ + truth_text(child.is_dir);
    lemma_add(open, row2, quoted("isDir"@, truth_text(child.is_dir)));
    let text3 = written3 + "\""@;
    let text4 = text3 + attr("artist"@, child.artist);
    lemma_add(open, row3, attr("artist"@, child.artist));
    let text5 = text4 + attr("album"@, child.album);
    lemma_add(open, row4, attr("album"@, child.album));
    let text6 = text5 + attr("contentType"@, child.content_type);
    lemma_add(open, row5, attr("contentType"@, child.content_type));
    let text7 = text6 + attr("coverArt"@, child.cover_art);
    lemma_add(open, row6, attr("coverArt"@, child.cover_art));
    let text8 = text7 + number_attr("track"@, wide(child.track));
    lemma_add(open, row7, number_attr("track"@, wide(child.track)));
    let text9 = text8 + number_attr("discNumber"@, wide(child.disc_number));
    lemma_add(open, row8, number_attr("discNumber"@, wide(child.disc_number)));
    let text10 = text9 + number_attr("duration"@, wide(child.duration));
    lemma_add(open, row9, number_attr("duration"@, wide(child.duration)));
    let text11 = text10 + number_attr("size"@, child.size);
    lemma_add(open, row10, number_attr("size"@, child.size));
    let text12 = text11 + attr("parent"@, child.parent);
    lemma_add(open, row11, attr("parent"@, child.parent));
    assert(child_xml(child) == text12 + " />"@);
}

#[verifier::spinoff_prover]
#[verifier::rlimit(80)]
proof fn lemma_child_tag(child: DirectoryChildModel) -> (tag: Seq<char>)
    ensures
        child_xml(child) == seq!['<'] + tag,
        lacks(tag, '<'),
        child_told(tag, child),
{
    lemma_names_are_clean();
    lemma_child_row(child);
    lemma_child_text(child);
    let row = child_row(child);
    let tag = "child"@ + row + " />"@;
    assert(seq!['<'] + "child"@ + row + " />"@ =~= seq!['<'] + tag);
    lemma_tag_clean("child"@, row, " />"@);
    reveal_strlit("id");
    reveal_strlit("title");
    reveal_strlit("isDir");
    reveal_strlit("artist");
    reveal_strlit("album");
    reveal_strlit("contentType");
    reveal_strlit("coverArt");
    reveal_strlit("track");
    reveal_strlit("discNumber");
    reveal_strlit("duration");
    reveal_strlit("size");
    reveal_strlit("parent");
    assert("id"@.len() == 2);
    assert("title"@.len() == 5 && "title"@[0] == 't' && "title"@[1] == 'i');
    assert("isDir"@.len() == 5 && "isDir"@[0] == 'i');
    assert("artist"@.len() == 6 && "artist"@[0] == 'a');
    assert("album"@.len() == 5 && "album"@[0] == 'a');
    assert("contentType"@.len() == 11);
    assert("coverArt"@.len() == 8 && "coverArt"@[0] == 'c');
    assert("track"@.len() == 5 && "track"@[0] == 't' && "track"@[1] == 'r');
    assert("discNumber"@.len() == 10);
    assert("duration"@.len() == 8 && "duration"@[0] == 'd');
    assert("size"@.len() == 4);
    assert("parent"@.len() == 6 && "parent"@[0] == 'p');
    lemma_attribute_of(tag, "child"@, row, " />"@, "id"@);
    lemma_attribute_of(tag, "child"@, row, " />"@, "title"@);
    lemma_attribute_of(tag, "child"@, row, " />"@, "isDir"@);
    lemma_attribute_of(tag, "child"@, row, " />"@, "artist"@);
    lemma_attribute_of(tag, "child"@, row, " />"@, "album"@);
    lemma_attribute_of(tag, "child"@, row, " />"@, "contentType"@);
    lemma_attribute_of(tag, "child"@, row, " />"@, "coverArt"@);
    lemma_attribute_of(tag, "child"@, row, " />"@, "track"@);
    lemma_attribute_of(tag, "child"@, row, " />"@, "discNumber"@);
    lemma_attribute_of(tag, "child"@, row, " />"@, "duration"@);
    lemma_attribute_of(tag, "child"@, row, " />"@, "size"@);
    lemma_attribute_of(tag, "child"@, row, " />"@, "parent"@);
    law_escaped_text_is_read_back(child.id);
    law_escaped_text_is_read_back(child.title);
    if let Some(text) = child.artist {
        law_escaped_text_is_read_back(text);
    }
    if let Some(text) = child.album {
        law_escaped_text_is_read_back(text);
    }
    if let Some(text) = child.content_type {
        law_escaped_text_is_read_back(text);
    }
    if let Some(text) = child.cover_art {
        law_escaped_text_is_read_back(text);
    }
    if let Some(text) = child.parent {
        law_escaped_text_is_read_back(text);
    }
    tag
}

/// What stands in an object under a key.
pub open spec fn entry(json: Json, key: Seq<char>) -> Option<Json> {
    match json {
        Json::Object(entries) => if entries.dom().contains(key) {
            Some(entries[key])
        } else {
            None
        },
        _ => None,
    }
}

/// The item of an array at a position.
pub open spec fn item(json: Json, i: int) -> Json {
    match json {
        Json::Array(items) => items[i],
        _ => Json::Null,
    }
}

/// Whether a document is an array of a length.
pub open spec fn is_array(json: Json, len: nat) -> bool {
    json matches Json::Array(items) && items.len() == len
}

/// A song of which all is told: whether an object tells it, each thing under its own name.
pub open spec fn song_object_told(object: Json, track: TrackModel) -> bool {
    &&& entry(object, "id"@) == Some(Json::Text(track.id))
    &&& entry(object, "title"@) == Some(Json::Text(track.title))
    &&& entry(object, "artist"@) == Some(Json::Text(track.artist))
    &&& entry(object, "album"@) == Some(Json::Text(track.album))
    &&& entry(object, "albumArtist"@)
        == Some(match track.album_artist { Some(text) => Json::Text(text), None => Json::Null })
    &&& entry(object, "contentType"@) == Some(Json::Text(track.content_type))
    &&& entry(object, "coverArt"@)
        == Some(match track.cover_art_id { Some(text) => Json::Text(text), None => Json::Null })
    &&& entry(object, "track"@)
        == Some(match track.track_number { Some(n) => Json::Number(n as nat), None => Json::Null })
    &&& entry(object, "discNumber"@)
        == Some(match track.disc_number { Some(n) => Json::Number(n as nat), None => Json::Null })
    &&& entry(object, "duration"@)
        == Some(
            match track.duration_seconds { Some(n) => Json::Number(n as nat), None => Json::Null },
        )
    &&& entry(object, "bitRate"@)
        == Some(match track.bitrate { Some(n) => Json::Number(n as nat), None => Json::Null })
    &&& entry(object, "size"@) == Some(Json::Number(track.file_size as nat))
    &&& entry(object, "suffix"@)
        == Some(match track.suffix { Some(text) => Json::Text(text), None => Json::Null })
    &&& entry(object, "genre"@)
        == Some(if track.genres.len() > 0 { Json::Text(track.genres[0]) } else { Json::Null })
}

#[verifier::spinoff_prover]
#[verifier::rlimit(40)]
proof fn lemma_song_object(track: TrackModel)
    ensures
        song_object_told(Json::Object(song_json(track)), track),
{
    reveal_strlit("id");
    reveal_strlit("title");
    reveal_strlit("artist");
    reveal_strlit("album");
    reveal_strlit("albumArtist");
    reveal_strlit("contentType");
    reveal_strlit("coverArt");
    reveal_strlit("track");
    reveal_strlit("discNumber");
    reveal_strlit("duration");
    reveal_strlit("bitRate");
    reveal_strlit("size");
    reveal_strlit("suffix");
    reveal_strlit("genre");
    assert("id"@.len() == 2);
    assert("title"@.len() == 5 && "title"@[0] == 't' && "title"@[1] == 'i');
    assert("artist"@.len() == 6 && "artist"@[0] == 'a');
    assert("album"@.len() == 5 && "album"@[0] == 'a');
    assert("albumArtist"@.len() == 11 && "albumArtist"@[0] == 'a');
    assert("contentType"@.len() == 11 && "contentType"@[0] == 'c');
    assert("coverArt"@.len() == 8 && "coverArt"@[0] == 'c');
    assert("track"@.len() == 5 && "track"@[0] == 't' && "track"@[1] == 'r');
    assert("discNumber"@.len() == 10);
    assert("duration"@.len() == 8 && "duration"@[0] == 'd');
    assert("bitRate"@.len() == 7);
    assert("size"@.len() == 4);
    assert("suffix"@.len() == 6 && "suffix"@[0] == 's');
    assert("genre"@.len() == 5 && "genre"@[0] == 'g');
}

/// An album of which all is told: whether an object tells it, each thing under its own name.
pub open spec fn album_object_told(object: Json, album: AlbumModel) -> bool {
    &&& entry(object, "id"@) == Some(Json::Text(album.id))
    &&& entry(object, "name"@) == Some(Json::Text(album.title))
    &&& entry(object, "artist"@) == Some(Json::Text(album.artist))
    &&& entry(object, "albumArtist"@)
        == Some(match album.album_artist { Some(text) => Json::Text(text), None => Json::Null })
    &&& entry(object, "songCount"@) == Some(Json::Number(album.track_ids.len()))
    &&& entry(object, "genre"@)
        == Some(if album.genres.len() > 0 { Json::Text(album.genres[0]) } else { Json::Null })
    &&& entry(object, "year"@)
        == Some(
            match album.year {
                Some(year) => Json::Text(signed_decimal(year as int)),
                None => Json::Null,
            },
        )
    &&& entry(object, "coverArt"@)
        == Some(match album.cover_art_id { Some(text) => Json::Text(text), None => Json::Null })
    &&& entry(object, "duration"@)
        == Some(
            match album.duration_seconds { Some(n) => Json::Number(n as nat), None => Json::Null },
        )
    &&& entry(object, "size"@) == Some(Json::Number(album.size_bytes as nat))
}

#[verifier::spinoff_prover]
#[verifier::rlimit(40)]
proof fn lemma_album_object(album: AlbumModel)
    ensures
        album_object_told(Json::Object(album_json(album)), album),
{
    reveal_strlit("id");
    reveal_strlit("name");
    reveal_strlit("artist");
    reveal_strlit("albumArtist");
    reveal_strlit("songCount");
    reveal_strlit("genre");
    reveal_strlit("year");
    reveal_strlit("coverArt");
    reveal_strlit("duration");
    reveal_strlit("size");
    assert("id"@.len() == 2);
    assert("name"@.len() == 4 && "name"@[0] == 'n');
    assert("artist"@.len() == 6);
    assert("albumArtist"@.len() == 11);
    assert("songCount"@.len() == 9);
    assert("genre"@.len() == 5);
    assert("year"@.len() == 4 && "year"@[0] == 'y');
    assert("coverArt"@.len() == 8 && "coverArt"@[0] == 'c');
    assert("duration"@.len() == 8 && "duration"@[0] == 'd');
    assert("size"@.len() == 4 && "size"@[0] == 's');
}

/// An artist among others: whether an object tells it, each thing under its own name.
pub open spec fn artist_object_told(object: Json, artist: ArtistModel) -> bool {
    &&& entry(object, "id"@) == Some(Json::Text(artist.id))
    &&& entry(object, "name"@) == Some(Json::Text(artist.name))
}

#[verifier::spinoff_prover]
#[verifier::rlimit(40)]
proof fn lemma_artist_object(artist: ArtistModel)
    ensures
        artist_object_told(Json::Object(artist_json(artist)), artist),
{
    reveal_strlit("id");
    reveal_strlit("name");
    assert("id"@.len() == 2);
    assert("name"@.len() == 4);
}

/// An artist in an index: whether an object tells it, each thing under its own name.
pub open spec fn indexed_object_told(object: Json, artist: IndexArtistModel) -> bool {
    &&& entry(object, "id"@) == Some(Json::Text(artist.id))
    &&& entry(object, "name"@) == Some(Json::Text(artist.name))
}

#[verifier::spinoff_prover]
#[verifier::rlimit(40)]
proof fn lemma_indexed_object(artist: IndexArtistModel)
    ensures
        indexed_object_told(Json::Object(indexed_json(artist)), artist),
{
    reveal_strlit("id");
    reveal_strlit("name");
    assert("id"@.len() == 2);
    assert("name"@.len() == 4);
}

/// An album among others: whether an object tells it, each thing under its own name.
pub open spec fn album_hit_object_told(object: Json, album: AlbumModel) -> bool {
    &&& entry(object, "id"@) == Some(Json::Text(album.id))
    &&& entry(object, "name"@) == Some(Json::Text(album.title))
    &&& entry(object, "artist"@) == Some(Json::Text(album.artist))
    &&& entry(object, "coverArt"@)
        == Some(match album.cover_art_id { Some(text) => Json::Text(text), None => Json::Null })
}

#[verifier::spinoff_prover]
#[verifier::rlimit(40)]
proof fn lemma_album_hit_object(album: AlbumModel)
    ensures
        album_hit_object_told(Json::Object(album_hit_json(album)), album),
{
    reveal_strlit("id");
    reveal_strlit("name");
    reveal_strlit("artist");
    reveal_strlit("coverArt");
    assert("id"@.len() == 2);
    assert("name"@.len() == 4);
    assert("artist"@.len() == 6);
    assert("coverArt"@.len() == 8);
}

/// A song among others: whether an object tells it, each thing under its own name.
pub open spec fn song_hit_object_told(object: Json, track: TrackModel) -> bool {
    &&& entry(object, "id"@) == Some(Json::Text(track.id))
    &&& entry(object, "title"@) == Some(Json::Text(track.title))
    &&& entry(object, "artist"@) == Some(Json::Text(track.artist))
    &&& entry(object, "album"@) == Some(Json::Text(track.album))
    &&& entry(object, "coverArt"@)
        == Some(match track.cover_art_id { Some(text) => Json::Text(text), None => Json::Null })
}

#[verifier::spinoff_prover]
#[verifier::rlimit(40)]
proof fn lemma_song_hit_object(track: TrackModel)
    ensures
        song_hit_object_told(Json::Object(song_hit_json(track)), track),
{
    reveal_strlit("id");
    reveal_strlit("title");
    reveal_strlit("artist");
    reveal_strlit("album");
    reveal_strlit("coverArt");
    assert("id"@.len() == 2);
    assert("title"@.len() == 5 && "title"@[0] == 't');
    assert("artist"@.len() == 6);
    assert("album"@.len() == 5 && "album"@[0] == 'a');
    assert("coverArt"@.len() == 8);
}

/// An entry of a directory: whether an object tells it, each thing under its own name.
pub open spec fn child_object_told(object: Json, child: DirectoryChildModel) -> bool {
    &&& entry(object, "id"@) == Some(Json::Text(child.id))
    &&& entry(object, "title"@) == Some(Json::Text(child.title))
    &&& entry(object, "isDir"@) == Some(Json::Bool(child.is_dir))
    &&& entry(object, "artist"@)
        == (match child.artist { Some(text) => Some(Json::Text(text)), None => None })
    &&& entry(object, "album"@)
        == (match child.album { Some(text) => Some(Json::Text(text)), None => None })
    &&& entry(object, "contentType"@)
        == (match child.content_type { Some(text) => Some(Json::Text(text)), None => None })
    &&& entry(object, "coverArt"@)
        == (match child.cover_art { Some(text) => Some(Json::Text(text)), None => None })
    &&& entry(object, "track"@)
        == (match child.track { Some(n) => Some(Json::Number(n as nat)), None => None })
    &&& entry(object, "discNumber"@)
        == (match child.disc_number { Some(n) => Some(Json::Number(n as nat)), None => None })
    &&& entry(object, "duration"@)
        == (match child.duration { Some(n) => Some(Json::Number(n as nat)), None => None })
    &&& entry(object, "size"@)
        == (match child.size { Some(n) => Some(Json::Number(n as nat)), None => None })
    &&& entry(object, "parent"@)
        == (match child.parent { Some(text) => Some(Json::Text(text)), None => None })
}

#[verifier::spinoff_prover]
#[verifier::rlimit(40)]
proof fn lemma_child_object(child: DirectoryChildModel)
    ensures
        child_object_told(Json::Object(child_json(child)), child),
{
    reveal_strlit("id");
    reveal_strlit("title");
    reveal_strlit("isDir");
    reveal_strlit("artist");
    reveal_strlit("album");
    reveal_strlit("contentType");
    reveal_strlit("coverArt");
    reveal_strlit("track");
    reveal_strlit("discNumber");
    reveal_strlit("duration");
    reveal_strlit("size");
    reveal_strlit("parent");
    assert("id"@.len() == 2);
    assert("title"@.len() == 5 && "title"@[0] == 't' && "title"@[1] == 'i');
    assert("isDir"@.len() == 5 && "isDir"@[0] == 'i');
    assert("artist"@.len() == 6 && "artist"@[0] == 'a');
    assert("album"@.len() == 5 && "album"@[0] == 'a');
    assert("contentType"@.len() == 11);
    assert("coverArt"@.len() == 8 && "coverArt"@[0] == 'c');
    assert("track"@.len() == 5 && "track"@[0] == 't' && "track"@[1] == 'r');
    assert("discNumber"@.len() == 10);
    assert("duration"@.len() == 8 && "duration"@[0] == 'd');
    assert("size"@.len() == 4);
    assert("parent"@.len() == 6 && "parent"@[0] == 'p');
}

/// Whether a text brings these tags to whatever document it is added to.
spec fn brings(body: Seq<char>, inner: Seq<Seq<char>>) -> bool {
    forall|before: Seq<char>| #[trigger] tags(before + body) == tags(before) + inner
}

proof fn lemma_brings_none(body: Seq<char>)
    requires
        body.len() == 0,
    ensures
        brings(body, Seq::<Seq<char>>::empty()),
{
    assert forall|before: Seq<char>| #[trigger] tags(before + body) == tags(before) + Seq::<
        Seq<char>,
    >::empty() by {
        assert(before + body =~= before);
        assert(tags(before) + Seq::<Seq<char>>::empty() =~= tags(before));
    }
}

proof fn lemma_brings_tag(body: Seq<char>, tag: Seq<char>)
    requires
        lacks(tag, '<'),
        body == seq!['<'] + tag,
    ensures
        brings(body, seq![tag]),
{
    assert forall|before: Seq<char>| #[trigger] tags(before + body) == tags(before) + seq![tag] by {
        lemma_tags_push(before, tag);
        assert(tags(before).push(tag) =~= tags(before) + seq![tag]);
    }
}

proof fn lemma_brings_two(a: Seq<char>, x: Seq<Seq<char>>, b: Seq<char>, y: Seq<Seq<char>>)
    requires
        brings(a, x),
        brings(b, y),
    ensures
        brings(a + b, x + y),
{
    assert forall|before: Seq<char>| #[trigger] tags(before + (a + b)) == tags(before) + (x + y) by {
        assert(before + (a + b) =~= before + a + b);
        assert(tags(before + a) == tags(before) + x);
        assert(tags(before + a + b) == tags(before + a) + y);
        assert(tags(before) + x + y =~= tags(before) + (x + y));
    }
}

proof fn lemma_declaration()
    ensures
        lacks("?xml version=\"1.0\" encoding=\"UTF-8\"?>"@, '<'),
        brings(
            "<?xml version=\"1.0\" encoding=\"UTF-8\"?>"@,
            seq!["?xml version=\"1.0\" encoding=\"UTF-8\"?>"@],
        ),
{
    reveal_strlit("?xml version=\"1.0\" encoding=\"UTF-8\"?>");
    reveal_strlit("<?xml version=\"1.0\" encoding=\"UTF-8\"?>");
    assert(
        "?xml version=\"1.0\" encoding=\"UTF-8\"?>"@ =~= seq![
            '?', 'x', 'm', 'l', ' ', 'v', 'e', 'r', 's', 'i', 'o', 'n', '=', '"', '1', '.', '0',
            '"', ' ', 'e', 'n', 'c', 'o', 'd', 'i', 'n', 'g', '=', '"', 'U', 'T', 'F', '-', '8',
            '"', '?', '>',
        ]
    );
    assert(
        "<?xml version=\"1.0\" encoding=\"UTF-8\"?>"@ =~= seq!['<']
            + "?xml version=\"1.0\" encoding=\"UTF-8\"?>"@
    );
    lemma_brings_tag(
        "<?xml version=\"1.0\" encoding=\"UTF-8\"?>"@,
        "?xml version=\"1.0\" encoding=\"UTF-8\"?>"@,
    );
}

proof fn lemma_close_response()
    ensures
        lacks("/subsonic-response>"@, '<'),
        brings("</subsonic-response>"@, seq!["/subsonic-response>"@]),
{
    reveal_strlit("/subsonic-response>");
    reveal_strlit("</subsonic-response>");
    assert(
        "/subsonic-response>"@ =~= seq![
            '/', 's', 'u', 'b', 's', 'o', 'n', 'i', 'c', '-', 'r', 'e', 's', 'p', 'o', 'n', 's',
            'e', '>',
        ]
    );
    assert("</subsonic-response>"@ =~= seq!['<'] + "/subsonic-response>"@);
    lemma_brings_tag("</subsonic-response>"@, "/subsonic-response>"@);
}

proof fn lemma_close_artists()
    ensures
        lacks("/artists>"@, '<'),
        brings("</artists>"@, seq!["/artists>"@]),
{
    reveal_strlit("/artists>");
    reveal_strlit("</artists>");
    assert("/artists>"@ =~= seq!['/', 'a', 'r', 't', 'i', 's', 't', 's', '>']);
    assert("</artists>"@ =~= seq!['<'] + "/artists>"@);
    lemma_brings_tag("</artists>"@, "/artists>"@);
}

proof fn lemma_close_indexes()
    ensures
        lacks("/indexes>"@, '<'),
        brings("</indexes>"@, seq!["/indexes>"@]),
{
    reveal_strlit("/indexes>");
    reveal_strlit("</indexes>");
    assert("/indexes>"@ =~= seq!['/', 'i', 'n', 'd', 'e', 'x', 'e', 's', '>']);
    assert("</indexes>"@ =~= seq!['<'] + "/indexes>"@);
    lemma_brings_tag("</indexes>"@, "/indexes>"@);
}

proof fn lemma_close_searchresult3()
    ensures
        lacks("/searchResult3>"@, '<'),
        brings("</searchResult3>"@, seq!["/searchResult3>"@]),
{
    reveal_strlit("/searchResult3>");
    reveal_strlit("</searchResult3>");
    assert(
        "/searchResult3>"@ =~= seq![
            '/', 's', 'e', 'a', 'r', 'c', 'h', 'R', 'e', 's', 'u', 'l', 't', '3', '>',
        ]
    );
    assert("</searchResult3>"@ =~= seq!['<'] + "/searchResult3>"@);
    lemma_brings_tag("</searchResult3>"@, "/searchResult3>"@);
}

proof fn lemma_close_starred2()
    ensures
        lacks("/starred2>"@, '<'),
        brings("</starred2>"@, seq!["/starred2>"@]),
{
    reveal_strlit("/starred2>");
    reveal_strlit("</starred2>");
    assert("/starred2>"@ =~= seq!['/', 's', 't', 'a', 'r', 'r', 'e', 'd', '2', '>']);
    assert("</starred2>"@ =~= seq!['<'] + "/starred2>"@);
    lemma_brings_tag("</starred2>"@, "/starred2>"@);
}

proof fn lemma_close_directory()
    ensures
        lacks("/directory>"@, '<'),
        brings("</directory>"@, seq!["/directory>"@]),
{
    reveal_strlit("/directory>");
    reveal_strlit("</directory>");
    assert("/directory>"@ =~= seq!['/', 'd', 'i', 'r', 'e', 'c', 't', 'o', 'r', 'y', '>']);
    assert("</directory>"@ =~= seq!['<'] + "/directory>"@);
    lemma_brings_tag("</directory>"@, "/directory>"@);
}

proof fn lemma_close_index()
    ensures
        lacks("/index>"@, '<'),
        brings("</index>"@, seq!["/index>"@]),
{
    reveal_strlit("/index>");
    reveal_strlit("</index>");
    assert("/index>"@ =~= seq!['/', 'i', 'n', 'd', 'e', 'x', '>']);
    assert("</index>"@ =~= seq!['<'] + "/index>"@);
    lemma_brings_tag("</index>"@, "/index>"@);
}

proof fn lemma_close_message()
    ensures
        lacks("/message>"@, '<'),
        brings("</message>"@, seq!["/message>"@]),
{
    reveal_strlit("/message>");
    reveal_strlit("</message>");
    assert("/message>"@ =~= seq!['/', 'm', 'e', 's', 's', 'a', 'g', 'e', '>']);
    assert("</message>"@ =~= seq!['<'] + "/message>"@);
    lemma_brings_tag("</message>"@, "/message>"@);
}

proof fn lemma_open_artists()
    ensures
        lacks("artists>"@, '<'),
        brings("<artists>"@, seq!["artists>"@]),
{
    reveal_strlit("artists>");
    reveal_strlit("<artists>");
    assert("artists>"@ =~= seq!['a', 'r', 't', 'i', 's', 't', 's', '>']);
    assert("<artists>"@ =~= seq!['<'] + "artists>"@);
    lemma_brings_tag("<artists>"@, "artists>"@);
}

proof fn lemma_open_searchresult3()
    ensures
        lacks("searchResult3>"@, '<'),
        brings("<searchResult3>"@, seq!["searchResult3>"@]),
{
    reveal_strlit("searchResult3>");
    reveal_strlit("<searchResult3>");
    assert(
        "searchResult3>"@ =~= seq![
            's', 'e', 'a', 'r', 'c', 'h', 'R', 'e', 's', 'u', 'l', 't', '3', '>',
        ]
    );
    assert("<searchResult3>"@ =~= seq!['<'] + "searchResult3>"@);
    lemma_brings_tag("<searchResult3>"@, "searchResult3>"@);
}

proof fn lemma_open_starred2()
    ensures
        lacks("starred2>"@, '<'),
        brings("<starred2>"@, seq!["starred2>"@]),
{
    reveal_strlit("starred2>");
    reveal_strlit("<starred2>");
    assert("starred2>"@ =~= seq!['s', 't', 'a', 'r', 'r', 'e', 'd', '2', '>']);
    assert("<starred2>"@ =~= seq!['<'] + "starred2>"@);
    lemma_brings_tag("<starred2>"@, "starred2>"@);
}

proof fn lemma_open_indexes()
    ensures
        lacks("indexes lastModified=\"0\" ignoredArticles=\"\">"@, '<'),
        brings(
            "<indexes lastModified=\"0\" ignoredArticles=\"\">"@,
            seq!["indexes lastModified=\"0\" ignoredArticles=\"\">"@],
        ),
{
    reveal_strlit("indexes lastModified=\"0\" ignoredArticles=\"\">");
    reveal_strlit("<indexes lastModified=\"0\" ignoredArticles=\"\">");
    assert(
        "indexes lastModified=\"0\" ignoredArticles=\"\">"@ =~= seq![
            'i', 'n', 'd', 'e', 'x', 'e', 's', ' ', 'l', 'a', 's', 't', 'M', 'o', 'd', 'i', 'f',
            'i', 'e', 'd', '=', '"', '0', '"', ' ', 'i', 'g', 'n', 'o', 'r', 'e', 'd', 'A', 'r',
            't', 'i', 'c', 'l', 'e', 's', '=', '"', '"', '>',
        ]
    );
    assert(
        "<indexes lastModified=\"0\" ignoredArticles=\"\">"@ =~= seq!['<']
            + "indexes lastModified=\"0\" ignoredArticles=\"\">"@
    );
    lemma_brings_tag(
        "<indexes lastModified=\"0\" ignoredArticles=\"\">"@,
        "indexes lastModified=\"0\" ignoredArticles=\"\">"@,
    );
}

/// Whether a tag is the one that a response starts with.
pub open spec fn response_tag(tag: Seq<char>, status: Seq<char>) -> bool {
    &&& attribute(tag, "subsonic-response"@, "status"@) == Some(status)
    &&& attribute(tag, "subsonic-response"@, "version"@) == Some("1.16.1"@)
}

/// Whether a document is a response with this status: the declaration of the document, the tag of the
/// response, the tags inside, and the end of the response.
pub open spec fn is_response(document: Seq<char>, status: Seq<char>, inner: Seq<Seq<char>>) -> bool {
    &&& tags(document).len() == inner.len() + 4
    &&& tags(document)[0].len() == 0
    &&& response_tag(tags(document)[2], status)
    &&& tags(document).subrange(3, (3 + inner.len()) as int) == inner
    &&& tags(document).last() == "/subsonic-response>"@
}

proof fn lemma_start_ok()
    ensures
        lacks("subsonic-response status=\"ok\" version=\"1.16.1\">"@, '<'),
        response_tag("subsonic-response status=\"ok\" version=\"1.16.1\">"@, "ok"@),
{
    lemma_names_are_clean();
    reveal_strlit("subsonic-response status=\"ok\" version=\"1.16.1\">");
    reveal_strlit("subsonic-response");
    reveal_strlit(" ");
    reveal_strlit("=\"");
    reveal_strlit("\"");
    reveal_strlit(">");
    reveal_strlit("ok");
    reveal_strlit("1.16.1");
    reveal_strlit("status");
    reveal_strlit("version");
    assert("status"@.len() == 6);
    assert("version"@.len() == 7);
    lemma_empty_row();
    let row0 = Seq::<char>::empty();
    lemma_row_push(row0, "status"@, "ok"@);
    let row1 = row0 + quoted("status"@, "ok"@);
    lemma_row_push(row1, "version"@, "1.16.1"@);
    let row2 = row1 + quoted("version"@, "1.16.1"@);
    assert(
        "subsonic-response status=\"ok\" version=\"1.16.1\">"@ =~= "subsonic-response"@ + row2
            + ">"@
    );
    lemma_tag_clean("subsonic-response"@, row2, ">"@);
    lemma_attribute_of(
        "subsonic-response status=\"ok\" version=\"1.16.1\">"@,
        "subsonic-response"@,
        row2,
        ">"@,
        "status"@,
    );
    lemma_attribute_of(
        "subsonic-response status=\"ok\" version=\"1.16.1\">"@,
        "subsonic-response"@,
        row2,
        ">"@,
        "version"@,
    );
}

#[verifier::spinoff_prover]
proof fn lemma_head_ok()
    ensures
        tags("<?xml version=\"1.0\" encoding=\"UTF-8\"?><subsonic-response status=\"ok\" version=\"1.16.1\">"@) == seq![
            Seq::<char>::empty(),
            "?xml version=\"1.0\" encoding=\"UTF-8\"?>"@,
            "subsonic-response status=\"ok\" version=\"1.16.1\">"@,
        ],
{
    lemma_declaration();
    lemma_start_ok();
    reveal_strlit("?xml version=\"1.0\" encoding=\"UTF-8\"?>");
    reveal_strlit("subsonic-response status=\"ok\" version=\"1.16.1\">");
    reveal_strlit(
        "<?xml version=\"1.0\" encoding=\"UTF-8\"?><subsonic-response status=\"ok\" version=\"1.16.1\">",
    );
    let none = Seq::<char>::empty();
    lemma_split_one(none, '<');
    lemma_tags_push(none, "?xml version=\"1.0\" encoding=\"UTF-8\"?>"@);
    let one = none + (seq!['<'] + "?xml version=\"1.0\" encoding=\"UTF-8\"?>"@);
    lemma_tags_push(one, "subsonic-response status=\"ok\" version=\"1.16.1\">"@);
    let two = one + (seq!['<'] + "subsonic-response status=\"ok\" version=\"1.16.1\">"@);
    assert(
        "<?xml version=\"1.0\" encoding=\"UTF-8\"?><subsonic-response status=\"ok\" version=\"1.16.1\">"@ =~= two
    );
    assert(
        tags(two) =~= seq![
            none,
            "?xml version=\"1.0\" encoding=\"UTF-8\"?>"@,
            "subsonic-response status=\"ok\" version=\"1.16.1\">"@,
        ]
    );
}

proof fn lemma_start_failed()
    ensures
        lacks("subsonic-response status=\"failed\" version=\"1.16.1\">"@, '<'),
        response_tag("subsonic-response status=\"failed\" version=\"1.16.1\">"@, "failed"@),
{
    lemma_names_are_clean();
    reveal_strlit("subsonic-response status=\"failed\" version=\"1.16.1\">");
    reveal_strlit("subsonic-response");
    reveal_strlit(" ");
    reveal_strlit("=\"");
    reveal_strlit("\"");
    reveal_strlit(">");
    reveal_strlit("failed");
    reveal_strlit("1.16.1");
    reveal_strlit("status");
    reveal_strlit("version");
    assert("status"@.len() == 6);
    assert("version"@.len() == 7);
    lemma_empty_row();
    let row0 = Seq::<char>::empty();
    lemma_row_push(row0, "status"@, "failed"@);
    let row1 = row0 + quoted("status"@, "failed"@);
    lemma_row_push(row1, "version"@, "1.16.1"@);
    let row2 = row1 + quoted("version"@, "1.16.1"@);
    assert(
        "subsonic-response status=\"failed\" version=\"1.16.1\">"@ =~= "subsonic-response"@ + row2
            + ">"@
    );
    lemma_tag_clean("subsonic-response"@, row2, ">"@);
    lemma_attribute_of(
        "subsonic-response status=\"failed\" version=\"1.16.1\">"@,
        "subsonic-response"@,
        row2,
        ">"@,
        "status"@,
    );
    lemma_attribute_of(
        "subsonic-response status=\"failed\" version=\"1.16.1\">"@,
        "subsonic-response"@,
        row2,
        ">"@,
        "version"@,
    );
}

#[verifier::spinoff_prover]
proof fn lemma_head_failed()
    ensures
        tags("<?xml version=\"1.0\" encoding=\"UTF-8\"?><subsonic-response status=\"failed\" version=\"1.16.1\">"@) == seq![
            Seq::<char>::empty(),
            "?xml version=\"1.0\" encoding=\"UTF-8\"?>"@,
            "subsonic-response status=\"failed\" version=\"1.16.1\">"@,
        ],
{
    lemma_declaration();
    lemma_start_failed();
    reveal_strlit("?xml version=\"1.0\" encoding=\"UTF-8\"?>");
    reveal_strlit("subsonic-response status=\"failed\" version=\"1.16.1\">");
    reveal_strlit(
        "<?xml version=\"1.0\" encoding=\"UTF-8\"?><subsonic-response status=\"failed\" version=\"1.16.1\">",
    );
    let none = Seq::<char>::empty();
    lemma_split_one(none, '<');
    lemma_tags_push(none, "?xml version=\"1.0\" encoding=\"UTF-8\"?>"@);
    let one = none + (seq!['<'] + "?xml version=\"1.0\" encoding=\"UTF-8\"?>"@);
    lemma_tags_push(one, "subsonic-response status=\"failed\" version=\"1.16.1\">"@);
    let two = one + (seq!['<'] + "subsonic-response status=\"failed\" version=\"1.16.1\">"@);
    assert(
        "<?xml version=\"1.0\" encoding=\"UTF-8\"?><subsonic-response status=\"failed\" version=\"1.16.1\">"@ =~= two
    );
    assert(
        tags(two) =~= seq![
            none,
            "?xml version=\"1.0\" encoding=\"UTF-8\"?>"@,
            "subsonic-response status=\"failed\" version=\"1.16.1\">"@,
        ]
    );
}

/// A document with a body is a response with the tags of the body.
proof fn lemma_document(body: Seq<char>, inner: Seq<Seq<char>>)
    requires
        brings(body, inner),
    ensures
        is_response(xml_document(body), "ok"@, inner),
{
    lemma_head_ok();
    lemma_start_ok();
    lemma_close_response();
    let head = "<?xml version=\"1.0\" encoding=\"UTF-8\"?><subsonic-response status=\"ok\" version=\"1.16.1\">"@;
    assert(tags(head + body) == tags(head) + inner);
    assert(tags(head + body + "</subsonic-response>"@) == tags(head + body) + seq![
        "/subsonic-response>"@,
    ]);
    let all = tags(xml_document(body));
    assert(all.subrange(3, (3 + inner.len()) as int) =~= inner);
}

/// A failure is told: a client that reads the response finds that it failed, and why.
pub proof fn law_failure_is_told(message: Seq<char>) -> (told: (Seq<char>, Json))
    ensures
        failed(ResponseFormat::Xml, message) == SubsonicResponseModel::Xml(told.0),
        tags(told.0).len() == 5,
        response_tag(tags(told.0)[2], "failed"@),
        error_told(tags(told.0)[3], message),
        failed(ResponseFormat::Json, message) == SubsonicResponseModel::Json(json_text(told.1)),
        entry(told.1, "subsonic-response"@) matches Some(envelope) && {
            &&& entry(envelope, "status"@) == Some(Json::Text("failed"@))
            &&& entry(envelope, "version"@) == Some(Json::Text("1.16.1"@))
            &&& entry(envelope, "error"@) matches Some(error) && entry(error, "code"@) == Some(
                Json::Number(0),
            ) && entry(error, "message"@) == Some(Json::Text(message))
        },
{
    lemma_head_failed();
    lemma_start_failed();
    lemma_close_response();
    let head = "<?xml version=\"1.0\" encoding=\"UTF-8\"?><subsonic-response status=\"failed\" version=\"1.16.1\">"@;
    let tag = lemma_error_tag(message);
    lemma_brings_tag(error_element(message), tag);
    let text = xml_failure(message);
    assert(text =~= head + error_element(message) + "</subsonic-response>"@) by {
        reveal_strlit(
            "<?xml version=\"1.0\" encoding=\"UTF-8\"?><subsonic-response status=\"failed\" version=\"1.16.1\"><error code=\"0\" message=\"",
        );
        reveal_strlit(
            "<?xml version=\"1.0\" encoding=\"UTF-8\"?><subsonic-response status=\"failed\" version=\"1.16.1\">",
        );
        reveal_strlit("<error code=\"");
        reveal_strlit("0");
        reveal_strlit("\" message=\"");
        reveal_strlit("\" />");
        reveal_strlit("\" /></subsonic-response>");
        reveal_strlit("</subsonic-response>");
    }
    assert(tags(head + error_element(message)) == tags(head) + seq![tag]);
    assert(tags(head + error_element(message) + "</subsonic-response>"@) == tags(
        head + error_element(message),
    ) + seq!["/subsonic-response>"@]);
    reveal_strlit("status");
    reveal_strlit("version");
    reveal_strlit("error");
    reveal_strlit("code");
    reveal_strlit("message");
    assert("status"@.len() == 6);
    assert("version"@.len() == 7 && "version"@[0] == 'v');
    assert("error"@.len() == 5);
    assert("code"@.len() == 4);
    assert("message"@.len() == 7 && "message"@[0] == 'm');
    (text, json_failure(message))
}

/// Whether a document is a response that went well, with something under a key.
pub open spec fn is_ok_with(document: Json, key: Seq<char>, value: Json) -> bool {
    entry(document, "subsonic-response"@) matches Some(envelope) && {
        &&& entry(envelope, "status"@) == Some(Json::Text("ok"@))
        &&& entry(envelope, "version"@) == Some(Json::Text("1.16.1"@))
        &&& entry(envelope, key) == Some(value)
    }
}

proof fn lemma_ok_with(key: Seq<char>, value: Json)
    requires
        key != "status"@,
        key != "version"@,
    ensures
        is_ok_with(json_document(crate::render::single(key, value)), key, value),
{
    reveal_strlit("status");
    reveal_strlit("version");
    assert("status"@.len() == 6);
    assert("version"@.len() == 7);
}

proof fn lemma_artist_hits(items: Seq<ArtistModel>) -> (inner: Seq<Seq<char>>)
    ensures
        brings(artist_hits_xml(items), inner),
        inner.len() == items.len(),
        forall|i: int| 0 <= i < items.len() ==> artist_hit_told(#[trigger] inner[i], items[i]),
    decreases items.len(),
{
    if items.len() == 0 {
        lemma_brings_none(artist_hits_xml(items));
        Seq::empty()
    } else {
        let before = lemma_artist_hits(items.drop_last());
        let tag = lemma_artist_hit_tag(items.last());
        lemma_brings_tag(artist_hit_xml(items.last()), tag);
        lemma_brings_two(
            artist_hits_xml(items.drop_last()),
            before,
            artist_hit_xml(items.last()),
            seq![tag],
        );
        let inner = before + seq![tag];
        assert forall|i: int| 0 <= i < items.len()
            implies artist_hit_told(#[trigger] inner[i], items[i]) by {
            if i < before.len() {
                assert(inner[i] == before[i]);
                assert(items.drop_last()[i] == items[i]);
            }
        }
        inner
    }
}

proof fn lemma_album_hits(items: Seq<AlbumModel>) -> (inner: Seq<Seq<char>>)
    ensures
        brings(album_hits_xml(items), inner),
        inner.len() == items.len(),
        forall|i: int| 0 <= i < items.len() ==> album_hit_told(#[trigger] inner[i], items[i]),
    decreases items.len(),
{
    if items.len() == 0 {
        lemma_brings_none(album_hits_xml(items));
        Seq::empty()
    } else {
        let before = lemma_album_hits(items.drop_last());
        let tag = lemma_album_hit_tag(items.last());
        lemma_brings_tag(album_hit_xml(items.last()), tag);
        lemma_brings_two(
            album_hits_xml(items.drop_last()),
            before,
            album_hit_xml(items.last()),
            seq![tag],
        );
        let inner = before + seq![tag];
        assert forall|i: int| 0 <= i < items.len()
            implies album_hit_told(#[trigger] inner[i], items[i]) by {
            if i < before.len() {
                assert(inner[i] == before[i]);
                assert(items.drop_last()[i] == items[i]);
            }
        }
        inner
    }
}

proof fn lemma_song_hits(items: Seq<TrackModel>) -> (inner: Seq<Seq<char>>)
    ensures
        brings(song_hits_xml(items), inner),
        inner.len() == items.len(),
        forall|i: int| 0 <= i < items.len() ==> song_hit_told(#[trigger] inner[i], items[i]),
    decreases items.len(),
{
    if items.len() == 0 {
        lemma_brings_none(song_hits_xml(items));
        Seq::empty()
    } else {
        let before = lemma_song_hits(items.drop_last());
        let tag = lemma_song_hit_tag(items.last());
        lemma_brings_tag(song_hit_xml(items.last()), tag);
        lemma_brings_two(
            song_hits_xml(items.drop_last()),
            before,
            song_hit_xml(items.last()),
            seq![tag],
        );
        let inner = before + seq![tag];
        assert forall|i: int| 0 <= i < items.len()
            implies song_hit_told(#[trigger] inner[i], items[i]) by {
            if i < before.len() {
                assert(inner[i] == before[i]);
                assert(items.drop_last()[i] == items[i]);
            }
        }
        inner
    }
}

proof fn lemma_all_indexed(items: Seq<IndexArtistModel>) -> (inner: Seq<Seq<char>>)
    ensures
        brings(all_indexed_xml(items), inner),
        inner.len() == items.len(),
        forall|i: int| 0 <= i < items.len() ==> indexed_told(#[trigger] inner[i], items[i]),
    decreases items.len(),
{
    if items.len() == 0 {
        lemma_brings_none(all_indexed_xml(items));
        Seq::empty()
    } else {
        let before = lemma_all_indexed(items.drop_last());
        let tag = lemma_indexed_tag(items.last());
        lemma_brings_tag(indexed_xml(items.last()), tag);
        lemma_brings_two(
            all_indexed_xml(items.drop_last()),
            before,
            indexed_xml(items.last()),
            seq![tag],
        );
        let inner = before + seq![tag];
        assert forall|i: int| 0 <= i < items.len()
            implies indexed_told(#[trigger] inner[i], items[i]) by {
            if i < before.len() {
                assert(inner[i] == before[i]);
                assert(items.drop_last()[i] == items[i]);
            }
        }
        inner
    }
}

proof fn lemma_children(items: Seq<DirectoryChildModel>) -> (inner: Seq<Seq<char>>)
    ensures
        brings(children_xml(items), inner),
        inner.len() == items.len(),
        forall|i: int| 0 <= i < items.len() ==> child_told(#[trigger] inner[i], items[i]),
    decreases items.len(),
{
    if items.len() == 0 {
        lemma_brings_none(children_xml(items));
        Seq::empty()
    } else {
        let before = lemma_children(items.drop_last());
        let tag = lemma_child_tag(items.last());
        lemma_brings_tag(child_xml(items.last()), tag);
        lemma_brings_two(
            children_xml(items.drop_last()),
            before,
            child_xml(items.last()),
            seq![tag],
        );
        let inner = before + seq![tag];
        assert forall|i: int| 0 <= i < items.len()
            implies child_told(#[trigger] inner[i], items[i]) by {
            if i < before.len() {
                assert(inner[i] == before[i]);
                assert(items.drop_last()[i] == items[i]);
            }
        }
        inner
    }
}

/// The response to a request for a song holds one element, which tells of it each thing under its own name.
pub proof fn law_song_is_told(track: TrackModel) -> (told: (Seq<char>, Json, Json))
    ensures
        song_reply(ResponseFormat::Xml, BackendResponseModel::Track(track)) == Ok::<
            SubsonicResponseModel,
            ErrorModel,
        >(SubsonicResponseModel::Xml(told.0)),
        tags(told.0).len() == 5,
        response_tag(tags(told.0)[2], "ok"@),
        song_told(tags(told.0)[3], track),
        song_reply(ResponseFormat::Json, BackendResponseModel::Track(track)) == Ok::<
            SubsonicResponseModel,
            ErrorModel,
        >(SubsonicResponseModel::Json(json_text(told.1))),
        is_ok_with(told.1, "song"@, told.2),
        song_object_told(told.2, track),
{
    let tag = lemma_song_tag(track);
    lemma_brings_tag(song_xml(track), tag);
    lemma_document(song_xml(track), seq![tag]);
    assert(tags(xml_document(song_xml(track))).subrange(3, 4)[0] == tags(
        xml_document(song_xml(track)),
    )[3]);
    reveal_strlit("song");
    reveal_strlit("status");
    reveal_strlit("version");
    assert("song"@.len() == 4);
    assert("status"@.len() == 6);
    assert("version"@.len() == 7);
    lemma_song_object(track);
    lemma_ok_with("song"@, Json::Object(song_json(track)));
    (
        xml_document(song_xml(track)),
        json_document(crate::render::single("song"@, Json::Object(song_json(track)))),
        Json::Object(song_json(track)),
    )
}

/// The response to a request for an album holds one element, which tells of it each thing under its own
/// name.
pub proof fn law_album_is_told(album: AlbumModel) -> (told: (Seq<char>, Json, Json))
    ensures
        album_reply(ResponseFormat::Xml, BackendResponseModel::Album(album)) == Ok::<
            SubsonicResponseModel,
            ErrorModel,
        >(SubsonicResponseModel::Xml(told.0)),
        tags(told.0).len() == 5,
        response_tag(tags(told.0)[2], "ok"@),
        album_told(tags(told.0)[3], album),
        album_reply(ResponseFormat::Json, BackendResponseModel::Album(album)) == Ok::<
            SubsonicResponseModel,
            ErrorModel,
        >(SubsonicResponseModel::Json(json_text(told.1))),
        is_ok_with(told.1, "album"@, told.2),
        album_object_told(told.2, album),
{
    let tag = lemma_album_tag(album);
    lemma_brings_tag(album_xml(album), tag);
    lemma_document(album_xml(album), seq![tag]);
    assert(tags(xml_document(album_xml(album))).subrange(3, 4)[0] == tags(
        xml_document(album_xml(album)),
    )[3]);
    reveal_strlit("album");
    reveal_strlit("status");
    reveal_strlit("version");
    assert("album"@.len() == 5);
    assert("status"@.len() == 6);
    assert("version"@.len() == 7);
    lemma_album_object(album);
    lemma_ok_with("album"@, Json::Object(album_json(album)));
    (
        xml_document(album_xml(album)),
        json_document(crate::render::single("album"@, Json::Object(album_json(album)))),
        Json::Object(album_json(album)),
    )
}

/// Whether tags tell of artists, albums and songs, in this order and each in the order of its row, one tag
/// for each of them.
pub open spec fn hits_told(
    inner: Seq<Seq<char>>,
    artists: Seq<ArtistModel>,
    albums: Seq<AlbumModel>,
    tracks: Seq<TrackModel>,
) -> bool {
    &&& inner.len() == artists.len() + albums.len() + tracks.len()
    &&& forall|i: int| 0 <= i < artists.len() ==> artist_hit_told(inner[i], #[trigger] artists[i])
    &&& forall|i: int|
        0 <= i < albums.len() ==> album_hit_told(inner[artists.len() + i], #[trigger] albums[i])
    &&& forall|i: int|
        0 <= i < tracks.len() ==> song_hit_told(
            inner[artists.len() + albums.len() + i],
            #[trigger] tracks[i],
        )
}

/// Whether an object tells of artists, albums and songs, each in the order of its row, one object for each
/// of them.
pub open spec fn hits_object_told(
    hits: Json,
    artists: Seq<ArtistModel>,
    albums: Seq<AlbumModel>,
    tracks: Seq<TrackModel>,
) -> bool {
    &&& entry(hits, "artist"@) matches Some(row) && is_array(row, artists.len()) && forall|i: int|
        0 <= i < artists.len() ==> artist_object_told(item(row, i), #[trigger] artists[i])
    &&& entry(hits, "album"@) matches Some(row) && is_array(row, albums.len()) && forall|i: int|
        0 <= i < albums.len() ==> album_hit_object_told(item(row, i), #[trigger] albums[i])
    &&& entry(hits, "song"@) matches Some(row) && is_array(row, tracks.len()) && forall|i: int|
        0 <= i < tracks.len() ==> song_hit_object_told(item(row, i), #[trigger] tracks[i])
}

proof fn lemma_hits(
    artists: Seq<ArtistModel>,
    albums: Seq<AlbumModel>,
    tracks: Seq<TrackModel>,
) -> (inner: Seq<Seq<char>>)
    ensures
        brings(hits_xml(artists, albums, tracks), inner),
        hits_told(inner, artists, albums, tracks),
{
    let x = lemma_artist_hits(artists);
    let y = lemma_album_hits(albums);
    let z = lemma_song_hits(tracks);
    lemma_brings_two(artist_hits_xml(artists), x, album_hits_xml(albums), y);
    lemma_brings_two(
        artist_hits_xml(artists) + album_hits_xml(albums),
        x + y,
        song_hits_xml(tracks),
        z,
    );
    let inner = x + y + z;
    assert forall|i: int| 0 <= i < artists.len() implies artist_hit_told(
        inner[i],
        #[trigger] artists[i],
    ) by {
        assert(inner[i] == x[i]);
    }
    assert forall|i: int| 0 <= i < albums.len() implies album_hit_told(
        inner[artists.len() + i],
        #[trigger] albums[i],
    ) by {
        assert(inner[artists.len() + i] == y[i]);
    }
    assert forall|i: int| 0 <= i < tracks.len() implies song_hit_told(
        inner[artists.len() + albums.len() + i],
        #[trigger] tracks[i],
    ) by {
        assert(inner[artists.len() + albums.len() + i] == z[i]);
    }
    inner
}

proof fn lemma_hits_object(
    artists: Seq<ArtistModel>,
    albums: Seq<AlbumModel>,
    tracks: Seq<TrackModel>,
)
    ensures
        hits_object_told(
            Json::Object(hits_json(artists, albums, tracks)),
            artists,
            albums,
            tracks,
        ),
{
    reveal_strlit("artist");
    reveal_strlit("album");
    reveal_strlit("song");
    assert("artist"@.len() == 6);
    assert("album"@.len() == 5);
    assert("song"@.len() == 4);
    assert forall|i: int| 0 <= i < artists.len() implies artist_object_told(
        item(crate::render::artists_json(artists), i),
        #[trigger] artists[i],
    ) by {
        lemma_artist_object(artists[i]);
    }
    assert forall|i: int| 0 <= i < albums.len() implies album_hit_object_told(
        item(crate::render::albums_json(albums), i),
        #[trigger] albums[i],
    ) by {
        lemma_album_hit_object(albums[i]);
    }
    assert forall|i: int| 0 <= i < tracks.len() implies song_hit_object_told(
        item(crate::render::songs_json(tracks), i),
        #[trigger] tracks[i],
    ) by {
        lemma_song_hit_object(tracks[i]);
    }
}

/// The tags of a response between those of an element that holds them.
pub open spec fn holds_inside(
    document: Seq<char>,
    open: Seq<char>,
    inner: Seq<Seq<char>>,
    close: Seq<char>,
) -> bool {
    &&& tags(document).len() == inner.len() + 6
    &&& response_tag(tags(document)[2], "ok"@)
    &&& tags(document)[3] == open
    &&& forall|i: int| 0 <= i < inner.len() ==> tags(document)[4 + i] == #[trigger] inner[i]
    &&& tags(document)[(4 + inner.len()) as int] == close
}

proof fn lemma_holds_inside(
    body: Seq<char>,
    opening: Seq<char>,
    open: Seq<char>,
    middle: Seq<char>,
    inner: Seq<Seq<char>>,
    closing: Seq<char>,
    close: Seq<char>,
)
    requires
        body == opening + middle + closing,
        brings(opening, seq![open]),
        brings(middle, inner),
        brings(closing, seq![close]),
    ensures
        holds_inside(xml_document(body), open, inner, close),
{
    lemma_brings_two(opening, seq![open], middle, inner);
    lemma_brings_two(opening + middle, seq![open] + inner, closing, seq![close]);
    let all = seq![open] + inner + seq![close];
    lemma_document(body, all);
    let document = xml_document(body);
    assert forall|i: int| 0 <= i < all.len() implies tags(document)[3 + i] == all[i] by {
        assert(tags(document).subrange(3, (3 + all.len()) as int)[i] == all[i]);
    }
    assert(tags(document)[3] == all[0]);
    assert forall|i: int| 0 <= i < inner.len() implies tags(document)[4 + i]
        == #[trigger] inner[i] by {
        assert(all[i + 1] == inner[i]);
        assert(tags(document)[3 + (i + 1)] == all[i + 1]);
    }
    assert(tags(document)[(3 + (inner.len() + 1)) as int] == all[(inner.len() + 1) as int]);
}

/// The response to a request for what is starred tells of each artist, each album and each track that is
/// starred, in their order, one element for each.
pub proof fn law_starred_items_are_told(starred: StarredSetModel) -> (
    told: (Seq<char>, Seq<Seq<char>>, Json, Json)
)
    ensures
        starred_reply(ResponseFormat::Xml, BackendResponseModel::Starred(starred)) == Ok::<
            SubsonicResponseModel,
            ErrorModel,
        >(SubsonicResponseModel::Xml(told.0)),
        holds_inside(told.0, "starred2>"@, told.1, "/starred2>"@),
        hits_told(told.1, starred.artists, starred.albums, starred.tracks),
        starred_reply(ResponseFormat::Json, BackendResponseModel::Starred(starred)) == Ok::<
            SubsonicResponseModel,
            ErrorModel,
        >(SubsonicResponseModel::Json(json_text(told.2))),
        is_ok_with(told.2, "starred2"@, told.3),
        hits_object_told(told.3, starred.artists, starred.albums, starred.tracks),
{
    let inner = lemma_hits(starred.artists, starred.albums, starred.tracks);
    lemma_open_starred2();
    lemma_close_starred2();
    let body = "<starred2>"@ + hits_xml(starred.artists, starred.albums, starred.tracks) + "</starred2>"@;
    lemma_holds_inside(
        body,
        "<starred2>"@,
        "starred2>"@,
        hits_xml(starred.artists, starred.albums, starred.tracks),
        inner,
        "</starred2>"@,
        "/starred2>"@,
    );
    lemma_hits_object(starred.artists, starred.albums, starred.tracks);
    reveal_strlit("starred2");
    reveal_strlit("status");
    reveal_strlit("version");
    assert("starred2"@.len() == 8);
    assert("status"@.len() == 6);
    assert("version"@.len() == 7);
    let hits = Json::Object(hits_json(starred.artists, starred.albums, starred.tracks));
    lemma_ok_with("starred2"@, hits);
    (xml_document(body), inner, json_document(crate::render::single("starred2"@, hits)), hits)
}

/// The response to a search tells of each artist, each album and each track that was found, in their
/// order, one element for each.
pub proof fn law_search_hits_are_told(artists: Seq<ArtistModel>,
    albums: Seq<AlbumModel>,
    tracks: Seq<TrackModel>,) -> (told: (Seq<char>, Seq<Seq<char>>, Json, Json))
    ensures
        search_reply(
            ResponseFormat::Xml,
            BackendResponseModel::SearchResults { artists, albums, tracks },
        )
            == Ok::<
            SubsonicResponseModel,
            ErrorModel,
        >(SubsonicResponseModel::Xml(told.0)),
        holds_inside(told.0, "searchResult3>"@, told.1, "/searchResult3>"@),
        hits_told(told.1, artists, albums, tracks),
        search_reply(
            ResponseFormat::Json,
            BackendResponseModel::SearchResults { artists, albums, tracks },
        )
            == Ok::<
            SubsonicResponseModel,
            ErrorModel,
        >(SubsonicResponseModel::Json(json_text(told.2))),
        is_ok_with(told.2, "searchResult3"@, told.3),
        hits_object_told(told.3, artists, albums, tracks),
{
    let inner = lemma_hits(artists, albums, tracks);
    lemma_open_searchresult3();
    lemma_close_searchresult3();
    let body = "<searchResult3>"@ + hits_xml(artists, albums, tracks) + "</searchResult3>"@;
    lemma_holds_inside(
        body,
        "<searchResult3>"@,
        "searchResult3>"@,
        hits_xml(artists, albums, tracks),
        inner,
        "</searchResult3>"@,
        "/searchResult3>"@,
    );
    lemma_hits_object(artists, albums, tracks);
    reveal_strlit("searchResult3");
    reveal_strlit("status");
    reveal_strlit("version");
    assert("searchResult3"@.len() == 13);
    assert("status"@.len() == 6);
    assert("version"@.len() == 7);
    let hits = Json::Object(hits_json(artists, albums, tracks));
    lemma_ok_with("searchResult3"@, hits);
    (xml_document(body), inner, json_document(crate::render::single("searchResult3"@, hits)), hits)
}

/// The response to a request for a directory tells of the directory, and of each of its entries in their
/// order, one element for each.
pub proof fn law_directory_is_told(
    id: Seq<char>,
    name: Seq<char>,
    parent: Option<Seq<char>>,
    children: Seq<DirectoryChildModel>,
) -> (told: (Seq<char>, Seq<char>, Seq<Seq<char>>, Json, Json))
    ensures
        directory_reply(ResponseFormat::Xml, id, name, parent, children)
            == SubsonicResponseModel::Xml(told.0),
        holds_inside(told.0, told.1, told.2, "/directory>"@),
        directory_told(told.1, (id, name, parent)),
        told.2.len() == children.len(),
        forall|i: int| 0 <= i < children.len() ==> child_told(told.2[i], #[trigger] children[i]),
        directory_reply(ResponseFormat::Json, id, name, parent, children)
            == SubsonicResponseModel::Json(json_text(told.3)),
        is_ok_with(told.3, "directory"@, told.4),
        entry(told.4, "id"@) == Some(Json::Text(id)),
        entry(told.4, "name"@) == Some(Json::Text(name)),
        entry(told.4, "parent"@) == (match parent {
            Some(parent) => Some(Json::Text(parent)),
            None => None,
        }),
        entry(told.4, "child"@) matches Some(row) && is_array(row, children.len()) && forall|i: int|
            0 <= i < children.len() ==> child_object_told(item(row, i), #[trigger] children[i]),
{
    let open = lemma_directory_tag((id, name, parent));
    lemma_brings_tag(directory_open((id, name, parent)), open);
    let inner = lemma_children(children);
    lemma_close_directory();
    let opening = directory_open((id, name, parent));
    let body = opening + children_xml(children) + "</directory>"@;
    lemma_holds_inside(
        body,
        opening,
        open,
        children_xml(children),
        inner,
        "</directory>"@,
        "/directory>"@,
    );
    assert forall|i: int| 0 <= i < children.len() implies child_told(
        inner[i],
        #[trigger] children[i],
    ) by {}
    assert forall|i: int| 0 <= i < children.len() implies child_object_told(
        item(crate::render::children_json(children), i),
        #[trigger] children[i],
    ) by {
        lemma_child_object(children[i]);
    }
    reveal_strlit("directory");
    reveal_strlit("status");
    reveal_strlit("version");
    reveal_strlit("id");
    reveal_strlit("name");
    reveal_strlit("parent");
    reveal_strlit("child");
    assert("directory"@.len() == 9);
    assert("status"@.len() == 6 && "status"@[0] == 's');
    assert("version"@.len() == 7);
    assert("id"@.len() == 2);
    assert("name"@.len() == 4);
    assert("parent"@.len() == 6 && "parent"@[0] == 'p');
    assert("child"@.len() == 5);
    let directory = Json::Object(
        crate::render::with_text(
            crate::json::no_entries().insert("id"@, Json::Text(id)).insert(
                "name"@,
                Json::Text(name),
            ),
            "parent"@,
            parent,
        ).insert("child"@, crate::render::children_json(children)),
    );
    lemma_ok_with("directory"@, directory);
    (
        xml_document(body),
        open,
        inner,
        json_document(crate::render::single("directory"@, directory)),
        directory,
    )
}

proof fn lemma_index(artist: ArtistModel) -> (inner: Seq<Seq<char>>)
    ensures
        brings(index_xml(artist), inner),
        inner.len() == 3,
        index_told(inner[0], artist.name),
        artist_hit_told(inner[1], artist),
        inner[2] == "/index>"@,
{
    let open = lemma_index_tag(artist.name);
    lemma_brings_tag(index_open(artist.name), open);
    let tag = lemma_artist_hit_tag(artist);
    lemma_brings_tag(artist_hit_xml(artist), tag);
    lemma_close_index();
    lemma_brings_two(index_open(artist.name), seq![open], artist_hit_xml(artist), seq![tag]);
    lemma_brings_two(
        index_open(artist.name) + artist_hit_xml(artist),
        seq![open] + seq![tag],
        "</index>"@,
        seq!["/index>"@],
    );
    assert(index_xml(artist) =~= index_open(artist.name) + artist_hit_xml(artist) + "</index>"@) by {
        reveal_strlit("\"><artist id=\"");
        reveal_strlit("\">");
        reveal_strlit("<artist id=\"");
        reveal_strlit("\" /></index>");
        reveal_strlit("\" />");
        reveal_strlit("</index>");
    }
    seq![open] + seq![tag] + seq!["/index>"@]
}

proof fn lemma_indexes(items: Seq<ArtistModel>) -> (inner: Seq<Seq<char>>)
    ensures
        brings(indexes_xml(items), inner),
        inner.len() == 3 * items.len(),
        forall|i: int|
            0 <= i < items.len() ==> index_told(inner[3 * i], (#[trigger] items[i]).name)
                && artist_hit_told(inner[3 * i + 1], items[i]) && inner[3 * i + 2] == "/index>"@,
    decreases items.len(),
{
    if items.len() == 0 {
        lemma_brings_none(indexes_xml(items));
        Seq::empty()
    } else {
        let before = lemma_indexes(items.drop_last());
        let last = lemma_index(items.last());
        lemma_brings_two(indexes_xml(items.drop_last()), before, index_xml(items.last()), last);
        let inner = before + last;
        assert forall|i: int| 0 <= i < items.len() implies index_told(
            inner[3 * i],
            (#[trigger] items[i]).name,
        ) && artist_hit_told(inner[3 * i + 1], items[i]) && inner[3 * i + 2] == "/index>"@ by {
            if i < items.len() - 1 {
                assert(items.drop_last()[i] == items[i]);
                assert(inner[3 * i] == before[3 * i]);
                assert(inner[3 * i + 1] == before[3 * i + 1]);
                assert(inner[3 * i + 2] == before[3 * i + 2]);
            } else {
                assert(inner[3 * i] == last[0]);
                assert(inner[3 * i + 1] == last[1]);
                assert(inner[3 * i + 2] == last[2]);
            }
        }
        inner
    }
}

/// The response to a request for the artists tells of each artist, in their order, in an index of its own.
pub proof fn law_artists_are_told(artists: Seq<ArtistModel>) -> (told: (
    Seq<char>,
    Seq<Seq<char>>,
    Json,
    Json,
))
    ensures
        artists_reply(ResponseFormat::Xml, BackendResponseModel::Artists(artists)) == Ok::<
            SubsonicResponseModel,
            ErrorModel,
        >(SubsonicResponseModel::Xml(told.0)),
        holds_inside(told.0, "artists>"@, told.1, "/artists>"@),
        told.1.len() == 3 * artists.len(),
        forall|i: int|
            0 <= i < artists.len() ==> index_told(told.1[3 * i], (#[trigger] artists[i]).name)
                && artist_hit_told(told.1[3 * i + 1], artists[i]) && told.1[3 * i + 2]
                == "/index>"@,
        artists_reply(ResponseFormat::Json, BackendResponseModel::Artists(artists)) == Ok::<
            SubsonicResponseModel,
            ErrorModel,
        >(SubsonicResponseModel::Json(json_text(told.2))),
        is_ok_with(told.2, "artists"@, told.3),
        entry(told.3, "index"@) matches Some(row) && is_array(row, artists.len()) && forall|i: int|
            0 <= i < artists.len() ==> entry(item(row, i), "name"@) == Some(
                Json::Text((#[trigger] artists[i]).name),
            ) && (entry(item(row, i), "artist"@) matches Some(inside) && is_array(inside, 1)
                && artist_object_told(item(inside, 0), artists[i])),
{
    let inner = lemma_indexes(artists);
    lemma_open_artists();
    lemma_close_artists();
    let body = "<artists>"@ + indexes_xml(artists) + "</artists>"@;
    lemma_holds_inside(
        body,
        "<artists>"@,
        "artists>"@,
        indexes_xml(artists),
        inner,
        "</artists>"@,
        "/artists>"@,
    );
    reveal_strlit("artists");
    reveal_strlit("status");
    reveal_strlit("version");
    reveal_strlit("index");
    reveal_strlit("name");
    reveal_strlit("artist");
    assert("artists"@.len() == 7 && "artists"@[0] == 'a');
    assert("status"@.len() == 6 && "status"@[0] == 's');
    assert("version"@.len() == 7 && "version"@[0] == 'v');
    assert("index"@.len() == 5);
    assert("name"@.len() == 4);
    assert("artist"@.len() == 6 && "artist"@[0] == 'a');
    let row = crate::render::indexes_json(artists);
    assert forall|i: int| 0 <= i < artists.len() implies entry(item(row, i), "name"@) == Some(
        Json::Text((#[trigger] artists[i]).name),
    ) && (entry(item(row, i), "artist"@) matches Some(inside) && is_array(inside, 1)
        && artist_object_told(item(inside, 0), artists[i])) by {
        lemma_artist_object(artists[i]);
    }
    let indexes = Json::Object(crate::render::single("index"@, row));
    lemma_ok_with("artists"@, indexes);
    (xml_document(body), inner, json_document(crate::render::single("artists"@, indexes)), indexes)
}

proof fn lemma_group(group: (Seq<char>, Seq<IndexArtistModel>)) -> (inner: Seq<Seq<char>>)
    ensures
        brings(group_xml(group), inner),
        group_told(inner, group.0, group.1),
{
    let open = lemma_index_tag(group.0);
    lemma_brings_tag(index_open(group.0), open);
    let tags = lemma_all_indexed(group.1);
    lemma_close_index();
    lemma_brings_two(index_open(group.0), seq![open], all_indexed_xml(group.1), tags);
    lemma_brings_two(
        index_open(group.0) + all_indexed_xml(group.1),
        seq![open] + tags,
        "</index>"@,
        seq!["/index>"@],
    );
    let inner = seq![open] + tags + seq!["/index>"@];
    assert forall|i: int| 0 <= i < group.1.len() implies indexed_told(
        inner[i + 1],
        #[trigger] group.1[i],
    ) by {
        assert(inner[i + 1] == tags[i]);
    }
    inner
}

/// Whether tags tell of an index by its name and of its artists in their order.
pub open spec fn group_told(
    inner: Seq<Seq<char>>,
    name: Seq<char>,
    artists: Seq<IndexArtistModel>,
) -> bool {
    &&& inner.len() == artists.len() + 2
    &&& index_told(inner[0], name)
    &&& forall|i: int| 0 <= i < artists.len() ==> indexed_told(inner[i + 1], #[trigger] artists[i])
    &&& inner[(artists.len() + 1) as int] == "/index>"@
}

proof fn lemma_groups(groups: Seq<(Seq<char>, Seq<IndexArtistModel>)>) -> (inner: Seq<
    Seq<Seq<char>>,
>)
    ensures
        brings(groups_xml(groups), inner.flatten()),
        inner.len() == groups.len(),
        forall|k: int|
            0 <= k < groups.len() ==> group_told(
                inner[k],
                (#[trigger] groups[k]).0,
                groups[k].1,
            ),
    decreases groups.len(),
{
    if groups.len() == 0 {
        lemma_brings_none(groups_xml(groups));
        let none = Seq::<Seq<Seq<char>>>::empty();
        assert(none.flatten() =~= Seq::<Seq<char>>::empty());
        none
    } else {
        let before = lemma_groups(groups.drop_last());
        let last = lemma_group(groups.last());
        lemma_brings_two(
            groups_xml(groups.drop_last()),
            before.flatten(),
            group_xml(groups.last()),
            last,
        );
        let inner = before.push(last);
        before.lemma_flatten_push(last);
        assert forall|k: int| 0 <= k < groups.len() implies group_told(
            inner[k],
            (#[trigger] groups[k]).0,
            groups[k].1,
        ) by {
            if k < groups.len() - 1 {
                assert(groups.drop_last()[k] == groups[k]);
            }
        }
        inner
    }
}

/// The response to a request for the indexes tells of each index by its name and of the artists in it, in
/// their order.
pub proof fn law_indexes_are_told(artists: Seq<ArtistModel>) -> (told: (
    Seq<char>,
    Seq<Seq<Seq<char>>>,
    Json,
    Json,
))
    ensures
        indexes_reply(ResponseFormat::Xml, BackendResponseModel::Artists(artists)) == Ok::<
            SubsonicResponseModel,
            ErrorModel,
        >(SubsonicResponseModel::Xml(told.0)),
        holds_inside(
            told.0,
            "indexes lastModified=\"0\" ignoredArticles=\"\">"@,
            told.1.flatten(),
            "/indexes>"@,
        ),
        told.1.len() == ordered_groups(artists).len(),
        forall|k: int|
            0 <= k < told.1.len() ==> group_told(
                #[trigger] told.1[k],
                ordered_groups(artists)[k].0,
                ordered_groups(artists)[k].1,
            ),
        indexes_reply(ResponseFormat::Json, BackendResponseModel::Artists(artists)) == Ok::<
            SubsonicResponseModel,
            ErrorModel,
        >(SubsonicResponseModel::Json(json_text(told.2))),
        is_ok_with(told.2, "indexes"@, told.3),
        entry(told.3, "lastModified"@) == Some(Json::Number(0)),
        entry(told.3, "ignoredArticles"@) == Some(Json::Text(""@)),
        entry(told.3, "index"@) matches Some(row) && is_array(row, ordered_groups(artists).len())
            && forall|k: int|
            0 <= k < ordered_groups(artists).len() ==> entry(item(row, k), "name"@) == Some(
                Json::Text((#[trigger] ordered_groups(artists)[k]).0),
            ) && (entry(item(row, k), "artist"@) matches Some(inside) && is_array(
                inside,
                ordered_groups(artists)[k].1.len(),
            ) && forall|i: int|
                0 <= i < ordered_groups(artists)[k].1.len() ==> indexed_object_told(
                    item(inside, i),
                    #[trigger] ordered_groups(artists)[k].1[i],
                )),
{
    let groups = ordered_groups(artists);
    let inner = lemma_groups(groups);
    lemma_open_indexes();
    lemma_close_indexes();
    let opening = "<indexes lastModified=\"0\" ignoredArticles=\"\">"@;
    let body = opening + groups_xml(groups) + "</indexes>"@;
    lemma_holds_inside(
        body,
        opening,
        "indexes lastModified=\"0\" ignoredArticles=\"\">"@,
        groups_xml(groups),
        inner.flatten(),
        "</indexes>"@,
        "/indexes>"@,
    );
    assert forall|k: int| 0 <= k < inner.len() implies group_told(
        #[trigger] inner[k],
        groups[k].0,
        groups[k].1,
    ) by {
        assert(groups[k] == groups[k]);
    }
    reveal_strlit("indexes");
    reveal_strlit("status");
    reveal_strlit("version");
    reveal_strlit("index");
    reveal_strlit("name");
    reveal_strlit("artist");
    reveal_strlit("lastModified");
    reveal_strlit("ignoredArticles");
    assert("indexes"@.len() == 7 && "indexes"@[0] == 'i');
    assert("status"@.len() == 6 && "status"@[0] == 's');
    assert("version"@.len() == 7 && "version"@[0] == 'v');
    assert("index"@.len() == 5);
    assert("name"@.len() == 4);
    assert("artist"@.len() == 6 && "artist"@[0] == 'a');
    assert("lastModified"@.len() == 12);
    assert("ignoredArticles"@.len() == 15);
    let row = Json::Array(
        groups.map_values(|group: (Seq<char>, Seq<IndexArtistModel>)| group_json(group)),
    );
    assert forall|k: int| 0 <= k < groups.len() implies entry(item(row, k), "name"@) == Some(
        Json::Text((#[trigger] groups[k]).0),
    ) && (entry(item(row, k), "artist"@) matches Some(inside) && is_array(inside, groups[k].1.len())
        && forall|i: int|
        0 <= i < groups[k].1.len() ==> indexed_object_told(
            item(inside, i),
            #[trigger] groups[k].1[i],
        )) by {
        assert(item(row, k) == group_json(groups[k]));
        let inside = crate::render::all_indexed_json(groups[k].1);
        assert forall|i: int| 0 <= i < groups[k].1.len() implies indexed_object_told(
            item(inside, i),
            #[trigger] groups[k].1[i],
        ) by {
            lemma_indexed_object(groups[k].1[i]);
        }
    }
    let indexes = Json::Object(
        crate::json::no_entries().insert("lastModified"@, Json::Number(0)).insert(
            "ignoredArticles"@,
            Json::Text(""@),
        ).insert("index"@, row),
    );
    lemma_ok_with("indexes"@, indexes);
    (xml_document(body), inner, json_document(crate::render::single("indexes"@, indexes)), indexes)
}

/// The response that says no more than that all is well holds nothing else.
pub proof fn law_empty_response_is_ok() -> (told: (Seq<char>, Json))
    ensures
        empty_reply(ResponseFormat::Xml) == SubsonicResponseModel::Xml(told.0),
        tags(told.0).len() == 4,
        response_tag(tags(told.0)[2], "ok"@),
        empty_reply(ResponseFormat::Json) == SubsonicResponseModel::Json(json_text(told.1)),
        entry(told.1, "subsonic-response"@) matches Some(envelope) && entry(envelope, "status"@)
            == Some(Json::Text("ok"@)) && entry(envelope, "version"@) == Some(
            Json::Text("1.16.1"@),
        ),
{
    reveal_strlit("");
    lemma_brings_none(""@);
    lemma_document(""@, Seq::empty());
    reveal_strlit("status");
    reveal_strlit("version");
    assert("status"@.len() == 6);
    assert("version"@.len() == 7);
    (xml_document(""@), json_document(crate::json::no_entries()))
}

/// A message is told as it is.
pub proof fn law_message_is_told(message: Seq<char>) -> (told: (Seq<char>, Json))
    ensures
        message_reply(ResponseFormat::Xml, message) == SubsonicResponseModel::Xml(told.0),
        tags(told.0).len() == 6,
        response_tag(tags(told.0)[2], "ok"@),
        tags(told.0)[3] == "message>"@ + escaped(message),
        unescaped(escaped(message)) == message,
        message_reply(ResponseFormat::Json, message) == SubsonicResponseModel::Json(
            json_text(told.1),
        ),
        is_ok_with(told.1, "message"@, Json::Text(message)),
{
    law_escaped_text_is_read_back(message);
    lemma_escaped_clean(message);
    lemma_close_message();
    let tag = "message>"@ + escaped(message);
    let opening = "<message>"@ + escaped(message);
    reveal_strlit("<message>");
    reveal_strlit("message>");
    assert("message>"@ =~= seq!['m', 'e', 's', 's', 'a', 'g', 'e', '>']);
    assert(opening =~= seq!['<'] + tag);
    assert forall|i: int| 0 <= i < tag.len() implies #[trigger] tag[i] != '<' by {
        if i < 8 {
            assert(tag[i] == "message>"@[i]);
        } else {
            assert(tag[i] == escaped(message)[i - 8]);
        }
    }
    lemma_brings_tag(opening, tag);
    lemma_brings_two(opening, seq![tag], "</message>"@, seq!["/message>"@]);
    let body = "<message>"@ + escaped(message) + "</message>"@;
    lemma_document(body, seq![tag] + seq!["/message>"@]);
    assert(tags(xml_document(body)).subrange(3, 5)[0] == tags(xml_document(body))[3]);
    reveal_strlit("message");
    reveal_strlit("status");
    reveal_strlit("version");
    assert("message"@.len() == 7 && "message"@[0] == 'm');
    assert("status"@.len() == 6);
    assert("version"@.len() == 7 && "version"@[0] == 'v');
    lemma_ok_with("message"@, Json::Text(message));
    (
        xml_document(body),
        json_document(crate::render::single("message"@, Json::Text(message))),
    )
}

/// Whether a name is that of the index in which an artist stands: the first character of the name of the
/// artist in upper case, or `#` where the artist has no name.
pub open spec fn stands_under(artist: ArtistModel, name: Seq<char>) -> bool {
    (artist.name.len() > 0 && name.len() == 1 && name[0] == upper_char(artist.name[0])) || (
    artist.name.len() == 0 && name == "#"@)
}

/// What an index says of an artist.
pub open spec fn is_indexed_as(artist: ArtistModel, indexed: IndexArtistModel) -> bool {
    indexed.id == artist.id && indexed.name == artist.name
}

/// One more artist joins the index it stands under, behind those that stand there, and no other index
/// changes.
pub proof fn law_artist_joins_its_index(
    artists: Seq<ArtistModel>,
    artist: ArtistModel,
    name: Seq<char>,
)
    ensures
        grouped(Seq::<ArtistModel>::empty()).dom() =~= Set::empty(),
        ({
            let before = grouped(artists);
            let after = grouped(artists.push(artist));
            &&& !stands_under(artist, name) ==> after.dom().contains(name) == before.dom().contains(
                name,
            )
            &&& !stands_under(artist, name) && before.dom().contains(name) ==> after[name]
                == before[name]
            &&& stands_under(artist, name) ==> after.dom().contains(name) && after[name].len() == (
            if before.dom().contains(name) {
                before[name].len()
            } else {
                0
            }) + 1 && is_indexed_as(artist, after[name].last())
            &&& stands_under(artist, name) && before.dom().contains(name)
                ==> after[name].drop_last() == before[name]
        }),
{
    let all = artists.push(artist);
    assert(all.drop_last() =~= artists);
    assert(all.last() == artist);
    if stands_under(artist, name) {
        if artist.name.len() > 0 {
            assert(name =~= seq![upper_char(artist.name[0])]);
        }
        assert(name == index_name(artist.name));
        assert(grouped(all)[name].drop_last() =~= or_empty(found(grouped(artists), name)));
    } else if name == index_name(artist.name) {
        assert(stands_under(artist, name));
    }
}

/// The indexes come in the order of their names, each once, with the artists that stand under the name.
pub proof fn law_indexes_come_in_order(artists: Seq<ArtistModel>)
    ensures
        ({
            let groups = ordered_groups(artists);
            &&& forall|k: int|
                0 <= k < groups.len() ==> grouped(artists).dom().contains((#[trigger] groups[k]).0)
                    && groups[k].1 == grouped(artists)[groups[k].0]
            &&& forall|j: int, k: int|
                0 <= j < k < groups.len() ==> text_less(
                    (#[trigger] groups[j]).0,
                    (#[trigger] groups[k]).0,
                )
            &&& forall|name: Seq<char>| #[trigger]
                grouped(artists).dom().contains(name) ==> exists|k: int|
                    0 <= k < groups.len() && (#[trigger] groups[k]).0 == name
        }),
{
    lemma_grouped_is_finite(artists);
    lemma_listing::<String, Seq<IndexArtistModel>>(grouped(artists));
    let groups = ordered_groups(artists);
    assert forall|k: int| 0 <= k < groups.len() implies grouped(artists).dom().contains(
        (#[trigger] groups[k]).0,
    ) && groups[k].1 == grouped(artists)[groups[k].0] by {
        lemma_map_of_entry::<String, Seq<IndexArtistModel>>(groups, k);
    }
    assert forall|j: int, k: int| 0 <= j < k < groups.len() implies text_less(
        (#[trigger] groups[j]).0,
        (#[trigger] groups[k]).0,
    ) by {
        assert(String::less(groups[j].0, groups[k].0));
    }
}

proof fn lemma_grouped_is_finite(artists: Seq<ArtistModel>)
    ensures
        grouped(artists).dom().finite(),
    decreases artists.len(),
{
    if artists.len() > 0 {
        lemma_grouped_is_finite(artists.drop_last());
    }
}

/// The license is valid, for nobody in particular and for ever.
#[verifier::spinoff_prover]
pub proof fn law_license_is_told() -> (told: (Seq<char>, Json, Json))
    ensures
        license_reply(ResponseFormat::Xml) == SubsonicResponseModel::Xml(told.0),
        tags(told.0).len() == 5,
        response_tag(tags(told.0)[2], "ok"@),
        attribute(tags(told.0)[3], "license"@, "valid"@) == Some("true"@),
        attribute(tags(told.0)[3], "license"@, "email"@) == Some(""@),
        attribute(tags(told.0)[3], "license"@, "licenseExpires"@) == Some(""@),
        license_reply(ResponseFormat::Json) == SubsonicResponseModel::Json(json_text(told.1)),
        is_ok_with(told.1, "license"@, told.2),
        entry(told.2, "valid"@) == Some(Json::Bool(true)),
        entry(told.2, "email"@) == Some(Json::Text(""@)),
        entry(told.2, "licenseExpires"@) == Some(Json::Text(""@)),
{
    let body = "<license valid=\"true\" email=\"\" licenseExpires=\"\" />"@;
    reveal_strlit("<license valid=\"true\" email=\"\" licenseExpires=\"\" />");
    reveal_strlit(" ");
    reveal_strlit("=\"");
    reveal_strlit("\"");
    reveal_strlit("license valid=\"true\" email=\"\" licenseExpires=\"\" />");
    assert(
        "license valid=\"true\" email=\"\" licenseExpires=\"\" />"@ =~= seq![
            'l', 'i', 'c', 'e', 'n', 's', 'e', ' ', 'v', 'a', 'l', 'i', 'd', '=', '"', 't', 'r',
            'u', 'e', '"', ' ', 'e', 'm', 'a', 'i', 'l', '=', '"', '"', ' ', 'l', 'i', 'c', 'e',
            'n', 's', 'e', 'E', 'x', 'p', 'i', 'r', 'e', 's', '=', '"', '"', ' ', '/', '>',
        ]
    );
    reveal_strlit("license");
    assert("license"@ =~= seq!['l', 'i', 'c', 'e', 'n', 's', 'e']);
    reveal_strlit(" />");
    assert(" />"@ =~= seq![' ', '/', '>']);
    reveal_strlit("valid");
    reveal_strlit("email");
    reveal_strlit("licenseExpires");
    assert("valid"@.len() == 5 && "valid"@[0] == 'v');
    assert("email"@.len() == 5 && "email"@[0] == 'e');
    assert("licenseExpires"@.len() == 14);
    assert("valid"@ =~= seq!['v', 'a', 'l', 'i', 'd']);
    reveal_strlit("true");
    assert("true"@ =~= seq!['t', 'r', 'u', 'e']);
    assert("email"@ =~= seq!['e', 'm', 'a', 'i', 'l']);
    reveal_strlit("");
    assert(
        "licenseExpires"@ =~= seq![
            'l', 'i', 'c', 'e', 'n', 's', 'e', 'E', 'x', 'p', 'i', 'r', 'e', 's',
        ]
    );
    reveal_strlit("");
    lemma_empty_row();
    let row0_0 = Seq::<char>::empty();
    lemma_row_push(row0_0, "valid"@, "true"@);
    let row0_1 = row0_0 + quoted("valid"@, "true"@);
    lemma_row_push(row0_1, "email"@, ""@);
    let row0_2 = row0_1 + quoted("email"@, ""@);
    lemma_row_push(row0_2, "licenseExpires"@, ""@);
    let row0_3 = row0_2 + quoted("licenseExpires"@, ""@);
    assert(
        "license valid=\"true\" email=\"\" licenseExpires=\"\" />"@ =~= "license"@ + row0_3 + " />"@
    );
    lemma_attribute_of(
        "license valid=\"true\" email=\"\" licenseExpires=\"\" />"@,
        "license"@,
        row0_3,
        " />"@,
        "valid"@,
    );
    lemma_attribute_of(
        "license valid=\"true\" email=\"\" licenseExpires=\"\" />"@,
        "license"@,
        row0_3,
        " />"@,
        "email"@,
    );
    lemma_attribute_of(
        "license valid=\"true\" email=\"\" licenseExpires=\"\" />"@,
        "license"@,
        row0_3,
        " />"@,
        "licenseExpires"@,
    );
    let tag0 = "license valid=\"true\" email=\"\" licenseExpires=\"\" />"@;
    let part0 = seq!['<'] + tag0;
    lemma_brings_tag(part0, tag0);
    assert(body =~= part0);
    lemma_document(body, seq![tag0]);
    let document = xml_document(body);
    assert(tags(document).subrange(3, 4)[0] == tags(document)[3]);
    reveal_strlit("license");
    reveal_strlit("status");
    reveal_strlit("version");
    reveal_strlit("valid");
    reveal_strlit("email");
    reveal_strlit("licenseExpires");
    assert("license"@.len() == 7 && "license"@[0] == 'l');
    assert("status"@.len() == 6);
    assert("version"@.len() == 7 && "version"@[0] == 'v');
    assert("valid"@.len() == 5 && "valid"@[0] == 'v');
    assert("email"@.len() == 5 && "email"@[0] == 'e');
    assert("licenseExpires"@.len() == 14);
    let license = Json::Object(
        crate::json::no_entries().insert("valid"@, Json::Bool(true)).insert(
            "email"@,
            Json::Text(""@),
        ).insert("licenseExpires"@, Json::Text(""@)),
    );
    lemma_ok_with("license"@, license);
    (document, json_document(crate::render::single("license"@, license)), license)
}

/// There is one music folder, and its name is `Music`.
#[verifier::spinoff_prover]
pub proof fn law_music_folders_are_told() -> (told: (Seq<char>, Json, Json))
    ensures
        folders_reply(ResponseFormat::Xml) == SubsonicResponseModel::Xml(told.0),
        tags(told.0).len() == 7,
        response_tag(tags(told.0)[2], "ok"@),
        attribute(tags(told.0)[4], "musicFolder"@, "id"@) == Some("1"@),
        attribute(tags(told.0)[4], "musicFolder"@, "name"@) == Some("Music"@),
        folders_reply(ResponseFormat::Json) == SubsonicResponseModel::Json(json_text(told.1)),
        is_ok_with(told.1, "musicFolders"@, told.2),
        entry(told.2, "musicFolder"@) matches Some(row) && is_array(row, 1) && entry(
            item(row, 0),
            "id"@,
        ) == Some(Json::Number(1)) && entry(item(row, 0), "name"@) == Some(Json::Text("Music"@)),
{
    let body = "<musicFolders><musicFolder id=\"1\" name=\"Music\" /></musicFolders>"@;
    reveal_strlit("<musicFolders><musicFolder id=\"1\" name=\"Music\" /></musicFolders>");
    reveal_strlit(" ");
    reveal_strlit("=\"");
    reveal_strlit("\"");
    reveal_strlit("musicFolders>");
    assert(
        "musicFolders>"@ =~= seq!['m', 'u', 's', 'i', 'c', 'F', 'o', 'l', 'd', 'e', 'r', 's', '>']
    );
    let tag0 = "musicFolders>"@;
    let part0 = seq!['<'] + tag0;
    lemma_brings_tag(part0, tag0);
    reveal_strlit("musicFolder id=\"1\" name=\"Music\" />");
    assert(
        "musicFolder id=\"1\" name=\"Music\" />"@ =~= seq![
            'm', 'u', 's', 'i', 'c', 'F', 'o', 'l', 'd', 'e', 'r', ' ', 'i', 'd', '=', '"', '1',
            '"', ' ', 'n', 'a', 'm', 'e', '=', '"', 'M', 'u', 's', 'i', 'c', '"', ' ', '/', '>',
        ]
    );
    reveal_strlit("musicFolder");
    assert("musicFolder"@ =~= seq!['m', 'u', 's', 'i', 'c', 'F', 'o', 'l', 'd', 'e', 'r']);
    reveal_strlit(" />");
    assert(" />"@ =~= seq![' ', '/', '>']);
    reveal_strlit("id");
    reveal_strlit("name");
    assert("id"@.len() == 2);
    assert("name"@.len() == 4);
    assert("id"@ =~= seq!['i', 'd']);
    reveal_strlit("1");
    assert("1"@ =~= seq!['1']);
    assert("name"@ =~= seq!['n', 'a', 'm', 'e']);
    reveal_strlit("Music");
    assert("Music"@ =~= seq!['M', 'u', 's', 'i', 'c']);
    lemma_empty_row();
    let row1_0 = Seq::<char>::empty();
    lemma_row_push(row1_0, "id"@, "1"@);
    let row1_1 = row1_0 + quoted("id"@, "1"@);
    lemma_row_push(row1_1, "name"@, "Music"@);
    let row1_2 = row1_1 + quoted("name"@, "Music"@);
    assert("musicFolder id=\"1\" name=\"Music\" />"@ =~= "musicFolder"@ + row1_2 + " />"@);
    lemma_attribute_of(
        "musicFolder id=\"1\" name=\"Music\" />"@,
        "musicFolder"@,
        row1_2,
        " />"@,
        "id"@,
    );
    lemma_attribute_of(
        "musicFolder id=\"1\" name=\"Music\" />"@,
        "musicFolder"@,
        row1_2,
        " />"@,
        "name"@,
    );
    let tag1 = "musicFolder id=\"1\" name=\"Music\" />"@;
    let part1 = seq!['<'] + tag1;
    lemma_brings_tag(part1, tag1);
    lemma_brings_two(part0, seq![tag0], part1, seq![tag1]);
    reveal_strlit("/musicFolders>");
    assert(
        "/musicFolders>"@ =~= seq![
            '/', 'm', 'u', 's', 'i', 'c', 'F', 'o', 'l', 'd', 'e', 'r', 's', '>',
        ]
    );
    let tag2 = "/musicFolders>"@;
    let part2 = seq!['<'] + tag2;
    lemma_brings_tag(part2, tag2);
    lemma_brings_two(part0 + part1, seq![tag0] + seq![tag1], part2, seq![tag2]);
    assert(body =~= part0 + part1 + part2);
    lemma_document(body, seq![tag0] + seq![tag1] + seq![tag2]);
    let document = xml_document(body);
    assert(tags(document).subrange(3, 6)[0] == tags(document)[3]);
    assert(tags(document).subrange(3, 6)[1] == tags(document)[4]);
    assert(tags(document).subrange(3, 6)[2] == tags(document)[5]);
    reveal_strlit("musicFolders");
    reveal_strlit("musicFolder");
    reveal_strlit("status");
    reveal_strlit("version");
    reveal_strlit("id");
    reveal_strlit("name");
    assert("musicFolders"@.len() == 12);
    assert("musicFolder"@.len() == 11);
    assert("status"@.len() == 6);
    assert("version"@.len() == 7);
    assert("id"@.len() == 2);
    assert("name"@.len() == 4);
    let folder = Json::Object(
        crate::json::no_entries().insert("id"@, Json::Number(1)).insert(
            "name"@,
            Json::Text("Music"@),
        ),
    );
    let folders = Json::Object(crate::render::single("musicFolder"@, Json::Array(seq![folder])));
    lemma_ok_with("musicFolders"@, folders);
    (document, json_document(crate::render::single("musicFolders"@, folders)), folders)
}

} // verus!
