//! The responses that Subsonic clients get, in XML and in JSON.

use vstd::prelude::*;

use crate::duplicate::Duplicate;
use crate::error::{invalid_request, outcome, Error, ErrorModel};
use crate::json::{
    all_json, append, array_value, bool_value, entries_of, insert, json_of, json_text, new_map,
    no_entries, null_value, number_value, object_value, text_value, value_text, Json,
};
use crate::models::{
    first_value, query_value, IndexArtist, IndexArtistModel, RequestContext, RequestContextModel,
};
use crate::ordered_map::{listing, OrderedMap};
use crate::protocol::{
    Album, AlbumModel, Artist, ArtistModel, BackendResponse, BackendResponseModel, CoverArtId,
    StreamDescriptor, Track, TrackModel,
};
use crate::server::found;
use crate::text::{
    chars_of, decimal, decimal_text, push_text, same_text, signed_decimal, signed_decimal_text,
    to_upper, upper_char,
};
use crate::utf8::copy_bytes;
use crate::xml::{
    attr, escaped, failure_xml, number_attr, optional_attr, optional_number_attr, wrap_xml,
    xml_document, xml_escape, xml_failure,
};

verus! {

/// What a Subsonic client gets.
#[derive(Debug)]
pub enum SubsonicResponse {
    Xml(String),
    Json(String),
    Binary { content_type: String, bytes: Vec<u8> },
    /// What the backend streams after its answer.
    Stream { content_type: String, content_length: Option<u64> },
}

/// The mathematical value of a [`SubsonicResponse`].
pub enum SubsonicResponseModel {
    Xml(Seq<char>),
    Json(Seq<char>),
    Binary { content_type: Seq<char>, bytes: Seq<u8> },
    Stream { content_type: Seq<char>, content_length: Option<u64> },
}

impl DeepView for SubsonicResponse {
    type V = SubsonicResponseModel;

    open spec fn deep_view(&self) -> SubsonicResponseModel {
        match self {
            SubsonicResponse::Xml(x) => SubsonicResponseModel::Xml(x@),
            SubsonicResponse::Json(x) => SubsonicResponseModel::Json(x@),
            SubsonicResponse::Binary { content_type, bytes } => SubsonicResponseModel::Binary {
                content_type: content_type@,
                bytes: bytes@,
            },
            SubsonicResponse::Stream { content_type, content_length } => SubsonicResponseModel::Stream {
                content_type: content_type@,
                content_length: *content_length,
            },
        }
    }
}

impl Duplicate for SubsonicResponse {
    fn duplicate(&self) -> (r: Self) {
        match self {
            SubsonicResponse::Xml(x) => SubsonicResponse::Xml(x.clone()),
            SubsonicResponse::Json(x) => SubsonicResponse::Json(x.clone()),
            SubsonicResponse::Binary { content_type, bytes } => SubsonicResponse::Binary {
                content_type: content_type.clone(),
                bytes: copy_bytes(&bytes),
            },
            SubsonicResponse::Stream { content_type, content_length } => SubsonicResponse::Stream {
                content_type: content_type.clone(),
                content_length: *content_length,
            },
        }
    }
}

impl Clone for SubsonicResponse {
    fn clone(&self) -> (r: Self)
        ensures
            r.deep_view() == self.deep_view(),
    {
        self.duplicate()
    }
}

/// The notation of a response.
#[derive(Debug, Clone, Copy, PartialEq, Eq)]
pub enum ResponseFormat {
    Xml,
    Json,
}

impl ResponseFormat {
    /// The name of the notation.
    pub fn as_str(self) -> (r: &'static str)
        ensures
            r@ == (match self {
                ResponseFormat::Xml => "xml"@,
                ResponseFormat::Json => "json"@,
            }),
    {
        match self {
            ResponseFormat::Xml => "xml",
            ResponseFormat::Json => "json",
        }
    }
}

/// The notation that a request asks for: JSON only where it says so.
pub open spec fn wanted_format(request: RequestContextModel) -> ResponseFormat {
    if first_value(request.query, "f"@) == Some("json"@) {
        ResponseFormat::Json
    } else {
        ResponseFormat::Xml
    }
}

/// The notation that a request asks for.
pub fn response_format(request: &RequestContext) -> (r: ResponseFormat)
    ensures
        r == wanted_format(request.deep_view()),
{
    match query_value(request, "f") {
        Some(format) => if same_text(format, "json") {
            ResponseFormat::Json
        } else {
            ResponseFormat::Xml
        },
        None => ResponseFormat::Xml,
    }
}

/// A text, or else nothing.
pub open spec fn text_or_null(text: Option<Seq<char>>) -> Json {
    match text {
        Some(text) => Json::Text(text),
        None => Json::Null,
    }
}

/// A number, or else nothing.
pub open spec fn number_or_null(number: Option<u64>) -> Json {
    match number {
        Some(number) => Json::Number(number as nat),
        None => Json::Null,
    }
}

/// A number in a wider type.
pub open spec fn wide(number: Option<u32>) -> Option<u64> {
    match number {
        Some(number) => Some(number as u64),
        None => None,
    }
}

/// The first text of a row.
pub open spec fn first_of(texts: Seq<Seq<char>>) -> Option<Seq<char>> {
    if texts.len() > 0 {
        Some(texts[0])
    } else {
        None
    }
}

/// A year in decimal notation.
pub open spec fn year_text(year: Option<i32>) -> Option<Seq<char>> {
    match year {
        Some(year) => Some(signed_decimal(year as int)),
        None => None,
    }
}

fn widen(number: Option<u32>) -> (r: Option<u64>)
    ensures
        r == wide(number),
{
    match number {
        Some(number) => Some(number as u64),
        None => None,
    }
}

fn text_ref<'a>(text: &'a Option<String>) -> (r: Option<&'a str>)
    ensures
        r.deep_view() == text.deep_view(),
{
    match text {
        Some(text) => Some(text.as_str()),
        None => None,
    }
}

fn cover_ref<'a>(id: &'a Option<CoverArtId>) -> (r: Option<&'a str>)
    ensures
        r.deep_view() == id.deep_view(),
{
    match id {
        Some(id) => Some(id.0.as_str()),
        None => None,
    }
}

fn first_ref<'a>(texts: &'a Vec<String>) -> (r: Option<&'a str>)
    ensures
        r.deep_view() == first_of(texts.deep_view()),
{
    if texts.len() > 0 {
        Some(texts[0].as_str())
    } else {
        None
    }
}

fn year_string(year: Option<i32>) -> (r: Option<String>)
    ensures
        r.deep_view() == year_text(year),
{
    match year {
        Some(year) => Some(signed_decimal_text(year)),
        None => None,
    }
}

fn put(map: &mut serde_json::Map<String, serde_json::Value>, key: &str, value: serde_json::Value)
    ensures
        entries_of(*final(map)) == entries_of(*old(map)).insert(key@, json_of(value)),
{
    insert(map, key.to_owned(), value);
}

fn put_text(map: &mut serde_json::Map<String, serde_json::Value>, key: &str, text: &str)
    ensures
        entries_of(*final(map)) == entries_of(*old(map)).insert(key@, Json::Text(text@)),
{
    put(map, key, text_value(text.to_owned()));
}

fn put_optional_text(
    map: &mut serde_json::Map<String, serde_json::Value>,
    key: &str,
    text: Option<&str>,
)
    ensures
        entries_of(*final(map)) == entries_of(*old(map)).insert(
            key@,
            text_or_null(text.deep_view()),
        ),
{
    match text {
        Some(text) => put_text(map, key, text),
        None => put(map, key, null_value()),
    }
}

fn put_number(map: &mut serde_json::Map<String, serde_json::Value>, key: &str, number: u64)
    ensures
        entries_of(*final(map)) == entries_of(*old(map)).insert(key@, Json::Number(number as nat)),
{
    put(map, key, number_value(number));
}

fn put_optional_number(
    map: &mut serde_json::Map<String, serde_json::Value>,
    key: &str,
    number: Option<u64>,
)
    ensures
        entries_of(*final(map)) == entries_of(*old(map)).insert(key@, number_or_null(number)),
{
    match number {
        Some(number) => put_number(map, key, number),
        None => put(map, key, null_value()),
    }
}

fn put_bool(map: &mut serde_json::Map<String, serde_json::Value>, key: &str, truth: bool)
    ensures
        entries_of(*final(map)) == entries_of(*old(map)).insert(key@, Json::Bool(truth)),
{
    put(map, key, bool_value(truth));
}

/// An object with one entry.
pub open spec fn single(key: Seq<char>, value: Json) -> Map<Seq<char>, Json> {
    no_entries().insert(key, value)
}

fn single_entry(key: &str, value: serde_json::Value) -> (r: serde_json::Map<
    String,
    serde_json::Value,
>)
    ensures
        entries_of(r) == single(key@, json_of(value)),
{
    let mut map = new_map();
    put(&mut map, key, value);
    map
}

/// The document around the body of a response.
pub open spec fn json_document(body: Map<Seq<char>, Json>) -> Json {
    Json::Object(
        single(
            "subsonic-response"@,
            Json::Object(
                no_entries().insert("status"@, Json::Text("ok"@)).insert(
                    "version"@,
                    Json::Text("1.16.1"@),
                ).union_prefer_right(body),
            ),
        ),
    )
}

/// The document around the body of a response.
pub fn json_envelope(body: serde_json::Map<String, serde_json::Value>) -> (r: serde_json::Value)
    ensures
        json_of(r) == json_document(entries_of(body)),
{
    let mut envelope = new_map();
    put_text(&mut envelope, "status", "ok");
    put_text(&mut envelope, "version", "1.16.1");
    append(&mut envelope, body);
    object_value(single_entry("subsonic-response", object_value(envelope)))
}

/// The document around the body of a response, in its notation.
pub fn wrap_json(body: serde_json::Map<String, serde_json::Value>) -> (r: String)
    ensures
        r@ == json_text(json_document(entries_of(body))),
{
    value_text(&json_envelope(body))
}

/// The document that tells of a failure.
pub open spec fn json_failure(message: Seq<char>) -> Json {
    Json::Object(
        single(
            "subsonic-response"@,
            Json::Object(
                no_entries().insert("status"@, Json::Text("failed"@)).insert(
                    "version"@,
                    Json::Text("1.16.1"@),
                ).insert(
                    "error"@,
                    Json::Object(
                        no_entries().insert("code"@, Json::Number(0)).insert(
                            "message"@,
                            Json::Text(message),
                        ),
                    ),
                ),
            ),
        ),
    )
}

/// The document that tells of a failure.
pub fn failure_json(message: &str) -> (r: serde_json::Value)
    ensures
        json_of(r) == json_failure(message@),
{
    let mut error = new_map();
    put_number(&mut error, "code", 0);
    put_text(&mut error, "message", message);
    let mut envelope = new_map();
    put_text(&mut envelope, "status", "failed");
    put_text(&mut envelope, "version", "1.16.1");
    put(&mut envelope, "error", object_value(error));
    object_value(single_entry("subsonic-response", object_value(envelope)))
}

/// A response with a body in both notations.
pub open spec fn rendered(
    format: ResponseFormat,
    xml: Seq<char>,
    json: Map<Seq<char>, Json>,
) -> SubsonicResponseModel {
    match format {
        ResponseFormat::Xml => SubsonicResponseModel::Xml(xml_document(xml)),
        ResponseFormat::Json => SubsonicResponseModel::Json(json_text(json_document(json))),
    }
}

/// A response that tells of a failure.
pub open spec fn failed(format: ResponseFormat, message: Seq<char>) -> SubsonicResponseModel {
    match format {
        ResponseFormat::Xml => SubsonicResponseModel::Xml(xml_failure(message)),
        ResponseFormat::Json => SubsonicResponseModel::Json(json_text(json_failure(message))),
    }
}

/// A response that tells of a failure.
pub fn error_response(format: ResponseFormat, message: &str) -> (r: SubsonicResponse)
    ensures
        r.deep_view() == failed(format, message@),
{
    match format {
        ResponseFormat::Xml => SubsonicResponse::Xml(failure_xml(message)),
        ResponseFormat::Json => SubsonicResponse::Json(value_text(&failure_json(message))),
    }
}

/// A response that says no more than a message.
pub open spec fn message_reply(format: ResponseFormat, message: Seq<char>) -> SubsonicResponseModel {
    rendered(
        format,
        "<message>"@ + escaped(message) + "</message>"@,
        single("message"@, Json::Text(message)),
    )
}

/// A response that says no more than a message.
pub fn ok_message(format: ResponseFormat, message: &str) -> (r: SubsonicResponse)
    ensures
        r.deep_view() == message_reply(format, message@),
{
    match format {
        ResponseFormat::Xml => {
            let mut body = "<message>".to_owned();
            push_text(&mut body, &xml_escape(message));
            push_text(&mut body, "</message>");
            SubsonicResponse::Xml(wrap_xml(&body))
        },
        ResponseFormat::Json => SubsonicResponse::Json(
            wrap_json(single_entry("message", text_value(message.to_owned()))),
        ),
    }
}

/// A response that says nothing but that all is well.
pub open spec fn empty_reply(format: ResponseFormat) -> SubsonicResponseModel {
    rendered(format, ""@, no_entries())
}

/// A response that says nothing but that all is well.
pub fn empty_ok(format: ResponseFormat) -> (r: SubsonicResponse)
    ensures
        r.deep_view() == empty_reply(format),
{
    match format {
        ResponseFormat::Xml => SubsonicResponse::Xml(wrap_xml("")),
        ResponseFormat::Json => SubsonicResponse::Json(wrap_json(new_map())),
    }
}

/// The response to a request for the license.
pub open spec fn license_reply(format: ResponseFormat) -> SubsonicResponseModel {
    rendered(
        format,
        "<license valid=\"true\" email=\"\" licenseExpires=\"\" />"@,
        single(
            "license"@,
            Json::Object(
                no_entries().insert("valid"@, Json::Bool(true)).insert(
                    "email"@,
                    Json::Text(""@),
                ).insert("licenseExpires"@, Json::Text(""@)),
            ),
        ),
    )
}

/// The response to a request for the license: it is valid and does not expire.
pub fn map_license(format: ResponseFormat) -> (r: SubsonicResponse)
    ensures
        r.deep_view() == license_reply(format),
{
    match format {
        ResponseFormat::Xml => SubsonicResponse::Xml(
            wrap_xml("<license valid=\"true\" email=\"\" licenseExpires=\"\" />"),
        ),
        ResponseFormat::Json => {
            let mut license = new_map();
            put_bool(&mut license, "valid", true);
            put_text(&mut license, "email", "");
            put_text(&mut license, "licenseExpires", "");
            SubsonicResponse::Json(wrap_json(single_entry("license", object_value(license))))
        },
    }
}

/// The response to a request for the music folders.
pub open spec fn folders_reply(format: ResponseFormat) -> SubsonicResponseModel {
    rendered(
        format,
        "<musicFolders><musicFolder id=\"1\" name=\"Music\" /></musicFolders>"@,
        single(
            "musicFolders"@,
            Json::Object(
                single(
                    "musicFolder"@,
                    Json::Array(
                        seq![
                            Json::Object(
                                no_entries().insert("id"@, Json::Number(1)).insert(
                                    "name"@,
                                    Json::Text("Music"@),
                                ),
                            ),
                        ],
                    ),
                ),
            ),
        ),
    )
}

/// The response to a request for the music folders: there is one.
pub fn map_music_folders(format: ResponseFormat) -> (r: SubsonicResponse)
    ensures
        r.deep_view() == folders_reply(format),
{
    match format {
        ResponseFormat::Xml => SubsonicResponse::Xml(
            wrap_xml("<musicFolders><musicFolder id=\"1\" name=\"Music\" /></musicFolders>"),
        ),
        ResponseFormat::Json => {
            let mut folder = new_map();
            put_number(&mut folder, "id", 1);
            put_text(&mut folder, "name", "Music");
            let items = vec![object_value(folder)];
            assert(all_json(items@) =~= seq![json_of(items@[0])]);
            let folders = single_entry("musicFolder", array_value(items));
            SubsonicResponse::Json(wrap_json(single_entry("musicFolders", object_value(folders))))
        },
    }
}

/// An index with one artist.
pub open spec fn index_xml(artist: ArtistModel) -> Seq<char> {
    "<index name=\""@
        + escaped(artist.name)
        + "\"><artist id=\""@
        + escaped(artist.id)
        + "\" name=\""@
        + escaped(artist.name)
        + "\" /></index>"@
}

fn index_element(artist: &Artist) -> (r: String)
    ensures
        r@ == index_xml(artist.deep_view()),
{
    let mut s = "<index name=\"".to_owned();
    push_text(&mut s, &xml_escape(&artist.name));
    push_text(&mut s, "\"><artist id=\"");
    push_text(&mut s, &xml_escape(&artist.id.0));
    push_text(&mut s, "\" name=\"");
    push_text(&mut s, &xml_escape(&artist.name));
    push_text(&mut s, "\" /></index>");
    s
}

/// An index for each artist.
pub open spec fn indexes_xml(items: Seq<ArtistModel>) -> Seq<char>
    decreases items.len(),
{
    if items.len() == 0 {
        seq![]
    } else {
        indexes_xml(items.drop_last()) + index_xml(items.last())
    }
}

fn index_elements(items: &Vec<Artist>) -> (r: String)
    ensures
        r@ == indexes_xml(items.deep_view()),
{
    let ghost all = items.deep_view();
    let total: usize = items.len();
    let mut s = String::new();
    let mut i: usize = 0;
    assert(all.take(0) =~= seq![]);
    assert(s@ =~= seq![]);
    while i < total
        invariant
            i <= total,
            total == items@.len(),
            all == items.deep_view(),
            s@ == indexes_xml(all.take(i as int)),
        decreases total - i,
    {
        assert(all.take(i + 1).drop_last() =~= all.take(i as int));
        assert(all.take(i + 1).last() == items@[i as int].deep_view());
        push_text(&mut s, &index_element(&items[i]));
        i = i + 1;
    }
    assert(all.take(total as int) =~= all);
    s
}

/// An artist.
pub open spec fn artist_json(artist: ArtistModel) -> Map<Seq<char>, Json> {
    no_entries()
        .insert("id"@, Json::Text(artist.id))
        .insert("name"@, Json::Text(artist.name))
}

fn artist_object(artist: &Artist) -> (r: serde_json::Map<String, serde_json::Value>)
    ensures
        entries_of(r) == artist_json(artist.deep_view()),
{
    let mut map = new_map();
    put_text(&mut map, "id", &artist.id.0);
    put_text(&mut map, "name", &artist.name);
    map
}

/// An index with one artist.
pub open spec fn index_json(artist: ArtistModel) -> Map<Seq<char>, Json> {
    no_entries().insert("name"@, Json::Text(artist.name)).insert(
        "artist"@,
        Json::Array(seq![Json::Object(artist_json(artist))]),
    )
}

fn index_object(artist: &Artist) -> (r: serde_json::Map<String, serde_json::Value>)
    ensures
        entries_of(r) == index_json(artist.deep_view()),
{
    let items = vec![object_value(artist_object(artist))];
    assert(all_json(items@) =~= seq![json_of(items@[0])]);
    let mut map = new_map();
    put_text(&mut map, "name", &artist.name);
    put(&mut map, "artist", array_value(items));
    map
}

/// An index for each artist.
pub open spec fn indexes_json(items: Seq<ArtistModel>) -> Json {
    Json::Array(items.map_values(|item: ArtistModel| Json::Object(index_json(item))))
}

fn index_array(items: &Vec<Artist>) -> (r: serde_json::Value)
    ensures
        json_of(r) == indexes_json(items.deep_view()),
{
    let total: usize = items.len();
    let mut values: Vec<serde_json::Value> = Vec::new();
    let mut i: usize = 0;
    while i < total
        invariant
            i <= total,
            total == items@.len(),
            values@.len() == i,
            forall|j: int|
                0 <= j < i ==> json_of(#[trigger] values@[j]) == Json::Object(
                    index_json(items@[j].deep_view()),
                ),
        decreases total - i,
    {
        values.push(object_value(index_object(&items[i])));
        i = i + 1;
    }
    assert(all_json(values@) =~= items.deep_view().map_values(
        |item: ArtistModel| Json::Object(index_json(item)),
    ));
    array_value(values)
}

/// The response to a request for the artists.
pub open spec fn artists_reply(format: ResponseFormat, response: BackendResponseModel) -> Result<
    SubsonicResponseModel,
    ErrorModel,
> {
    match response {
        BackendResponseModel::Artists(artists) => Ok(
            rendered(
                format,
                "<artists>"@ + indexes_xml(artists) + "</artists>"@,
                single("artists"@, Json::Object(single("index"@, indexes_json(artists)))),
            ),
        ),
        _ => Err(
            ErrorModel::InvalidRequest("backend returned unexpected response for getArtists"@),
        ),
    }
}

/// The response to a request for the artists.
pub fn map_artists(format: ResponseFormat, response: BackendResponse) -> (r: Result<
    SubsonicResponse,
    Error,
>)
    ensures
        outcome(r) == artists_reply(format, response.deep_view()),
{
    match response {
        BackendResponse::Artists(artists) => match format {
            ResponseFormat::Xml => {
                let mut body = "<artists>".to_owned();
                push_text(&mut body, &index_elements(&artists));
                push_text(&mut body, "</artists>");
                Ok(SubsonicResponse::Xml(wrap_xml(&body)))
            },
            ResponseFormat::Json => {
                let indexes = single_entry("index", index_array(&artists));
                let body = single_entry("artists", object_value(indexes));
                Ok(SubsonicResponse::Json(wrap_json(body)))
            },
        },
        _ => Err(invalid_request("backend returned unexpected response for getArtists")),
    }
}

/// The name of the index that an artist stands in: the first character of its name in upper case.
pub open spec fn index_name(name: Seq<char>) -> Seq<char> {
    if name.len() > 0 {
        seq![upper_char(name[0])]
    } else {
        "#"@
    }
}

fn index_name_of(name: &str) -> (r: String)
    ensures
        r@ == index_name(name@),
{
    let cs = chars_of(name);
    if cs.len() > 0 {
        let mut s = String::new();
        s.push(to_upper(cs[0]));
        assert(s@ =~= seq![upper_char(name@[0])]);
        s
    } else {
        "#".to_owned()
    }
}

/// A row, which is empty where there is none.
pub open spec fn or_empty<A>(row: Option<Seq<A>>) -> Seq<A> {
    match row {
        Some(row) => row,
        None => seq![],
    }
}

/// An artist in an index.
pub open spec fn indexed(artist: ArtistModel) -> IndexArtistModel {
    IndexArtistModel { id: artist.id, name: artist.name }
}

/// Artists by the index that they stand in.
pub open spec fn grouped(artists: Seq<ArtistModel>) -> Map<Seq<char>, Seq<IndexArtistModel>>
    decreases artists.len(),
{
    if artists.len() == 0 {
        Map::empty()
    } else {
        let before = grouped(artists.drop_last());
        let name = index_name(artists.last().name);
        before.insert(name, or_empty(found(before, name)).push(indexed(artists.last())))
    }
}

fn group_artists(artists: &Vec<Artist>) -> (r: OrderedMap<String, Vec<IndexArtist>>)
    ensures
        r.deep_view() == grouped(artists.deep_view()),
{
    let ghost all = artists.deep_view();
    let total: usize = artists.len();
    let mut groups: OrderedMap<String, Vec<IndexArtist>> = OrderedMap::new();
    let mut i: usize = 0;
    assert(all.take(0) =~= seq![]);
    while i < total
        invariant
            i <= total,
            total == artists@.len(),
            all == artists.deep_view(),
            groups.deep_view() == grouped(all.take(i as int)),
        decreases total - i,
    {
        let ghost before = groups.deep_view();
        let artist = &artists[i];
        proof {
            assert(all.take(i + 1).drop_last() =~= all.take(i as int));
            assert(all.take(i + 1).last() == artist.deep_view());
        }
        let name = index_name_of(&artist.name);
        let mut group = match groups.remove(&name) {
            Some(group) => group,
            None => {
                let none: Vec<IndexArtist> = Vec::new();
                assert(none.deep_view() =~= seq![]);
                none
            },
        };
        let ghost so_far = group.deep_view();
        group.push(IndexArtist { id: artist.id.0.clone(), name: artist.name.clone() });
        assert(group.deep_view() =~= so_far.push(indexed(artist.deep_view())));
        let ghost key = name@;
        groups.insert(name, group);
        proof {
            assert(before.remove(key).insert(key, group.deep_view()) =~= before.insert(
                key,
                group.deep_view(),
            ));
        }
        i = i + 1;
    }
    assert(all.take(total as int) =~= all);
    groups
}

/// An artist in an index.
pub open spec fn indexed_xml(artist: IndexArtistModel) -> Seq<char> {
    "<artist id=\""@
        + escaped(artist.id)
        + "\" name=\""@
        + escaped(artist.name)
        + "\" />"@
}

fn indexed_element(artist: &IndexArtist) -> (r: String)
    ensures
        r@ == indexed_xml(artist.deep_view()),
{
    let mut s = "<artist id=\"".to_owned();
    push_text(&mut s, &xml_escape(&artist.id));
    push_text(&mut s, "\" name=\"");
    push_text(&mut s, &xml_escape(&artist.name));
    push_text(&mut s, "\" />");
    s
}

/// The artists in an index.
pub open spec fn all_indexed_xml(items: Seq<IndexArtistModel>) -> Seq<char>
    decreases items.len(),
{
    if items.len() == 0 {
        seq![]
    } else {
        all_indexed_xml(items.drop_last()) + indexed_xml(items.last())
    }
}

fn indexed_elements(items: &Vec<IndexArtist>) -> (r: String)
    ensures
        r@ == all_indexed_xml(items.deep_view()),
{
    let ghost all = items.deep_view();
    let total: usize = items.len();
    let mut s = String::new();
    let mut i: usize = 0;
    assert(all.take(0) =~= seq![]);
    assert(s@ =~= seq![]);
    while i < total
        invariant
            i <= total,
            total == items@.len(),
            all == items.deep_view(),
            s@ == all_indexed_xml(all.take(i as int)),
        decreases total - i,
    {
        assert(all.take(i + 1).drop_last() =~= all.take(i as int));
        assert(all.take(i + 1).last() == items@[i as int].deep_view());
        push_text(&mut s, &indexed_element(&items[i]));
        i = i + 1;
    }
    assert(all.take(total as int) =~= all);
    s
}

/// An artist in an index.
pub open spec fn indexed_json(artist: IndexArtistModel) -> Map<Seq<char>, Json> {
    no_entries()
        .insert("id"@, Json::Text(artist.id))
        .insert("name"@, Json::Text(artist.name))
}

fn indexed_object(artist: &IndexArtist) -> (r: serde_json::Map<String, serde_json::Value>)
    ensures
        entries_of(r) == indexed_json(artist.deep_view()),
{
    let mut map = new_map();
    put_text(&mut map, "id", &artist.id);
    put_text(&mut map, "name", &artist.name);
    map
}

/// The artists in an index.
pub open spec fn all_indexed_json(items: Seq<IndexArtistModel>) -> Json {
    Json::Array(items.map_values(|item: IndexArtistModel| Json::Object(indexed_json(item))))
}

fn indexed_array(items: &Vec<IndexArtist>) -> (r: serde_json::Value)
    ensures
        json_of(r) == all_indexed_json(items.deep_view()),
{
    let total: usize = items.len();
    let mut values: Vec<serde_json::Value> = Vec::new();
    let mut i: usize = 0;
    while i < total
        invariant
            i <= total,
            total == items@.len(),
            values@.len() == i,
            forall|j: int|
                0 <= j < i ==> json_of(#[trigger] values@[j]) == Json::Object(
                    indexed_json(items@[j].deep_view()),
                ),
        decreases total - i,
    {
        values.push(object_value(indexed_object(&items[i])));
        i = i + 1;
    }
    assert(all_json(values@) =~= items.deep_view().map_values(
        |item: IndexArtistModel| Json::Object(indexed_json(item)),
    ));
    array_value(values)
}

/// An index with its artists.
pub open spec fn group_xml(group: (Seq<char>, Seq<IndexArtistModel>)) -> Seq<char> {
    "<index name=\""@ + escaped(group.0) + "\">"@ + all_indexed_xml(group.1) + "</index>"@
}

/// The indexes with their artists, in order.
pub open spec fn groups_xml(groups: Seq<(Seq<char>, Seq<IndexArtistModel>)>) -> Seq<char>
    decreases groups.len(),
{
    if groups.len() == 0 {
        seq![]
    } else {
        groups_xml(groups.drop_last()) + group_xml(groups.last())
    }
}

/// An index with its artists.
pub open spec fn group_json(group: (Seq<char>, Seq<IndexArtistModel>)) -> Json {
    Json::Object(
        no_entries().insert("name"@, Json::Text(group.0)).insert(
            "artist"@,
            all_indexed_json(group.1),
        ),
    )
}

/// The indexes of artists in the order of their names.
pub open spec fn ordered_groups(artists: Seq<ArtistModel>) -> Seq<
    (Seq<char>, Seq<IndexArtistModel>),
> {
    listing::<String, Seq<IndexArtistModel>>(grouped(artists))
}

fn group_elements(groups: &OrderedMap<String, Vec<IndexArtist>>) -> (r: String)
    ensures
        r@ == groups_xml(listing::<String, Seq<IndexArtistModel>>(groups.deep_view())),
{
    let total: usize = groups.len();
    let ghost all = groups.entries();
    let mut s = String::new();
    let mut i: usize = 0;
    assert(all.take(0) =~= seq![]);
    assert(s@ =~= seq![]);
    while i < total
        invariant
            i <= total,
            total == groups.entries().len(),
            all == groups.entries(),
            s@ == groups_xml(all.take(i as int)),
        decreases total - i,
    {
        assert(all.take(i + 1).drop_last() =~= all.take(i as int));
        assert(all.take(i + 1).last() == all[i as int]);
        let mut group = "<index name=\"".to_owned();
        push_text(&mut group, &xml_escape(groups.key_at(i)));
        push_text(&mut group, "\">");
        push_text(&mut group, &indexed_elements(groups.value_at(i)));
        push_text(&mut group, "</index>");
        push_text(&mut s, &group);
        i = i + 1;
    }
    assert(all.take(total as int) =~= all);
    s
}

fn group_array(groups: &OrderedMap<String, Vec<IndexArtist>>) -> (r: serde_json::Value)
    ensures
        json_of(r) == Json::Array(
            listing::<String, Seq<IndexArtistModel>>(groups.deep_view()).map_values(
                |group: (Seq<char>, Seq<IndexArtistModel>)| group_json(group),
            ),
        ),
{
    let total: usize = groups.len();
    let ghost all = groups.entries();
    let mut values: Vec<serde_json::Value> = Vec::new();
    let mut i: usize = 0;
    while i < total
        invariant
            i <= total,
            total == groups.entries().len(),
            all == groups.entries(),
            values@.len() == i,
            forall|j: int| 0 <= j < i ==> json_of(#[trigger] values@[j]) == group_json(all[j]),
        decreases total - i,
    {
        let mut map = new_map();
        put_text(&mut map, "name", groups.key_at(i));
        put(&mut map, "artist", indexed_array(groups.value_at(i)));
        values.push(object_value(map));
        i = i + 1;
    }
    assert(all_json(values@) =~= all.map_values(
        |group: (Seq<char>, Seq<IndexArtistModel>)| group_json(group),
    ));
    array_value(values)
}

/// The response to a request for the indexes.
pub open spec fn indexes_reply(format: ResponseFormat, response: BackendResponseModel) -> Result<
    SubsonicResponseModel,
    ErrorModel,
> {
    match response {
        BackendResponseModel::Artists(artists) => Ok(
            rendered(
                format,
                "<indexes lastModified=\"0\" ignoredArticles=\"\">"@ + groups_xml(
                    ordered_groups(artists),
                ) + "</indexes>"@,
                single(
                    "indexes"@,
                    Json::Object(
                        no_entries().insert("lastModified"@, Json::Number(0)).insert(
                            "ignoredArticles"@,
                            Json::Text(""@),
                        ).insert(
                            "index"@,
                            Json::Array(
                                ordered_groups(artists).map_values(
                                    |group: (Seq<char>, Seq<IndexArtistModel>)| group_json(group),
                                ),
                            ),
                        ),
                    ),
                ),
            ),
        ),
        _ => Err(
            ErrorModel::InvalidRequest("backend returned unexpected response for getIndexes"@),
        ),
    }
}

/// The response to a request for the indexes.
pub fn map_indexes(format: ResponseFormat, response: BackendResponse) -> (r: Result<
    SubsonicResponse,
    Error,
>)
    ensures
        outcome(r) == indexes_reply(format, response.deep_view()),
{
    match response {
        BackendResponse::Artists(artists) => match format {
            ResponseFormat::Xml => {
                let groups = group_artists(&artists);
                let mut body = "<indexes lastModified=\"0\" ignoredArticles=\"\">".to_owned();
                push_text(&mut body, &group_elements(&groups));
                push_text(&mut body, "</indexes>");
                Ok(SubsonicResponse::Xml(wrap_xml(&body)))
            },
            ResponseFormat::Json => {
                let groups = group_artists(&artists);
                let mut indexes = new_map();
                put_number(&mut indexes, "lastModified", 0);
                put_text(&mut indexes, "ignoredArticles", "");
                put(&mut indexes, "index", group_array(&groups));
                let body = single_entry("indexes", object_value(indexes));
                Ok(SubsonicResponse::Json(wrap_json(body)))
            },
        },
        _ => Err(invalid_request("backend returned unexpected response for getIndexes")),
    }
}

/// A song with all that is told of it.
pub open spec fn song_xml(track: TrackModel) -> Seq<char> {
    "<song id=\""@
        + escaped(track.id)
        + "\" title=\""@
        + escaped(track.title)
        + "\" artist=\""@
        + escaped(track.artist)
        + "\" album=\""@
        + escaped(track.album)
        + "\" contentType=\""@
        + escaped(track.content_type)
        + "\""@
        + attr("coverArt"@, track.cover_art_id)
        + number_attr("track"@, wide(track.track_number))
        + number_attr("discNumber"@, wide(track.disc_number))
        + number_attr("duration"@, wide(track.duration_seconds))
        + " />"@
}

fn song_element(track: &Track) -> (r: String)
    ensures
        r@ == song_xml(track.deep_view()),
{
    let mut s = "<song id=\"".to_owned();
    push_text(&mut s, &xml_escape(&track.id.0));
    push_text(&mut s, "\" title=\"");
    push_text(&mut s, &xml_escape(&track.title));
    push_text(&mut s, "\" artist=\"");
    push_text(&mut s, &xml_escape(&track.artist));
    push_text(&mut s, "\" album=\"");
    push_text(&mut s, &xml_escape(&track.album));
    push_text(&mut s, "\" contentType=\"");
    push_text(&mut s, &xml_escape(&track.content_type));
    push_text(&mut s, "\"");
    push_text(&mut s, &optional_attr("coverArt", cover_ref(&track.cover_art_id)));
    push_text(&mut s, &optional_number_attr("track", widen(track.track_number)));
    push_text(&mut s, &optional_number_attr("discNumber", widen(track.disc_number)));
    push_text(&mut s, &optional_number_attr("duration", widen(track.duration_seconds)));
    push_text(&mut s, " />");
    s
}

/// A song with all that is told of it.
pub open spec fn song_json(track: TrackModel) -> Map<Seq<char>, Json> {
    no_entries()
        .insert("id"@, Json::Text(track.id))
        .insert("title"@, Json::Text(track.title))
        .insert("artist"@, Json::Text(track.artist))
        .insert("album"@, Json::Text(track.album))
        .insert("albumArtist"@, text_or_null(track.album_artist))
        .insert("contentType"@, Json::Text(track.content_type))
        .insert("coverArt"@, text_or_null(track.cover_art_id))
        .insert("track"@, number_or_null(wide(track.track_number)))
        .insert("discNumber"@, number_or_null(wide(track.disc_number)))
        .insert("duration"@, number_or_null(wide(track.duration_seconds)))
        .insert("bitRate"@, number_or_null(wide(track.bitrate)))
        .insert("size"@, Json::Number(track.file_size as nat))
        .insert("suffix"@, text_or_null(track.suffix))
        .insert("genre"@, text_or_null(first_of(track.genres)))
}

fn song_object(track: &Track) -> (r: serde_json::Map<String, serde_json::Value>)
    ensures
        entries_of(r) == song_json(track.deep_view()),
{
    let mut map = new_map();
    put_text(&mut map, "id", &track.id.0);
    put_text(&mut map, "title", &track.title);
    put_text(&mut map, "artist", &track.artist);
    put_text(&mut map, "album", &track.album);
    put_optional_text(&mut map, "albumArtist", text_ref(&track.album_artist));
    put_text(&mut map, "contentType", &track.content_type);
    put_optional_text(&mut map, "coverArt", cover_ref(&track.cover_art_id));
    put_optional_number(&mut map, "track", widen(track.track_number));
    put_optional_number(&mut map, "discNumber", widen(track.disc_number));
    put_optional_number(&mut map, "duration", widen(track.duration_seconds));
    put_optional_number(&mut map, "bitRate", widen(track.bitrate));
    put_number(&mut map, "size", track.file_size);
    put_optional_text(&mut map, "suffix", text_ref(&track.suffix));
    put_optional_text(&mut map, "genre", first_ref(&track.genres));
    map
}

/// The response to a request for a song.
pub open spec fn song_reply(format: ResponseFormat, response: BackendResponseModel) -> Result<
    SubsonicResponseModel,
    ErrorModel,
> {
    match response {
        BackendResponseModel::Track(track) => Ok(
            rendered(
                format,
                song_xml(track),
                single("song"@, Json::Object(song_json(track))),
            ),
        ),
        _ => Err(
            ErrorModel::InvalidRequest("backend returned unexpected response for getSong"@),
        ),
    }
}

/// The response to a request for a song.
pub fn map_track(format: ResponseFormat, response: BackendResponse) -> (r: Result<
    SubsonicResponse,
    Error,
>)
    ensures
        outcome(r) == song_reply(format, response.deep_view()),
{
    match response {
        BackendResponse::Track(track) => match format {
            ResponseFormat::Xml => {
                let body = song_element(&track);
                Ok(SubsonicResponse::Xml(wrap_xml(&body)))
            },
            ResponseFormat::Json => {
                let body = single_entry("song", object_value(song_object(&track)));
                Ok(SubsonicResponse::Json(wrap_json(body)))
            },
        },
        _ => Err(invalid_request("backend returned unexpected response for getSong")),
    }
}

/// An album with all that is told of it.
pub open spec fn album_xml(album: AlbumModel) -> Seq<char> {
    "<album id=\""@
        + escaped(album.id)
        + "\" name=\""@
        + escaped(album.title)
        + "\" artist=\""@
        + escaped(album.artist)
        + "\" songCount=\""@
        + decimal(album.track_ids.len())
        + "\""@
        + attr("albumArtist"@, album.album_artist)
        + attr("genre"@, first_of(album.genres))
        + attr("year"@, year_text(album.year))
        + attr("coverArt"@, album.cover_art_id)
        + number_attr("duration"@, wide(album.duration_seconds))
        + number_attr("size"@, Some(album.size_bytes))
        + " />"@
}

fn album_element(album: &Album) -> (r: String)
    ensures
        r@ == album_xml(album.deep_view()),
{
    let mut s = "<album id=\"".to_owned();
    push_text(&mut s, &xml_escape(&album.id.0));
    push_text(&mut s, "\" name=\"");
    push_text(&mut s, &xml_escape(&album.title));
    push_text(&mut s, "\" artist=\"");
    push_text(&mut s, &xml_escape(&album.artist));
    push_text(&mut s, "\" songCount=\"");
    push_text(&mut s, &decimal_text(album.track_ids.len() as u64));
    push_text(&mut s, "\"");
    push_text(&mut s, &optional_attr("albumArtist", text_ref(&album.album_artist)));
    push_text(&mut s, &optional_attr("genre", first_ref(&album.genres)));
    push_text(&mut s, &optional_attr("year", text_ref(&year_string(album.year))));
    push_text(&mut s, &optional_attr("coverArt", cover_ref(&album.cover_art_id)));
    push_text(&mut s, &optional_number_attr("duration", widen(album.duration_seconds)));
    push_text(&mut s, &optional_number_attr("size", Some(album.size_bytes)));
    push_text(&mut s, " />");
    s
}

/// An album with all that is told of it.
pub open spec fn album_json(album: AlbumModel) -> Map<Seq<char>, Json> {
    no_entries()
        .insert("id"@, Json::Text(album.id))
        .insert("name"@, Json::Text(album.title))
        .insert("artist"@, Json::Text(album.artist))
        .insert("albumArtist"@, text_or_null(album.album_artist))
        .insert("songCount"@, Json::Number(album.track_ids.len() as nat))
        .insert("genre"@, text_or_null(first_of(album.genres)))
        .insert("year"@, text_or_null(year_text(album.year)))
        .insert("coverArt"@, text_or_null(album.cover_art_id))
        .insert("duration"@, number_or_null(wide(album.duration_seconds)))
        .insert("size"@, Json::Number(album.size_bytes as nat))
}

fn album_object(album: &Album) -> (r: serde_json::Map<String, serde_json::Value>)
    ensures
        entries_of(r) == album_json(album.deep_view()),
{
    let mut map = new_map();
    put_text(&mut map, "id", &album.id.0);
    put_text(&mut map, "name", &album.title);
    put_text(&mut map, "artist", &album.artist);
    put_optional_text(&mut map, "albumArtist", text_ref(&album.album_artist));
    put_number(&mut map, "songCount", album.track_ids.len() as u64);
    put_optional_text(&mut map, "genre", first_ref(&album.genres));
    put_optional_text(&mut map, "year", text_ref(&year_string(album.year)));
    put_optional_text(&mut map, "coverArt", cover_ref(&album.cover_art_id));
    put_optional_number(&mut map, "duration", widen(album.duration_seconds));
    put_number(&mut map, "size", album.size_bytes);
    map
}

/// The response to a request for an album.
pub open spec fn album_reply(format: ResponseFormat, response: BackendResponseModel) -> Result<
    SubsonicResponseModel,
    ErrorModel,
> {
    match response {
        BackendResponseModel::Album(album) => Ok(
            rendered(
                format,
                album_xml(album),
                single("album"@, Json::Object(album_json(album))),
            ),
        ),
        _ => Err(
            ErrorModel::InvalidRequest("backend returned unexpected response for getAlbum"@),
        ),
    }
}

/// The response to a request for an album.
pub fn map_album(format: ResponseFormat, response: BackendResponse) -> (r: Result<
    SubsonicResponse,
    Error,
>)
    ensures
        outcome(r) == album_reply(format, response.deep_view()),
{
    match response {
        BackendResponse::Album(album) => match format {
            ResponseFormat::Xml => {
                let body = album_element(&album);
                Ok(SubsonicResponse::Xml(wrap_xml(&body)))
            },
            ResponseFormat::Json => {
                let body = single_entry("album", object_value(album_object(&album)));
                Ok(SubsonicResponse::Json(wrap_json(body)))
            },
        },
        _ => Err(invalid_request("backend returned unexpected response for getAlbum")),
    }
}

/// An artist among others.
pub open spec fn artist_hit_xml(artist: ArtistModel) -> Seq<char> {
    "<artist id=\""@
        + escaped(artist.id)
        + "\" name=\""@
        + escaped(artist.name)
        + "\" />"@
}

fn artist_hit(artist: &Artist) -> (r: String)
    ensures
        r@ == artist_hit_xml(artist.deep_view()),
{
    let mut s = "<artist id=\"".to_owned();
    push_text(&mut s, &xml_escape(&artist.id.0));
    push_text(&mut s, "\" name=\"");
    push_text(&mut s, &xml_escape(&artist.name));
    push_text(&mut s, "\" />");
    s
}

/// Artists.
pub open spec fn artist_hits_xml(items: Seq<ArtistModel>) -> Seq<char>
    decreases items.len(),
{
    if items.len() == 0 {
        seq![]
    } else {
        artist_hits_xml(items.drop_last()) + artist_hit_xml(items.last())
    }
}

fn artist_hits(items: &Vec<Artist>) -> (r: String)
    ensures
        r@ == artist_hits_xml(items.deep_view()),
{
    let ghost all = items.deep_view();
    let total: usize = items.len();
    let mut s = String::new();
    let mut i: usize = 0;
    assert(all.take(0) =~= seq![]);
    assert(s@ =~= seq![]);
    while i < total
        invariant
            i <= total,
            total == items@.len(),
            all == items.deep_view(),
            s@ == artist_hits_xml(all.take(i as int)),
        decreases total - i,
    {
        assert(all.take(i + 1).drop_last() =~= all.take(i as int));
        assert(all.take(i + 1).last() == items@[i as int].deep_view());
        push_text(&mut s, &artist_hit(&items[i]));
        i = i + 1;
    }
    assert(all.take(total as int) =~= all);
    s
}

/// Artists.
pub open spec fn artists_json(items: Seq<ArtistModel>) -> Json {
    Json::Array(items.map_values(|item: ArtistModel| Json::Object(artist_json(item))))
}

fn artist_array(items: &Vec<Artist>) -> (r: serde_json::Value)
    ensures
        json_of(r) == artists_json(items.deep_view()),
{
    let total: usize = items.len();
    let mut values: Vec<serde_json::Value> = Vec::new();
    let mut i: usize = 0;
    while i < total
        invariant
            i <= total,
            total == items@.len(),
            values@.len() == i,
            forall|j: int|
                0 <= j < i ==> json_of(#[trigger] values@[j]) == Json::Object(
                    artist_json(items@[j].deep_view()),
                ),
        decreases total - i,
    {
        values.push(object_value(artist_object(&items[i])));
        i = i + 1;
    }
    assert(all_json(values@) =~= items.deep_view().map_values(
        |item: ArtistModel| Json::Object(artist_json(item)),
    ));
    array_value(values)
}

/// An album among others.
pub open spec fn album_hit_xml(album: AlbumModel) -> Seq<char> {
    "<album id=\""@
        + escaped(album.id)
        + "\" name=\""@
        + escaped(album.title)
        + "\" artist=\""@
        + escaped(album.artist)
        + "\""@
        + attr("coverArt"@, album.cover_art_id)
        + " />"@
}

fn album_hit(album: &Album) -> (r: String)
    ensures
        r@ == album_hit_xml(album.deep_view()),
{
    let mut s = "<album id=\"".to_owned();
    push_text(&mut s, &xml_escape(&album.id.0));
    push_text(&mut s, "\" name=\"");
    push_text(&mut s, &xml_escape(&album.title));
    push_text(&mut s, "\" artist=\"");
    push_text(&mut s, &xml_escape(&album.artist));
    push_text(&mut s, "\"");
    push_text(&mut s, &optional_attr("coverArt", cover_ref(&album.cover_art_id)));
    push_text(&mut s, " />");
    s
}

/// Albums.
pub open spec fn album_hits_xml(items: Seq<AlbumModel>) -> Seq<char>
    decreases items.len(),
{
    if items.len() == 0 {
        seq![]
    } else {
        album_hits_xml(items.drop_last()) + album_hit_xml(items.last())
    }
}

fn album_hits(items: &Vec<Album>) -> (r: String)
    ensures
        r@ == album_hits_xml(items.deep_view()),
{
    let ghost all = items.deep_view();
    let total: usize = items.len();
    let mut s = String::new();
    let mut i: usize = 0;
    assert(all.take(0) =~= seq![]);
    assert(s@ =~= seq![]);
    while i < total
        invariant
            i <= total,
            total == items@.len(),
            all == items.deep_view(),
            s@ == album_hits_xml(all.take(i as int)),
        decreases total - i,
    {
        assert(all.take(i + 1).drop_last() =~= all.take(i as int));
        assert(all.take(i + 1).last() == items@[i as int].deep_view());
        push_text(&mut s, &album_hit(&items[i]));
        i = i + 1;
    }
    assert(all.take(total as int) =~= all);
    s
}

/// An album among others.
pub open spec fn album_hit_json(album: AlbumModel) -> Map<Seq<char>, Json> {
    no_entries()
        .insert("id"@, Json::Text(album.id))
        .insert("name"@, Json::Text(album.title))
        .insert("artist"@, Json::Text(album.artist))
        .insert("coverArt"@, text_or_null(album.cover_art_id))
}

fn album_hit_object(album: &Album) -> (r: serde_json::Map<String, serde_json::Value>)
    ensures
        entries_of(r) == album_hit_json(album.deep_view()),
{
    let mut map = new_map();
    put_text(&mut map, "id", &album.id.0);
    put_text(&mut map, "name", &album.title);
    put_text(&mut map, "artist", &album.artist);
    put_optional_text(&mut map, "coverArt", cover_ref(&album.cover_art_id));
    map
}

/// Albums.
pub open spec fn albums_json(items: Seq<AlbumModel>) -> Json {
    Json::Array(items.map_values(|item: AlbumModel| Json::Object(album_hit_json(item))))
}

fn album_array(items: &Vec<Album>) -> (r: serde_json::Value)
    ensures
        json_of(r) == albums_json(items.deep_view()),
{
    let total: usize = items.len();
    let mut values: Vec<serde_json::Value> = Vec::new();
    let mut i: usize = 0;
    while i < total
        invariant
            i <= total,
            total == items@.len(),
            values@.len() == i,
            forall|j: int|
                0 <= j < i ==> json_of(#[trigger] values@[j]) == Json::Object(
                    album_hit_json(items@[j].deep_view()),
                ),
        decreases total - i,
    {
        values.push(object_value(album_hit_object(&items[i])));
        i = i + 1;
    }
    assert(all_json(values@) =~= items.deep_view().map_values(
        |item: AlbumModel| Json::Object(album_hit_json(item)),
    ));
    array_value(values)
}

/// A song among others.
pub open spec fn song_hit_xml(track: TrackModel) -> Seq<char> {
    "<song id=\""@
        + escaped(track.id)
        + "\" title=\""@
        + escaped(track.title)
        + "\" artist=\""@
        + escaped(track.artist)
        + "\" album=\""@
        + escaped(track.album)
        + "\""@
        + attr("coverArt"@, track.cover_art_id)
        + " />"@
}

fn song_hit(track: &Track) -> (r: String)
    ensures
        r@ == song_hit_xml(track.deep_view()),
{
    let mut s = "<song id=\"".to_owned();
    push_text(&mut s, &xml_escape(&track.id.0));
    push_text(&mut s, "\" title=\"");
    push_text(&mut s, &xml_escape(&track.title));
    push_text(&mut s, "\" artist=\"");
    push_text(&mut s, &xml_escape(&track.artist));
    push_text(&mut s, "\" album=\"");
    push_text(&mut s, &xml_escape(&track.album));
    push_text(&mut s, "\"");
    push_text(&mut s, &optional_attr("coverArt", cover_ref(&track.cover_art_id)));
    push_text(&mut s, " />");
    s
}

/// Songs.
pub open spec fn song_hits_xml(items: Seq<TrackModel>) -> Seq<char>
    decreases items.len(),
{
    if items.len() == 0 {
        seq![]
    } else {
        song_hits_xml(items.drop_last()) + song_hit_xml(items.last())
    }
}

fn song_hits(items: &Vec<Track>) -> (r: String)
    ensures
        r@ == song_hits_xml(items.deep_view()),
{
    let ghost all = items.deep_view();
    let total: usize = items.len();
    let mut s = String::new();
    let mut i: usize = 0;
    assert(all.take(0) =~= seq![]);
    assert(s@ =~= seq![]);
    while i < total
        invariant
            i <= total,
            total == items@.len(),
            all == items.deep_view(),
            s@ == song_hits_xml(all.take(i as int)),
        decreases total - i,
    {
        assert(all.take(i + 1).drop_last() =~= all.take(i as int));
        assert(all.take(i + 1).last() == items@[i as int].deep_view());
        push_text(&mut s, &song_hit(&items[i]));
        i = i + 1;
    }
    assert(all.take(total as int) =~= all);
    s
}

/// A song among others.
pub open spec fn song_hit_json(track: TrackModel) -> Map<Seq<char>, Json> {
    no_entries()
        .insert("id"@, Json::Text(track.id))
        .insert("title"@, Json::Text(track.title))
        .insert("artist"@, Json::Text(track.artist))
        .insert("album"@, Json::Text(track.album))
        .insert("coverArt"@, text_or_null(track.cover_art_id))
}

fn song_hit_object(track: &Track) -> (r: serde_json::Map<String, serde_json::Value>)
    ensures
        entries_of(r) == song_hit_json(track.deep_view()),
{
    let mut map = new_map();
    put_text(&mut map, "id", &track.id.0);
    put_text(&mut map, "title", &track.title);
    put_text(&mut map, "artist", &track.artist);
    put_text(&mut map, "album", &track.album);
    put_optional_text(&mut map, "coverArt", cover_ref(&track.cover_art_id));
    map
}

/// Songs.
pub open spec fn songs_json(items: Seq<TrackModel>) -> Json {
    Json::Array(items.map_values(|item: TrackModel| Json::Object(song_hit_json(item))))
}

fn song_array(items: &Vec<Track>) -> (r: serde_json::Value)
    ensures
        json_of(r) == songs_json(items.deep_view()),
{
    let total: usize = items.len();
    let mut values: Vec<serde_json::Value> = Vec::new();
    let mut i: usize = 0;
    while i < total
        invariant
            i <= total,
            total == items@.len(),
            values@.len() == i,
            forall|j: int|
                0 <= j < i ==> json_of(#[trigger] values@[j]) == Json::Object(
                    song_hit_json(items@[j].deep_view()),
                ),
        decreases total - i,
    {
        values.push(object_value(song_hit_object(&items[i])));
        i = i + 1;
    }
    assert(all_json(values@) =~= items.deep_view().map_values(
        |item: TrackModel| Json::Object(song_hit_json(item)),
    ));
    array_value(values)
}

/// Artists, albums and songs.
pub open spec fn hits_xml(
    artists: Seq<ArtistModel>,
    albums: Seq<AlbumModel>,
    tracks: Seq<TrackModel>,
) -> Seq<char> {
    artist_hits_xml(artists) + album_hits_xml(albums) + song_hits_xml(tracks)
}

fn hit_elements(artists: &Vec<Artist>, albums: &Vec<Album>, tracks: &Vec<Track>) -> (r: String)
    ensures
        r@ == hits_xml(artists.deep_view(), albums.deep_view(), tracks.deep_view()),
{
    let mut s = artist_hits(artists);
    push_text(&mut s, &album_hits(albums));
    push_text(&mut s, &song_hits(tracks));
    s
}

/// Artists, albums and songs.
pub open spec fn hits_json(
    artists: Seq<ArtistModel>,
    albums: Seq<AlbumModel>,
    tracks: Seq<TrackModel>,
) -> Map<Seq<char>, Json> {
    no_entries().insert("artist"@, artists_json(artists)).insert(
        "album"@,
        albums_json(albums),
    ).insert("song"@, songs_json(tracks))
}

fn hits_object(artists: &Vec<Artist>, albums: &Vec<Album>, tracks: &Vec<Track>) -> (r:
    serde_json::Map<String, serde_json::Value>)
    ensures
        entries_of(r) == hits_json(artists.deep_view(), albums.deep_view(), tracks.deep_view()),
{
    let mut map = new_map();
    put(&mut map, "artist", artist_array(artists));
    put(&mut map, "album", album_array(albums));
    put(&mut map, "song", song_array(tracks));
    map
}

/// The response to a search.
pub open spec fn search_reply(format: ResponseFormat, response: BackendResponseModel) -> Result<
    SubsonicResponseModel,
    ErrorModel,
> {
    match response {
        BackendResponseModel::SearchResults { artists, albums, tracks } => Ok(
            rendered(
                format,
                "<searchResult3>"@ + hits_xml(artists, albums, tracks) + "</searchResult3>"@,
                single("searchResult3"@, Json::Object(hits_json(artists, albums, tracks))),
            ),
        ),
        _ => Err(
            ErrorModel::InvalidRequest("backend returned unexpected response for search3"@),
        ),
    }
}

/// The response to a search.
pub fn map_search(format: ResponseFormat, response: BackendResponse) -> (r: Result<
    SubsonicResponse,
    Error,
>)
    ensures
        outcome(r) == search_reply(format, response.deep_view()),
{
    match response {
        BackendResponse::SearchResults { artists, albums, tracks } => match format {
            ResponseFormat::Xml => {
                let mut body = "<searchResult3>".to_owned();
                push_text(&mut body, &hit_elements(&artists, &albums, &tracks));
                push_text(&mut body, "</searchResult3>");
                Ok(SubsonicResponse::Xml(wrap_xml(&body)))
            },
            ResponseFormat::Json => {
                let hits = hits_object(&artists, &albums, &tracks);
                let body = single_entry("searchResult3", object_value(hits));
                Ok(SubsonicResponse::Json(wrap_json(body)))
            },
        },
        _ => Err(invalid_request("backend returned unexpected response for search3")),
    }
}

/// The response to a request for what is starred.
pub open spec fn starred_reply(format: ResponseFormat, response: BackendResponseModel) -> Result<
    SubsonicResponseModel,
    ErrorModel,
> {
    match response {
        BackendResponseModel::Starred(starred) => Ok(
            rendered(
                format,
                "<starred2>"@ + hits_xml(starred.artists, starred.albums, starred.tracks) + "</starred2>"@,
                single("starred2"@, Json::Object(hits_json(starred.artists, starred.albums, starred.tracks))),
            ),
        ),
        _ => Err(
            ErrorModel::InvalidRequest("backend returned unexpected response for getStarred2"@),
        ),
    }
}

/// The response to a request for what is starred.
pub fn map_starred2(format: ResponseFormat, response: BackendResponse) -> (r: Result<
    SubsonicResponse,
    Error,
>)
    ensures
        outcome(r) == starred_reply(format, response.deep_view()),
{
    match response {
        BackendResponse::Starred(starred) => match format {
            ResponseFormat::Xml => {
                let mut body = "<starred2>".to_owned();
                push_text(&mut body, &hit_elements(&starred.artists, &starred.albums, &starred.tracks));
                push_text(&mut body, "</starred2>");
                Ok(SubsonicResponse::Xml(wrap_xml(&body)))
            },
            ResponseFormat::Json => {
                let hits = hits_object(&starred.artists, &starred.albums, &starred.tracks);
                let body = single_entry("starred2", object_value(hits));
                Ok(SubsonicResponse::Json(wrap_json(body)))
            },
        },
        _ => Err(invalid_request("backend returned unexpected response for getStarred2")),
    }
}

/// The response to a request for a cover.
pub open spec fn cover_art_reply(response: BackendResponseModel) -> Result<
    SubsonicResponseModel,
    ErrorModel,
> {
    match response {
        BackendResponseModel::CoverArt(cover) => Ok(
            SubsonicResponseModel::Binary { content_type: cover.content_type, bytes: cover.bytes },
        ),
        _ => Err(
            ErrorModel::InvalidRequest("backend returned unexpected response for getCoverArt"@),
        ),
    }
}

/// The response to a request for a cover.
pub fn map_cover_art(response: BackendResponse) -> (r: Result<SubsonicResponse, Error>)
    ensures
        outcome(r) == cover_art_reply(response.deep_view()),
{
    match response {
        BackendResponse::CoverArt(cover) => Ok(
            SubsonicResponse::Binary { content_type: cover.content_type, bytes: cover.bytes },
        ),
        _ => Err(invalid_request("backend returned unexpected response for getCoverArt")),
    }
}

/// The response to a request that changes something.
pub open spec fn change_reply(response: BackendResponseModel, format: ResponseFormat) -> Result<
    SubsonicResponseModel,
    ErrorModel,
> {
    match response {
        BackendResponseModel::Empty => Ok(empty_reply(format)),
        _ => Err(
            ErrorModel::InvalidRequest("backend returned unexpected response for empty result"@),
        ),
    }
}

/// The response to a request that changes something.
pub fn map_empty(response: BackendResponse, format: ResponseFormat) -> (r: Result<
    SubsonicResponse,
    Error,
>)
    ensures
        outcome(r) == change_reply(response.deep_view(), format),
{
    match response {
        BackendResponse::Empty => Ok(empty_ok(format)),
        _ => Err(invalid_request("backend returned unexpected response for empty result")),
    }
}

/// The response to a request for a stream: what the backend streams follows.
pub fn map_stream(stream: StreamDescriptor) -> (r: SubsonicResponse)
    ensures
        r.deep_view() == (SubsonicResponseModel::Stream {
            content_type: stream.content_type@,
            content_length: Some(stream.file_size),
        }),
{
    SubsonicResponse::Stream {
        content_type: stream.content_type,
        content_length: Some(stream.file_size),
    }
}

/// An entry of a directory.
#[derive(Debug)]
pub struct DirectoryChild {
    pub id: String,
    pub title: String,
    pub is_dir: bool,
    pub artist: Option<String>,
    pub album: Option<String>,
    pub content_type: Option<String>,
    pub cover_art: Option<String>,
    pub track: Option<u32>,
    pub disc_number: Option<u32>,
    pub duration: Option<u32>,
    pub size: Option<u64>,
    pub parent: Option<String>,
}

/// The mathematical value of a [`DirectoryChild`].
pub struct DirectoryChildModel {
    pub id: Seq<char>,
    pub title: Seq<char>,
    pub is_dir: bool,
    pub artist: Option<Seq<char>>,
    pub album: Option<Seq<char>>,
    pub content_type: Option<Seq<char>>,
    pub cover_art: Option<Seq<char>>,
    pub track: Option<u32>,
    pub disc_number: Option<u32>,
    pub duration: Option<u32>,
    pub size: Option<u64>,
    pub parent: Option<Seq<char>>,
}

impl DeepView for DirectoryChild {
    type V = DirectoryChildModel;

    open spec fn deep_view(&self) -> DirectoryChildModel {
        DirectoryChildModel {
            id: self.id@,
            title: self.title@,
            is_dir: self.is_dir,
            artist: self.artist.deep_view(),
            album: self.album.deep_view(),
            content_type: self.content_type.deep_view(),
            cover_art: self.cover_art.deep_view(),
            track: self.track,
            disc_number: self.disc_number,
            duration: self.duration,
            size: self.size,
            parent: self.parent.deep_view(),
        }
    }
}

impl Duplicate for DirectoryChild {
    fn duplicate(&self) -> (r: Self) {
        DirectoryChild {
            id: self.id.clone(),
            title: self.title.clone(),
            is_dir: self.is_dir,
            artist: self.artist.duplicate(),
            album: self.album.duplicate(),
            content_type: self.content_type.duplicate(),
            cover_art: self.cover_art.duplicate(),
            track: self.track,
            disc_number: self.disc_number,
            duration: self.duration,
            size: self.size,
            parent: self.parent.duplicate(),
        }
    }
}

impl Clone for DirectoryChild {
    fn clone(&self) -> (r: Self)
        ensures
            r.deep_view() == self.deep_view(),
    {
        self.duplicate()
    }
}

/// A truth value as it stands in an XML document.
pub open spec fn truth_text(truth: bool) -> Seq<char> {
    if truth {
        "true"@
    } else {
        "false"@
    }
}

fn truth_str(truth: bool) -> (r: &'static str)
    ensures
        r@ == truth_text(truth),
{
    if truth {
        "true"
    } else {
        "false"
    }
}

/// An entry of a directory.
pub open spec fn child_xml(child: DirectoryChildModel) -> Seq<char> {
    "<child id=\""@
        + escaped(child.id)
        + "\" title=\""@
        + escaped(child.title)
        + "\" isDir=\""@
        + truth_text(child.is_dir)
        + "\""@
        + attr("artist"@, child.artist)
        + attr("album"@, child.album)
        + attr("contentType"@, child.content_type)
        + attr("coverArt"@, child.cover_art)
        + number_attr("track"@, wide(child.track))
        + number_attr("discNumber"@, wide(child.disc_number))
        + number_attr("duration"@, wide(child.duration))
        + number_attr("size"@, child.size)
        + attr("parent"@, child.parent)
        + " />"@
}

fn child_element(child: &DirectoryChild) -> (r: String)
    ensures
        r@ == child_xml(child.deep_view()),
{
    let mut s = "<child id=\"".to_owned();
    push_text(&mut s, &xml_escape(&child.id));
    push_text(&mut s, "\" title=\"");
    push_text(&mut s, &xml_escape(&child.title));
    push_text(&mut s, "\" isDir=\"");
    push_text(&mut s, truth_str(child.is_dir));
    push_text(&mut s, "\"");
    push_text(&mut s, &optional_attr("artist", text_ref(&child.artist)));
    push_text(&mut s, &optional_attr("album", text_ref(&child.album)));
    push_text(&mut s, &optional_attr("contentType", text_ref(&child.content_type)));
    push_text(&mut s, &optional_attr("coverArt", text_ref(&child.cover_art)));
    push_text(&mut s, &optional_number_attr("track", widen(child.track)));
    push_text(&mut s, &optional_number_attr("discNumber", widen(child.disc_number)));
    push_text(&mut s, &optional_number_attr("duration", widen(child.duration)));
    push_text(&mut s, &optional_number_attr("size", child.size));
    push_text(&mut s, &optional_attr("parent", text_ref(&child.parent)));
    push_text(&mut s, " />");
    s
}

/// The entries of a directory.
pub open spec fn children_xml(items: Seq<DirectoryChildModel>) -> Seq<char>
    decreases items.len(),
{
    if items.len() == 0 {
        seq![]
    } else {
        children_xml(items.drop_last()) + child_xml(items.last())
    }
}

fn child_elements(items: &Vec<DirectoryChild>) -> (r: String)
    ensures
        r@ == children_xml(items.deep_view()),
{
    let ghost all = items.deep_view();
    let total: usize = items.len();
    let mut s = String::new();
    let mut i: usize = 0;
    assert(all.take(0) =~= seq![]);
    assert(s@ =~= seq![]);
    while i < total
        invariant
            i <= total,
            total == items@.len(),
            all == items.deep_view(),
            s@ == children_xml(all.take(i as int)),
        decreases total - i,
    {
        assert(all.take(i + 1).drop_last() =~= all.take(i as int));
        assert(all.take(i + 1).last() == items@[i as int].deep_view());
        push_text(&mut s, &child_element(&items[i]));
        i = i + 1;
    }
    assert(all.take(total as int) =~= all);
    s
}

/// An object with a text under a key, where there is a text.
pub open spec fn with_text(
    entries: Map<Seq<char>, Json>,
    key: Seq<char>,
    text: Option<Seq<char>>,
) -> Map<Seq<char>, Json> {
    match text {
        Some(text) => entries.insert(key, Json::Text(text)),
        None => entries,
    }
}

/// An object with a number under a key, where there is a number.
pub open spec fn with_number(
    entries: Map<Seq<char>, Json>,
    key: Seq<char>,
    number: Option<u64>,
) -> Map<Seq<char>, Json> {
    match number {
        Some(number) => entries.insert(key, Json::Number(number as nat)),
        None => entries,
    }
}

fn add_text(
    map: &mut serde_json::Map<String, serde_json::Value>,
    key: &str,
    text: Option<&str>,
)
    ensures
        entries_of(*final(map)) == with_text(entries_of(*old(map)), key@, text.deep_view()),
{
    if let Some(text) = text {
        put_text(map, key, text);
    }
}

fn add_number(
    map: &mut serde_json::Map<String, serde_json::Value>,
    key: &str,
    number: Option<u64>,
)
    ensures
        entries_of(*final(map)) == with_number(entries_of(*old(map)), key@, number),
{
    if let Some(number) = number {
        put_number(map, key, number);
    }
}

/// An entry of a directory: what is not known of it is left out.
pub open spec fn child_json(child: DirectoryChildModel) -> Map<Seq<char>, Json> {
    let named = no_entries().insert("id"@, Json::Text(child.id)).insert(
        "title"@,
        Json::Text(child.title),
    ).insert("isDir"@, Json::Bool(child.is_dir));
    let filed = with_text(
        with_text(
            with_text(
                with_text(named, "artist"@, child.artist),
                "album"@,
                child.album,
            ),
            "contentType"@,
            child.content_type,
        ),
        "coverArt"@,
        child.cover_art,
    );
    let measured = with_number(
        with_number(
            with_number(
                with_number(filed, "track"@, wide(child.track)),
                "discNumber"@,
                wide(child.disc_number),
            ),
            "duration"@,
            wide(child.duration),
        ),
        "size"@,
        child.size,
    );
    with_text(measured, "parent"@, child.parent)
}

fn child_object(child: &DirectoryChild) -> (r: serde_json::Map<String, serde_json::Value>)
    ensures
        entries_of(r) == child_json(child.deep_view()),
{
    let mut map = new_map();
    put_text(&mut map, "id", &child.id);
    put_text(&mut map, "title", &child.title);
    put_bool(&mut map, "isDir", child.is_dir);
    add_text(&mut map, "artist", text_ref(&child.artist));
    add_text(&mut map, "album", text_ref(&child.album));
    add_text(&mut map, "contentType", text_ref(&child.content_type));
    add_text(&mut map, "coverArt", text_ref(&child.cover_art));
    add_number(&mut map, "track", widen(child.track));
    add_number(&mut map, "discNumber", widen(child.disc_number));
    add_number(&mut map, "duration", widen(child.duration));
    add_number(&mut map, "size", child.size);
    add_text(&mut map, "parent", text_ref(&child.parent));
    map
}

/// The entries of a directory.
pub open spec fn children_json(items: Seq<DirectoryChildModel>) -> Json {
    Json::Array(items.map_values(|item: DirectoryChildModel| Json::Object(child_json(item))))
}

fn child_array(items: &Vec<DirectoryChild>) -> (r: serde_json::Value)
    ensures
        json_of(r) == children_json(items.deep_view()),
{
    let total: usize = items.len();
    let mut values: Vec<serde_json::Value> = Vec::new();
    let mut i: usize = 0;
    while i < total
        invariant
            i <= total,
            total == items@.len(),
            values@.len() == i,
            forall|j: int|
                0 <= j < i ==> json_of(#[trigger] values@[j]) == Json::Object(
                    child_json(items@[j].deep_view()),
                ),
        decreases total - i,
    {
        values.push(object_value(child_object(&items[i])));
        i = i + 1;
    }
    assert(all_json(values@) =~= items.deep_view().map_values(
        |item: DirectoryChildModel| Json::Object(child_json(item)),
    ));
    array_value(values)
}

/// The response to a request for a directory.
pub open spec fn directory_reply(
    format: ResponseFormat,
    id: Seq<char>,
    name: Seq<char>,
    parent: Option<Seq<char>>,
    children: Seq<DirectoryChildModel>,
) -> SubsonicResponseModel {
    rendered(
        format,
        "<directory id=\""@ + escaped(id) + "\" name=\""@ + escaped(name) + "\""@ + attr(
            "parent"@,
            parent,
        ) + ">"@ + children_xml(children) + "</directory>"@,
        single(
            "directory"@,
            Json::Object(
                with_text(
                    no_entries().insert("id"@, Json::Text(id)).insert("name"@, Json::Text(name)),
                    "parent"@,
                    parent,
                ).insert("child"@, children_json(children)),
            ),
        ),
    )
}

/// The response to a request for a directory.
pub fn render_directory(
    format: ResponseFormat,
    id: &str,
    name: &str,
    parent: Option<&str>,
    children: Vec<DirectoryChild>,
) -> (r: SubsonicResponse)
    ensures
        r.deep_view() == directory_reply(
            format,
            id@,
            name@,
            parent.deep_view(),
            children.deep_view(),
        ),
{
    match format {
        ResponseFormat::Xml => {
            let mut body = "<directory id=\"".to_owned();
            push_text(&mut body, &xml_escape(id));
            push_text(&mut body, "\" name=\"");
            push_text(&mut body, &xml_escape(name));
            push_text(&mut body, "\"");
            push_text(&mut body, &optional_attr("parent", parent));
            push_text(&mut body, ">");
            push_text(&mut body, &child_elements(&children));
            push_text(&mut body, "</directory>");
            SubsonicResponse::Xml(wrap_xml(&body))
        },
        ResponseFormat::Json => {
            let mut directory = new_map();
            put_text(&mut directory, "id", id);
            put_text(&mut directory, "name", name);
            add_text(&mut directory, "parent", parent);
            put(&mut directory, "child", child_array(&children));
            SubsonicResponse::Json(wrap_json(single_entry("directory", object_value(directory))))
        },
    }
}

/// Every artist stands in the index that its name gives.
pub proof fn law_every_artist_is_indexed(artists: Seq<ArtistModel>, i: int)
    requires
        0 <= i < artists.len(),
    ensures
        grouped(artists).dom().contains(index_name(artists[i].name)),
        grouped(artists)[index_name(artists[i].name)].contains(indexed(artists[i])),
    decreases artists.len(),
{
    let before = grouped(artists.drop_last());
    let name = index_name(artists.last().name);
    let so_far = or_empty(found(before, name));
    let all = grouped(artists);
    if i < artists.len() - 1 {
        law_every_artist_is_indexed(artists.drop_last(), i);
        assert(artists.drop_last()[i] == artists[i]);
        let own = index_name(artists[i].name);
        if own == name {
            let k = choose|k: int| 0 <= k < before[own].len() && before[own][k] == indexed(artists[i]);
            assert(all[own][k] == indexed(artists[i]));
        }
    } else {
        assert(all[name][so_far.len() as int] == indexed(artists[i]));
    }
}

/// No artist stands in an index that its name does not give.
pub proof fn law_no_artist_is_misfiled(artists: Seq<ArtistModel>, name: Seq<char>, k: int)
    requires
        grouped(artists).dom().contains(name),
        0 <= k < grouped(artists)[name].len(),
    ensures
        index_name(grouped(artists)[name][k].name) == name,
        exists|i: int| 0 <= i < artists.len() && indexed(#[trigger] artists[i]) == grouped(artists)[name][k],
    decreases artists.len(),
{
    if artists.len() > 0 {
        let before = grouped(artists.drop_last());
        let last = index_name(artists.last().name);
        let so_far = or_empty(found(before, last));
        let item = grouped(artists)[name][k];
        if name == last && k == so_far.len() {
            assert(indexed(artists[artists.len() - 1]) == item);
        } else {
            law_no_artist_is_misfiled(artists.drop_last(), name, k);
            let i = choose|i: int|
                0 <= i < artists.drop_last().len() && indexed(#[trigger] artists.drop_last()[i])
                    == before[name][k];
            assert(artists.drop_last()[i] == artists[i]);
            assert(indexed(artists[i]) == item);
        }
    }
}

} // verus!
