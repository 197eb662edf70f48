//! Messages between the backend and its clients.

use vstd::prelude::*;

use crate::duplicate::Duplicate;
use crate::error::{error_text, invalid_request, outcome, Error, ErrorModel};
use crate::index::LibraryIndexModel;
use crate::path::{joined, FilePath};
use crate::protocol::{
    BackendRequest, BackendRequestModel, BackendResponse, BackendResponseModel, SearchQueryModel,
    StreamDescriptor, StreamDescriptorModel,
};
use crate::server::{answer, change_answer, ActionModel};
use crate::utf8::copy_bytes;

verus! {

/// The four bytes of a number, the highest first.
pub open spec fn length_bytes(n: int) -> Seq<u8> {
    seq![
        (n / 0x100_0000) as u8,
        (n / 0x1_0000 % 0x100) as u8,
        (n / 0x100 % 0x100) as u8,
        (n % 0x100) as u8,
    ]
}

/// The number that four bytes stand for, the highest first.
pub open spec fn length_value(header: Seq<u8>) -> int {
    header[0] * 0x100_0000 + header[1] * 0x1_0000 + header[2] * 0x100 + header[3]
}

/// A message as it is sent: its length and its bytes.
pub open spec fn framed(message: Seq<u8>) -> Seq<u8> {
    length_bytes(message.len() as int) + message
}

/// A message as it is sent. A message whose length does not fit in four bytes is not.
pub fn frame(message: &Vec<u8>) -> (r: Result<Vec<u8>, Error>)
    ensures
        match r {
            Ok(bytes) => message@.len() <= u32::MAX && bytes@ == framed(message@),
            Err(error) => message@.len() > u32::MAX && error.deep_view()
                == ErrorModel::InvalidRequest("message too large"@),
        },
{
    let length: u64 = message.len() as u64;
    if length > u32::MAX as u64 {
        return Err(invalid_request("message too large"));
    }
    let mut bytes: Vec<u8> = Vec::new();
    bytes.push((length / 0x100_0000) as u8);
    bytes.push((length / 0x1_0000 % 0x100) as u8);
    bytes.push((length / 0x100 % 0x100) as u8);
    bytes.push((length % 0x100) as u8);
    assert(bytes@ =~= length_bytes(message@.len() as int));
    let mut rest = copy_bytes(message);
    bytes.append(&mut rest);
    Ok(bytes)
}

/// The length of the message that follows the four bytes before it.
pub fn message_length(header: &[u8; 4]) -> (r: u32)
    ensures
        r == length_value(header@),
{
    (header[0] as u32) * 0x100_0000 + (header[1] as u32) * 0x1_0000 + (header[2] as u32) * 0x100 + (
    header[3] as u32)
}

/// What was sent is read back: the first four bytes give the length of the message, that many
/// bytes follow, and then comes what was sent after it.
pub proof fn law_message_is_read_back(message: Seq<u8>, rest: Seq<u8>)
    requires
        message.len() <= u32::MAX,
    ensures
        length_value((framed(message) + rest).take(4)) == message.len(),
        (framed(message) + rest).subrange(4, 4 + message.len() as int) == message,
        (framed(message) + rest).skip(4 + message.len() as int) == rest,
{
    let n = message.len() as int;
    let sent = framed(message) + rest;
    assert(sent.take(4) =~= length_bytes(n));
    assert(sent.subrange(4, 4 + n) =~= message);
    assert(sent.skip(4 + n) =~= rest);
    assert(n / 0x100_0000 < 0x100);
    assert(n / 0x1_0000 == (n / 0x100_0000) * 0x100 + n / 0x1_0000 % 0x100);
    assert(n / 0x100 == (n / 0x1_0000) * 0x100 + n / 0x100 % 0x100);
}

/// A message that was received: an error that the backend sends is an error of the request.
pub open spec fn received(response: BackendResponseModel) -> Result<BackendResponseModel, ErrorModel> {
    match response {
        BackendResponseModel::Error { message } => Err(ErrorModel::InvalidRequest(message)),
        _ => Ok(response),
    }
}

/// What a client makes of the response that it received.
pub fn read_response(response: BackendResponse) -> (r: Result<BackendResponse, Error>)
    ensures
        outcome(r) == received(response.deep_view()),
{
    match response {
        BackendResponse::Error { message } => Err(Error::InvalidRequest(message)),
        other => Ok(other),
    }
}

/// The mathematical value of what came of a request, whose error is given in words.
pub open spec fn result_value(result: Result<BackendResponse, String>) -> Result<
    BackendResponseModel,
    Seq<char>,
> {
    match result {
        Ok(response) => Ok(response.deep_view()),
        Err(message) => Err(message@),
    }
}

/// What the backend sends for what came of a request.
pub open spec fn sent(result: Result<BackendResponseModel, Seq<char>>) -> BackendResponseModel {
    match result {
        Ok(response) => response,
        Err(message) => BackendResponseModel::Error { message },
    }
}

/// What the backend sends for what came of a request.
pub fn response_to_send(result: Result<BackendResponse, String>) -> (r: BackendResponse)
    ensures
        r.deep_view() == sent(result_value(result)),
{
    match result {
        Ok(response) => response,
        Err(message) => BackendResponse::Error { message },
    }
}

/// What the backend sends for what came of a request to open a stream, and the file whose content
/// it sends after that.
pub open spec fn stream_sent(result: Result<BackendResponseModel, Seq<char>>) -> (
    BackendResponseModel,
    Option<Seq<Seq<u8>>>,
) {
    match result {
        Ok(BackendResponseModel::Stream(stream)) => (
            BackendResponseModel::Stream(stream),
            Some(stream.path),
        ),
        Ok(_) => (BackendResponseModel::Error { message: "unexpected stream response"@ }, None),
        Err(message) => (BackendResponseModel::Error { message }, None),
    }
}

/// What the backend sends for what came of a request to open a stream, and the file whose content
/// it sends after that.
pub fn stream_to_send(result: Result<BackendResponse, String>) -> (r: (
    BackendResponse,
    Option<FilePath>,
))
    ensures
        (r.0.deep_view(), r.1.deep_view()) == stream_sent(result_value(result)),
{
    match result {
        Ok(BackendResponse::Stream(stream)) => {
            let path = stream.path.duplicate();
            (BackendResponse::Stream(stream), Some(path))
        },
        Ok(_) => (
            BackendResponse::Error { message: "unexpected stream response".to_owned() },
            None,
        ),
        Err(message) => (BackendResponse::Error { message }, None),
    }
}

/// Whether a request opens a stream.
pub open spec fn is_stream_request(request: BackendRequestModel) -> bool {
    request is OpenStream
}

/// Whether a request opens a stream.
pub fn wants_stream(request: &BackendRequest) -> (r: bool)
    ensures
        r == is_stream_request(request.deep_view()),
{
    match request {
        BackendRequest::OpenStream { .. } => true,
        _ => false,
    }
}

/// What the backend sends for what came of a request, and the file whose content it sends after
/// that: only a request to open a stream has one.
pub fn messages_to_send(stream: bool, result: Result<BackendResponse, String>) -> (r: (
    BackendResponse,
    Option<FilePath>,
))
    ensures
        (r.0.deep_view(), r.1.deep_view()) == (if stream {
            stream_sent(result_value(result))
        } else {
            (sent(result_value(result)), None)
        }),
{
    if stream {
        stream_to_send(result)
    } else {
        (response_to_send(result), None)
    }
}

/// The stream that a response opens.
pub open spec fn opened(response: BackendResponseModel) -> Result<StreamDescriptorModel, ErrorModel> {
    match received(response) {
        Err(error) => Err(error),
        Ok(BackendResponseModel::Stream(stream)) => Ok(stream),
        Ok(_) => Err(
            ErrorModel::InvalidRequest("backend returned unexpected response for stream"@),
        ),
    }
}

/// The stream that a response opens.
pub fn opened_stream(response: BackendResponse) -> (r: Result<StreamDescriptor, Error>)
    ensures
        outcome(r) == opened(response.deep_view()),
{
    match read_response(response) {
        Err(error) => Err(error),
        Ok(BackendResponse::Stream(stream)) => Ok(stream),
        Ok(_) => Err(invalid_request("backend returned unexpected response for stream")),
    }
}

/// A client learns why its request was refused: where the backend answers a request with an error,
/// the client gets that error in words, and where it replies, the client gets the reply. Where a star
/// is granted or taken back, the client gets the empty answer, or in words why the change failed.
pub proof fn law_client_gets_the_answer(
    music_dir: Seq<Seq<u8>>,
    index: LibraryIndexModel,
    request: BackendRequestModel,
    change: Result<(), Seq<char>>,
)
    ensures
        answer(music_dir, index, request) matches Err(error) ==> received(
            sent(Err(error_text(error))),
        ) == Err::<BackendResponseModel, ErrorModel>(ErrorModel::InvalidRequest(error_text(error))),
        answer(music_dir, index, request) matches Ok(ActionModel::Reply(response)) ==> received(
            sent(Ok(response)),
        ) == Ok::<BackendResponseModel, ErrorModel>(response),
        (answer(music_dir, index, request) matches Ok(action) && (action is Star
            || action is Unstar)) ==> received(sent(change_answer(change))) == (match change {
            Ok(()) => Ok::<BackendResponseModel, ErrorModel>(BackendResponseModel::Empty),
            Err(reason) => Err(ErrorModel::InvalidRequest(reason)),
        }),
{
}

/// A client that opens a stream gets the stream of the track, and the file of the track is sent
/// after it; or it learns why there is none.
pub proof fn law_client_gets_the_stream(
    music_dir: Seq<Seq<u8>>,
    index: LibraryIndexModel,
    track_id: Seq<char>,
)
    ensures
        match answer(music_dir, index, BackendRequestModel::OpenStream { track_id }) {
            Ok(ActionModel::Reply(response)) => {
                &&& index.tracks.dom().contains(track_id)
                &&& opened(stream_sent(Ok(response)).0) matches Ok(stream) && stream.track_id
                    == index.tracks[track_id].id && stream.content_type
                    == index.tracks[track_id].content_type && stream.file_size
                    == index.tracks[track_id].file_size
                &&& stream_sent(Ok(response)).1 == Some(
                    joined(music_dir, index.tracks[track_id].relative_path),
                )
            },
            Ok(_) => false,
            Err(error) => {
                &&& !index.tracks.dom().contains(track_id)
                &&& stream_sent(Err(error_text(error))).1 is None
                &&& opened(stream_sent(Err(error_text(error))).0) == Err::<
                    StreamDescriptorModel,
                    ErrorModel,
                >(ErrorModel::InvalidRequest(error_text(error)))
            },
        },
{
}

/// The name of a kind of request.
pub open spec fn name_of_request(request: BackendRequestModel) -> Seq<char> {
    match request {
        BackendRequestModel::GetLibrarySummary => "GetLibrarySummary"@,
        BackendRequestModel::ListArtists => "ListArtists"@,
        BackendRequestModel::GetStarred => "GetStarred"@,
        BackendRequestModel::SetStarred { .. } => "SetStarred"@,
        BackendRequestModel::GetArtist { .. } => "GetArtist"@,
        BackendRequestModel::GetAlbum { .. } => "GetAlbum"@,
        BackendRequestModel::GetAlbumTracks { .. } => "GetAlbumTracks"@,
        BackendRequestModel::GetTrack { .. } => "GetTrack"@,
        BackendRequestModel::GetCoverArt { .. } => "GetCoverArt"@,
        BackendRequestModel::ResolveId { .. } => "ResolveId"@,
        BackendRequestModel::Search { .. } => "Search"@,
        BackendRequestModel::OpenStream { .. } => "OpenStream"@,
    }
}

/// The name of a kind of request.
pub fn request_name(request: &BackendRequest) -> (r: &'static str)
    ensures
        r@ == name_of_request(request.deep_view()),
{
    match request {
        BackendRequest::GetLibrarySummary => "GetLibrarySummary",
        BackendRequest::ListArtists => "ListArtists",
        BackendRequest::GetStarred => "GetStarred",
        BackendRequest::SetStarred { .. } => "SetStarred",
        BackendRequest::GetArtist { .. } => "GetArtist",
        BackendRequest::GetAlbum { .. } => "GetAlbum",
        BackendRequest::GetAlbumTracks { .. } => "GetAlbumTracks",
        BackendRequest::GetTrack { .. } => "GetTrack",
        BackendRequest::GetCoverArt { .. } => "GetCoverArt",
        BackendRequest::ResolveId { .. } => "ResolveId",
        BackendRequest::Search { .. } => "Search",
        BackendRequest::OpenStream { .. } => "OpenStream",
    }
}

/// The length of a message stands before it in four bytes
/// of which the highest comes first.
pub proof fn law_length_comes_first(message: Seq<u8>, a: u8, b: u8, c: u8, d: u8)
    requires
        message.len() == ((a * 256 + b) * 256 + c) * 256 + d,
    ensures
        framed(message) == seq![a, b, c, d] + message,
        length_value(seq![a, b, c, d]) == message.len(),
{
    let n = message.len() as int;
    assert(n / 0x100_0000 == a as int);
    assert(n / 0x1_0000 == a as int * 256 + b as int);
    assert(n / 0x100 == (a as int * 256 + b as int) * 256 + c as int);
    assert(length_bytes(n) =~= seq![a, b, c, d]);
}

/// An error of the backend reaches the client in the words in which it was sent, and every other response
/// as it is.
pub proof fn law_errors_are_received(message: Seq<char>, response: BackendResponseModel)
    ensures
        received(BackendResponseModel::Error { message }) == Err::<BackendResponseModel, ErrorModel>(
            ErrorModel::InvalidRequest(message),
        ),
        !(response is Error) ==> received(response) == Ok::<BackendResponseModel, ErrorModel>(response),
        sent(Err(message)) == (BackendResponseModel::Error { message }),
        sent(Ok(response)) == response,
{
}

/// A request goes by the name of its kind, whatever it asks for.
pub proof fn law_requests_go_by_their_kind(id: Seq<char>, starred: bool, query: SearchQueryModel)
    ensures
        name_of_request(BackendRequestModel::GetLibrarySummary) == "GetLibrarySummary"@,
        name_of_request(BackendRequestModel::ListArtists) == "ListArtists"@,
        name_of_request(BackendRequestModel::GetStarred) == "GetStarred"@,
        name_of_request((BackendRequestModel::SetStarred { id, starred })) == "SetStarred"@,
        name_of_request((BackendRequestModel::GetArtist { artist_id: id })) == "GetArtist"@,
        name_of_request((BackendRequestModel::GetAlbum { album_id: id })) == "GetAlbum"@,
        name_of_request((BackendRequestModel::GetAlbumTracks { album_id: id })) == "GetAlbumTracks"@,
        name_of_request((BackendRequestModel::GetTrack { track_id: id })) == "GetTrack"@,
        name_of_request((BackendRequestModel::GetCoverArt { cover_art_id: id })) == "GetCoverArt"@,
        name_of_request((BackendRequestModel::ResolveId { id })) == "ResolveId"@,
        name_of_request((BackendRequestModel::Search { query })) == "Search"@,
        name_of_request((BackendRequestModel::OpenStream { track_id: id })) == "OpenStream"@,
{
}

/// A stream is sent with the file that it reads, and opened as it was sent; no other response opens one,
/// nor is a file sent after it.
pub proof fn law_streams_are_opened(stream: StreamDescriptorModel, other: BackendResponseModel)
    requires
        !(other is Stream),
        !(other is Error),
    ensures
        stream_sent(Ok(BackendResponseModel::Stream(stream))) == (
            BackendResponseModel::Stream(stream),
            Some(stream.path),
        ),
        opened(BackendResponseModel::Stream(stream)) == Ok::<StreamDescriptorModel, ErrorModel>(stream),
        stream_sent(Ok(other)).0 == (BackendResponseModel::Error {
            message: "unexpected stream response"@,
        }),
        stream_sent(Ok(other)).1 is None,
        opened(other) == Err::<StreamDescriptorModel, ErrorModel>(
            ErrorModel::InvalidRequest("backend returned unexpected response for stream"@),
        ),
{
}

} // verus!
