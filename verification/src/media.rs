//! Which files the library is made of.

use vstd::prelude::*;

use crate::path::{extension_text, file_name_of, FilePath};
use crate::text::same_text;
use crate::utf8::text_of;

verus! {

/// The name of the file that holds the cache of tags.
pub open spec fn cache_file() -> Seq<char> {
    "iroh-music-server.db"@
}

/// The name of the file that holds the cache of tags.
pub fn cache_file_name() -> (r: String)
    ensures
        r@ == cache_file(),
{
    "iroh-music-server.db".to_owned()
}

/// The name of the file that holds what has been starred.
pub fn state_file_name() -> (r: String)
    ensures
        r@ == "iroh-fm.db"@,
{
    "iroh-fm.db".to_owned()
}

/// The content type of an audio file by its extension.
pub open spec fn audio_type(extension: Option<Seq<char>>) -> Option<Seq<char>> {
    match extension {
        Some(e) => if e == "mp3"@ {
            Some("audio/mpeg"@)
        } else if e == "flac"@ {
            Some("audio/flac"@)
        } else if e == "ogg"@ || e == "opus"@ {
            Some("audio/ogg"@)
        } else if e == "m4a"@ {
            Some("audio/mp4"@)
        } else if e == "wav"@ {
            Some("audio/wav"@)
        } else {
            None
        },
        None => None,
    }
}

/// The content type of an image by its extension.
pub open spec fn image_type(extension: Option<Seq<char>>) -> Option<Seq<char>> {
    match extension {
        Some(e) => if e == "jpg"@ || e == "jpeg"@ {
            Some("image/jpeg"@)
        } else if e == "png"@ {
            Some("image/png"@)
        } else if e == "webp"@ {
            Some("image/webp"@)
        } else if e == "gif"@ {
            Some("image/gif"@)
        } else {
            None
        },
        None => None,
    }
}

/// A content type, or that of any bytes.
pub open spec fn or_octets(content_type: Option<Seq<char>>) -> Seq<char> {
    match content_type {
        Some(text) => text,
        None => "application/octet-stream"@,
    }
}

fn audio_type_of(path: &FilePath) -> (r: Option<String>)
    ensures
        r.deep_view() == audio_type(extension_text(path.deep_view())),
{
    match path.extension() {
        Some(e) => if same_text(&e, "mp3") {
            Some("audio/mpeg".to_owned())
        } else if same_text(&e, "flac") {
            Some("audio/flac".to_owned())
        } else if same_text(&e, "ogg") || same_text(&e, "opus") {
            Some("audio/ogg".to_owned())
        } else if same_text(&e, "m4a") {
            Some("audio/mp4".to_owned())
        } else if same_text(&e, "wav") {
            Some("audio/wav".to_owned())
        } else {
            None
        },
        None => None,
    }
}

/// Whether the file at `path` is audio.
pub fn is_audio_file(path: &FilePath) -> (r: bool)
    ensures
        r == audio_type(extension_text(path.deep_view())) is Some,
{
    audio_type_of(path).is_some()
}

/// The content type of the audio file at `path`.
pub fn detect_content_type(path: &FilePath) -> (r: String)
    ensures
        r@ == or_octets(audio_type(extension_text(path.deep_view()))),
{
    match audio_type_of(path) {
        Some(t) => t,
        None => "application/octet-stream".to_owned(),
    }
}

/// The content type of the image at `path`, if it is an image.
pub fn detect_image_content_type(path: &FilePath) -> (r: Option<String>)
    ensures
        r.deep_view() == image_type(extension_text(path.deep_view())),
{
    match path.extension() {
        Some(e) => if same_text(&e, "jpg") || same_text(&e, "jpeg") {
            Some("image/jpeg".to_owned())
        } else if same_text(&e, "png") {
            Some("image/png".to_owned())
        } else if same_text(&e, "webp") {
            Some("image/webp".to_owned())
        } else if same_text(&e, "gif") {
            Some("image/gif".to_owned())
        } else {
            None
        },
        None => None,
    }
}

/// What a file is to the library.
#[derive(Debug, Clone, Copy, PartialEq, Eq)]
pub enum FileRole {
    /// A track.
    Audio,
    /// An image that may be a cover.
    Image,
    /// Nothing.
    Other,
}

/// What the file at `path` is to the library.
pub open spec fn role_of(path: Seq<Seq<u8>>) -> FileRole {
    let name = match file_name_of(path) {
        Some(name) => text_of(name),
        None => None,
    };
    if name == Some(cache_file()) {
        FileRole::Other
    } else if audio_type(extension_text(path)) is Some {
        FileRole::Audio
    } else if image_type(extension_text(path)) is Some {
        FileRole::Image
    } else {
        FileRole::Other
    }
}

/// What the file at `path` is to the library.
pub fn classify_file(path: &FilePath) -> (r: FileRole)
    ensures
        r == role_of(path.deep_view()),
{
    let is_cache = match path.file_name_text() {
        Some(name) => same_text(&name, "iroh-music-server.db"),
        None => false,
    };
    if is_cache {
        FileRole::Other
    } else if is_audio_file(path) {
        FileRole::Audio
    } else if detect_image_content_type(path).is_some() {
        FileRole::Image
    } else {
        FileRole::Other
    }
}

/// The content type of audio, extension by extension: no other extension is that of audio.
pub proof fn law_audio_types()
    ensures
        audio_type(Some("mp3"@)) == Some("audio/mpeg"@),
        audio_type(Some("flac"@)) == Some("audio/flac"@),
        audio_type(Some("ogg"@)) == Some("audio/ogg"@),
        audio_type(Some("opus"@)) == Some("audio/ogg"@),
        audio_type(Some("m4a"@)) == Some("audio/mp4"@),
        audio_type(Some("wav"@)) == Some("audio/wav"@),
        audio_type(None) is None,
        forall|e: Seq<char>|
            e != "mp3"@ && e != "flac"@ && e != "ogg"@ && e != "opus"@ && e != "m4a"@ && e != "wav"@
                ==> #[trigger] audio_type(Some(e)) is None,
{
    reveal_strlit("mp3");
    reveal_strlit("flac");
    reveal_strlit("ogg");
    reveal_strlit("opus");
    reveal_strlit("m4a");
    reveal_strlit("wav");
    assert("mp3"@[0] == 'm');
    assert("mp3"@[1] == 'p');
    assert("flac"@[0] == 'f');
    assert("ogg"@[0] == 'o');
    assert("opus"@[0] == 'o');
    assert("m4a"@[0] == 'm');
    assert("m4a"@[1] == '4');
    assert("wav"@[0] == 'w');
}

/// The content type of images, extension by extension: no other extension is that of an image.
pub proof fn law_image_types()
    ensures
        image_type(Some("jpg"@)) == Some("image/jpeg"@),
        image_type(Some("jpeg"@)) == Some("image/jpeg"@),
        image_type(Some("png"@)) == Some("image/png"@),
        image_type(Some("webp"@)) == Some("image/webp"@),
        image_type(Some("gif"@)) == Some("image/gif"@),
        image_type(None) is None,
        forall|e: Seq<char>|
            e != "jpg"@ && e != "jpeg"@ && e != "png"@ && e != "webp"@ && e != "gif"@
                ==> #[trigger] image_type(Some(e)) is None,
{
    reveal_strlit("jpg");
    reveal_strlit("jpeg");
    reveal_strlit("png");
    reveal_strlit("webp");
    reveal_strlit("gif");
    assert("jpg"@[0] == 'j');
    assert("jpeg"@[0] == 'j');
    assert("png"@[0] == 'p');
    assert("webp"@[0] == 'w');
    assert("gif"@[0] == 'g');
}

/// A file is a track or an image by its extension alone: audio first, then images; the file that holds
/// the cache of tags is neither.
pub proof fn law_roles(path: Seq<Seq<u8>>, e: Seq<char>)
    requires
        extension_text(path) == Some(e),
        file_name_of(path) matches Some(name) && text_of(name) != Some("iroh-music-server.db"@),
    ensures
        e == "mp3"@ || e == "flac"@ || e == "ogg"@ || e == "opus"@ || e == "m4a"@ || e == "wav"@
            <==> role_of(path) == FileRole::Audio,
        e == "jpg"@ || e == "jpeg"@ || e == "png"@ || e == "webp"@ || e == "gif"@ <==> role_of(path)
            == FileRole::Image,
{
    law_audio_types();
    law_image_types();
    reveal_strlit("mp3");
    reveal_strlit("flac");
    reveal_strlit("ogg");
    reveal_strlit("opus");
    reveal_strlit("m4a");
    reveal_strlit("wav");
    reveal_strlit("jpg");
    reveal_strlit("jpeg");
    reveal_strlit("png");
    reveal_strlit("webp");
    reveal_strlit("gif");
    assert("mp3"@.len() == 3 && "mp3"@[0] == 'm' && "mp3"@[1] == 'p');
    assert("flac"@.len() == 4 && "flac"@[0] == 'f');
    assert("ogg"@.len() == 3 && "ogg"@[0] == 'o');
    assert("opus"@.len() == 4 && "opus"@[0] == 'o');
    assert("m4a"@.len() == 3 && "m4a"@[0] == 'm' && "m4a"@[1] == '4');
    assert("wav"@.len() == 3 && "wav"@[0] == 'w');
    assert("jpg"@.len() == 3 && "jpg"@[0] == 'j');
    assert("jpeg"@.len() == 4 && "jpeg"@[0] == 'j');
    assert("png"@.len() == 3 && "png"@[0] == 'p');
    assert("webp"@.len() == 4 && "webp"@[0] == 'w');
    assert("gif"@.len() == 3 && "gif"@[0] == 'g');
}

/// A content type that is not known is that of any bytes.
pub proof fn law_unknown_type_is_that_of_any_bytes(content_type: Seq<char>)
    ensures
        or_octets(Some(content_type)) == content_type,
        or_octets(None) == "application/octet-stream"@,
{
}

} // verus!
