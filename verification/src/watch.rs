//! Which changes of the music directory call for a new scan.

use vstd::prelude::*;
use vstd::utf8::{
    decode_utf8_encode_utf8, encode_utf8, encode_utf8_decode_utf8, encode_utf8_valid_utf8,
    is_ascii_chars, is_ascii_chars_encode_utf8,
};

use crate::media::{
    audio_type, detect_image_content_type, image_type, is_audio_file, role_of, FileRole,
};
use crate::path::{
    extension_of, extension_text, file_name_of, last_dot, law_entry_of_a_directory, law_extension,
    FilePath,
};
use crate::text::{lower_text, same_text};
use crate::utf8::text_of;

verus! {

/// What happened to the content of a file.
#[derive(Debug, Clone, Copy, PartialEq, Eq)]
pub enum DataChange {
    Any,
    Size,
    Content,
    Other,
}

/// How a file was modified.
#[derive(Debug, Clone, Copy, PartialEq, Eq)]
pub enum ModifyKind {
    Any,
    Data(DataChange),
    Metadata,
    Name,
    Other,
}

/// What happened to a file.
#[derive(Debug, Clone, Copy, PartialEq, Eq)]
pub enum EventKind {
    Any,
    Access,
    Create,
    Modify(ModifyKind),
    Remove,
    Other,
}

/// Something that happened to files.
pub struct Event {
    pub kind: EventKind,
    pub paths: Vec<FilePath>,
}

/// Whether an event of this kind may change the library.
pub open spec fn may_change_library(kind: EventKind) -> bool {
    match kind {
        EventKind::Any | EventKind::Create | EventKind::Remove => true,
        EventKind::Modify(how) => how != ModifyKind::Metadata,
        EventKind::Access | EventKind::Other => false,
    }
}

/// The names of the files that the server itself writes into the music directory.
pub open spec fn is_own_file(name: Seq<char>) -> bool {
    ||| name == "iroh-fm.db"@
    ||| name == "iroh-fm.db-journal"@
    ||| name == "iroh-fm.db-wal"@
    ||| name == "iroh-fm.db-shm"@
    ||| name == "iroh-music-server.db"@
    ||| name == "iroh-music-server.db-journal"@
    ||| name == "iroh-music-server.db-wal"@
    ||| name == "iroh-music-server.db-shm"@
}

/// Whether the file at `path` matters to the library: it is audio or an image, with a name that is
/// text, and not a file of the server.
pub open spec fn is_relevant(path: Seq<Seq<u8>>) -> bool {
    match file_name_of(path) {
        Some(name) => match text_of(name) {
            Some(text) => !is_own_file(text) && (audio_type(extension_text(path)) is Some
                || image_type(extension_text(path)) is Some),
            None => false,
        },
        None => false,
    }
}

/// Whether an event of this kind may change the library.
pub fn event_kind_needs_rescan(kind: EventKind) -> (r: bool)
    ensures
        r == may_change_library(kind),
{
    match kind {
        EventKind::Any | EventKind::Create | EventKind::Remove => true,
        EventKind::Modify(how) => match how {
            ModifyKind::Any | ModifyKind::Data(_) | ModifyKind::Name | ModifyKind::Other => true,
            ModifyKind::Metadata => false,
        },
        EventKind::Access | EventKind::Other => false,
    }
}

fn is_own_name(name: &str) -> (r: bool)
    ensures
        r == is_own_file(name@),
{
    same_text(name, "iroh-fm.db") || same_text(name, "iroh-fm.db-journal") || same_text(
        name,
        "iroh-fm.db-wal",
    ) || same_text(name, "iroh-fm.db-shm") || same_text(name, "iroh-music-server.db") || same_text(
        name,
        "iroh-music-server.db-journal",
    ) || same_text(name, "iroh-music-server.db-wal") || same_text(name, "iroh-music-server.db-shm")
}

/// Whether the file at `path` matters to the library.
pub fn is_library_relevant_path(path: &FilePath) -> (r: bool)
    ensures
        r == is_relevant(path.deep_view()),
{
    match path.file_name_text() {
        Some(name) => !is_own_name(&name) && (is_audio_file(path) || detect_image_content_type(
            path,
        ).is_some()),
        None => false,
    }
}

/// Whether an event calls for a new scan: it may change the library, and one of its files matters.
pub fn event_needs_rescan(event: &Event) -> (r: bool)
    ensures
        r == (may_change_library(event.kind) && exists|i: int|
            0 <= i < event.paths@.len() && is_relevant(#[trigger] event.paths.deep_view()[i])),
{
    if !event_kind_needs_rescan(event.kind) {
        return false;
    }
    let total: usize = event.paths.len();
    let mut i: usize = 0;
    while i < total
        invariant
            i <= total,
            total == event.paths@.len(),
            forall|j: int| 0 <= j < i ==> !is_relevant(#[trigger] event.paths.deep_view()[j]),
            may_change_library(event.kind),
        decreases total - i,
    {
        assert(event.paths.deep_view()[i as int] == event.paths@[i as int].deep_view());
        if is_library_relevant_path(&event.paths[i]) {
            return true;
        }
        i = i + 1;
    }
    false
}

/// What the server writes into the music directory never calls for a new scan: a scan does not
/// cause another one.
pub proof fn law_own_files_are_ignored(path: Seq<Seq<u8>>, name: Seq<u8>, text: Seq<char>)
    requires
        file_name_of(path) == Some(name),
        text_of(name) == Some(text),
        is_own_file(text),
    ensures
        !is_relevant(path),
{
}

/// What follows the last full stop of a name in ASCII is its extension.
proof fn lemma_extension_of_text(name: Seq<u8>, text: Seq<char>, dot: int)
    requires
        text_of(name) == Some(text),
        is_ascii_chars(text),
        0 < dot < text.len(),
        text[dot] == '.',
        forall|j: int| dot < j < text.len() ==> text[j] != '.',
    ensures
        extension_of(name) matches Some(extension) && text_of(extension) == Some(
            text.skip(dot + 1),
        ),
{
    let rest = text.skip(dot + 1);
    decode_utf8_encode_utf8(name);
    is_ascii_chars_encode_utf8(text);
    assert(is_ascii_chars(rest));
    is_ascii_chars_encode_utf8(rest);
    assert(last_dot(name, dot)) by {
        assert(name[dot] == text[dot] as u8);
        assert forall|j: int| dot < j < name.len() implies name[j] != 46u8 by {
            assert(name[j] == text[j] as u8);
            assert('\0' <= text[j] <= '\u{7f}');
        }
    }
    let i = choose|i: int| last_dot(name, i) && i > 0;
    assert(i == dot);
    assert(name.skip(dot + 1) =~= encode_utf8(rest)) by {
        assert forall|j: int| 0 <= j < rest.len() implies name.skip(dot + 1)[j] == encode_utf8(
            rest,
        )[j] by {
            assert(rest[j] == text[j + dot + 1]);
            assert(name[j + dot + 1] == text[j + dot + 1] as u8);
        }
    }
    encode_utf8_valid_utf8(rest);
    encode_utf8_decode_utf8(rest);
}

/// None of the files that the server writes has the extension of audio or of an image.
proof fn lemma_own_files_are_no_media(path: Seq<Seq<u8>>, name: Seq<u8>, text: Seq<char>)
    requires
        file_name_of(path) == Some(name),
        text_of(name) == Some(text),
        is_own_file(text),
    ensures
        audio_type(extension_text(path)) is None,
        image_type(extension_text(path)) is None,
{
    reveal_strlit("iroh-fm.db");
    reveal_strlit("iroh-fm.db-journal");
    reveal_strlit("iroh-fm.db-wal");
    reveal_strlit("iroh-fm.db-shm");
    reveal_strlit("iroh-music-server.db");
    reveal_strlit("iroh-music-server.db-journal");
    reveal_strlit("iroh-music-server.db-wal");
    reveal_strlit("iroh-music-server.db-shm");
    let dot: int = if text[7] == '.' {
        7
    } else {
        17
    };
    lemma_extension_of_text(name, text, dot);
    assert(lower_text(text.skip(dot + 1))[0] == 'd');
    reveal_strlit("mp3");
    reveal_strlit("flac");
    reveal_strlit("ogg");
    reveal_strlit("opus");
    reveal_strlit("m4a");
    reveal_strlit("wav");
    reveal_strlit("jpg");
    reveal_strlit("jpeg");
    reveal_strlit("png");
    reveal_strlit("webp");
    reveal_strlit("gif");
}

/// Every file that a scan makes a track or a cover of calls for a new scan when it changes, where
/// its name is text.
pub proof fn law_library_files_are_relevant(path: Seq<Seq<u8>>, name: Seq<u8>)
    requires
        file_name_of(path) == Some(name),
        text_of(name) is Some,
        role_of(path) != FileRole::Other,
    ensures
        is_relevant(path),
{
    if let Some(text) = text_of(name) {
        if is_own_file(text) {
            lemma_own_files_are_no_media(path, name, text);
        }
    }
}

/// What is created, removed or changed in its content or its name
/// calls for a new scan, and so does what is not known; what is only read, or changed in its attributes,
/// does not.
pub proof fn law_kinds_of_events(how: ModifyKind)
    ensures
        may_change_library(EventKind::Create),
        may_change_library(EventKind::Remove),
        may_change_library(EventKind::Any),
        may_change_library(EventKind::Modify(how)) <==> how != ModifyKind::Metadata,
        !may_change_library(EventKind::Access),
        !may_change_library(EventKind::Other),
{
}

/// A file calls for a new scan by its extension alone, in lower or in upper case.
pub proof fn law_files_of_the_library_by_extension(
    dir: Seq<Seq<u8>>,
    stem: Seq<u8>,
    extension: Seq<u8>,
    text: Seq<char>,
    e: Seq<char>,
)
    requires
        stem.len() > 0,
        extension.len() > 0,
        forall|i: int| 0 <= i < extension.len() ==> #[trigger] extension[i] != 46u8,
        text_of(stem.push(46u8) + extension) == Some(text),
        text_of(extension) == Some(e),
        !is_own_file(text),
    ensures
        is_relevant(dir.push(stem.push(46u8) + extension)) <==> {
            ||| lower_text(e) == "mp3"@
            ||| lower_text(e) == "flac"@
            ||| lower_text(e) == "ogg"@
            ||| lower_text(e) == "opus"@
            ||| lower_text(e) == "m4a"@
            ||| lower_text(e) == "wav"@
            ||| lower_text(e) == "jpg"@
            ||| lower_text(e) == "jpeg"@
            ||| lower_text(e) == "png"@
            ||| lower_text(e) == "webp"@
            ||| lower_text(e) == "gif"@
        },
{
    let name = stem.push(46u8) + extension;
    law_extension(stem, extension);
    assert(name.last() == extension.last());
    assert(name.len() >= 3);
    law_entry_of_a_directory(dir, name);
    assert(extension_text(dir.push(name)) == Some(lower_text(e)));
}

/// A file whose name is no text, or has no extension, calls for no new scan.
pub proof fn law_other_files_are_ignored(dir: Seq<Seq<u8>>, name: Seq<u8>)
    requires
        name != seq![47u8],
        name != seq![46u8],
        name != seq![46u8, 46u8],
    ensures
        text_of(name) is None ==> !is_relevant(dir.push(name)),
        (forall|i: int| 0 <= i < name.len() ==> #[trigger] name[i] != 46u8) ==> !is_relevant(
            dir.push(name),
        ),
{
    law_entry_of_a_directory(dir, name);
    if forall|i: int| 0 <= i < name.len() ==> #[trigger] name[i] != 46u8 {
        law_extension(name, name);
    }
}

/// The files of the server are those of its two databases, each with what stands beside it.
pub proof fn law_own_files_are_the_databases(suffix: Seq<char>)
    requires
        suffix.len() == 0 || suffix == "-journal"@ || suffix == "-wal"@ || suffix == "-shm"@,
    ensures
        is_own_file("iroh-fm.db"@ + suffix),
        is_own_file("iroh-music-server.db"@ + suffix),
{
    reveal_strlit("-journal");
    reveal_strlit("-wal");
    reveal_strlit("-shm");
    reveal_strlit("iroh-fm.db");
    reveal_strlit("iroh-fm.db-journal");
    reveal_strlit("iroh-fm.db-wal");
    reveal_strlit("iroh-fm.db-shm");
    reveal_strlit("iroh-music-server.db");
    reveal_strlit("iroh-music-server.db-journal");
    reveal_strlit("iroh-music-server.db-wal");
    reveal_strlit("iroh-music-server.db-shm");
    if suffix.len() == 0 {
        assert("iroh-fm.db"@ + suffix =~= "iroh-fm.db"@);
        assert("iroh-music-server.db"@ + suffix =~= "iroh-music-server.db"@);
    } else if suffix == "-journal"@ {
        assert("iroh-fm.db"@ + suffix =~= "iroh-fm.db-journal"@);
        assert("iroh-music-server.db"@ + suffix =~= "iroh-music-server.db-journal"@);
    } else if suffix == "-wal"@ {
        assert("iroh-fm.db"@ + suffix =~= "iroh-fm.db-wal"@);
        assert("iroh-music-server.db"@ + suffix =~= "iroh-music-server.db-wal"@);
    } else {
        assert("iroh-fm.db"@ + suffix =~= "iroh-fm.db-shm"@);
        assert("iroh-music-server.db"@ + suffix =~= "iroh-music-server.db-shm"@);
    }
}

} // verus!
