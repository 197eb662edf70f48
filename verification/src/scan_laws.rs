//! What a scan makes of the files below the music directory.

use vstd::prelude::*;

use crate::builder::ScannedTrackModel;
use crate::error::ErrorModel;
use crate::media::{law_roles, role_of, FileRole};
use crate::path::{
    extension_text, file_name_of, law_entry_of_a_directory, law_extension, law_place_below,
    path_bytes, stem_of,
};
use crate::protocol::FileTime;
use crate::scanner::{
    better_name, image_name, inferred, is_cover, is_cover_of, is_fresh, is_stored, loaded, misses,
    name_number_title,
    new_rows, row_of, scan_of, scanned_file, track_name, tracks_in, CacheRowModel,
};
use crate::tags::{fallback_tags, tags_of, TaggedFileModel, TrackTagsModel};
use crate::text::{
    decimal, is_space, law_decimal_notation, law_no_split, law_number_is_read, law_split,
    law_trimming, lemma_text_less_irreflexive, lower_text, text_less, trimmed,
};
use crate::utf8::{lossy_text, text_of};

verus! {

/// A file below the music directory is scanned with its path, its place, its size and its time as they
/// are, and without tags; the time is counted in whole seconds, as far as they can be counted.
pub proof fn law_file_is_scanned_as_it_is(
    root: Seq<Seq<u8>>,
    place: Seq<Seq<u8>>,
    file_size: u64,
    time: FileTime,
)
    ensures
        scanned_file(root, root + place, file_size, Ok(time)) matches Ok(track) && {
            &&& track.path == root + place
            &&& track.relative_path == place
            &&& track.relative_path_string == lossy_text(path_bytes(place))
            &&& track.file_size == file_size
            &&& track.modified_at == time
            &&& time.seconds <= i64::MAX ==> track.modified_unix == time.seconds
            &&& time.seconds > i64::MAX ==> track.modified_unix == i64::MAX
            &&& track.tags is None
            &&& !track.needs_cache_store
        },
{
    law_place_below(root, place, place);
}

/// A file elsewhere is refused, and so is one whose time is before the epoch.
pub proof fn law_strange_files_are_refused(
    root: Seq<Seq<u8>>,
    path: Seq<Seq<u8>>,
    place: Seq<Seq<u8>>,
    file_size: u64,
    modified: Result<FileTime, Seq<char>>,
    reason: Seq<char>,
)
    ensures
        (forall|rest: Seq<Seq<u8>>| path != #[trigger] (root + rest)) ==> scanned_file(
            root,
            path,
            file_size,
            modified,
        ) == Err::<ScannedTrackModel, ErrorModel>(
            ErrorModel::InvalidRequest("path outside music root: "@ + lossy_text(path_bytes(path))),
        ),
        scanned_file(root, root + place, file_size, Err(reason)) == Err::<
            ScannedTrackModel,
            ErrorModel,
        >(ErrorModel::InvalidRequest("file modified before unix epoch: "@ + reason)),
{
    law_place_below(root, place, path);
}

/// The directories on the way to a file name its artist and its album: the first the artist and the second
/// the album; one alone both, with ` - ` between them, or the album; and none neither.
pub proof fn law_directories_name_artist_and_album(
    artist: Seq<u8>,
    album: Seq<u8>,
    deeper: Seq<Seq<u8>>,
    name: Seq<u8>,
    a: Seq<char>,
    b: Seq<char>,
)
    requires
        name != seq![47u8],
        name != seq![46u8],
        name != seq![46u8, 46u8],
    ensures
        inferred((seq![artist, album] + deeper).push(name))
            == (lossy_text(artist), lossy_text(album)),
        lossy_text(artist) == a + " - "@ + b && (forall|c: Seq<char>, d: Seq<char>|
            a + " - "@ + b == #[trigger] (c + " - "@ + d) ==> c.len() >= a.len()) ==> inferred(
            seq![artist, name],
        ) == (trimmed(a), trimmed(b)),
        (forall|c: Seq<char>, d: Seq<char>| lossy_text(artist) != #[trigger] (c + " - "@ + d))
            ==> inferred(seq![artist, name]) == ("Unknown Artist"@, lossy_text(artist)),
        inferred(seq![name]) == ("Unknown Artist"@, "Unknown Album"@),
{
    law_entry_of_a_directory(seq![artist, album] + deeper, name);
    law_entry_of_a_directory(seq![artist], name);
    assert(seq![artist].push(name) =~= seq![artist, name]);
    law_entry_of_a_directory(seq![], name);
    assert(Seq::<Seq<u8>>::empty().push(name) =~= seq![name]);
    if forall|c: Seq<char>, d: Seq<char>|
        a + " - "@ + b == #[trigger] (c + " - "@ + d) ==> c.len() >= a.len() {
        law_split(a, " - "@, b);
    }
    if forall|c: Seq<char>, d: Seq<char>| lossy_text(artist) != #[trigger] (c + " - "@ + d) {
        law_no_split(lossy_text(artist), " - "@);
    }
}

proof fn lemma_digits_are_no_space(n: nat)
    ensures
        decimal(n).len() > 0,
        !is_space(decimal(n)[0]),
        !is_space(decimal(n).last()),
    decreases n,
{
    law_decimal_notation(n);
    if n >= 10 {
        lemma_digits_are_no_space(n / 10);
        lemma_digits_are_no_space(n % 10);
    } else {
        assert(decimal(n)[0] as int == '0' as int + n);
        assert('0' <= decimal(n)[0] <= '9');
    }
}

/// The name of a file gives the number and the title of its track: the number before the first ` - ` and
/// the title after it, or a title alone. The white space around them does not count.
pub proof fn law_name_gives_number_and_title(
    blank: Seq<char>,
    n: u32,
    number: Seq<char>,
    title: Seq<char>,
    name: Seq<char>,
)
    requires
        forall|i: int| 0 <= i < blank.len() ==> is_space(#[trigger] blank[i]),
    ensures
        number == blank + decimal(n as nat) + blank && (forall|c: Seq<char>, d: Seq<char>|
            number + " - "@ + title == #[trigger] (c + " - "@ + d) ==> c.len() >= number.len())
            ==> name_number_title(number + " - "@ + title) == (Some(n), trimmed(title)),
        (forall|c: Seq<char>, d: Seq<char>|
            number + " - "@ + title == #[trigger] (c + " - "@ + d) ==> c.len() >= number.len()) && (
        exists|i: int|
            0 <= i < trimmed(number).len() && !('0' <= #[trigger] trimmed(number)[i] <= '9') && (i > 0
                || trimmed(number)[i] != '+')) ==> name_number_title(number + " - "@ + title) == (
            None::<u32>,
            trimmed(title),
        ),
        (forall|c: Seq<char>, d: Seq<char>| name != #[trigger] (c + " - "@ + d))
            ==> name_number_title(name) == (None::<u32>, trimmed(name)),
{
    if forall|c: Seq<char>, d: Seq<char>|
        number + " - "@ + title == #[trigger] (c + " - "@ + d) ==> c.len() >= number.len() {
        law_split(number, " - "@, title);
        law_number_is_read(n as nat, u32::MAX as nat, trimmed(number));
        if number == blank + decimal(n as nat) + blank {
            lemma_digits_are_no_space(n as nat);
            law_trimming(blank, decimal(n as nat), blank);
        }
    }
    if forall|c: Seq<char>, d: Seq<char>| name != #[trigger] (c + " - "@ + d) {
        law_no_split(name, " - "@);
    }
}

/// The name of a file without its extension is where the number and the title are looked for.
pub proof fn law_track_goes_by_its_stem(
    root: Seq<Seq<u8>>,
    dir: Seq<Seq<u8>>,
    stem: Seq<u8>,
    extension: Seq<u8>,
    text: Seq<char>,
    file_size: u64,
    time: FileTime,
)
    requires
        stem.len() > 0,
        text_of(stem) == Some(text),
        extension.len() > 0,
        forall|i: int| 0 <= i < extension.len() ==> #[trigger] extension[i] != 46u8,
    ensures
        scanned_file(
            root,
            root + dir.push(stem.push(46u8) + extension),
            file_size,
            Ok(time),
        ) matches Ok(track) && track.fallback_track_number == name_number_title(text).0
            && track.fallback_title == name_number_title(text).1
                && track.fallback_artist == inferred(
            dir.push(stem.push(46u8) + extension),
        ).0 && track.fallback_album == inferred(dir.push(stem.push(46u8) + extension)).1,
{
    let name = stem.push(46u8) + extension;
    law_extension(stem, extension);
    assert(name[0] == stem[0]);
    assert(name.last() == extension.last());
    assert(name.len() >= 3);
    law_entry_of_a_directory(dir, name);
    law_place_below(root, dir.push(name), dir);
}

/// Where the tag cache knows nothing of a file and the file cannot be read, its track goes by the names of
/// the file and of its directories.
pub proof fn law_unreadable_file_goes_by_its_names(
    root: Seq<Seq<u8>>,
    place: Seq<Seq<u8>>,
    file_size: u64,
    time: FileTime,
)
    ensures
        scan_of(
            root,
            root + place,
            file_size,
            Ok(time),
            Map::empty(),
            None,
        ) matches Ok(track) && track.needs_cache_store && (track.tags matches Some(tags)
            && tags.artist == track.fallback_artist && tags.album == track.fallback_album
                && tags.title
            == track.fallback_title && tags.track_number == track.fallback_track_number),
{
    law_place_below(root, place, place);
}

/// Where the tag cache knows nothing of a file, its tags are read from the file; where it does, they are
/// those of the cache, whatever stands in the file.
pub proof fn law_tags_come_from_the_cache_or_the_file(
    root: Seq<Seq<u8>>,
    place: Seq<Seq<u8>>,
    file_size: u64,
    time: FileTime,
    table: Map<Seq<char>, CacheRowModel>,
    file: Option<TaggedFileModel>,
    tags: TrackTagsModel,
)
    ensures
        scan_of(root, root + place, file_size, Ok(time), table, file) matches Ok(track) && {
            let known = loaded(
                table,
                lossy_text(path_bytes(place)),
                file_size,
                if time.seconds <= i64::MAX {
                    time.seconds as i64
                } else {
                    i64::MAX
                },
            );
            &&& known == Some(tags) ==> track.tags == Some(tags) && !track.needs_cache_store
            &&& known is None ==> track.needs_cache_store && track.tags == Some(
                tags_of(
                    fallback_tags(
                        root + place,
                        track.fallback_artist,
                        track.fallback_album,
                        track.fallback_title,
                        track.fallback_track_number,
                    ),
                    file,
                ),
            )
        },
{
    law_place_below(root, place, place);
}

/// The row that is stored of a track holds its place, its size, its time and its tags, and it is fresh for
/// just that size and that time.
pub proof fn law_stored_row_tells_the_track(track: ScannedTrackModel, size: u64, modified_unix: i64)
    requires
        track.needs_cache_store,
        track.tags is Some,
        track.file_size <= i64::MAX,
        size <= i64::MAX,
    ensures
        ({
            let rows = new_rows(seq![track]);
            &&& rows.len() == 1
            &&& rows[0].relative_path == track.relative_path_string
            &&& rows[0].file_size == track.file_size
            &&& rows[0].modified_unix == track.modified_unix
            &&& Some(rows[0].tags) == track.tags
            &&& is_fresh(rows[0].file_size, rows[0].modified_unix, size, modified_unix) <==> (size
                == track.file_size && modified_unix == track.modified_unix)
        }),
{
    reveal(Seq::filter);
    reveal_with_fuel(Seq::filter, 2);
    let row = seq![track];
    assert(row.drop_last() =~= Seq::<ScannedTrackModel>::empty());
    let kept = row.filter(|t: ScannedTrackModel| is_stored(t));
    assert(kept =~= row);
    assert(new_rows(row) =~= seq![row_of(track)]);
}

/// Each track that the cache lacks counts, and no other.
pub proof fn law_misses_are_counted(tracks: Seq<ScannedTrackModel>, track: ScannedTrackModel)
    ensures
        misses(Seq::<ScannedTrackModel>::empty()) == 0,
        misses(tracks.push(track)) == misses(tracks) + (if track.needs_cache_store {
            1int
        } else {
            0
        }),
{
    reveal(Seq::filter);
    assert(tracks.push(track).drop_last() =~= tracks);
}

/// One more file of a directory is a track by its extension, and comes behind the others; else it is none.
pub proof fn law_tracks_of_a_directory(files: Seq<Seq<Seq<u8>>>, path: Seq<Seq<u8>>, e: Seq<char>)
    requires
        extension_text(path) == Some(e),
        file_name_of(path) matches Some(name) && text_of(name) != Some("iroh-music-server.db"@),
    ensures
        tracks_in(Seq::<Seq<Seq<u8>>>::empty()).len() == 0,
        e == "mp3"@ || e == "flac"@ || e == "ogg"@ || e == "opus"@ || e == "m4a"@ || e == "wav"@
            ==> tracks_in(files.push(path)) == tracks_in(files).push(path),
        !(e == "mp3"@ || e == "flac"@ || e == "ogg"@ || e == "opus"@ || e == "m4a"@ || e == "wav"@)
            ==> tracks_in(files.push(path)) == tracks_in(files),
{
    reveal(Seq::filter);
    law_roles(path, e);
    assert(files.push(path).drop_last() =~= files);
}

/// The cover of a directory is one of its images, and a directory with an image has one.
pub proof fn law_cover_is_an_image(
    files: Seq<Seq<Seq<u8>>>,
    cover: Option<Seq<Seq<u8>>>,
    path: Seq<Seq<u8>>,
    e: Seq<char>,
)
    requires
        is_cover_of(files, cover),
        files.contains(path),
        extension_text(path) == Some(e),
        file_name_of(path) matches Some(name) && text_of(name) != Some("iroh-music-server.db"@),
    ensures
        cover matches Some(image) ==> files.contains(image) && role_of(image) == FileRole::Image,
        e == "jpg"@ || e == "jpeg"@ || e == "png"@ || e == "webp"@ || e == "gif"@ ==> cover is Some,
        e == "jpg"@ || e == "jpeg"@ || e == "png"@ || e == "webp"@ || e == "gif"@ ==> !better_name(
            image_name(path),
            image_name(cover->0),
        ),
{
    let is_image = |path: Seq<Seq<u8>>| role_of(path) == FileRole::Image;
    let images = files.filter(is_image);
    law_roles(path, e);
    if is_image(path) {
        let k = choose|k: int| 0 <= k < files.len() && files[k] == path;
        files.lemma_filter_contains(is_image, k);
        assert(images.contains(path));
        let j = choose|j: int| 0 <= j < images.len() && images[j] == path;
        assert(images[j] == path);
    }
    if let Some(image) = cover {
        let i = choose|i: int| #[trigger] is_cover(images, i) && image == images[i];
        files.lemma_filter_pred(is_image, i);
        assert(images.contains(image));
        files.lemma_filter_contains_rev(is_image, image);
    }
}

/// An image goes by the name of its file, in lower case.
pub proof fn law_image_goes_by_its_name(dir: Seq<Seq<u8>>, name: Seq<u8>, text: Seq<char>)
    requires
        name != seq![47u8],
        name != seq![46u8],
        name != seq![46u8, 46u8],
        text_of(name) == Some(text),
    ensures
        image_name(dir.push(name)) == lower_text(text),
{
    law_entry_of_a_directory(dir, name);
}

/// An image whose name is no text goes by no name, and a track by that of no track.
pub proof fn law_names_that_are_no_text(dir: Seq<Seq<u8>>, name: Seq<u8>)
    requires
        name != seq![47u8],
        name != seq![46u8],
        name != seq![46u8, 46u8],
    ensures
        text_of(name) is None ==> image_name(dir.push(name)).len() == 0,
        text_of(stem_of(name)) is None ==> track_name(dir.push(name)) == "Unknown Track"@,
{
    law_entry_of_a_directory(dir, name);
}

/// The cover of a directory is the image whose name says best that it is one: `cover.` before `folder.`
/// before `front.` before any other, and of those that say it alike the first in the order of the names;
/// of those with one name, the first that was found.
pub proof fn law_best_name_is_the_cover(images: Seq<Seq<Seq<u8>>>, i: int, j: int)
    requires
        is_cover(images, i),
        0 <= j < images.len(),
    ensures
        ({
            let cover = image_name(images[i]);
            let other = image_name(images[j]);
            &&& "cover."@.is_prefix_of(other) ==> "cover."@.is_prefix_of(cover)
            &&& "folder."@.is_prefix_of(other) ==> "cover."@.is_prefix_of(cover)
                || "folder."@.is_prefix_of(cover)
            &&& "front."@.is_prefix_of(other) ==> "cover."@.is_prefix_of(cover)
                || "folder."@.is_prefix_of(cover) || "front."@.is_prefix_of(cover)
            &&& "cover."@.is_prefix_of(other) && "cover."@.is_prefix_of(cover) ==> !text_less(
                other,
                cover,
            )
            &&& "folder."@.is_prefix_of(other) && "folder."@.is_prefix_of(cover) ==> !text_less(
                other,
                cover,
            )
            &&& "front."@.is_prefix_of(other) && "front."@.is_prefix_of(cover) ==> !text_less(
                other,
                cover,
            )
            &&& !"cover."@.is_prefix_of(cover) && !"folder."@.is_prefix_of(cover)
                && !"front."@.is_prefix_of(cover) ==> !text_less(other, cover)
            &&& j < i ==> other != cover
        }),
{
    let cover = image_name(images[i]);
    let other = image_name(images[j]);
    lemma_prefixes_differ(cover);
    lemma_prefixes_differ(other);
    assert(!better_name(other, cover));
    lemma_text_less_irreflexive(cover);
}

proof fn lemma_prefixes_differ(name: Seq<char>)
    ensures
        "folder."@.is_prefix_of(name) ==> !"cover."@.is_prefix_of(name),
        "front."@.is_prefix_of(name) ==> !"cover."@.is_prefix_of(name),
        "front."@.is_prefix_of(name) ==> !"folder."@.is_prefix_of(name),
{
    reveal_strlit("cover.");
    reveal_strlit("folder.");
    reveal_strlit("front.");
    assert("cover."@.len() == 6 && "cover."@[0] == 'c');
    assert("folder."@.len() == 7 && "folder."@[0] == 'f' && "folder."@[1] == 'o');
    assert("front."@.len() == 6 && "front."@[0] == 'f' && "front."@[1] == 'r');
    if "cover."@.is_prefix_of(name) {
        assert(name.subrange(0, 6)[0] == name[0]);
    }
    if "folder."@.is_prefix_of(name) {
        assert(name.subrange(0, 7)[0] == name[0]);
        assert(name.subrange(0, 7)[1] == name[1]);
    }
    if "front."@.is_prefix_of(name) {
        assert(name.subrange(0, 6)[0] == name[0]);
        assert(name.subrange(0, 6)[1] == name[1]);
    }
}

/// The size of a file is stored as it is, or as the largest that fits where it does not fit.
pub proof fn law_size_is_kept_as_far_as_it_fits(track: ScannedTrackModel)
    ensures
        track.file_size <= i64::MAX ==> row_of(track).file_size == track.file_size,
        track.file_size > i64::MAX ==> row_of(track).file_size == i64::MAX,
{
}

} // verus!
