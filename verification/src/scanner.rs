//! What a scan of the music directory makes of the files it finds.

use vstd::prelude::*;

use crate::builder::{LibraryBuilderModel, ScannedTrack, ScannedTrackModel};
use crate::chunks::{
    all_filed, build_index_parallel, built, chunk_size_for, chunks, ids_differ, joined_chunks,
};
use crate::duplicate::Duplicate;
use crate::error::{outcome, Error, ErrorModel};
use crate::index::{LibraryIndex, LibraryIndexModel};
use crate::integrity::{index_of, law_library_is_linked, linked};
use crate::media::{classify_file, role_of, FileRole};
use crate::ordered_map::OrderedMap;
use crate::path::{below, file_name_of, parent_of, path_text, stem_of, FilePath};
use crate::protocol::FileTime;
use crate::sorting::{is_sorted, sorted};
use crate::tags::{
    fallback_tags, read_track_tags, tags_of, TaggedFile, TaggedFileModel, TrackTags, TrackTagsModel,
};
use crate::text::{
    after_prefix, lemma_text_less_irreflexive, lemma_text_less_total, lemma_text_less_transitive,
    lower_text, parse_number, parsed_number, push_text, split_at_first, split_once,
    strip_prefix, text_before, text_less, to_lower_text, trim, trimmed,
};
use crate::utf8::{decode_lossy, lossy_text, text_of};

verus! {

/// The name of an image in lower case: the empty text where the name is no text.
pub open spec fn image_name(path: Seq<Seq<u8>>) -> Seq<char> {
    match file_name_of(path) {
        Some(name) => match text_of(name) {
            Some(text) => lower_text(text),
            None => seq![],
        },
        None => seq![],
    }
}

/// How well the name of an image says that it is a cover: the lower, the better.
pub open spec fn image_priority(name: Seq<char>) -> int {
    if after_prefix(name, "cover."@) is Some {
        0
    } else if after_prefix(name, "folder."@) is Some {
        1
    } else if after_prefix(name, "front."@) is Some {
        2
    } else {
        3
    }
}

/// Whether the image with the first name is the better cover.
pub open spec fn better_name(a: Seq<char>, b: Seq<char>) -> bool {
    image_priority(a) < image_priority(b) || (image_priority(a) == image_priority(b) && text_less(
        a,
        b,
    ))
}

/// Whether the `i`-th image is the cover: no other is better, and none before it is as good.
pub open spec fn is_cover(images: Seq<Seq<Seq<u8>>>, i: int) -> bool {
    &&& 0 <= i < images.len()
    &&& forall|j: int|
        0 <= j < images.len() ==> !better_name(
            #[trigger] image_name(images[j]),
            image_name(images[i]),
        )
    &&& forall|j: int|
        0 <= j < i ==> better_name(image_name(images[i]), #[trigger] image_name(images[j]))
}

fn lower_name(path: &FilePath) -> (r: String)
    ensures
        r@ == image_name(path.deep_view()),
{
    match path.file_name_text() {
        Some(name) => to_lower_text(&name),
        None => {
            let none = String::new();
            assert(none@ =~= seq![]);
            none
        },
    }
}

fn priority_of(name: &str) -> (r: u8)
    ensures
        r == image_priority(name@),
{
    if strip_prefix(name, "cover.").is_some() {
        0
    } else if strip_prefix(name, "folder.").is_some() {
        1
    } else if strip_prefix(name, "front.").is_some() {
        2
    } else {
        3
    }
}

fn is_better_name(a: &str, b: &str) -> (r: bool)
    ensures
        r == better_name(a@, b@),
{
    let x: u8 = priority_of(a);
    let y: u8 = priority_of(b);
    x < y || (x == y && text_before(a, b))
}

proof fn lemma_better_transitive(a: Seq<char>, b: Seq<char>, c: Seq<char>)
    ensures
        better_name(a, b) && better_name(b, c) ==> better_name(a, c),
        better_name(a, b) && !better_name(c, b) ==> better_name(a, c),
        !better_name(a, a),
{
    lemma_text_less_irreflexive(a);
    lemma_text_less_total(b, c);
    if text_less(a, b) && text_less(b, c) {
        lemma_text_less_transitive(a, b, c);
    }
}

/// Of the images in a directory, the one that is the cover.
pub fn choose_sidecar_image(images: Vec<FilePath>) -> (r: Option<FilePath>)
    ensures
        match r {
            Some(path) => exists|i: int| #[trigger]
                is_cover(images.deep_view(), i) && path.deep_view() == images.deep_view()[i],
            None => images@.len() == 0,
        },
{
    let total: usize = images.len();
    if total == 0 {
        return None;
    }
    let ghost all = images.deep_view();
    let mut best: usize = 0;
    let mut best_name = lower_name(&images[0]);
    let mut i: usize = 1;
    proof {
        lemma_text_less_irreflexive(image_name(all[0]));
        assert(all.take(1).len() == 1);
        assert(is_cover(all.take(1), 0));
    }
    while i < total
        invariant
            total == images@.len(),
            all == images.deep_view(),
            best < i <= total,
            best_name@ == image_name(all[best as int]),
            is_cover(all.take(i as int), best as int),
        decreases total - i,
    {
        let name = lower_name(&images[i]);
        let ghost seen = all.take(i as int);
        let ghost next = all.take(i + 1);
        assert(forall|j: int| 0 <= j < i ==> #[trigger] next[j] == seen[j]);
        assert(next[i as int] == all[i as int]);
        if is_better_name(&name, &best_name) {
            proof {
                assert forall|j: int| 0 <= j < i implies better_name(
                    name@,
                    #[trigger] image_name(next[j]),
                ) by {
                    assert(!better_name(image_name(seen[j]), image_name(seen[best as int])));
                    lemma_better_transitive(name@, best_name@, image_name(next[j]));
                }
                assert forall|j: int| 0 <= j < next.len() implies !better_name(
                    #[trigger] image_name(next[j]),
                    image_name(next[i as int]),
                ) by {
                    if j < i {
                        assert(better_name(name@, image_name(next[j])));
                        lemma_better_transitive(name@, image_name(next[j]), name@);
                    } else {
                        lemma_better_transitive(name@, name@, name@);
                    }
                }
                assert(is_cover(next, i as int));
            }
            best = i;
            best_name = name;
        } else {
            proof {
                assert forall|j: int| 0 <= j < next.len() implies !better_name(
                    #[trigger] image_name(next[j]),
                    image_name(next[best as int]),
                ) by {
                    if j < i {
                        assert(!better_name(image_name(seen[j]), image_name(seen[best as int])));
                    }
                }
                assert forall|j: int| 0 <= j < best implies better_name(
                    image_name(next[best as int]),
                    #[trigger] image_name(next[j]),
                ) by {
                    assert(better_name(image_name(seen[best as int]), image_name(seen[j])));
                }
                assert(is_cover(next, best as int));
            }
        }
        i = i + 1;
    }
    assert(all.take(total as int) =~= all);
    Some(images[best].duplicate())
}

/// The order in which the images of a directory are listed does not matter to its cover, where no
/// two of them have the same name but for case.
pub proof fn law_cover_does_not_depend_on_the_listing(
    first: Seq<Seq<Seq<u8>>>,
    second: Seq<Seq<Seq<u8>>>,
    i: int,
    j: int,
)
    requires
        first.to_multiset() == second.to_multiset(),
        forall|k: int, l: int|
            0 <= k < l < second.len() ==> #[trigger] image_name(second[k]) != #[trigger] image_name(
                second[l],
            ),
        is_cover(first, i),
        is_cover(second, j),
    ensures
        first[i] == second[j],
{
    first.to_multiset_ensures();
    second.to_multiset_ensures();
    assert(second.contains(first[i])) by {
        assert(first.contains(first[i]));
        assert(second.to_multiset().count(first[i]) > 0);
    }
    assert(first.contains(second[j])) by {
        assert(second.contains(second[j]));
        assert(first.to_multiset().count(second[j]) > 0);
    }
    let k = choose|k: int| 0 <= k < second.len() && second[k] == first[i];
    let l = choose|l: int| 0 <= l < first.len() && first[l] == second[j];
    assert(!better_name(image_name(second[k]), image_name(second[j])));
    assert(!better_name(image_name(first[l]), image_name(first[i])));
    lemma_text_less_total(image_name(first[i]), image_name(second[j]));
}

/// The files of a music directory that matter to the library.
pub struct LibraryFiles {
    /// The tracks.
    pub audio_files: Vec<FilePath>,
    /// The cover of each directory: nothing where a directory has no image.
    pub sidecar_by_dir: OrderedMap<FilePath, Option<FilePath>>,
}

/// Whether `cover` is the cover among the files of a directory.
pub open spec fn is_cover_of(files: Seq<Seq<Seq<u8>>>, cover: Option<Seq<Seq<u8>>>) -> bool {
    let images = files.filter(|path: Seq<Seq<u8>>| role_of(path) == FileRole::Image);
    match cover {
        Some(path) => exists|i: int| #[trigger] is_cover(images, i) && path == images[i],
        None => images.len() == 0,
    }
}

/// The tracks among the files of a directory.
pub open spec fn tracks_in(files: Seq<Seq<Seq<u8>>>) -> Seq<Seq<Seq<u8>>> {
    files.filter(|path: Seq<Seq<u8>>| role_of(path) == FileRole::Audio)
}

impl LibraryFiles {
    /// No files.
    pub fn new() -> (r: Self)
        ensures
            r.audio_files.deep_view() == Seq::<Seq<Seq<u8>>>::empty(),
            r.sidecar_by_dir.deep_view() == Map::<Seq<Seq<u8>>, Option<Seq<Seq<u8>>>>::empty(),
    {
        let audio_files: Vec<FilePath> = Vec::new();
        assert(audio_files.deep_view() =~= seq![]);
        LibraryFiles { audio_files, sidecar_by_dir: OrderedMap::new() }
    }

    /// Takes in the files of the directory `dir`.
    pub fn add_dir(&mut self, dir: FilePath, files: Vec<FilePath>)
        ensures
            final(self).audio_files.deep_view() == old(self).audio_files.deep_view() + tracks_in(
                files.deep_view(),
            ),
            exists|cover: Option<Seq<Seq<u8>>>| #[trigger]
                is_cover_of(files.deep_view(), cover) && final(self).sidecar_by_dir.deep_view()
                    == old(self).sidecar_by_dir.deep_view().insert(dir.deep_view(), cover),
    {
        let ghost all = files.deep_view();
        let ghost audio = |path: Seq<Seq<u8>>| role_of(path) == FileRole::Audio;
        let ghost image = |path: Seq<Seq<u8>>| role_of(path) == FileRole::Image;
        let ghost before = self.audio_files.deep_view();
        let total: usize = files.len();
        let mut images: Vec<FilePath> = Vec::new();
        let mut i: usize = 0;
        proof {
            assert(all.take(0) =~= seq![]);
            reveal(Seq::filter);
            assert(all.take(0).filter(audio) =~= seq![]);
            assert(all.take(0).filter(image) =~= seq![]);
            assert(images.deep_view() =~= seq![]);
            assert(before + all.take(0).filter(audio) =~= before);
        }
        while i < total
            invariant
                i <= total,
                total == files@.len(),
                all == files.deep_view(),
                audio == (|path: Seq<Seq<u8>>| role_of(path) == FileRole::Audio),
                image == (|path: Seq<Seq<u8>>| role_of(path) == FileRole::Image),
                self.audio_files.deep_view() == before + all.take(i as int).filter(audio),
                images.deep_view() == all.take(i as int).filter(image),
                self.sidecar_by_dir == old(self).sidecar_by_dir,
            decreases total - i,
        {
            let ghost tracks = self.audio_files.deep_view();
            let ghost covers = images.deep_view();
            proof {
                assert(all.take(i + 1) =~= all.take(i as int).push(all[i as int]));
                all.take(i as int).lemma_filter_push(all[i as int], audio);
                all.take(i as int).lemma_filter_push(all[i as int], image);
            }
            match classify_file(&files[i]) {
                FileRole::Audio => {
                    self.audio_files.push(files[i].duplicate());
                    proof {
                        assert(self.audio_files.deep_view() =~= tracks.push(all[i as int]));
                        assert(tracks.push(all[i as int]) =~= before + all.take(i + 1).filter(
                            audio,
                        ));
                    }
                },
                FileRole::Image => {
                    images.push(files[i].duplicate());
                    assert(images.deep_view() =~= covers.push(all[i as int]));
                },
                FileRole::Other => {},
            }
            i = i + 1;
        }
        assert(all.take(total as int) =~= all);
        let cover = choose_sidecar_image(images);
        assert(is_cover_of(all, cover.deep_view()));
        self.sidecar_by_dir.insert(dir, cover);
    }

    /// The files with the tracks in the order of their paths.
    pub fn sorted(self) -> (r: Self)
        ensures
            is_sorted::<FilePath>(r.audio_files.deep_view()),
            r.audio_files.deep_view().to_multiset() == self.audio_files.deep_view().to_multiset(),
            r.sidecar_by_dir == self.sidecar_by_dir,
    {
        LibraryFiles {
            audio_files: sorted(self.audio_files),
            sidecar_by_dir: self.sidecar_by_dir,
        }
    }
}

/// The artist and the album that the name of a directory gives.
pub open spec fn dir_artist_album(name: Seq<char>) -> (Seq<char>, Seq<char>) {
    match split_at_first(name, " - "@) {
        Some((artist, album)) => (trimmed(artist), trimmed(album)),
        None => ("Unknown Artist"@, name),
    }
}

/// The artist and the album that a place in the music directory gives.
pub open spec fn inferred(relative_path: Seq<Seq<u8>>) -> (Seq<char>, Seq<char>) {
    match parent_of(relative_path) {
        Some(dir) => if dir.len() >= 2 {
            (lossy_text(dir[0]), lossy_text(dir[1]))
        } else if dir.len() == 1 {
            dir_artist_album(lossy_text(dir[0]))
        } else {
            ("Unknown Artist"@, "Unknown Album"@)
        },
        None => ("Unknown Artist"@, "Unknown Album"@),
    }
}

/// The artist and the album that the name of a directory gives.
pub fn split_artist_album_dir(dir_name: &str) -> (r: (String, String))
    ensures
        (r.0@, r.1@) == dir_artist_album(dir_name@),
{
    match split_once(dir_name, " - ") {
        Some((artist, album)) => (trim(&artist), trim(&album)),
        None => ("Unknown Artist".to_owned(), dir_name.to_owned()),
    }
}

/// The artist and the album that a place in the music directory gives.
pub fn infer_artist_and_album(relative_path: &FilePath) -> (r: (String, String))
    ensures
        (r.0@, r.1@) == inferred(relative_path.deep_view()),
{
    match relative_path.parent() {
        Some(dir) => {
            let n: usize = dir.parts.len();
            if n >= 2 {
                (decode_lossy(&dir.parts[0]), decode_lossy(&dir.parts[1]))
            } else if n == 1 {
                split_artist_album_dir(&decode_lossy(&dir.parts[0]))
            } else {
                ("Unknown Artist".to_owned(), "Unknown Album".to_owned())
            }
        },
        None => ("Unknown Artist".to_owned(), "Unknown Album".to_owned()),
    }
}

/// The number and the title that the name of a track gives.
pub open spec fn name_number_title(name: Seq<char>) -> (Option<u32>, Seq<char>) {
    match split_at_first(name, " - "@) {
        Some((number, title)) => (
            match parsed_number(trimmed(number), u32::MAX as nat) {
                Some(n) => Some(n as u32),
                None => None,
            },
            trimmed(title),
        ),
        None => (None, trimmed(name)),
    }
}

/// The number and the title that the name of a track gives.
pub fn parse_track_name(name: &str) -> (r: (Option<u32>, String))
    ensures
        (r.0, r.1@) == name_number_title(name@),
{
    match split_once(name, " - ") {
        Some((number, title)) => {
            let track_number = match parse_number(&trim(&number), u32::MAX as u64) {
                Some(n) => Some(n as u32),
                None => None,
            };
            (track_number, trim(&title))
        },
        None => (None, trim(name)),
    }
}

/// The time of the last change in whole seconds, or why there is none: a file from before the
/// epoch has no such time, and `modified` says in words what its time is.
pub open spec fn unix_seconds(modified: Result<FileTime, Seq<char>>) -> Result<i64, ErrorModel> {
    match modified {
        Ok(time) => Ok(
            if time.seconds <= i64::MAX {
                time.seconds as i64
            } else {
                i64::MAX
            },
        ),
        Err(reason) => Err(
            ErrorModel::InvalidRequest("file modified before unix epoch: "@ + reason),
        ),
    }
}

/// The mathematical value of the time of a last change.
pub open spec fn modified_value(modified: Result<FileTime, String>) -> Result<FileTime, Seq<char>> {
    match modified {
        Ok(time) => Ok(time),
        Err(reason) => Err(reason@),
    }
}

/// The time of the last change in whole seconds.
pub fn modified_unix(modified: &Result<FileTime, String>) -> (r: Result<i64, Error>)
    ensures
        outcome(r) == unix_seconds(modified_value(*modified)),
{
    match modified {
        Ok(time) => if time.seconds <= i64::MAX as u64 {
            Ok(time.seconds as i64)
        } else {
            Ok(i64::MAX)
        },
        Err(reason) => {
            let mut s = "file modified before unix epoch: ".to_owned();
            push_text(&mut s, reason);
            Err(Error::InvalidRequest(s))
        },
    }
}

/// The place of a file below `root`, or why it has none.
pub open spec fn place_below(path: Seq<Seq<u8>>, root: Seq<Seq<u8>>) -> Result<
    Seq<Seq<u8>>,
    ErrorModel,
> {
    match below(path, root) {
        Some(place) => Ok(place),
        None => Err(ErrorModel::InvalidRequest("path outside music root: "@ + path_text(path))),
    }
}

/// The place of the file at `path` below `root`.
pub fn relative_place(root: &FilePath, path: &FilePath) -> (r: Result<FilePath, Error>)
    ensures
        outcome(r) == place_below(path.deep_view(), root.deep_view()),
{
    match path.below(root) {
        Some(place) => Ok(place),
        None => {
            let mut reason = "path outside music root: ".to_owned();
            push_text(&mut reason, &path.text());
            Err(Error::InvalidRequest(reason))
        },
    }
}

/// The name that a track goes by: that of its file without the extension.
pub open spec fn track_name(relative_path: Seq<Seq<u8>>) -> Seq<char> {
    match file_name_of(relative_path) {
        Some(name) => match text_of(stem_of(name)) {
            Some(text) => text,
            None => "Unknown Track"@,
        },
        None => "Unknown Track"@,
    }
}

/// What is known of an audio file before its tags are read.
pub open spec fn scanned_file(
    root: Seq<Seq<u8>>,
    path: Seq<Seq<u8>>,
    file_size: u64,
    modified: Result<FileTime, Seq<char>>,
) -> Result<ScannedTrackModel, ErrorModel> {
    match place_below(path, root) {
        Err(error) => Err(error),
        Ok(place) => match unix_seconds(modified) {
            Err(error) => Err(error),
            Ok(modified_unix) => Ok(
                ScannedTrackModel {
                    path,
                    relative_path: place,
                    relative_path_string: path_text(place),
                    file_size,
                    modified_unix,
                    modified_at: modified->Ok_0,
                    fallback_artist: inferred(place).0,
                    fallback_album: inferred(place).1,
                    fallback_title: name_number_title(track_name(place)).1,
                    fallback_track_number: name_number_title(track_name(place)).0,
                    needs_cache_store: false,
                    tags: None,
                },
            ),
        },
    }
}

impl ScannedTrack {
    /// What is known of the audio file at `path` before its tags are read.
    pub fn from_path(
        root: &FilePath,
        path: &FilePath,
        file_size: u64,
        modified: Result<FileTime, String>,
    ) -> (r: Result<ScannedTrack, Error>)
        ensures
            outcome(r) == scanned_file(
                root.deep_view(),
                path.deep_view(),
                file_size,
                modified_value(modified),
            ),
    {
        let relative_path = match relative_place(root, path) {
            Ok(place) => place,
            Err(error) => {
                return Err(error);
            },
        };
        let unix: i64 = match modified_unix(&modified) {
            Ok(seconds) => seconds,
            Err(error) => {
                return Err(error);
            },
        };
        let modified_at = match modified {
            Ok(time) => time,
            Err(_) => FileTime { seconds: 0, nanoseconds: 0 },
        };
        let (fallback_artist, fallback_album) = infer_artist_and_album(&relative_path);
        let name = match relative_path.stem_text() {
            Some(name) => name,
            None => "Unknown Track".to_owned(),
        };
        let (fallback_track_number, fallback_title) = parse_track_name(&name);
        Ok(
            ScannedTrack {
                path: path.duplicate(),
                relative_path_string: relative_path.text(),
                relative_path,
                file_size,
                modified_unix: unix,
                modified_at,
                fallback_artist,
                fallback_album,
                fallback_title,
                fallback_track_number,
                needs_cache_store: false,
                tags: None,
            },
        )
    }
}

/// The size of a file as the tag cache holds it.
pub open spec fn cached_size_of(file_size: u64) -> i64 {
    if file_size <= i64::MAX {
        file_size as i64
    } else {
        i64::MAX
    }
}

fn cached_size(file_size: u64) -> (r: i64)
    ensures
        r == cached_size_of(file_size),
{
    if file_size <= i64::MAX as u64 {
        file_size as i64
    } else {
        i64::MAX
    }
}

/// Whether a row of the tag cache still tells of the file as it is.
pub open spec fn is_fresh(row_size: i64, row_modified: i64, file_size: u64, modified_unix: i64) -> bool {
    row_size == cached_size_of(file_size) && row_modified == modified_unix
}

/// Whether a row of the tag cache still tells of the file as it is: only then are its tags used.
pub fn cache_row_is_fresh(
    row_size: i64,
    row_modified: i64,
    file_size: u64,
    modified_unix: i64,
) -> (r: bool)
    ensures
        r == is_fresh(row_size, row_modified, file_size, modified_unix),
{
    row_size == cached_size(file_size) && row_modified == modified_unix
}

/// A scanned track once the tag cache was asked for it.
pub open spec fn looked_up(
    track: ScannedTrackModel,
    cached: Option<TrackTagsModel>,
) -> ScannedTrackModel {
    match cached {
        Some(tags) => ScannedTrackModel { tags: Some(tags), ..track },
        None => ScannedTrackModel { needs_cache_store: true, ..track },
    }
}

/// A scanned track with the tags that its file gives, unless it has tags.
pub open spec fn filled(
    track: ScannedTrackModel,
    file: Option<TaggedFileModel>,
) -> ScannedTrackModel {
    match track.tags {
        Some(_) => track,
        None => ScannedTrackModel {
            tags: Some(
                tags_of(
                    fallback_tags(
                        track.path,
                        track.fallback_artist,
                        track.fallback_album,
                        track.fallback_title,
                        track.fallback_track_number,
                    ),
                    file,
                ),
            ),
            ..track
        },
    }
}

impl ScannedTrack {
    /// Takes in what the tag cache holds of the track. What it lacks is to be stored there.
    pub fn apply_cached(&mut self, cached: Option<TrackTags>)
        ensures
            final(self).deep_view() == looked_up(old(self).deep_view(), cached.deep_view()),
    {
        match cached {
            Some(tags) => {
                self.tags = Some(tags);
            },
            None => {
                self.needs_cache_store = true;
            },
        }
    }

    /// Takes in the tags of the file, where the track has none yet.
    pub fn fill_tags(&mut self, file: Option<TaggedFile>)
        ensures
            final(self).deep_view() == filled(old(self).deep_view(), file.deep_view()),
            final(self).deep_view().tags is Some,
    {
        if self.tags.is_none() {
            let tags = read_track_tags(
                &self.path,
                self.fallback_artist.clone(),
                self.fallback_album.clone(),
                self.fallback_title.clone(),
                self.fallback_track_number,
                file,
            );
            self.tags = Some(tags);
        }
    }
}

/// The number of tracks that the tag cache lacks.
pub open spec fn misses(tracks: Seq<ScannedTrackModel>) -> nat {
    tracks.filter(|track: ScannedTrackModel| track.needs_cache_store).len()
}

/// The number of tracks that the tag cache lacks.
pub fn cache_misses(tracks: &Vec<ScannedTrack>) -> (r: usize)
    ensures
        r == misses(tracks.deep_view()),
{
    let ghost all = tracks.deep_view();
    let ghost missing = |track: ScannedTrackModel| track.needs_cache_store;
    let total: usize = tracks.len();
    let mut n: usize = 0;
    let mut i: usize = 0;
    proof {
        reveal(Seq::filter);
        assert(all.take(0).filter(missing) =~= seq![]);
    }
    while i < total
        invariant
            i <= total,
            total == tracks@.len(),
            all == tracks.deep_view(),
            missing == (|track: ScannedTrackModel| track.needs_cache_store),
            n <= i,
            n == all.take(i as int).filter(missing).len(),
        decreases total - i,
    {
        proof {
            assert(all.take(i + 1) =~= all.take(i as int).push(all[i as int]));
            all.take(i as int).lemma_filter_push(all[i as int], missing);
        }
        if tracks[i].needs_cache_store {
            n = n + 1;
        }
        i = i + 1;
    }
    assert(all.take(total as int) =~= all);
    n
}

/// The places of the tracks as text.
pub open spec fn places(tracks: Seq<ScannedTrackModel>) -> Seq<Seq<char>> {
    tracks.map_values(|track: ScannedTrackModel| track.relative_path_string)
}

/// Which rows of the tag cache are to be kept after a scan: those of these places, or all where
/// the cache lacked nothing.
pub fn places_to_keep(tracks: &Vec<ScannedTrack>) -> (r: Option<Vec<String>>)
    ensures
        r.deep_view() == (if misses(tracks.deep_view()) == 0 {
            None
        } else {
            Some(places(tracks.deep_view()))
        }),
{
    if cache_misses(tracks) == 0 {
        return None;
    }
    let mut out: Vec<String> = Vec::new();
    let total: usize = tracks.len();
    let mut i: usize = 0;
    while i < total
        invariant
            i <= total,
            total == tracks@.len(),
            out@.len() == i,
            forall|j: int|
                0 <= j < i ==> (#[trigger] out@[j])@ == tracks.deep_view()[j].relative_path_string,
        decreases total - i,
    {
        out.push(tracks[i].relative_path_string.clone());
        i = i + 1;
    }
    assert(out.deep_view() =~= places(tracks.deep_view()));
    Some(out)
}

/// A row of the tag cache.
pub struct CacheRow {
    pub relative_path: String,
    pub file_size: i64,
    pub modified_unix: i64,
    pub tags: TrackTags,
}

/// The mathematical value of a [`CacheRow`].
pub struct CacheRowModel {
    pub relative_path: Seq<char>,
    pub file_size: i64,
    pub modified_unix: i64,
    pub tags: TrackTagsModel,
}

impl DeepView for CacheRow {
    type V = CacheRowModel;

    open spec fn deep_view(&self) -> CacheRowModel {
        CacheRowModel {
            relative_path: self.relative_path@,
            file_size: self.file_size,
            modified_unix: self.modified_unix,
            tags: self.tags.deep_view(),
        }
    }
}

/// Whether a track is to be stored in the tag cache.
pub open spec fn is_stored(track: ScannedTrackModel) -> bool {
    track.needs_cache_store && track.tags is Some
}

/// The row of the tag cache for a track that has tags.
pub open spec fn row_of(track: ScannedTrackModel) -> CacheRowModel {
    CacheRowModel {
        relative_path: track.relative_path_string,
        file_size: cached_size_of(track.file_size),
        modified_unix: track.modified_unix,
        tags: track.tags->Some_0,
    }
}

/// The rows that a scan stores in the tag cache.
pub open spec fn new_rows(tracks: Seq<ScannedTrackModel>) -> Seq<CacheRowModel> {
    tracks.filter(|track: ScannedTrackModel| is_stored(track)).map_values(
        |track: ScannedTrackModel| row_of(track),
    )
}

/// The rows that a scan stores in the tag cache.
pub fn rows_to_store(tracks: &Vec<ScannedTrack>) -> (r: Vec<CacheRow>)
    ensures
        r.deep_view() == new_rows(tracks.deep_view()),
{
    let ghost all = tracks.deep_view();
    let ghost stored = |track: ScannedTrackModel| is_stored(track);
    let ghost row = |track: ScannedTrackModel| row_of(track);
    let total: usize = tracks.len();
    let mut out: Vec<CacheRow> = Vec::new();
    let mut i: usize = 0;
    proof {
        reveal(Seq::filter);
        assert(all.take(0).filter(stored) =~= seq![]);
        assert(out.deep_view() =~= all.take(0).filter(stored).map_values(row));
    }
    while i < total
        invariant
            i <= total,
            total == tracks@.len(),
            all == tracks.deep_view(),
            stored == (|track: ScannedTrackModel| is_stored(track)),
            row == (|track: ScannedTrackModel| row_of(track)),
            out.deep_view() == all.take(i as int).filter(stored).map_values(row),
        decreases total - i,
    {
        let ghost before = out.deep_view();
        proof {
            assert(all.take(i + 1) =~= all.take(i as int).push(all[i as int]));
            all.take(i as int).lemma_filter_push(all[i as int], stored);
        }
        let track = &tracks[i];
        if track.needs_cache_store {
            if let Some(tags) = &track.tags {
                out.push(
                    CacheRow {
                        relative_path: track.relative_path_string.clone(),
                        file_size: cached_size(track.file_size),
                        modified_unix: track.modified_unix,
                        tags: tags.duplicate(),
                    },
                );
                assert(out.deep_view() =~= before.push(row_of(all[i as int])));
                assert(out.deep_view() =~= all.take(i + 1).filter(stored).map_values(row));
            }
        }
        i = i + 1;
    }
    assert(all.take(total as int) =~= all);
    out
}

/// The finished library, where there is one.
pub open spec fn finished(library: Result<LibraryBuilderModel, ErrorModel>) -> Result<
    LibraryIndexModel,
    ErrorModel,
> {
    match library {
        Err(error) => Err(error),
        Ok(library) => Ok(index_of(library)),
    }
}

/// The library that scanned tracks make: as if they were added one after the other, as long as
/// different names have different ids; in any case every id in it leads somewhere.
pub fn index_library(
    root: &FilePath,
    scanned_tracks: &Vec<ScannedTrack>,
    sidecar_by_dir: OrderedMap<FilePath, Option<FilePath>>,
) -> (r: Result<LibraryIndex, Error>)
    ensures
        exists|threads: int|
            threads >= 1 && outcome(r) == finished(
                joined_chunks(
                    sidecar_by_dir.deep_view(),
                    root.deep_view(),
                    chunks(
                        scanned_tracks.deep_view(),
                        #[trigger] chunk_size_for(scanned_tracks@.len() as int, threads),
                    ),
                ),
            ),
        (all_filed(
            sidecar_by_dir.deep_view(),
            root.deep_view(),
            scanned_tracks.deep_view(),
        ) matches Ok(e) ==> ids_differ(e)) ==> outcome(r) == finished(
            built(sidecar_by_dir.deep_view(), root.deep_view(), scanned_tracks.deep_view()),
        ),
        r matches Ok(index) ==> linked(index.deep_view()),
{
    let made = build_index_parallel(root, scanned_tracks, sidecar_by_dir);
    proof {
        let threads = choose|threads: int|
            threads >= 1 && outcome(made) == joined_chunks(
                sidecar_by_dir.deep_view(),
                root.deep_view(),
                chunks(
                    scanned_tracks.deep_view(),
                    #[trigger] chunk_size_for(scanned_tracks@.len() as int, threads),
                ),
            );
        let size = chunk_size_for(scanned_tracks@.len() as int, threads);
        law_library_is_linked(
            sidecar_by_dir.deep_view(),
            root.deep_view(),
            chunks(scanned_tracks.deep_view(), size),
        );
    }
    match made {
        Ok(builder) => Ok(builder.build()),
        Err(error) => Err(error),
    }
}

/// The tag cache as a table: its rows by place.
pub open spec fn table_with(
    table: Map<Seq<char>, CacheRowModel>,
    rows: Seq<CacheRowModel>,
) -> Map<Seq<char>, CacheRowModel>
    decreases rows.len(),
{
    if rows.len() == 0 {
        table
    } else {
        table_with(table, rows.drop_last()).insert(rows.last().relative_path, rows.last())
    }
}

/// The tag cache without the rows of other places.
pub open spec fn table_keeping(
    table: Map<Seq<char>, CacheRowModel>,
    kept: Seq<Seq<char>>,
) -> Map<Seq<char>, CacheRowModel> {
    table.restrict(Set::new(|place: Seq<char>| kept.contains(place)))
}

/// The tag cache after a scan.
pub open spec fn table_after(
    table: Map<Seq<char>, CacheRowModel>,
    tracks: Seq<ScannedTrackModel>,
) -> Map<Seq<char>, CacheRowModel> {
    let stored = table_with(table, new_rows(tracks));
    if misses(tracks) == 0 {
        stored
    } else {
        table_keeping(stored, places(tracks))
    }
}

/// What the tag cache holds of a file.
pub open spec fn loaded(
    table: Map<Seq<char>, CacheRowModel>,
    place: Seq<char>,
    file_size: u64,
    modified_unix: i64,
) -> Option<TrackTagsModel> {
    if table.dom().contains(place) && is_fresh(
        table[place].file_size,
        table[place].modified_unix,
        file_size,
        modified_unix,
    ) {
        Some(table[place].tags)
    } else {
        None
    }
}

proof fn lemma_table_with(
    table: Map<Seq<char>, CacheRowModel>,
    rows: Seq<CacheRowModel>,
    place: Seq<char>,
)
    ensures
        (forall|i: int| 0 <= i < rows.len() ==> (#[trigger] rows[i]).relative_path != place) ==> {
            &&& table_with(table, rows).dom().contains(place) == table.dom().contains(place)
            &&& table_with(table, rows)[place] == table[place]
        },
        forall|i: int|
            0 <= i < rows.len() && (#[trigger] rows[i]).relative_path == place && (forall|j: int|
                i < j < rows.len() ==> (#[trigger] rows[j]).relative_path != place) ==> {
                &&& table_with(table, rows).dom().contains(place)
                &&& table_with(table, rows)[place] == rows[i]
            },
    decreases rows.len(),
{
    if rows.len() > 0 {
        let before = rows.drop_last();
        lemma_table_with(table, before, place);
        assert(forall|i: int| 0 <= i < before.len() ==> #[trigger] before[i] == rows[i]);
        assert forall|i: int|
            0 <= i < rows.len() && (#[trigger] rows[i]).relative_path == place && (forall|j: int|
                i < j < rows.len() ==> (#[trigger] rows[j]).relative_path != place) implies {
            &&& table_with(table, rows).dom().contains(place)
            &&& table_with(table, rows)[place] == rows[i]
        } by {
            if i < rows.len() - 1 {
                assert(rows[rows.len() - 1].relative_path != place);
                assert(before[i].relative_path == place);
                assert(forall|j: int|
                    i < j < before.len() ==> (#[trigger] before[j]).relative_path != place);
            }
        }
        if forall|i: int| 0 <= i < rows.len() ==> (#[trigger] rows[i]).relative_path != place {
            assert(rows[rows.len() - 1].relative_path != place);
        }
    }
}

/// Each row that is stored is that of a track, and those of tracks with different places have
/// different places.
proof fn lemma_new_rows(tracks: Seq<ScannedTrackModel>)
    ensures
        forall|i: int|
            0 <= i < new_rows(tracks).len() ==> exists|k: int|
                0 <= k < tracks.len() && is_stored(#[trigger] tracks[k]) && row_of(tracks[k])
                    == #[trigger] new_rows(tracks)[i],
        forall|k: int|
            0 <= k < tracks.len() && is_stored(#[trigger] tracks[k]) ==> new_rows(tracks).contains(
                row_of(tracks[k]),
            ),
        places(tracks).no_duplicates() ==> forall|i: int, j: int|
            0 <= i < j < new_rows(tracks).len() ==> (#[trigger] new_rows(tracks)[i]).relative_path
                != (#[trigger] new_rows(tracks)[j]).relative_path,
    decreases tracks.len(),
{
    let stored = |track: ScannedTrackModel| is_stored(track);
    let row = |track: ScannedTrackModel| row_of(track);
    if tracks.len() == 0 {
        reveal(Seq::filter);
        assert(new_rows(tracks) =~= seq![]);
    } else {
        let before = tracks.drop_last();
        let n = tracks.len() - 1;
        lemma_new_rows(before);
        assert(tracks =~= before.push(tracks.last()));
        before.lemma_filter_push(tracks.last(), stored);
        let old_rows = new_rows(before);
        let rows = new_rows(tracks);
        if is_stored(tracks.last()) {
            assert(rows =~= old_rows.push(row_of(tracks.last())));
            assert(rows[rows.len() - 1] == row_of(tracks[n]));
        } else {
            assert(rows =~= old_rows);
        }
        assert(forall|k: int| 0 <= k < n ==> #[trigger] before[k] == tracks[k]);
        assert forall|i: int| 0 <= i < rows.len() implies exists|k: int|
            0 <= k < tracks.len() && is_stored(#[trigger] tracks[k]) && row_of(tracks[k])
                == #[trigger] rows[i] by {
            if i < old_rows.len() {
                assert(rows[i] == old_rows[i]);
                let k = choose|k: int|
                    0 <= k < before.len() && is_stored(#[trigger] before[k]) && row_of(before[k])
                        == old_rows[i];
                assert(is_stored(tracks[k]));
            } else {
                assert(is_stored(tracks[n]));
            }
        }
        assert forall|k: int| 0 <= k < tracks.len() && is_stored(#[trigger] tracks[k]) implies
            rows.contains(row_of(tracks[k])) by {
            if k < n {
                assert(is_stored(before[k]));
                assert(old_rows.contains(row_of(before[k])));
                let i = choose|i: int| 0 <= i < old_rows.len() && old_rows[i] == row_of(before[k]);
                assert(rows[i] == old_rows[i]);
            }
        }
        if places(tracks).no_duplicates() {
            assert(places(before).no_duplicates()) by {
                assert(forall|k: int| 0 <= k < n ==> #[trigger] places(before)[k] == places(tracks)[k]);
            }
            assert forall|i: int, j: int| 0 <= i < j < rows.len() implies (
            #[trigger] rows[i]).relative_path != (#[trigger] rows[j]).relative_path by {
                assert(rows[i] == old_rows[i]);
                if j < old_rows.len() {
                    assert(rows[j] == old_rows[j]);
                } else {
                    let k = choose|k: int|
                        0 <= k < before.len() && is_stored(#[trigger] before[k]) && row_of(before[k])
                            == old_rows[i];
                    assert(places(tracks)[k] == rows[i].relative_path);
                    assert(places(tracks)[n] == rows[j].relative_path);
                }
            }
        }
    }
}

/// After a scan the tag cache holds the tags of every track: a second scan of unchanged files
/// reads none of them.
///
/// `table` is the cache before the scan; every track has tags, those that are not to be stored
/// from the cache.
pub proof fn law_warm_cache(
    table: Map<Seq<char>, CacheRowModel>,
    tracks: Seq<ScannedTrackModel>,
    i: int,
)
    requires
        0 <= i < tracks.len(),
        places(tracks).no_duplicates(),
        tracks[i].tags is Some,
        !tracks[i].needs_cache_store ==> loaded(
            table,
            tracks[i].relative_path_string,
            tracks[i].file_size,
            tracks[i].modified_unix,
        ) == tracks[i].tags,
    ensures
        loaded(
            table_after(table, tracks),
            tracks[i].relative_path_string,
            tracks[i].file_size,
            tracks[i].modified_unix,
        ) == tracks[i].tags,
{
    let place = tracks[i].relative_path_string;
    let rows = new_rows(tracks);
    lemma_new_rows(tracks);
    lemma_table_with(table, rows, place);
    assert(places(tracks)[i] == place);
    assert(places(tracks).contains(place));
    if is_stored(tracks[i]) {
        assert(rows.contains(row_of(tracks[i])));
        let k = choose|k: int| 0 <= k < rows.len() && rows[k] == row_of(tracks[i]);
        assert(rows[k].relative_path == place);
    } else {
        assert forall|k: int| 0 <= k < rows.len() implies (#[trigger] rows[k]).relative_path
            != place by {
            let t = choose|t: int|
                0 <= t < tracks.len() && is_stored(#[trigger] tracks[t]) && row_of(tracks[t])
                    == rows[k];
            assert(places(tracks)[t] == rows[k].relative_path);
        }
    }
}

/// A file that changed is read again: where the size or the time in the cache is not that of the
/// file, the cache gives nothing.
pub proof fn law_changed_file_is_read_again(
    table: Map<Seq<char>, CacheRowModel>,
    place: Seq<char>,
    file_size: u64,
    modified_unix: i64,
)
    requires
        table.dom().contains(place),
        file_size <= i64::MAX,
        table[place].file_size != file_size || table[place].modified_unix != modified_unix,
    ensures
        loaded(table, place, file_size, modified_unix) is None,
{
}

/// What a scan makes of an audio file: what is known of the file, completed by the tag cache or else
/// by its tags.
pub open spec fn scan_of(
    root: Seq<Seq<u8>>,
    path: Seq<Seq<u8>>,
    file_size: u64,
    modified: Result<FileTime, Seq<char>>,
    table: Map<Seq<char>, CacheRowModel>,
    file: Option<TaggedFileModel>,
) -> Result<ScannedTrackModel, ErrorModel> {
    match scanned_file(root, path, file_size, modified) {
        Err(error) => Err(error),
        Ok(track) => Ok(
            filled(
                looked_up(
                    track,
                    loaded(
                        table,
                        track.relative_path_string,
                        track.file_size,
                        track.modified_unix,
                    ),
                ),
                file,
            ),
        ),
    }
}

/// Whether two rows of tracks differ in nothing but whether they are to be stored in the tag cache.
pub open spec fn same_but_for_cache(a: Seq<ScannedTrackModel>, b: Seq<ScannedTrackModel>) -> bool {
    &&& a.len() == b.len()
    &&& forall|i: int|
        0 <= i < a.len() ==> #[trigger] a[i] == (ScannedTrackModel {
            needs_cache_store: a[i].needs_cache_store,
            ..b[i]
        })
}

/// Whether a track is to be stored in the tag cache does not matter to the library.
proof fn lemma_cache_does_not_matter(
    sidecars: Map<Seq<Seq<u8>>, Option<Seq<Seq<u8>>>>,
    root: Seq<Seq<u8>>,
    a: Seq<ScannedTrackModel>,
    b: Seq<ScannedTrackModel>,
)
    requires
        same_but_for_cache(a, b),
    ensures
        built(sidecars, root, a) == built(sidecars, root, b),
    decreases a.len(),
{
    if a.len() > 0 {
        assert(same_but_for_cache(a.drop_last(), b.drop_last())) by {
            assert forall|i: int| 0 <= i < a.drop_last().len() implies #[trigger] a.drop_last()[i]
                == (ScannedTrackModel {
                needs_cache_store: a.drop_last()[i].needs_cache_store,
                ..b.drop_last()[i]
            }) by {
                assert(a.drop_last()[i] == a[i]);
            }
        }
        lemma_cache_does_not_matter(sidecars, root, a.drop_last(), b.drop_last());
        assert(a[a.len() - 1] == a.last());
    }
}

/// Whether two rows of chunks differ in nothing but whether tracks are to be stored in the tag cache.
spec fn same_chunks_but_for_cache(
    a: Seq<Seq<ScannedTrackModel>>,
    b: Seq<Seq<ScannedTrackModel>>,
) -> bool {
    &&& a.len() == b.len()
    &&& forall|i: int|
        #![trigger a[i]]
        #![trigger b[i]]
        0 <= i < a.len() ==> same_but_for_cache(a[i], b[i])
}

proof fn lemma_same_chunks(a: Seq<ScannedTrackModel>, b: Seq<ScannedTrackModel>, size: int)
    requires
        same_but_for_cache(a, b),
        size > 0,
    ensures
        same_chunks_but_for_cache(chunks(a, size), chunks(b, size)),
    decreases a.len(),
{
    if a.len() > size {
        assert(same_but_for_cache(a.take(size), b.take(size))) by {
            assert(forall|i: int| 0 <= i < size ==> #[trigger] a.take(size)[i] == a[i]);
        }
        assert(same_but_for_cache(a.skip(size), b.skip(size))) by {
            assert(forall|i: int|
                0 <= i < a.len() - size ==> #[trigger] a.skip(size)[i] == a[i + size]);
        }
        lemma_same_chunks(a.skip(size), b.skip(size), size);
        let x = chunks(a.skip(size), size);
        let y = chunks(b.skip(size), size);
        assert forall|i: int| 0 <= i < x.len() + 1 implies same_but_for_cache(
            #[trigger] (seq![a.take(size)] + x)[i],
            (seq![b.take(size)] + y)[i],
        ) by {
            if i > 0 {
                assert(same_but_for_cache(x[i - 1], y[i - 1]));
            }
        }
    }
}

proof fn lemma_cache_does_not_matter_to_chunks(
    sidecars: Map<Seq<Seq<u8>>, Option<Seq<Seq<u8>>>>,
    root: Seq<Seq<u8>>,
    a: Seq<Seq<ScannedTrackModel>>,
    b: Seq<Seq<ScannedTrackModel>>,
)
    requires
        same_chunks_but_for_cache(a, b),
    ensures
        joined_chunks(sidecars, root, a) == joined_chunks(sidecars, root, b),
    decreases a.len(),
{
    if a.len() > 0 {
        assert(same_chunks_but_for_cache(a.drop_last(), b.drop_last())) by {
            assert(forall|i: int| 0 <= i < a.len() - 1 ==> #[trigger] a.drop_last()[i] == a[i]);
            assert(forall|i: int| 0 <= i < b.len() - 1 ==> #[trigger] b.drop_last()[i] == b[i]);
        }
        lemma_cache_does_not_matter_to_chunks(sidecars, root, a.drop_last(), b.drop_last());
        assert(same_but_for_cache(a[a.len() - 1], b[b.len() - 1]));
        lemma_cache_does_not_matter(sidecars, root, a.last(), b.last());
    }
}

/// A second scan of unchanged files makes the same library as the first, whatever the size of the
/// chunks in which tracks are indexed, and takes all tags from the tag cache: whatever their files
/// say now is not looked at.
///
/// `table` is the tag cache before the first scan, and `files` is what the tags of the files say then
/// and `later` what they say at the second scan.
pub proof fn law_second_scan_gives_the_same_library(
    sidecars: Map<Seq<Seq<u8>>, Option<Seq<Seq<u8>>>>,
    root: Seq<Seq<u8>>,
    paths: Seq<Seq<Seq<u8>>>,
    sizes: Seq<u64>,
    times: Seq<Result<FileTime, Seq<char>>>,
    table: Map<Seq<char>, CacheRowModel>,
    files: Seq<Option<TaggedFileModel>>,
    later: Seq<Option<TaggedFileModel>>,
    first: Seq<ScannedTrackModel>,
    second: Seq<ScannedTrackModel>,
)
    requires
        first.len() == paths.len(),
        second.len() == paths.len(),
        places(first).no_duplicates(),
        forall|i: int|
            0 <= i < paths.len() ==> scan_of(
                root,
                paths[i],
                sizes[i],
                times[i],
                table,
                files[i],
            ) == Ok::<ScannedTrackModel, ErrorModel>(#[trigger] first[i]),
        forall|i: int|
            0 <= i < paths.len() ==> scan_of(
                root,
                paths[i],
                sizes[i],
                times[i],
                table_after(table, first),
                later[i],
            ) == Ok::<ScannedTrackModel, ErrorModel>(#[trigger] second[i]),
    ensures
        misses(second) == 0,
        built(sidecars, root, second) == built(sidecars, root, first),
        forall|size: int|
            size > 0 ==> #[trigger] joined_chunks(sidecars, root, chunks(second, size))
                == joined_chunks(sidecars, root, chunks(first, size)),
{
    assert forall|i: int| 0 <= i < paths.len() implies !(#[trigger] second[i]).needs_cache_store
        && second[i] == (ScannedTrackModel { needs_cache_store: false, ..first[i] }) by {
        assert(first[i].tags is Some);
        let known = scanned_file(root, paths[i], sizes[i], times[i])->Ok_0;
        law_warm_cache(table, first, i);
        assert(loaded(
            table_after(table, first),
            known.relative_path_string,
            known.file_size,
            known.modified_unix,
        ) == first[i].tags);
    }
    assert(same_but_for_cache(second, first));
    lemma_cache_does_not_matter(sidecars, root, second, first);
    assert forall|size: int| size > 0 implies #[trigger] joined_chunks(
        sidecars,
        root,
        chunks(second, size),
    ) == joined_chunks(sidecars, root, chunks(first, size)) by {
        lemma_same_chunks(second, first, size);
        lemma_cache_does_not_matter_to_chunks(
            sidecars,
            root,
            chunks(second, size),
            chunks(first, size),
        );
    }
    lemma_no_misses(second);
}

proof fn lemma_no_misses(tracks: Seq<ScannedTrackModel>)
    requires
        forall|i: int| 0 <= i < tracks.len() ==> !(#[trigger] tracks[i]).needs_cache_store,
    ensures
        misses(tracks) == 0,
    decreases tracks.len(),
{
    let missing = |track: ScannedTrackModel| track.needs_cache_store;
    reveal(Seq::filter);
    if tracks.len() > 0 {
        assert forall|i: int| 0 <= i < tracks.drop_last().len() implies !(
        #[trigger] tracks.drop_last()[i]).needs_cache_store by {
            assert(tracks.drop_last()[i] == tracks[i]);
        }
        lemma_no_misses(tracks.drop_last());
        assert(!tracks[tracks.len() - 1].needs_cache_store);
    }
}

} // verus!
