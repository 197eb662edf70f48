//! What a library says of the tracks it was made of.

use vstd::prelude::*;

use crate::builder::{
    album_union, genres_with, ids_union, LibraryBuilderModel, ScannedTrackModel,
};
use crate::chunks::{
    all_filed, chunk_size_for, chunks, filed, joined_chunks, law_library_holds_the_scanned_tracks,
    track_ids_differ,
};
use crate::error::ErrorModel;
use crate::index::{CoverArtSourceModel, LibraryIndexModel};
use crate::media::{law_audio_types, law_image_types};
use crate::path::{below, extension_text, law_place_below, parent_of, path_text};
use crate::protocol::{AlbumModel, TrackModel};
use crate::scanner::finished;
use crate::slug::slug;
use crate::tags::{year_of, TrackTagsModel};
use crate::text::lower_text;

verus! {

/// Whether a track says of itself what the tags and the file that it was made of say.
pub open spec fn tells(
    track: TrackModel,
    scanned: ScannedTrackModel,
    tags: TrackTagsModel,
) -> bool {
    &&& track.title == tags.title
    &&& track.artist == tags.artist
    &&& track.album == tags.album
    &&& track.album_artist == tags.album_artist
    &&& track.track_number == tags.track_number
    &&& track.disc_number == tags.disc_number
    &&& track.duration_seconds == tags.duration_seconds
    &&& track.bitrate == tags.bitrate
    &&& track.sample_rate == tags.sample_rate
    &&& track.channels == tags.channels
    &&& track.codec == tags.codec
    &&& track.genres == tags.genres
    &&& track.date == tags.date
    &&& track.musicbrainz_track_id == tags.musicbrainz_track_id
    &&& track.musicbrainz_recording_id == tags.musicbrainz_recording_id
    &&& track.musicbrainz_album_id == tags.musicbrainz_album_id
    &&& track.musicbrainz_release_group_id == tags.musicbrainz_release_group_id
    &&& track.relative_path == scanned.relative_path
    &&& track.file_size == scanned.file_size
    &&& track.modified_at == scanned.modified_at
}

/// The name under which the album of a track is filed: that of the artist of the album, where the
/// tags name one, or else that of the artist of the track.
pub open spec fn is_filed_under(name: Seq<char>, tags: TrackTagsModel) -> bool {
    (tags.album_artist == Some(name)) || (tags.album_artist is None && tags.artist == name)
}

/// Every scanned track with tags is in the library, under an id made of the name it is filed under, its
/// album and its place, and tells what its tags tell: each thing under its own name.
pub proof fn law_tracks_tell_their_tags(
    sidecars: Map<Seq<Seq<u8>>, Option<Seq<Seq<u8>>>>,
    root: Seq<Seq<u8>>,
    tracks: Seq<ScannedTrackModel>,
    size: int,
    i: int,
    tags: TrackTagsModel,
    name: Seq<char>,
)
    requires
        size > 0,
        all_filed(sidecars, root, tracks) matches Ok(e) ==> track_ids_differ(e),
        0 <= i < tracks.len(),
        tracks[i].tags == Some(tags),
        is_filed_under(name, tags),
    ensures
        finished(joined_chunks(sidecars, root, chunks(tracks, size))) matches Ok(index) ==> {
            let id = slug(
                name + ":"@ + tags.album + ":"@ + path_text(tracks[i].relative_path),
            );
            &&& index.tracks.dom().contains(id)
            &&& index.tracks[id].id == id
            &&& tells(index.tracks[id], tracks[i], tags)
        },
{
    law_library_holds_the_scanned_tracks(sidecars, root, tracks, size);
    if let Ok(m) = joined_chunks(sidecars, root, chunks(tracks, size)) {
        let x = filed(sidecars, root, tracks[i])->Ok_0;
        assert(m.tracks.dom().contains(x.track.id));
    }
}

/// A track has the content type that the extension of its file gives it, and the image that lies beside
/// it as its cover.
pub proof fn law_tracks_have_their_type_and_cover(
    sidecars: Map<Seq<Seq<u8>>, Option<Seq<Seq<u8>>>>,
    root: Seq<Seq<u8>>,
    scanned: ScannedTrackModel,
    tags: TrackTagsModel,
    dir: Seq<Seq<u8>>,
    image: Seq<Seq<u8>>,
    place: Seq<Seq<u8>>,
)
    requires
        scanned.tags == Some(tags),
        parent_of(scanned.path) == Some(dir),
    ensures
        filed(sidecars, root, scanned) matches Ok(x) ==> {
            &&& extension_text(scanned.path) == Some("mp3"@) ==> x.track.content_type
                == "audio/mpeg"@
            &&& extension_text(scanned.path) == Some("flac"@) ==> x.track.content_type
                == "audio/flac"@
            &&& extension_text(scanned.path) == Some("ogg"@) ==> x.track.content_type == "audio/ogg"@
            &&& extension_text(scanned.path) == Some("opus"@) ==> x.track.content_type
                == "audio/ogg"@
            &&& extension_text(scanned.path) == Some("m4a"@) ==> x.track.content_type == "audio/mp4"@
            &&& extension_text(scanned.path) == Some("wav"@) ==> x.track.content_type == "audio/wav"@
            &&& sidecars.dom().contains(dir) && sidecars[dir] == Some(image) && below(image, root)
                == Some(place) ==> x.track.cover_art_id == Some(
                slug("cover:"@ + path_text(place)),
            ) && x.place == Some(place)
            &&& !sidecars.dom().contains(dir) || sidecars[dir] is None ==> x.track.cover_art_id is None
                && x.place is None
        },
{
    law_audio_types();
}

/// What one more track makes of the library: its album is there with the track at the end, bigger by the
/// file and longer by the track; what the album does not know yet it learns from the track; and nothing
/// else in the library changes.
pub proof fn law_track_joins_its_album(
    m: LibraryBuilderModel,
    root: Seq<Seq<u8>>,
    scanned: ScannedTrackModel,
    tags: TrackTagsModel,
    name: Seq<char>,
)
    requires
        scanned.tags == Some(tags),
        is_filed_under(name, tags),
        m.albums_by_key.dom().contains((name, tags.album)) ==> m.albums_by_key[(name, tags.album)]
            == slug(name + ":"@ + tags.album),
    ensures
        m.added(root, scanned) matches Ok(r) ==> {
            let track_id = slug(
                name + ":"@ + tags.album + ":"@ + path_text(scanned.relative_path),
            );
            let id = slug(name + ":"@ + tags.album);
            let known = m.albums_by_key.dom().contains((name, tags.album));
            let old = m.albums[id];
            let new = r.albums[id];
            let track = r.tracks[track_id];
            &&& r.albums.dom().contains(id)
            &&& r.tracks.dom().contains(track_id)
            &&& r.artists.dom().contains(slug(name))
            &&& r.artists[slug(name)].album_ids.contains(id)
            &&& !m.artists_by_name.dom().contains(name) ==> r.artists[slug(name)].name == name
                && r.artists[slug(name)].id == slug(name)
            &&& new.track_ids == (if known {
                old.track_ids
            } else {
                seq![]
            }).push(track_id)
            &&& known ==> new.id == old.id && new.title == old.title && new.artist == old.artist
            &&& !known ==> new.id == id && new.title == tags.album && new.artist == name
                && new.album_artist == Some(name)
            &&& new.size_bytes == (if known {
                old.size_bytes as int
            } else {
                0
            }) + scanned.file_size || new.size_bytes == u64::MAX
            &&& new.size_bytes <= (if known {
                old.size_bytes as int
            } else {
                0
            }) + scanned.file_size
            &&& !known ==> new.duration_seconds == tags.duration_seconds && new.disc_count
                == tags.disc_number && new.date == tags.date && new.cover_art_id
                == track.cover_art_id && new.musicbrainz_album_id == tags.musicbrainz_album_id
                && new.musicbrainz_release_group_id == tags.musicbrainz_release_group_id
            &&& known && tags.duration_seconds is None ==> new.duration_seconds
                == old.duration_seconds
            &&& known && tags.duration_seconds is Some && old.duration_seconds is None
                ==> new.duration_seconds == tags.duration_seconds
            &&& known && tags.duration_seconds is Some && old.duration_seconds is Some ==> (
            new.duration_seconds matches Some(seconds) && (seconds == tags.duration_seconds->Some_0
                + old.duration_seconds->Some_0 || (seconds == u32::MAX
                && tags.duration_seconds->Some_0 + old.duration_seconds->Some_0 > u32::MAX)))
            &&& known && tags.disc_number is None ==> new.disc_count == old.disc_count
            &&& known && tags.disc_number is Some ==> (new.disc_count matches Some(discs) && discs
                >= tags.disc_number->Some_0 && (discs == tags.disc_number->Some_0 || Some(discs)
                == old.disc_count) && (old.disc_count matches Some(before) ==> discs >= before))
            &&& known && old.date is Some ==> new.date == old.date
            &&& known && old.date is None ==> new.date == tags.date
            &&& known && old.year is Some ==> new.year == old.year
            &&& !known || old.year is None ==> (match tags.date {
                Some(date) => new.year == year_of(date),
                None => new.year is None,
            })
            &&& known && old.cover_art_id is Some ==> new.cover_art_id == old.cover_art_id
            &&& known && old.cover_art_id is None ==> new.cover_art_id == track.cover_art_id
            &&& known && old.musicbrainz_album_id is Some ==> new.musicbrainz_album_id
                == old.musicbrainz_album_id
            &&& known && old.musicbrainz_album_id is None ==> new.musicbrainz_album_id
                == tags.musicbrainz_album_id
            &&& known && old.musicbrainz_release_group_id is Some ==> new.musicbrainz_release_group_id
                == old.musicbrainz_release_group_id
            &&& known && old.musicbrainz_release_group_id is None ==> new.musicbrainz_release_group_id
                == tags.musicbrainz_release_group_id
            &&& known ==> new.genres == genres_with(old.genres, tags.genres)
            &&& !known ==> new.genres == genres_with(seq![], tags.genres)
            &&& known && old.album_artist is Some ==> new.album_artist == old.album_artist
            &&& known && old.album_artist is None ==> new.album_artist == Some(name)
            &&& !known ==> new.original_date is None && new.labels.len() == 0
                && new.catalog_number is None && new.comment is None && new.metadata is None
            &&& m.artists_by_name.dom().contains(name) ==> {
                let had = m.artists[slug(name)].album_ids;
                &&& r.artists[slug(name)].id == m.artists[slug(name)].id
                &&& r.artists[slug(name)].name == m.artists[slug(name)].name
                &&& had.contains(id) ==> r.artists[slug(name)].album_ids == had
                &&& !had.contains(id) ==> r.artists[slug(name)].album_ids == had.push(id)
            }
            &&& !m.artists_by_name.dom().contains(name) ==> r.artists[slug(name)].album_ids == seq![id]
            &&& known ==> new.original_date == old.original_date && new.labels == old.labels
                && new.catalog_number == old.catalog_number && new.comment == old.comment
                && new.metadata == old.metadata
            &&& forall|other: Seq<char>|
                other != id ==> {
                    &&& #[trigger] r.albums.dom().contains(other) == m.albums.dom().contains(other)
                    &&& m.albums.dom().contains(other) ==> r.albums[other] == m.albums[other]
                }
            &&& forall|other: Seq<char>|
                other != track_id ==> {
                    &&& #[trigger] r.tracks.dom().contains(other) == m.tracks.dom().contains(other)
                    &&& m.tracks.dom().contains(other) ==> r.tracks[other] == m.tracks[other]
                }
            &&& forall|other: Seq<char>|
                other != slug(name) ==> {
                    &&& #[trigger] r.artists.dom().contains(other) == m.artists.dom().contains(other)
                    &&& m.artists.dom().contains(other) ==> r.artists[other] == m.artists[other]
                }
        },
{
    if let Ok(r) = m.added(root, scanned) {
        let id = slug(name + ":"@ + tags.album);
        let ids = r.artists[slug(name)].album_ids;
        let with = m.with_artist(name);
        let before = with.artists[slug(name)].album_ids;
        if before.contains(id) {
            let k = choose|k: int| 0 <= k < before.len() && before[k] == id;
            assert(ids[k] == id);
        } else {
            assert(ids[before.len() as int] == id);
        }
    }
}

/// The genres of an album are those it had, with each genre of a further track that is not among them
/// yet, whatever its case.
pub proof fn law_genres_are_gathered(genres: Seq<Seq<char>>, more: Seq<Seq<char>>, i: int)
    requires
        0 <= i < more.len(),
    ensures
        genres.is_prefix_of(genres_with(genres, more)),
        exists|k: int|
            0 <= k < genres_with(genres, more).len() && lower_text(
                #[trigger] genres_with(genres, more)[k],
            ) == lower_text(more[i]),
        forall|k: int|
            genres.len() <= k < genres_with(genres, more).len() ==> more.contains(
                #[trigger] genres_with(genres, more)[k],
            ) && forall|j: int|
                0 <= j < k ==> lower_text(#[trigger] genres_with(genres, more)[j]) != lower_text(
                    genres_with(genres, more)[k],
                ),
    decreases more.len(),
{
    let front = more.drop_last();
    let before = genres_with(genres, front);
    let all = genres_with(genres, more);
    if front.len() > 0 {
        let j = if i < front.len() {
            i
        } else {
            0
        };
        law_genres_are_gathered(genres, front, j);
        if i < front.len() {
            assert(front[i] == more[i]);
            let k = choose|k: int|
                0 <= k < before.len() && lower_text(#[trigger] before[k]) == lower_text(front[i]);
            assert(all[k] == before[k]);
        }
    } else {
        assert(before == genres);
    }
    if i == more.len() - 1 {
        if exists|k: int|
            0 <= k < before.len() && lower_text(#[trigger] before[k]) == lower_text(more.last()) {
            let k = choose|k: int|
                0 <= k < before.len() && lower_text(#[trigger] before[k]) == lower_text(more.last());
            assert(lower_text(all[k]) == lower_text(more[i]));
        } else {
            assert(lower_text(all[before.len() as int]) == lower_text(more[i]));
        }
    }
    assert(genres =~= all.subrange(0, genres.len() as int)) by {
        assert(genres.is_prefix_of(before));
        assert(genres =~= before.subrange(0, genres.len() as int));
        assert forall|k: int| 0 <= k < genres.len() implies genres[k] == all[k] by {
            assert(before.subrange(0, genres.len() as int)[k] == before[k]);
        }
    }
    assert forall|k: int| genres.len() <= k < all.len() implies more.contains(#[trigger] all[k])
        && forall|j: int| 0 <= j < k ==> lower_text(#[trigger] all[j]) != lower_text(all[k]) by {
        if k < before.len() {
            assert(all[k] == before[k]);
            assert(front.contains(before[k]));
            let t = choose|t: int| 0 <= t < front.len() && front[t] == before[k];
            assert(more[t] == all[k]);
            assert forall|j: int| 0 <= j < k implies lower_text(#[trigger] all[j]) != lower_text(
                all[k],
            ) by {
                assert(all[j] == before[j]);
            }
        } else {
            assert(more[more.len() - 1] == all[k]);
            assert forall|j: int| 0 <= j < k implies lower_text(#[trigger] all[j]) != lower_text(
                all[k],
            ) by {
                assert(all[j] == before[j]);
            }
        }
    }
}

/// The finished library holds what was gathered while it was built, and where the building failed, there is
/// none.
pub proof fn law_finished_library_holds_what_was_gathered(m: LibraryBuilderModel, error: ErrorModel)
    ensures
        finished(Ok(m)) matches Ok(index) && index.artists == m.artists && index.albums == m.albums
            && index.tracks == m.tracks && index.cover_arts == m.cover_arts,
        finished(Err(error)) == Err::<LibraryIndexModel, ErrorModel>(error),
{
}

/// The image beside a track stands in the library as a cover, with its place and the content type that its
/// extension gives it; no other cover changes.
pub proof fn law_image_beside_a_track_is_a_cover(
    m: LibraryBuilderModel,
    root: Seq<Seq<u8>>,
    scanned: ScannedTrackModel,
    tags: TrackTagsModel,
    dir: Seq<Seq<u8>>,
    place: Seq<Seq<u8>>,
    other: Seq<char>,
)
    requires
        scanned.tags == Some(tags),
        parent_of(scanned.path) == Some(dir),
        m.sidecar_by_dir.dom().contains(dir),
        m.sidecar_by_dir[dir] == Some(root + place),
        !m.cover_art_by_path.dom().contains(place),
    ensures
        m.added(root, scanned) matches Ok(r) && {
            let id = slug("cover:"@ + path_text(place));
            &&& r.cover_arts.dom().contains(id)
            &&& r.cover_arts[id] matches CoverArtSourceModel::Sidecar { relative_path, content_type }
                && relative_path == place && {
                &&& extension_text(root + place) == Some("jpg"@) || extension_text(root + place)
                    == Some("jpeg"@) ==> content_type == "image/jpeg"@
                &&& extension_text(root + place) == Some("png"@) ==> content_type == "image/png"@
                &&& extension_text(root + place) == Some("webp"@) ==> content_type == "image/webp"@
                &&& extension_text(root + place) == Some("gif"@) ==> content_type == "image/gif"@
            }
            &&& other != id ==> r.cover_arts.dom().contains(other) == m.cover_arts.dom().contains(other)
                && (
                    m.cover_arts.dom().contains(other)
                        ==> r.cover_arts[other] == m.cover_arts[other]
                )
        },
{
    law_image_types();
    law_place_below(root, place, place);
}

/// A track without tags is refused, and so is one beside which lies an image from elsewhere; neither
/// leaves a track or a cover behind.
pub proof fn law_refused_tracks_leave_nothing(
    m: LibraryBuilderModel,
    root: Seq<Seq<u8>>,
    scanned: ScannedTrackModel,
    dir: Seq<Seq<u8>>,
    image: Seq<Seq<u8>>,
)
    ensures
        scanned.tags is None ==> m.added(root, scanned) == Err::<LibraryBuilderModel, ErrorModel>(
            ErrorModel::InvalidRequest("missing scanned tags for "@ + path_text(scanned.path)),
        ),
        scanned.tags is None ==> m.refused(scanned) == m,
        scanned.tags is Some && parent_of(scanned.path) == Some(dir)
            && m.sidecar_by_dir.dom().contains(
            dir,
        ) && m.sidecar_by_dir[dir] == Some(image) && (forall|rest: Seq<Seq<u8>>|
            image != #[trigger] (root + rest)) ==> m.added(root, scanned) == Err::<
            LibraryBuilderModel,
            ErrorModel,
        >(ErrorModel::InvalidRequest("path outside music root: "@ + path_text(image))),
        m.refused(scanned).tracks == m.tracks,
        m.refused(scanned).cover_arts == m.cover_arts,
{
    law_place_below(root, dir, image);
}

/// Two libraries in one: what the first has stays, what only the second has comes to it, and an artist in
/// both has the albums of both.
pub proof fn law_merging_keeps_both(a: LibraryBuilderModel, b: LibraryBuilderModel, id: Seq<char>)
    ensures
        ({
            let both = a.merged(b);
            &&& both.tracks.dom().contains(id) == (a.tracks.dom().contains(id)
                || b.tracks.dom().contains(id))
            &&& a.tracks.dom().contains(id) ==> both.tracks[id] == a.tracks[id]
            &&& !a.tracks.dom().contains(id) && b.tracks.dom().contains(id) ==> both.tracks[id]
                == b.tracks[id]
            &&& both.cover_arts.dom().contains(id) == (a.cover_arts.dom().contains(id)
                || b.cover_arts.dom().contains(id))
            &&& a.cover_arts.dom().contains(id) ==> both.cover_arts[id] == a.cover_arts[id]
            &&& !a.cover_arts.dom().contains(id) && b.cover_arts.dom().contains(id)
                ==> both.cover_arts[id] == b.cover_arts[id]
            &&& both.albums.dom().contains(id) == (a.albums.dom().contains(id)
                || b.albums.dom().contains(id))
            &&& a.albums.dom().contains(id) && !b.albums.dom().contains(id) ==> both.albums[id]
                == a.albums[id]
            &&& !a.albums.dom().contains(id) && b.albums.dom().contains(id) ==> both.albums[id]
                == b.albums[id]
            &&& a.albums.dom().contains(id) && b.albums.dom().contains(id) ==> {
                &&& both.albums[id].id == a.albums[id].id
                &&& both.albums[id].title == a.albums[id].title
                &&& both.albums[id].artist == a.albums[id].artist
                &&& a.albums[id].track_ids.is_prefix_of(both.albums[id].track_ids)
                &&& forall|track: Seq<char>|
                    b.albums[id].track_ids.contains(track) && b.tracks.dom().contains(track)
                        ==> #[trigger] both.albums[id].track_ids.contains(track)
            }
            &&& both.artists.dom().contains(id) == (a.artists.dom().contains(id)
                || b.artists.dom().contains(id))
            &&& a.artists.dom().contains(id) ==> both.artists[id].name == a.artists[id].name
                && a.artists[id].album_ids.is_prefix_of(both.artists[id].album_ids)
            &&& !a.artists.dom().contains(id) && b.artists.dom().contains(id)
                ==> both.artists[id].name == b.artists[id].name
            &&& b.artists.dom().contains(id) ==> forall|album: Seq<char>|
                b.artists[id].album_ids.contains(album)
                    ==> #[trigger] both.artists[id].album_ids.contains(
                    album,
                )
        }),
{
    if b.artists.dom().contains(id) {
        let first = if a.artists.dom().contains(id) {
            a.artists[id].album_ids
        } else {
            seq![]
        };
        lemma_union_of_ids(first, b.artists[id].album_ids);
    } else if a.artists.dom().contains(id) {
        assert(a.artists[id].album_ids =~= a.artists[id].album_ids.subrange(
            0,
            a.artists[id].album_ids.len() as int,
        ));
    }
    if a.albums.dom().contains(id) && b.albums.dom().contains(id) {
        lemma_union_of_tracks(a.albums[id], b.albums[id].track_ids, b.tracks);
    }
}

proof fn lemma_union_of_ids(ids: Seq<Seq<char>>, more: Seq<Seq<char>>)
    ensures
        ids.is_prefix_of(ids_union(ids, more)),
        forall|id: Seq<char>| more.contains(id) ==> #[trigger] ids_union(ids, more).contains(id),
    decreases more.len(),
{
    let all = ids_union(ids, more);
    if more.len() == 0 {
        assert(ids =~= all.subrange(0, ids.len() as int));
    } else {
        let before = ids_union(ids, more.drop_last());
        lemma_union_of_ids(ids, more.drop_last());
        assert(ids =~= before.subrange(0, ids.len() as int));
        assert forall|k: int| 0 <= k < ids.len() implies ids[k] == all[k] by {
            assert(before.subrange(0, ids.len() as int)[k] == before[k]);
        }
        assert(ids =~= all.subrange(0, ids.len() as int));
        assert forall|id: Seq<char>| more.contains(id) implies #[trigger] all.contains(id) by {
            let k = choose|k: int| 0 <= k < more.len() && more[k] == id;
            if k < more.len() - 1 {
                assert(more.drop_last()[k] == id);
                assert(before.contains(id));
                let j = choose|j: int| 0 <= j < before.len() && before[j] == id;
                assert(all[j] == id);
            } else if !before.contains(id) {
                assert(all[before.len() as int] == id);
            }
        }
    }
}

proof fn lemma_union_of_tracks(
    album: AlbumModel,
    ids: Seq<Seq<char>>,
    tracks: Map<Seq<char>, TrackModel>,
)
    ensures
        album_union(album, ids, tracks).id == album.id,
        album_union(album, ids, tracks).title == album.title,
        album_union(album, ids, tracks).artist == album.artist,
        album.track_ids.is_prefix_of(album_union(album, ids, tracks).track_ids),
        forall|id: Seq<char>|
            ids.contains(id) && tracks.dom().contains(id) ==> #[trigger] album_union(
                album,
                ids,
                tracks,
            ).track_ids.contains(id),
    decreases ids.len(),
{
    let all = album_union(album, ids, tracks).track_ids;
    let own = album.track_ids;
    if ids.len() == 0 {
        assert(own =~= all.subrange(0, own.len() as int));
    } else {
        let before = album_union(album, ids.drop_last(), tracks).track_ids;
        lemma_union_of_tracks(album, ids.drop_last(), tracks);
        assert(own =~= before.subrange(0, own.len() as int));
        assert forall|k: int| 0 <= k < own.len() implies own[k] == all[k] by {
            assert(before.subrange(0, own.len() as int)[k] == before[k]);
        }
        assert(own =~= all.subrange(0, own.len() as int));
        assert forall|id: Seq<char>| ids.contains(id) && tracks.dom().contains(
            id,
        ) implies #[trigger] all.contains(id) by {
            let k = choose|k: int| 0 <= k < ids.len() && ids[k] == id;
            if k < ids.len() - 1 {
                assert(ids.drop_last()[k] == id);
                assert(before.contains(id));
                let j = choose|j: int| 0 <= j < before.len() && before[j] == id;
                assert(all[j] == id);
            } else if !before.contains(id) {
                assert(all[before.len() as int] == id);
            }
        }
    }
}

/// No chunk has fewer than the least number of tracks that is worth a thread, and where the tracks are
/// more, each thread has its share.
pub proof fn law_chunks_are_shares(total: int, threads: int)
    requires
        threads >= 1,
        total >= 0,
    ensures
        chunk_size_for(total, threads) >= 256,
        total / threads >= 256 ==> chunk_size_for(total, threads) == total / threads,
        total / threads <= 256 ==> chunk_size_for(total, threads) == 256,
{
}

} // verus!
