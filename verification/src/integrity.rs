//! What every library keeps: its ids lead somewhere.

use vstd::prelude::*;

use crate::builder::{
    album_id_of, album_in_both, album_union, artist_in_both, cover_id_of, cover_place,
    filed_artist, ids_union, lemma_merged_wf, track_of, LibraryBuilderModel, ScannedTrackModel,
};
use crate::chunks::{built, joined_chunks};
use crate::index::{CoverArtSourceModel, LibraryIndexModel};
use crate::protocol::{AlbumModel, ArtistModel, TrackModel};
use crate::slug::slug;
use crate::tags::TrackTagsModel;

verus! {

/// Whether the cover of an album or a track, where it has one, is in the library.
pub open spec fn cover_known(
    cover_arts: Map<Seq<char>, CoverArtSourceModel>,
    cover_art_id: Option<Seq<char>>,
) -> bool {
    cover_art_id matches Some(id) ==> cover_arts.dom().contains(id)
}

/// Whether every artist stands under its own id, and every album of an artist is there and named
/// once.
pub open spec fn artists_linked(
    artists: Map<Seq<char>, ArtistModel>,
    albums: Map<Seq<char>, AlbumModel>,
) -> bool {
    forall|id: Seq<char>| #[trigger]
        artists.dom().contains(id) ==> {
            &&& artists[id].id == id
            &&& artists[id].album_ids.no_duplicates()
            &&& forall|a: Seq<char>|
                artists[id].album_ids.contains(a) ==> #[trigger] albums.dom().contains(a)
        }
}

/// Whether every album stands under its own id and every track of an album and its cover is there.
pub open spec fn albums_linked(
    albums: Map<Seq<char>, AlbumModel>,
    tracks: Map<Seq<char>, TrackModel>,
    cover_arts: Map<Seq<char>, CoverArtSourceModel>,
) -> bool {
    forall|id: Seq<char>| #[trigger]
        albums.dom().contains(id) ==> {
            &&& albums[id].id == id
            &&& forall|t: Seq<char>|
                albums[id].track_ids.contains(t) ==> #[trigger] tracks.dom().contains(t)
            &&& cover_known(cover_arts, albums[id].cover_art_id)
        }
}

/// Whether every track stands under its own id and its cover is there.
pub open spec fn tracks_linked(
    tracks: Map<Seq<char>, TrackModel>,
    cover_arts: Map<Seq<char>, CoverArtSourceModel>,
) -> bool {
    forall|id: Seq<char>| #[trigger]
        tracks.dom().contains(id) ==> {
            &&& tracks[id].id == id
            &&& cover_known(cover_arts, tracks[id].cover_art_id)
        }
}

/// Whether every id in the library leads somewhere.
pub open spec fn linked(index: LibraryIndexModel) -> bool {
    &&& artists_linked(index.artists, index.albums)
    &&& albums_linked(index.albums, index.tracks, index.cover_arts)
    &&& tracks_linked(index.tracks, index.cover_arts)
}

/// What a library under construction has become so far.
pub open spec fn index_of(m: LibraryBuilderModel) -> LibraryIndexModel {
    LibraryIndexModel {
        artists: m.artists,
        albums: m.albums,
        tracks: m.tracks,
        cover_arts: m.cover_arts,
    }
}

/// What holds of a library under construction.
spec fn sound(m: LibraryBuilderModel) -> bool {
    &&& m.wf()
    &&& artists_linked(m.artists, m.albums)
    &&& albums_linked(m.albums, m.tracks, m.cover_arts)
    &&& tracks_linked(m.tracks, m.cover_arts)
    &&& forall|place: Seq<Seq<u8>>| #[trigger]
        m.cover_art_by_path.dom().contains(place) ==> m.cover_arts.dom().contains(
            cover_id_of(place),
        )
}

proof fn lemma_contains_push(s: Seq<Seq<char>>, x: Seq<char>, y: Seq<char>)
    ensures
        s.push(x).contains(y) ==> s.contains(y) || x == y,
{
    if s.push(x).contains(y) {
        let i = choose|i: int| 0 <= i < s.push(x).len() && s.push(x)[i] == y;
        if i < s.len() {
            assert(s[i] == y);
        }
    }
}

proof fn lemma_sound_artist(m: LibraryBuilderModel, name: Seq<char>)
    requires
        sound(m),
    ensures
        sound(m.with_artist(name)),
        m.with_artist(name).artists.dom().contains(slug(name)),
{
    let r = m.with_artist(name);
    assert(forall|id: Seq<char>|
        id != slug(name) && #[trigger] r.artists.dom().contains(id) ==> m.artists.dom().contains(id)
            && r.artists[id] == m.artists[id]);
}

proof fn lemma_sound_album(m: LibraryBuilderModel, key: (Seq<char>, Seq<char>))
    requires
        sound(m),
    ensures
        sound(m.with_album(key)),
        m.with_album(key).albums.dom().contains(album_id_of(key)),
{
    let r = m.with_album(key);
    assert forall|id: Seq<char>| #[trigger] r.artists.dom().contains(id) implies {
        &&& r.artists[id].id == id
        &&& r.artists[id].album_ids.no_duplicates()
        &&& forall|a: Seq<char>|
            r.artists[id].album_ids.contains(a) ==> #[trigger] r.albums.dom().contains(a)
    } by {
        assert(m.artists.dom().contains(id));
        assert forall|a: Seq<char>| r.artists[id].album_ids.contains(a) implies #[trigger]
            r.albums.dom().contains(a) by {
            assert(m.albums.dom().contains(a));
        }
    }
    assert(forall|id: Seq<char>|
        id != album_id_of(key) && #[trigger] r.albums.dom().contains(id) ==> m.albums.dom().contains(
            id,
        ) && r.albums[id] == m.albums[id]);
}

proof fn lemma_sound_cover(
    m: LibraryBuilderModel,
    root: Seq<Seq<u8>>,
    place: Option<Seq<Seq<u8>>>,
)
    requires
        sound(m),
    ensures
        sound(m.with_cover(root, place)),
        m.with_cover(root, place).artists == m.artists,
        m.with_cover(root, place).albums == m.albums,
        place matches Some(p) ==> m.with_cover(root, place).cover_arts.dom().contains(cover_id_of(p)),
{
    let r = m.with_cover(root, place);
    assert(forall|id: Seq<char>| #[trigger]
        m.cover_arts.dom().contains(id) ==> r.cover_arts.dom().contains(id));
    assert(forall|id: Seq<char>| #[trigger] r.albums.dom().contains(id) ==> m.albums.dom().contains(id));
    assert(forall|id: Seq<char>| #[trigger] r.tracks.dom().contains(id) ==> m.tracks.dom().contains(id));
}

proof fn lemma_sound_track(
    m: LibraryBuilderModel,
    artist_id: Seq<char>,
    album_id: Seq<char>,
    track: TrackModel,
)
    requires
        sound(m),
        m.artists.dom().contains(artist_id),
        m.albums.dom().contains(album_id),
        cover_known(m.cover_arts, track.cover_art_id),
    ensures
        sound(m.with_track(artist_id, album_id, track)),
{
    let r = m.with_track(artist_id, album_id, track);
    assert(r.artists.dom() =~= m.artists.dom());
    assert(r.albums.dom() =~= m.albums.dom());
    assert forall|id: Seq<char>| #[trigger] r.artists.dom().contains(id) implies {
        &&& r.artists[id].id == id
        &&& r.artists[id].album_ids.no_duplicates()
        &&& forall|a: Seq<char>|
            r.artists[id].album_ids.contains(a) ==> #[trigger] r.albums.dom().contains(a)
    } by {
        assert(m.artists.dom().contains(id));
        assert forall|a: Seq<char>| r.artists[id].album_ids.contains(a) implies #[trigger]
            r.albums.dom().contains(a) by {
            if id == artist_id {
                lemma_contains_push(m.artists[id].album_ids, album_id, a);
            }
            if m.artists[id].album_ids.contains(a) {
                assert(m.albums.dom().contains(a));
            }
        }
    }
    assert forall|id: Seq<char>| #[trigger] r.albums.dom().contains(id) implies {
        &&& r.albums[id].id == id
        &&& forall|t: Seq<char>|
            r.albums[id].track_ids.contains(t) ==> #[trigger] r.tracks.dom().contains(t)
        &&& cover_known(r.cover_arts, r.albums[id].cover_art_id)
    } by {
        assert(m.albums.dom().contains(id));
        assert forall|t: Seq<char>| r.albums[id].track_ids.contains(t) implies #[trigger]
            r.tracks.dom().contains(t) by {
            if id == album_id {
                lemma_contains_push(m.albums[id].track_ids, track.id, t);
            }
            if m.albums[id].track_ids.contains(t) {
                assert(m.tracks.dom().contains(t));
            }
        }
    }
    assert forall|id: Seq<char>| #[trigger] r.tracks.dom().contains(id) implies r.tracks[id].id == id
        && cover_known(r.cover_arts, r.tracks[id].cover_art_id) by {
        if id != track.id {
            assert(m.tracks.dom().contains(id));
        }
    }
}

proof fn lemma_sound_plus(
    m: LibraryBuilderModel,
    root: Seq<Seq<u8>>,
    scanned: ScannedTrackModel,
    tags: TrackTagsModel,
    place: Option<Seq<Seq<u8>>>,
)
    requires
        sound(m),
    ensures
        sound(m.plus(root, scanned, tags, place)),
{
    let artist = filed_artist(tags);
    let key = (artist, tags.album);
    lemma_sound_artist(m, artist);
    lemma_sound_album(m.with_artist(artist), key);
    let before = m.with_artist(artist).with_album(key);
    lemma_sound_cover(before, root, place);
    lemma_sound_track(
        before.with_cover(root, place),
        slug(artist),
        album_id_of(key),
        track_of(scanned, tags, place),
    );
}

proof fn lemma_sound_built(
    sidecars: Map<Seq<Seq<u8>>, Option<Seq<Seq<u8>>>>,
    root: Seq<Seq<u8>>,
    tracks: Seq<ScannedTrackModel>,
)
    ensures
        built(sidecars, root, tracks) matches Ok(m) ==> sound(m),
    decreases tracks.len(),
{
    if tracks.len() > 0 {
        lemma_sound_built(sidecars, root, tracks.drop_last());
        if let Ok(before) = built(sidecars, root, tracks.drop_last()) {
            if let Some(tags) = tracks.last().tags {
                if let Ok(place) = cover_place(before.sidecar_by_dir, root, tracks.last().path) {
                    lemma_sound_plus(before, root, tracks.last(), tags, place);
                }
            }
        }
    }
}

proof fn lemma_union_unique(ids: Seq<Seq<char>>, more: Seq<Seq<char>>)
    requires
        ids.no_duplicates(),
    ensures
        ids_union(ids, more).no_duplicates(),
    decreases more.len(),
{
    if more.len() > 0 {
        lemma_union_unique(ids, more.drop_last());
    }
}

proof fn lemma_union_within(ids: Seq<Seq<char>>, more: Seq<Seq<char>>, id: Seq<char>)
    ensures
        ids_union(ids, more).contains(id) ==> ids.contains(id) || more.contains(id),
    decreases more.len(),
{
    if more.len() > 0 {
        lemma_union_within(ids, more.drop_last(), id);
        lemma_contains_push(ids_union(ids, more.drop_last()), more.last(), id);
        if more.drop_last().contains(id) {
            let i = choose|i: int| 0 <= i < more.drop_last().len() && more.drop_last()[i] == id;
            assert(more[i] == id);
        }
        assert(more[more.len() - 1] == more.last());
    }
}

proof fn lemma_album_union_within(
    album: AlbumModel,
    ids: Seq<Seq<char>>,
    tracks: Map<Seq<char>, TrackModel>,
    id: Seq<char>,
)
    ensures
        album_union(album, ids, tracks).id == album.id,
        album_union(album, ids, tracks).track_ids.contains(id) ==> album.track_ids.contains(id)
            || tracks.dom().contains(id),
        album_union(album, ids, tracks).cover_art_id == album.cover_art_id || exists|t: Seq<char>|
            #[trigger] tracks.dom().contains(t) && album_union(album, ids, tracks).cover_art_id
                == tracks[t].cover_art_id,
    decreases ids.len(),
{
    if ids.len() > 0 {
        let before = album_union(album, ids.drop_last(), tracks);
        lemma_album_union_within(album, ids.drop_last(), tracks, id);
        lemma_contains_push(before.track_ids, ids.last(), id);
    }
}

proof fn lemma_sound_merged(a: LibraryBuilderModel, b: LibraryBuilderModel)
    requires
        sound(a),
        sound(b),
        a.merged(b).wf(),
    ensures
        sound(a.merged(b)),
{
    let r = a.merged(b);
    assert forall|id: Seq<char>| #[trigger] r.artists.dom().contains(id) implies {
        &&& r.artists[id].id == id
        &&& r.artists[id].album_ids.no_duplicates()
        &&& forall|x: Seq<char>|
            r.artists[id].album_ids.contains(x) ==> #[trigger] r.albums.dom().contains(x)
    } by {
        assert(r.artists[id] == artist_in_both(a.artists, b.artists, id));
        assert(a.artists.dom().contains(id) || b.artists.dom().contains(id));
        let none: Seq<Seq<char>> = seq![];
        let have = if a.artists.dom().contains(id) {
            a.artists[id].album_ids
        } else {
            none
        };
        let more = if b.artists.dom().contains(id) {
            b.artists[id].album_ids
        } else {
            none
        };
        lemma_union_unique(have, more);
        assert forall|x: Seq<char>| r.artists[id].album_ids.contains(x) implies #[trigger]
            r.albums.dom().contains(x) by {
            lemma_union_within(have, more, x);
            if have.contains(x) {
                assert(a.albums.dom().contains(x));
            } else {
                assert(b.albums.dom().contains(x));
            }
        }
    }
    assert forall|id: Seq<char>| #[trigger] r.albums.dom().contains(id) implies {
        &&& r.albums[id].id == id
        &&& forall|t: Seq<char>|
            r.albums[id].track_ids.contains(t) ==> #[trigger] r.tracks.dom().contains(t)
        &&& cover_known(r.cover_arts, r.albums[id].cover_art_id)
    } by {
        let album = r.albums[id];
        assert(album == album_in_both(a.albums, b.albums, b.tracks, id));
        if a.albums.dom().contains(id) && b.albums.dom().contains(id) {
            lemma_album_union_within(a.albums[id], b.albums[id].track_ids, b.tracks, id);
        }
        assert forall|t: Seq<char>| album.track_ids.contains(t) implies #[trigger]
            r.tracks.dom().contains(t) by {
            if a.albums.dom().contains(id) {
                if b.albums.dom().contains(id) {
                    lemma_album_union_within(a.albums[id], b.albums[id].track_ids, b.tracks, t);
                }
                if a.albums[id].track_ids.contains(t) {
                    assert(a.tracks.dom().contains(t));
                }
            } else {
                assert(b.tracks.dom().contains(t));
            }
        }
        assert(cover_known(r.cover_arts, album.cover_art_id)) by {
            if a.albums.dom().contains(id) && album.cover_art_id == a.albums[id].cover_art_id {
                assert(cover_known(a.cover_arts, album.cover_art_id));
            } else if a.albums.dom().contains(id) && b.albums.dom().contains(id) {
                let t = choose|t: Seq<char>| #[trigger]
                    b.tracks.dom().contains(t) && album.cover_art_id == b.tracks[t].cover_art_id;
                assert(cover_known(b.cover_arts, b.tracks[t].cover_art_id));
            } else {
                assert(cover_known(b.cover_arts, album.cover_art_id));
            }
        }
    }
    assert forall|id: Seq<char>| #[trigger] r.tracks.dom().contains(id) implies r.tracks[id].id == id
        && cover_known(r.cover_arts, r.tracks[id].cover_art_id) by {
        if a.tracks.dom().contains(id) {
            assert(cover_known(a.cover_arts, a.tracks[id].cover_art_id));
        } else {
            assert(b.tracks.dom().contains(id));
            assert(cover_known(b.cover_arts, b.tracks[id].cover_art_id));
        }
    }
    assert forall|place: Seq<Seq<u8>>| #[trigger] r.cover_art_by_path.dom().contains(place) implies
        r.cover_arts.dom().contains(cover_id_of(place)) by {
        assert(a.cover_art_by_path.dom().contains(place) || b.cover_art_by_path.dom().contains(
            place,
        ));
    }
}

proof fn lemma_sound_joined(
    sidecars: Map<Seq<Seq<u8>>, Option<Seq<Seq<u8>>>>,
    root: Seq<Seq<u8>>,
    parts: Seq<Seq<ScannedTrackModel>>,
)
    ensures
        joined_chunks(sidecars, root, parts) matches Ok(m) ==> sound(m),
    decreases parts.len(),
{
    if parts.len() > 0 {
        lemma_sound_joined(sidecars, root, parts.drop_last());
        lemma_sound_built(sidecars, root, parts.last());
        if let Ok(a) = joined_chunks(sidecars, root, parts.drop_last()) {
            if let Ok(b) = built(sidecars, root, parts.last()) {
                lemma_merged_wf(a, b);
                lemma_sound_merged(a, b);
            }
        }
    }
}

/// Every id in a library leads somewhere, however the tracks were cut into chunks.
pub proof fn law_library_is_linked(
    sidecars: Map<Seq<Seq<u8>>, Option<Seq<Seq<u8>>>>,
    root: Seq<Seq<u8>>,
    parts: Seq<Seq<ScannedTrackModel>>,
)
    ensures
        joined_chunks(sidecars, root, parts) matches Ok(m) ==> linked(index_of(m)),
{
    lemma_sound_joined(sidecars, root, parts);
}

} // verus!
