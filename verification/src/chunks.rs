//! Building the library in chunks: the chunks do not matter as long as no two names share an id.

use vstd::prelude::*;

use rayon::iter::ParallelIterator;
use rayon::slice::ParallelSlice;

use crate::builder::{
    album_id_of, album_plus, album_union, cover_id_of, cover_place, cover_source, filed_artist,
    fresh_album, ids_plus, ids_union, track_of, LibraryBuilder, LibraryBuilderModel, ScannedTrack,
    ScannedTrackModel,
};
use crate::duplicate::Duplicate;
use crate::error::{outcome, Error, ErrorModel};
use crate::ordered_map::OrderedMap;
use crate::path::{path_text, FilePath};
use crate::protocol::{AlbumModel, ArtistModel, TrackModel};
use crate::slug::slug;

verus! {

/// A track that is ready to be added: where it is filed, where its cover lies, and what it is.
pub struct FiledTrack {
    pub artist: Seq<char>,
    pub album: Seq<char>,
    pub place: Option<Seq<Seq<u8>>>,
    pub track: TrackModel,
}

impl FiledTrack {
    /// What tells its album apart.
    pub open spec fn key(self) -> (Seq<char>, Seq<char>) {
        (self.artist, self.album)
    }
}

/// The library with a filed track.
pub open spec fn with_filed(
    m: LibraryBuilderModel,
    root: Seq<Seq<u8>>,
    x: FiledTrack,
) -> LibraryBuilderModel {
    m.with_artist(x.artist).with_album(x.key()).with_cover(root, x.place).with_track(
        slug(x.artist),
        album_id_of(x.key()),
        x.track,
    )
}

/// The library that is made of filed tracks, one after the other.
pub open spec fn library_of(
    sidecars: Map<Seq<Seq<u8>>, Option<Seq<Seq<u8>>>>,
    root: Seq<Seq<u8>>,
    e: Seq<FiledTrack>,
) -> LibraryBuilderModel
    decreases e.len(),
{
    if e.len() == 0 {
        LibraryBuilderModel::fresh(sidecars)
    } else {
        with_filed(library_of(sidecars, root, e.drop_last()), root, e.last())
    }
}

/// Whether different artists, albums, tracks and covers have different ids.
pub open spec fn ids_differ(e: Seq<FiledTrack>) -> bool {
    &&& forall|i: int, j: int|
        #![trigger e[i], e[j]]
        0 <= i < e.len() && 0 <= j < e.len() ==> {
            &&& slug(e[i].artist) == slug(e[j].artist) ==> e[i].artist == e[j].artist
            &&& album_id_of(e[i].key()) == album_id_of(e[j].key()) ==> e[i].key() == e[j].key()
            &&& i != j ==> e[i].track.id != e[j].track.id
            &&& (e[i].place matches Some(p) && e[j].place matches Some(q) && cover_id_of(p)
                == cover_id_of(q)) ==> e[i].place == e[j].place
        }
}

/// What holds of a library that is made of filed tracks with different ids.
spec fn tidy(m: LibraryBuilderModel, root: Seq<Seq<u8>>, e: Seq<FiledTrack>) -> bool {
    &&& m.wf()
    &&& forall|name: Seq<char>| #[trigger]
        m.artists_by_name.dom().contains(name) ==> exists|i: int|
            0 <= i < e.len() && (#[trigger] e[i]).artist == name
    &&& forall|id: Seq<char>| #[trigger]
        m.artists.dom().contains(id) ==> exists|i: int|
            0 <= i < e.len() && slug((#[trigger] e[i]).artist) == id
                && m.artists_by_name.dom().contains(e[i].artist)
    &&& forall|key: (Seq<char>, Seq<char>)| #[trigger]
        m.albums_by_key.dom().contains(key) ==> exists|i: int|
            0 <= i < e.len() && (#[trigger] e[i]).key() == key
    &&& forall|id: Seq<char>| #[trigger]
        m.albums.dom().contains(id) ==> {
            &&& exists|i: int|
                0 <= i < e.len() && album_id_of((#[trigger] e[i]).key()) == id
                    && m.albums_by_key.dom().contains(e[i].key())
            &&& forall|t: Seq<char>|
                m.albums[id].track_ids.contains(t) ==> #[trigger] m.tracks.dom().contains(t)
        }
    &&& forall|id: Seq<char>| #[trigger]
        m.tracks.dom().contains(id) ==> exists|i: int|
            0 <= i < e.len() && (#[trigger] e[i]).track.id == id
    &&& forall|place: Seq<Seq<u8>>| #[trigger]
        m.cover_art_by_path.dom().contains(place) ==> {
            &&& exists|i: int| 0 <= i < e.len() && (#[trigger] e[i]).place == Some(place)
            &&& m.cover_arts.dom().contains(cover_id_of(place))
            &&& m.cover_arts[cover_id_of(place)] == cover_source(root, place)
        }
    &&& forall|id: Seq<char>| #[trigger]
        m.cover_arts.dom().contains(id) ==> exists|i: int|
            0 <= i < e.len() && ((#[trigger] e[i]).place matches Some(p) && cover_id_of(p) == id
                && m.cover_art_by_path.dom().contains(p))
}

/// The artist to whom an album is added.
spec fn artist_plus(
    artists: Map<Seq<char>, ArtistModel>,
    name: Seq<char>,
    album_id: Seq<char>,
) -> ArtistModel {
    if artists.dom().contains(slug(name)) {
        ArtistModel {
            album_ids: ids_plus(artists[slug(name)].album_ids, album_id),
            ..artists[slug(name)]
        }
    } else {
        ArtistModel { id: slug(name), name, album_ids: seq![album_id] }
    }
}

/// The album that a track is added to.
spec fn album_for(
    albums: Map<Seq<char>, AlbumModel>,
    key: (Seq<char>, Seq<char>),
) -> AlbumModel {
    if albums.dom().contains(album_id_of(key)) {
        albums[album_id_of(key)]
    } else {
        fresh_album(key)
    }
}

/// What adding a track does to each map of a tidy library.
proof fn lemma_with_filed_parts(
    m: LibraryBuilderModel,
    root: Seq<Seq<u8>>,
    e: Seq<FiledTrack>,
    x: FiledTrack,
)
    requires
        tidy(m, root, e),
        ids_differ(e.push(x)),
    ensures
        ({
            let r = with_filed(m, root, x);
            &&& r.sidecar_by_dir == m.sidecar_by_dir
            &&& r.artists_by_name == m.artists_by_name.insert(x.artist, slug(x.artist))
            &&& r.albums_by_key == m.albums_by_key.insert(x.key(), album_id_of(x.key()))
            &&& r.artists == m.artists.insert(
                slug(x.artist),
                artist_plus(m.artists, x.artist, album_id_of(x.key())),
            )
            &&& r.albums == m.albums.insert(
                album_id_of(x.key()),
                album_plus(album_for(m.albums, x.key()), x.track),
            )
            &&& r.tracks == m.tracks.insert(x.track.id, x.track)
            &&& match x.place {
                Some(p) => {
                    &&& r.cover_art_by_path == m.cover_art_by_path.insert(p, cover_id_of(p))
                    &&& r.cover_arts == m.cover_arts.insert(cover_id_of(p), cover_source(root, p))
                },
                None => {
                    &&& r.cover_art_by_path == m.cover_art_by_path
                    &&& r.cover_arts == m.cover_arts
                },
            }
        }),
{
    let all = e.push(x);
    let n = e.len() as int;
    let r = with_filed(m, root, x);
    assert(all[n] == x);
    assert(forall|i: int| 0 <= i < n ==> #[trigger] all[i] == e[i]);
    let artist_id = slug(x.artist);
    let album_id = album_id_of(x.key());
    if m.artists.dom().contains(artist_id) {
        let i = choose|i: int|
            0 <= i < e.len() && slug((#[trigger] e[i]).artist) == artist_id
                && m.artists_by_name.dom().contains(e[i].artist);
        assert(all[i].artist == all[n].artist);
        assert(m.artists_by_name.dom().contains(x.artist));
    }
    if m.albums.dom().contains(album_id) {
        let i = choose|i: int|
            0 <= i < e.len() && album_id_of((#[trigger] e[i]).key()) == album_id
                && m.albums_by_key.dom().contains(e[i].key());
        assert(all[i].key() == all[n].key());
        assert(m.albums_by_key.dom().contains(x.key()));
    }
    assert(r.artists_by_name =~= m.artists_by_name.insert(x.artist, artist_id));
    assert(r.albums_by_key =~= m.albums_by_key.insert(x.key(), album_id));
    let empty: Seq<Seq<char>> = seq![];
    assert(ids_plus(empty, album_id) =~= seq![album_id]);
    assert(r.artists =~= m.artists.insert(
        artist_id,
        artist_plus(m.artists, x.artist, album_id),
    ));
    assert(r.albums =~= m.albums.insert(
        album_id,
        album_plus(album_for(m.albums, x.key()), x.track),
    ));
    if let Some(p) = x.place {
        assert(r.cover_art_by_path =~= m.cover_art_by_path.insert(p, cover_id_of(p)));
        assert(r.cover_arts =~= m.cover_arts.insert(cover_id_of(p), cover_source(root, p)));
    }
}

/// A library stays tidy when a track is added.
proof fn lemma_tidy_step(
    m: LibraryBuilderModel,
    root: Seq<Seq<u8>>,
    e: Seq<FiledTrack>,
    x: FiledTrack,
)
    requires
        tidy(m, root, e),
        ids_differ(e.push(x)),
    ensures
        tidy(with_filed(m, root, x), root, e.push(x)),
{
    let all = e.push(x);
    let n = e.len() as int;
    let r = with_filed(m, root, x);
    lemma_with_filed_parts(m, root, e, x);
    assert(all[n] == x);
    assert(forall|i: int| 0 <= i < n ==> #[trigger] all[i] == e[i]);
    let artist_id = slug(x.artist);
    let album_id = album_id_of(x.key());
    assert forall|name: Seq<char>| #[trigger] r.artists_by_name.dom().contains(name) implies exists|
        i: int,
    | 0 <= i < all.len() && (#[trigger] all[i]).artist == name by {
        if name == x.artist {
            assert(all[n].artist == name);
        } else {
            let i = choose|i: int| 0 <= i < e.len() && (#[trigger] e[i]).artist == name;
            assert(all[i].artist == name);
        }
    }
    assert forall|id: Seq<char>| #[trigger] r.artists.dom().contains(id) implies exists|i: int|
        0 <= i < all.len() && slug((#[trigger] all[i]).artist) == id
            && r.artists_by_name.dom().contains(all[i].artist) by {
        if id == artist_id {
            assert(slug(all[n].artist) == id);
        } else {
            let i = choose|i: int|
                0 <= i < e.len() && slug((#[trigger] e[i]).artist) == id
                    && m.artists_by_name.dom().contains(e[i].artist);
            assert(slug(all[i].artist) == id);
        }
    }
    assert forall|key: (Seq<char>, Seq<char>)| #[trigger]
        r.albums_by_key.dom().contains(key) implies exists|i: int|
        0 <= i < all.len() && (#[trigger] all[i]).key() == key by {
        if key == x.key() {
            assert(all[n].key() == key);
        } else {
            let i = choose|i: int| 0 <= i < e.len() && (#[trigger] e[i]).key() == key;
            assert(all[i].key() == key);
        }
    }
    assert forall|id: Seq<char>| #[trigger] r.albums.dom().contains(id) implies (exists|i: int|
        0 <= i < all.len() && album_id_of((#[trigger] all[i]).key()) == id
            && r.albums_by_key.dom().contains(all[i].key())) && (forall|t: Seq<char>|
        r.albums[id].track_ids.contains(t) ==> #[trigger] r.tracks.dom().contains(t)) by {
        if id == album_id {
            assert(album_id_of(all[n].key()) == id);
            let before = album_for(m.albums, x.key());
            assert forall|t: Seq<char>| r.albums[id].track_ids.contains(t) implies #[trigger]
                r.tracks.dom().contains(t) by {
                let k = choose|k: int|
                    0 <= k < r.albums[id].track_ids.len() && r.albums[id].track_ids[k] == t;
                if k < before.track_ids.len() {
                    assert(before.track_ids[k] == t);
                    assert(before.track_ids.contains(t));
                    assert(m.tracks.dom().contains(t));
                }
            }
        } else {
            let i = choose|i: int|
                0 <= i < e.len() && album_id_of((#[trigger] e[i]).key()) == id
                    && m.albums_by_key.dom().contains(e[i].key());
            assert(album_id_of(all[i].key()) == id);
            assert forall|t: Seq<char>| r.albums[id].track_ids.contains(t) implies #[trigger]
                r.tracks.dom().contains(t) by {
                assert(m.tracks.dom().contains(t));
            }
        }
    }
    assert forall|id: Seq<char>| #[trigger] r.tracks.dom().contains(id) implies exists|i: int|
        0 <= i < all.len() && (#[trigger] all[i]).track.id == id by {
        if id == x.track.id {
            assert(all[n].track.id == id);
        } else {
            let i = choose|i: int| 0 <= i < e.len() && (#[trigger] e[i]).track.id == id;
            assert(all[i].track.id == id);
        }
    }
    assert forall|place: Seq<Seq<u8>>| #[trigger]
        r.cover_art_by_path.dom().contains(place) implies (exists|i: int|
        0 <= i < all.len() && (#[trigger] all[i]).place == Some(place))
        && r.cover_arts.dom().contains(cover_id_of(place)) && r.cover_arts[cover_id_of(place)]
        == cover_source(root, place) by {
        if x.place == Some(place) {
            assert(all[n].place == Some(place));
        } else {
            assert(m.cover_art_by_path.dom().contains(place));
            let i = choose|i: int| 0 <= i < e.len() && (#[trigger] e[i]).place == Some(place);
            assert(all[i].place == Some(place));
            assert(all[n].place matches Some(q) ==> cover_id_of(q) != cover_id_of(place));
        }
    }
    assert forall|id: Seq<char>| #[trigger] r.cover_arts.dom().contains(id) implies exists|i: int|
        0 <= i < all.len() && ((#[trigger] all[i]).place matches Some(p) && cover_id_of(p) == id
            && r.cover_art_by_path.dom().contains(p)) by {
        if x.place matches Some(q) && cover_id_of(q) == id {
            assert(all[n].place == x.place);
        } else {
            assert(m.cover_arts.dom().contains(id));
            let i = choose|i: int|
                0 <= i < e.len() && ((#[trigger] e[i]).place matches Some(p) && cover_id_of(p) == id
                    && m.cover_art_by_path.dom().contains(p));
            assert(all[i].place == e[i].place);
        }
    }
    assert(r.wf());
}

/// A library that is made of filed tracks with different ids is tidy.
proof fn lemma_tidy(
    sidecars: Map<Seq<Seq<u8>>, Option<Seq<Seq<u8>>>>,
    root: Seq<Seq<u8>>,
    e: Seq<FiledTrack>,
)
    requires
        ids_differ(e),
    ensures
        tidy(library_of(sidecars, root, e), root, e),
    decreases e.len(),
{
    if e.len() > 0 {
        let d = e.drop_last();
        assert(e =~= d.push(e.last()));
        assert(ids_differ(d)) by {
            assert(forall|i: int| 0 <= i < d.len() ==> #[trigger] d[i] == e[i]);
        }
        lemma_tidy(sidecars, root, d);
        lemma_tidy_step(library_of(sidecars, root, d), root, d, e.last());
    }
}

proof fn lemma_ids_union_contains(ids: Seq<Seq<char>>, more: Seq<Seq<char>>, id: Seq<char>)
    requires
        more.contains(id),
    ensures
        ids_union(ids, more).contains(id),
    decreases more.len(),
{
    let before = ids_union(ids, more.drop_last());
    if more.last() == id {
        if !before.contains(id) {
            assert(before.push(id)[before.len() as int] == id);
        }
    } else {
        let i = choose|i: int| 0 <= i < more.len() && more[i] == id;
        assert(more.drop_last()[i] == id);
        lemma_ids_union_contains(ids, more.drop_last(), id);
        let k = choose|k: int| 0 <= k < before.len() && before[k] == id;
        assert(before.push(more.last())[k] == id);
    }
}

/// To add one id to the second row is to add it to the union.
proof fn lemma_ids_union_plus(ids: Seq<Seq<char>>, more: Seq<Seq<char>>, id: Seq<char>)
    ensures
        ids_union(ids, ids_plus(more, id)) == ids_plus(ids_union(ids, more), id),
{
    if more.contains(id) {
        lemma_ids_union_contains(ids, more, id);
    } else {
        assert(more.push(id).drop_last() =~= more);
    }
}

/// A track that is not asked for does not matter to a union of albums.
proof fn lemma_album_union_ignores(
    album: AlbumModel,
    ids: Seq<Seq<char>>,
    tracks: Map<Seq<char>, TrackModel>,
    id: Seq<char>,
    track: TrackModel,
)
    requires
        !ids.contains(id),
    ensures
        album_union(album, ids, tracks.insert(id, track)) == album_union(album, ids, tracks),
    decreases ids.len(),
{
    if ids.len() > 0 {
        assert(!ids.drop_last().contains(id)) by {
            if ids.drop_last().contains(id) {
                let i = choose|i: int| 0 <= i < ids.drop_last().len() && ids.drop_last()[i] == id;
                assert(ids[i] == id);
            }
        }
        assert(ids.last() != id) by {
            if ids.last() == id {
                assert(ids[ids.len() - 1] == id);
            }
        }
        lemma_album_union_ignores(album, ids.drop_last(), tracks, id, track);
    }
}

/// A union of albums holds no track that neither has.
proof fn lemma_album_union_tracks(
    album: AlbumModel,
    ids: Seq<Seq<char>>,
    tracks: Map<Seq<char>, TrackModel>,
    id: Seq<char>,
)
    requires
        !ids.contains(id),
        !album.track_ids.contains(id),
    ensures
        !album_union(album, ids, tracks).track_ids.contains(id),
    decreases ids.len(),
{
    if ids.len() > 0 {
        assert(!ids.drop_last().contains(id)) by {
            if ids.drop_last().contains(id) {
                let i = choose|i: int| 0 <= i < ids.drop_last().len() && ids.drop_last()[i] == id;
                assert(ids[i] == id);
            }
        }
        assert(ids[ids.len() - 1] == ids.last());
        assert(ids.last() != id);
        lemma_album_union_tracks(album, ids.drop_last(), tracks, id);
        let before = album_union(album, ids.drop_last(), tracks);
        let pushed = before.track_ids.push(ids.last());
        if pushed.contains(id) {
            let i = choose|i: int| 0 <= i < pushed.len() && pushed[i] == id;
            assert(before.track_ids[i] == id);
        }
    }
}

/// To add a track to the second library is to add it to both taken together.
proof fn lemma_merge_step(
    s: LibraryBuilderModel,
    t: LibraryBuilderModel,
    root: Seq<Seq<u8>>,
    a: Seq<FiledTrack>,
    b: Seq<FiledTrack>,
    x: FiledTrack,
)
    requires
        tidy(s, root, a),
        tidy(t, root, b),
        tidy(s.merged(t), root, a + b),
        ids_differ((a + b).push(x)),
    ensures
        s.merged(with_filed(t, root, x)) == with_filed(s.merged(t), root, x),
{
    let all = (a + b).push(x);
    let n = a.len() + b.len();
    let m = s.merged(t);
    assert(all[n as int] == x);
    assert(forall|i: int| 0 <= i < a.len() ==> #[trigger] all[i] == a[i]);
    assert(forall|i: int| 0 <= i < b.len() ==> all[a.len() + i] == #[trigger] b[i]);
    let later = b.push(x);
    assert(ids_differ(later)) by {
        assert(later.len() == b.len() + 1);
        assert forall|i: int| 0 <= i < later.len() implies #[trigger] later[i] == all[a.len() + i] by {
            if i < b.len() {
                assert(later[i] == b[i]);
            }
        }
    }
    lemma_with_filed_parts(t, root, b, x);
    lemma_with_filed_parts(m, root, a + b, x);
    let t2 = with_filed(t, root, x);
    let m2 = with_filed(m, root, x);
    let r = s.merged(t2);
    let artist_id = slug(x.artist);
    let album_id = album_id_of(x.key());
    let track_id = x.track.id;
    // No library holds the track yet.
    assert(!s.tracks.dom().contains(track_id)) by {
        if s.tracks.dom().contains(track_id) {
            let i = choose|i: int| 0 <= i < a.len() && (#[trigger] a[i]).track.id == track_id;
            assert(all[i].track.id == all[n as int].track.id);
        }
    }
    assert(!t.tracks.dom().contains(track_id)) by {
        if t.tracks.dom().contains(track_id) {
            let i = choose|i: int| 0 <= i < b.len() && (#[trigger] b[i]).track.id == track_id;
            assert(all[a.len() + i].track.id == all[n as int].track.id);
        }
    }
    assert(r.tracks =~= m2.tracks);
    assert(r.artists_by_name =~= m2.artists_by_name) by {
        if s.artists_by_name.dom().contains(x.artist) {
            assert(s.artists_by_name[x.artist] == artist_id);
        }
    }
    assert(r.albums_by_key =~= m2.albums_by_key) by {
        if s.albums_by_key.dom().contains(x.key()) {
            assert(s.albums_by_key[x.key()] == album_id);
        }
    }
    // Covers.
    if let Some(p) = x.place {
        if s.cover_arts.dom().contains(cover_id_of(p)) {
            let i = choose|i: int|
                0 <= i < a.len() && ((#[trigger] a[i]).place matches Some(q) && cover_id_of(q)
                    == cover_id_of(p) && s.cover_art_by_path.dom().contains(q));
            assert(all[i].place == all[n as int].place);
            assert(s.cover_arts[cover_id_of(p)] == cover_source(root, p));
        }
        if s.cover_art_by_path.dom().contains(p) {
            assert(s.cover_art_by_path[p] == cover_id_of(p));
        }
    }
    assert(r.cover_art_by_path =~= m2.cover_art_by_path);
    assert(r.cover_arts =~= m2.cover_arts);
    // Artists.
    assert(r.artists =~= m2.artists) by {
        assert forall|id: Seq<char>| #[trigger] r.artists.dom().contains(id) implies r.artists[id]
            == m2.artists[id] by {
            if id == artist_id {
                let none: Seq<Seq<char>> = seq![];
                let before = if s.artists.dom().contains(id) {
                    s.artists[id].album_ids
                } else {
                    none
                };
                let more = if t.artists.dom().contains(id) {
                    t.artists[id].album_ids
                } else {
                    none
                };
                lemma_ids_union_plus(before, more, album_id);
                assert(ids_plus(none, album_id) =~= seq![album_id]);
                assert(ids_union(before, none) == before);
            }
        }
        assert(r.artists.dom() =~= m2.artists.dom());
    }
    // Albums.
    assert(r.albums =~= m2.albums) by {
        assert forall|id: Seq<char>| #[trigger] r.albums.dom().contains(id) implies r.albums[id]
            == m2.albums[id] by {
            if t.albums.dom().contains(id) {
                if t.albums[id].track_ids.contains(track_id) {
                    assert(t.tracks.dom().contains(track_id));
                }
                if s.albums.dom().contains(id) {
                    lemma_album_union_ignores(
                        s.albums[id],
                        t.albums[id].track_ids,
                        t.tracks,
                        track_id,
                        x.track,
                    );
                }
            }
            if id == album_id && s.albums.dom().contains(id) {
                if s.albums[id].track_ids.contains(track_id) {
                    assert(s.tracks.dom().contains(track_id));
                }
                let before = album_for(t.albums, x.key());
                let ids = t2.albums[id].track_ids;
                assert(ids == before.track_ids.push(track_id));
                assert(ids.drop_last() =~= before.track_ids);
                if t.albums.dom().contains(id) {
                    lemma_album_union_tracks(
                        s.albums[id],
                        before.track_ids,
                        t2.tracks,
                        track_id,
                    );
                } else {
                    let none: Seq<Seq<char>> = seq![];
                    assert(before.track_ids =~= none);
                    assert(album_union(s.albums[id], before.track_ids, t2.tracks) == s.albums[id]);
                }
            }
        }
        assert(r.albums.dom() =~= m2.albums.dom());
    }
}

/// Two libraries made of the tracks of two chunks, taken together, are the library made of all
/// these tracks.
proof fn lemma_merge_is_concat(
    sidecars: Map<Seq<Seq<u8>>, Option<Seq<Seq<u8>>>>,
    root: Seq<Seq<u8>>,
    a: Seq<FiledTrack>,
    b: Seq<FiledTrack>,
)
    requires
        ids_differ(a + b),
    ensures
        library_of(sidecars, root, a).merged(library_of(sidecars, root, b)) == library_of(
            sidecars,
            root,
            a + b,
        ),
    decreases b.len(),
{
    let s = library_of(sidecars, root, a);
    if b.len() == 0 {
        assert(a + b =~= a);
        let m = s.merged(LibraryBuilderModel::fresh(sidecars));
        assert(m.artists =~= s.artists);
        assert(m.albums =~= s.albums);
        assert(m.tracks =~= s.tracks);
        assert(m.cover_arts =~= s.cover_arts);
        assert(m.cover_art_by_path =~= s.cover_art_by_path);
        assert(m.artists_by_name =~= s.artists_by_name);
        assert(m.albums_by_key =~= s.albums_by_key);
    } else {
        let d = b.drop_last();
        let x = b.last();
        let all = a + b;
        assert(all =~= (a + d).push(x));
        assert(all.drop_last() =~= a + d);
        assert(ids_differ(a + d)) by {
            assert(forall|i: int| 0 <= i < (a + d).len() ==> #[trigger] (a + d)[i] == all[i]);
        }
        assert(ids_differ(a)) by {
            assert(forall|i: int| 0 <= i < a.len() ==> #[trigger] a[i] == all[i]);
        }
        assert(ids_differ(d)) by {
            assert(forall|i: int| 0 <= i < d.len() ==> #[trigger] d[i] == all[a.len() + i]);
        }
        lemma_merge_is_concat(sidecars, root, a, d);
        lemma_tidy(sidecars, root, a);
        lemma_tidy(sidecars, root, d);
        lemma_tidy(sidecars, root, a + d);
        lemma_merge_step(s, library_of(sidecars, root, d), root, a, d, x);
    }
}

/// How a scanned track is filed, or why it cannot be.
pub open spec fn filed(
    sidecars: Map<Seq<Seq<u8>>, Option<Seq<Seq<u8>>>>,
    root: Seq<Seq<u8>>,
    scanned: ScannedTrackModel,
) -> Result<FiledTrack, ErrorModel> {
    match scanned.tags {
        None => Err(
            ErrorModel::InvalidRequest("missing scanned tags for "@ + path_text(scanned.path)),
        ),
        Some(tags) => match cover_place(sidecars, root, scanned.path) {
            Err(error) => Err(error),
            Ok(place) => Ok(
                FiledTrack {
                    artist: filed_artist(tags),
                    album: tags.album,
                    place,
                    track: track_of(scanned, tags, place),
                },
            ),
        },
    }
}

/// How scanned tracks are filed, or why the first that cannot be filed cannot.
pub open spec fn all_filed(
    sidecars: Map<Seq<Seq<u8>>, Option<Seq<Seq<u8>>>>,
    root: Seq<Seq<u8>>,
    tracks: Seq<ScannedTrackModel>,
) -> Result<Seq<FiledTrack>, ErrorModel>
    decreases tracks.len(),
{
    if tracks.len() == 0 {
        Ok(seq![])
    } else {
        match all_filed(sidecars, root, tracks.drop_last()) {
            Err(error) => Err(error),
            Ok(before) => match filed(sidecars, root, tracks.last()) {
                Err(error) => Err(error),
                Ok(x) => Ok(before.push(x)),
            },
        }
    }
}

/// The library that is made of scanned tracks, added one after the other, or why the first that
/// cannot be added cannot.
pub open spec fn built(
    sidecars: Map<Seq<Seq<u8>>, Option<Seq<Seq<u8>>>>,
    root: Seq<Seq<u8>>,
    tracks: Seq<ScannedTrackModel>,
) -> Result<LibraryBuilderModel, ErrorModel>
    decreases tracks.len(),
{
    if tracks.len() == 0 {
        Ok(LibraryBuilderModel::fresh(sidecars))
    } else {
        match built(sidecars, root, tracks.drop_last()) {
            Err(error) => Err(error),
            Ok(before) => before.added(root, tracks.last()),
        }
    }
}

/// The pieces of a sequence, each of `size` items but for the last, which may be shorter.
pub open spec fn chunks<A>(all: Seq<A>, size: int) -> Seq<Seq<A>>
    decreases all.len(),
{
    if size <= 0 || all.len() == 0 {
        seq![]
    } else if all.len() <= size {
        seq![all]
    } else {
        seq![all.take(size)] + chunks(all.skip(size), size)
    }
}

/// The library that is made of chunks of tracks: each chunk makes a library of its own, and these
/// are taken together. Or else why the first track that cannot be added cannot.
pub open spec fn joined_chunks(
    sidecars: Map<Seq<Seq<u8>>, Option<Seq<Seq<u8>>>>,
    root: Seq<Seq<u8>>,
    parts: Seq<Seq<ScannedTrackModel>>,
) -> Result<LibraryBuilderModel, ErrorModel>
    decreases parts.len(),
{
    if parts.len() == 0 {
        Ok(LibraryBuilderModel::fresh(sidecars))
    } else {
        match joined_chunks(sidecars, root, parts.drop_last()) {
            Err(error) => Err(error),
            Ok(before) => match built(sidecars, root, parts.last()) {
                Err(error) => Err(error),
                Ok(part) => Ok(before.merged(part)),
            },
        }
    }
}

/// The chunks one after the other.
spec fn concat<A>(parts: Seq<Seq<A>>) -> Seq<A>
    decreases parts.len(),
{
    if parts.len() == 0 {
        seq![]
    } else {
        concat(parts.drop_last()) + parts.last()
    }
}

proof fn lemma_concat_front<A>(first: Seq<A>, rest: Seq<Seq<A>>)
    ensures
        concat(seq![first] + rest) == first + concat(rest),
    decreases rest.len(),
{
    let all = seq![first] + rest;
    if rest.len() == 0 {
        assert(all.drop_last() =~= rest);
        assert(concat(rest) =~= seq![]);
        assert(concat(all) =~= first + concat(rest));
    } else {
        assert(all.drop_last() =~= seq![first] + rest.drop_last());
        lemma_concat_front(first, rest.drop_last());
        assert(concat(all) =~= first + concat(rest));
    }
}

/// The chunks of a sequence, one after the other, are the sequence.
proof fn lemma_concat_chunks<A>(all: Seq<A>, size: int)
    requires
        size > 0,
    ensures
        concat(chunks(all, size)) == all,
    decreases all.len(),
{
    if all.len() == 0 {
        assert(concat(chunks(all, size)) =~= all);
    } else if all.len() <= size {
        let none: Seq<Seq<A>> = seq![];
        lemma_concat_front(all, none);
        assert(seq![all] + none =~= seq![all]);
        assert(all + concat(none) =~= all);
    } else {
        lemma_concat_chunks(all.skip(size), size);
        lemma_concat_front(all.take(size), chunks(all.skip(size), size));
        assert(all.take(size) + all.skip(size) =~= all);
    }
}

proof fn lemma_sidecars_stay(
    sidecars: Map<Seq<Seq<u8>>, Option<Seq<Seq<u8>>>>,
    root: Seq<Seq<u8>>,
    e: Seq<FiledTrack>,
)
    ensures
        library_of(sidecars, root, e).sidecar_by_dir == sidecars,
    decreases e.len(),
{
    if e.len() > 0 {
        lemma_sidecars_stay(sidecars, root, e.drop_last());
    }
}

/// To build is to file the tracks and to make a library of them.
proof fn lemma_built_is_filed(
    sidecars: Map<Seq<Seq<u8>>, Option<Seq<Seq<u8>>>>,
    root: Seq<Seq<u8>>,
    tracks: Seq<ScannedTrackModel>,
)
    ensures
        built(sidecars, root, tracks) == (match all_filed(sidecars, root, tracks) {
            Err(error) => Err(error),
            Ok(e) => Ok(library_of(sidecars, root, e)),
        }),
    decreases tracks.len(),
{
    if tracks.len() > 0 {
        lemma_built_is_filed(sidecars, root, tracks.drop_last());
        if let Ok(before) = all_filed(sidecars, root, tracks.drop_last()) {
            lemma_sidecars_stay(sidecars, root, before);
            if let Ok(x) = filed(sidecars, root, tracks.last()) {
                assert(before.push(x).drop_last() =~= before);
            }
        }
    }
}

proof fn lemma_filed_concat(
    sidecars: Map<Seq<Seq<u8>>, Option<Seq<Seq<u8>>>>,
    root: Seq<Seq<u8>>,
    a: Seq<ScannedTrackModel>,
    b: Seq<ScannedTrackModel>,
)
    ensures
        all_filed(sidecars, root, a + b) == (match all_filed(sidecars, root, a) {
            Err(error) => Err(error),
            Ok(x) => match all_filed(sidecars, root, b) {
                Err(error) => Err(error),
                Ok(y) => Ok(x + y),
            },
        }),
    decreases b.len(),
{
    if b.len() == 0 {
        assert(a + b =~= a);
        if let Ok(x) = all_filed(sidecars, root, a) {
            assert(x + Seq::<FiledTrack>::empty() =~= x);
        }
    } else {
        assert((a + b).drop_last() =~= a + b.drop_last());
        lemma_filed_concat(sidecars, root, a, b.drop_last());
        if let Ok(x) = all_filed(sidecars, root, a) {
            if let Ok(y) = all_filed(sidecars, root, b.drop_last()) {
                if let Ok(z) = filed(sidecars, root, b.last()) {
                    assert((x + y).push(z) =~= x + y.push(z));
                }
            }
        }
    }
}

proof fn lemma_joined_is_built(
    sidecars: Map<Seq<Seq<u8>>, Option<Seq<Seq<u8>>>>,
    root: Seq<Seq<u8>>,
    parts: Seq<Seq<ScannedTrackModel>>,
)
    requires
        all_filed(sidecars, root, concat(parts)) matches Ok(e) ==> ids_differ(e),
    ensures
        joined_chunks(sidecars, root, parts) == built(sidecars, root, concat(parts)),
    decreases parts.len(),
{
    if parts.len() > 0 {
        let a = concat(parts.drop_last());
        let b = parts.last();
        lemma_filed_concat(sidecars, root, a, b);
        lemma_built_is_filed(sidecars, root, a);
        lemma_built_is_filed(sidecars, root, b);
        lemma_built_is_filed(sidecars, root, a + b);
        match all_filed(sidecars, root, a) {
            Err(_) => {
                lemma_joined_is_built(sidecars, root, parts.drop_last());
            },
            Ok(x) => {
                match all_filed(sidecars, root, b) {
                    Err(_) => {
                        lemma_joined_errors(sidecars, root, parts.drop_last());
                    },
                    Ok(y) => {
                        assert(ids_differ(x)) by {
                            assert(forall|i: int|
                                0 <= i < x.len() ==> #[trigger] x[i] == (x + y)[i]);
                        }
                        lemma_joined_is_built(sidecars, root, parts.drop_last());
                        lemma_merge_is_concat(sidecars, root, x, y);
                    },
                }
            },
        }
    }
}

/// Where every track can be filed, no chunk fails.
proof fn lemma_joined_errors(
    sidecars: Map<Seq<Seq<u8>>, Option<Seq<Seq<u8>>>>,
    root: Seq<Seq<u8>>,
    parts: Seq<Seq<ScannedTrackModel>>,
)
    requires
        all_filed(sidecars, root, concat(parts)) is Ok,
    ensures
        joined_chunks(sidecars, root, parts) is Ok,
    decreases parts.len(),
{
    if parts.len() > 0 {
        let a = concat(parts.drop_last());
        lemma_filed_concat(sidecars, root, a, parts.last());
        lemma_built_is_filed(sidecars, root, parts.last());
        lemma_joined_errors(sidecars, root, parts.drop_last());
    }
}

/// The size of the chunks does not matter: as long as different artists, albums, tracks and covers
/// have different ids, the library is the one that the tracks make when they are added one after
/// the other, and so is the error.
pub proof fn law_chunks_do_not_matter(
    sidecars: Map<Seq<Seq<u8>>, Option<Seq<Seq<u8>>>>,
    root: Seq<Seq<u8>>,
    tracks: Seq<ScannedTrackModel>,
    size: int,
)
    requires
        size > 0,
        all_filed(sidecars, root, tracks) matches Ok(e) ==> ids_differ(e),
    ensures
        joined_chunks(sidecars, root, chunks(tracks, size)) == built(sidecars, root, tracks),
{
    lemma_concat_chunks(tracks, size);
    lemma_joined_is_built(sidecars, root, chunks(tracks, size));
}

/// Whether a filed track is in a library: under its id, in its album, which is among those of its
/// artist, and with its cover.
pub open spec fn is_filed(m: LibraryBuilderModel, root: Seq<Seq<u8>>, x: FiledTrack) -> bool {
    &&& m.tracks.dom().contains(x.track.id)
    &&& m.tracks[x.track.id] == x.track
    &&& m.albums.dom().contains(album_id_of(x.key()))
    &&& m.albums[album_id_of(x.key())].title == x.album
    &&& m.albums[album_id_of(x.key())].track_ids.contains(x.track.id)
    &&& m.artists.dom().contains(slug(x.artist))
    &&& m.artists[slug(x.artist)].name == x.artist
    &&& m.artists[slug(x.artist)].album_ids.contains(album_id_of(x.key()))
    &&& x.place matches Some(p) ==> m.cover_arts.dom().contains(cover_id_of(p))
        && m.cover_arts[cover_id_of(p)] == cover_source(root, p)
}

/// The names under which artists and albums stand in a library made of filed tracks.
spec fn well_named(m: LibraryBuilderModel) -> bool {
    &&& forall|name: Seq<char>| #[trigger]
        m.artists_by_name.dom().contains(name) ==> m.artists[slug(name)].name == name
    &&& forall|key: (Seq<char>, Seq<char>)| #[trigger]
        m.albums_by_key.dom().contains(key) ==> m.albums[album_id_of(key)].title == key.1
}

proof fn lemma_well_named(
    sidecars: Map<Seq<Seq<u8>>, Option<Seq<Seq<u8>>>>,
    root: Seq<Seq<u8>>,
    e: Seq<FiledTrack>,
)
    requires
        ids_differ(e),
    ensures
        well_named(library_of(sidecars, root, e)),
    decreases e.len(),
{
    if e.len() > 0 {
        let d = e.drop_last();
        let x = e.last();
        let n = d.len() as int;
        assert(e =~= d.push(x));
        assert(forall|i: int| 0 <= i < d.len() ==> #[trigger] d[i] == e[i]);
        lemma_tidy(sidecars, root, d);
        lemma_well_named(sidecars, root, d);
        let m = library_of(sidecars, root, d);
        let r = with_filed(m, root, x);
        lemma_with_filed_parts(m, root, d, x);
        assert forall|name: Seq<char>| #[trigger] r.artists_by_name.dom().contains(name) implies
            r.artists[slug(name)].name == name by {
            if name != x.artist {
                assert(m.artists_by_name.dom().contains(name));
                let i = choose|i: int| 0 <= i < d.len() && (#[trigger] d[i]).artist == name;
                assert(e[i].artist != e[n].artist);
                assert(slug(name) != slug(x.artist));
            } else if m.artists.dom().contains(slug(name)) {
                let i = choose|i: int|
                    0 <= i < d.len() && slug((#[trigger] d[i]).artist) == slug(name)
                        && m.artists_by_name.dom().contains(d[i].artist);
                assert(e[i].artist == e[n].artist);
                assert(m.artists_by_name.dom().contains(name));
            }
        }
        assert forall|key: (Seq<char>, Seq<char>)| #[trigger]
            r.albums_by_key.dom().contains(key) implies r.albums[album_id_of(key)].title
            == key.1 by {
            if key != x.key() {
                assert(m.albums_by_key.dom().contains(key));
                let i = choose|i: int| 0 <= i < d.len() && (#[trigger] d[i]).key() == key;
                assert(e[i].key() != e[n].key());
                assert(album_id_of(key) != album_id_of(x.key()));
            } else if m.albums.dom().contains(album_id_of(key)) {
                let i = choose|i: int|
                    0 <= i < d.len() && album_id_of((#[trigger] d[i]).key()) == album_id_of(key)
                        && m.albums_by_key.dom().contains(d[i].key());
                assert(e[i].key() == e[n].key());
                assert(m.albums_by_key.dom().contains(key));
            }
        }
    }
}

proof fn lemma_filed_stays(s: Seq<Seq<char>>, x: Seq<char>, y: Seq<char>)
    requires
        s.contains(y),
    ensures
        s.push(x).contains(y),
        ids_plus(s, x).contains(y),
{
    let i = choose|i: int| 0 <= i < s.len() && s[i] == y;
    assert(s.push(x)[i] == y);
}

proof fn lemma_every_track_is_filed(
    sidecars: Map<Seq<Seq<u8>>, Option<Seq<Seq<u8>>>>,
    root: Seq<Seq<u8>>,
    e: Seq<FiledTrack>,
    i: int,
)
    requires
        ids_differ(e),
        0 <= i < e.len(),
    ensures
        is_filed(library_of(sidecars, root, e), root, e[i]),
    decreases e.len(),
{
    let d = e.drop_last();
    let x = e.last();
    let n = d.len() as int;
    assert(e =~= d.push(x));
    assert(forall|j: int| 0 <= j < d.len() ==> #[trigger] d[j] == e[j]);
    lemma_tidy(sidecars, root, d);
    lemma_tidy(sidecars, root, e);
    lemma_well_named(sidecars, root, e);
    let m = library_of(sidecars, root, d);
    let r = library_of(sidecars, root, e);
    lemma_with_filed_parts(m, root, d, x);
    let album_id = album_id_of(x.key());
    let before = album_for(m.albums, x.key());
    if i == n {
        assert(r.albums[album_id].track_ids[before.track_ids.len() as int] == x.track.id);
        let albums = r.artists[slug(x.artist)].album_ids;
        assert(albums.contains(album_id)) by {
            if m.artists.dom().contains(slug(x.artist)) {
                let some = m.artists[slug(x.artist)].album_ids;
                if !some.contains(album_id) {
                    assert(albums[some.len() as int] == album_id);
                }
            } else {
                assert(albums[0] == album_id);
            }
        }
        assert(r.artists_by_name.dom().contains(x.artist));
        assert(r.albums_by_key.dom().contains(x.key()));
    } else {
        let y = e[i];
        lemma_every_track_is_filed(sidecars, root, d, i);
        assert(is_filed(m, root, y));
        assert(e[i].track.id != e[n].track.id);
        lemma_filed_stays(m.albums[album_id_of(y.key())].track_ids, x.track.id, y.track.id);
        lemma_filed_stays(m.artists[slug(y.artist)].album_ids, album_id, album_id_of(y.key()));
        if let Some(p) = y.place {
            if let Some(q) = x.place {
                assert(cover_id_of(p) == cover_id_of(q) ==> e[i].place == e[n].place);
            }
        }
    }
}

/// Every scanned track is in the library that is made of it: under its id, in its album, which is
/// among those of its artist, and with its cover.
pub proof fn law_every_track_is_filed(
    sidecars: Map<Seq<Seq<u8>>, Option<Seq<Seq<u8>>>>,
    root: Seq<Seq<u8>>,
    tracks: Seq<ScannedTrackModel>,
    i: int,
)
    requires
        0 <= i < tracks.len(),
        all_filed(sidecars, root, tracks) matches Ok(e) ==> ids_differ(e),
    ensures
        built(sidecars, root, tracks) matches Ok(m) ==> (filed(sidecars, root, tracks[i]) matches Ok(
            x,
        ) && is_filed(m, root, x)),
{
    lemma_built_is_filed(sidecars, root, tracks);
    if let Ok(e) = all_filed(sidecars, root, tracks) {
        lemma_filed_at(sidecars, root, tracks, i);
        lemma_every_track_is_filed(sidecars, root, e, i);
    }
}

/// Whether different tracks have different ids.
pub open spec fn track_ids_differ(e: Seq<FiledTrack>) -> bool {
    forall|i: int, j: int|
        0 <= i < j < e.len() ==> (#[trigger] e[i]).track.id != (#[trigger] e[j]).track.id
}

/// Whether the filed tracks stand under their ids, and nothing else does.
spec fn holds_exactly(tracks: Map<Seq<char>, TrackModel>, e: Seq<FiledTrack>) -> bool {
    &&& forall|i: int|
        0 <= i < e.len() ==> tracks.dom().contains((#[trigger] e[i]).track.id)
            && tracks[e[i].track.id] == e[i].track
    &&& forall|id: Seq<char>| #[trigger]
        tracks.dom().contains(id) ==> exists|i: int|
            0 <= i < e.len() && (#[trigger] e[i]).track.id == id
}

proof fn lemma_library_holds(
    sidecars: Map<Seq<Seq<u8>>, Option<Seq<Seq<u8>>>>,
    root: Seq<Seq<u8>>,
    e: Seq<FiledTrack>,
)
    requires
        track_ids_differ(e),
    ensures
        holds_exactly(library_of(sidecars, root, e).tracks, e),
    decreases e.len(),
{
    if e.len() > 0 {
        let d = e.drop_last();
        let n = e.len() - 1;
        assert(forall|i: int| 0 <= i < n ==> #[trigger] d[i] == e[i]);
        lemma_library_holds(sidecars, root, d);
        let before = library_of(sidecars, root, d).tracks;
        let after = library_of(sidecars, root, e).tracks;
        assert(after == before.insert(e[n].track.id, e[n].track));
        assert forall|i: int| 0 <= i < e.len() implies after.dom().contains(
            (#[trigger] e[i]).track.id,
        ) && after[e[i].track.id] == e[i].track by {
            if i < n {
                assert(before.dom().contains(d[i].track.id));
            }
        }
        assert forall|id: Seq<char>| #[trigger] after.dom().contains(id) implies exists|i: int|
            0 <= i < e.len() && (#[trigger] e[i]).track.id == id by {
            if id == e[n].track.id {
            } else {
                assert(before.dom().contains(id));
                let i = choose|i: int| 0 <= i < d.len() && (#[trigger] d[i]).track.id == id;
                assert(e[i].track.id == id);
            }
        }
    }
}

proof fn lemma_joined_holds(
    sidecars: Map<Seq<Seq<u8>>, Option<Seq<Seq<u8>>>>,
    root: Seq<Seq<u8>>,
    parts: Seq<Seq<ScannedTrackModel>>,
)
    requires
        all_filed(sidecars, root, concat(parts)) matches Ok(e) ==> track_ids_differ(e),
    ensures
        joined_chunks(sidecars, root, parts) matches Ok(m) ==> (all_filed(
            sidecars,
            root,
            concat(parts),
        ) matches Ok(e) && holds_exactly(m.tracks, e)),
    decreases parts.len(),
{
    if parts.len() > 0 {
        let a = concat(parts.drop_last());
        let b = parts.last();
        lemma_filed_concat(sidecars, root, a, b);
        lemma_built_is_filed(sidecars, root, b);
        if let Ok(m) = joined_chunks(sidecars, root, parts) {
            let first = joined_chunks(sidecars, root, parts.drop_last())->Ok_0;
            let y = all_filed(sidecars, root, b)->Ok_0;
            let second = library_of(sidecars, root, y);
            if let Ok(x) = all_filed(sidecars, root, a) {
                let e = x + y;
                assert(track_ids_differ(x)) by {
                    assert(forall|i: int| 0 <= i < x.len() ==> #[trigger] x[i] == e[i]);
                }
                assert(track_ids_differ(y)) by {
                    assert(forall|i: int| 0 <= i < y.len() ==> #[trigger] y[i] == e[i + x.len()]);
                }
                lemma_joined_holds(sidecars, root, parts.drop_last());
                lemma_library_holds(sidecars, root, y);
                assert forall|i: int| 0 <= i < e.len() implies m.tracks.dom().contains(
                    (#[trigger] e[i]).track.id,
                ) && m.tracks[e[i].track.id] == e[i].track by {
                    if i < x.len() {
                        assert(first.tracks.dom().contains(x[i].track.id));
                    } else {
                        assert(second.tracks.dom().contains(y[i - x.len()].track.id));
                        if first.tracks.dom().contains(e[i].track.id) {
                            let k = choose|k: int|
                                0 <= k < x.len() && (#[trigger] x[k]).track.id == e[i].track.id;
                            assert(e[k].track.id == e[i].track.id);
                        }
                    }
                }
                assert forall|id: Seq<char>| #[trigger]
                    m.tracks.dom().contains(id) implies exists|i: int|
                    0 <= i < e.len() && (#[trigger] e[i]).track.id == id by {
                    if first.tracks.dom().contains(id) {
                        let k = choose|k: int| 0 <= k < x.len() && (#[trigger] x[k]).track.id == id;
                        assert(e[k].track.id == id);
                    } else {
                        assert(second.tracks.dom().contains(id));
                        let k = choose|k: int| 0 <= k < y.len() && (#[trigger] y[k]).track.id == id;
                        assert(e[k + x.len()].track.id == id);
                    }
                }
            } else {
                lemma_joined_holds(sidecars, root, parts.drop_last());
            }
        }
    }
}

/// The tracks of the library are the scanned tracks, each under its id, whatever the size of the
/// chunks in which they are indexed and whichever names of artists, albums or covers share an id: all
/// it takes is that different tracks have different ids.
pub proof fn law_library_holds_the_scanned_tracks(
    sidecars: Map<Seq<Seq<u8>>, Option<Seq<Seq<u8>>>>,
    root: Seq<Seq<u8>>,
    tracks: Seq<ScannedTrackModel>,
    size: int,
)
    requires
        size > 0,
        all_filed(sidecars, root, tracks) matches Ok(e) ==> track_ids_differ(e),
    ensures
        joined_chunks(sidecars, root, chunks(tracks, size)) matches Ok(m) ==> {
            &&& forall|i: int|
                0 <= i < tracks.len() ==> (filed(sidecars, root, #[trigger] tracks[i]) matches Ok(x)
                    && m.tracks.dom().contains(x.track.id) && m.tracks[x.track.id] == x.track)
            &&& forall|id: Seq<char>| #[trigger]
                m.tracks.dom().contains(id) ==> exists|i: int|
                    0 <= i < tracks.len() && (filed(sidecars, root, #[trigger] tracks[i]) matches Ok(
                        x,
                    ) && x.track.id == id)
        },
{
    lemma_concat_chunks(tracks, size);
    lemma_joined_holds(sidecars, root, chunks(tracks, size));
    if let Ok(m) = joined_chunks(sidecars, root, chunks(tracks, size)) {
        let e = all_filed(sidecars, root, tracks)->Ok_0;
        assert forall|i: int| 0 <= i < tracks.len() implies (filed(
            sidecars,
            root,
            #[trigger] tracks[i],
        ) matches Ok(x) && m.tracks.dom().contains(x.track.id) && m.tracks[x.track.id]
            == x.track) by {
            lemma_filed_at(sidecars, root, tracks, i);
            assert(m.tracks.dom().contains(e[i].track.id));
        }
        assert forall|id: Seq<char>| #[trigger] m.tracks.dom().contains(id) implies exists|i: int|
            0 <= i < tracks.len() && (filed(sidecars, root, #[trigger] tracks[i]) matches Ok(x)
                && x.track.id == id) by {
            let i = choose|i: int| 0 <= i < e.len() && (#[trigger] e[i]).track.id == id;
            if tracks.len() > 0 {
                lemma_filed_at(sidecars, root, tracks, 0);
                lemma_filed_at(sidecars, root, tracks, i);
            }
        }
    }
}

proof fn lemma_filed_at(
    sidecars: Map<Seq<Seq<u8>>, Option<Seq<Seq<u8>>>>,
    root: Seq<Seq<u8>>,
    tracks: Seq<ScannedTrackModel>,
    i: int,
)
    requires
        0 <= i < tracks.len(),
        all_filed(sidecars, root, tracks) is Ok,
    ensures
        all_filed(sidecars, root, tracks)->Ok_0.len() == tracks.len(),
        filed(sidecars, root, tracks[i]) == Ok::<FiledTrack, ErrorModel>(
            all_filed(sidecars, root, tracks)->Ok_0[i],
        ),
    decreases tracks.len(),
{
    reveal_with_fuel(all_filed, 2);
    if tracks.len() > 1 {
        let j = if i < tracks.len() - 1 {
            i
        } else {
            0
        };
        lemma_filed_at(sidecars, root, tracks.drop_last(), j);
        assert(tracks.drop_last()[j] == tracks[j]);
    }
}

/// The library that a chunk of tracks makes.
pub fn build_partial(
    root: &FilePath,
    tracks: &[ScannedTrack],
    sidecar_by_dir: &OrderedMap<FilePath, Option<FilePath>>,
) -> (r: Result<LibraryBuilder, Error>)
    ensures
        outcome(r) == built(sidecar_by_dir.deep_view(), root.deep_view(), tracks.deep_view()),
        r matches Ok(builder) ==> builder.deep_view().wf(),
{
    let mut builder = LibraryBuilder::new(sidecar_by_dir.duplicate());
    let total: usize = tracks.len();
    let mut i: usize = 0;
    let ghost all = tracks.deep_view();
    assert(all.take(0) =~= seq![]);
    while i < total
        invariant
            i <= total,
            total == tracks.len(),
            all == tracks.deep_view(),
            all.len() == total,
            builder.deep_view().wf(),
            built(sidecar_by_dir.deep_view(), root.deep_view(), all.take(i as int)) == Ok::<
                LibraryBuilderModel,
                ErrorModel,
            >(builder.deep_view()),
        decreases total - i,
    {
        let ghost upto = all.take(i + 1);
        assert(upto.drop_last() =~= all.take(i as int));
        assert(upto.last() == tracks[i as int].deep_view());
        match builder.add_track(root, &tracks[i]) {
            Ok(()) => {},
            Err(error) => {
                proof {
                    lemma_first_error(
                        sidecar_by_dir.deep_view(),
                        root.deep_view(),
                        all,
                        i + 1,
                        error.deep_view(),
                    );
                }
                return Err(error);
            },
        }
        i = i + 1;
    }
    assert(all.take(total as int) =~= all);
    Ok(builder)
}

/// An error stays whatever tracks follow.
proof fn lemma_first_error(
    sidecars: Map<Seq<Seq<u8>>, Option<Seq<Seq<u8>>>>,
    root: Seq<Seq<u8>>,
    tracks: Seq<ScannedTrackModel>,
    n: int,
    error: ErrorModel,
)
    requires
        0 <= n <= tracks.len(),
        built(sidecars, root, tracks.take(n)) == Err::<LibraryBuilderModel, ErrorModel>(error),
    ensures
        built(sidecars, root, tracks) == Err::<LibraryBuilderModel, ErrorModel>(error),
    decreases tracks.len(),
{
    if n == tracks.len() {
        assert(tracks.take(n) =~= tracks);
    } else {
        assert(tracks.drop_last().take(n) =~= tracks.take(n));
        lemma_first_error(sidecars, root, tracks.drop_last(), n, error);
    }
}

/// The number of threads that `rayon::current_num_threads` gives, which depends on the machine:
/// nothing is claimed of it.
#[verifier::external_body]
fn thread_count() -> (r: usize) {
    rayon::current_num_threads()
}

/// The libraries of the chunks of `tracks`, in the order of the chunks: `par_chunks` of rayon cuts
/// the tracks into pieces of `chunk_size`, the last of which may be shorter, [`build_partial`] is
/// called on each, and `collect` keeps the order of an indexed parallel iterator. `par_chunks`
/// panics on a size of zero.
#[verifier::external_body]
fn build_partials(
    root: &FilePath,
    tracks: &Vec<ScannedTrack>,
    sidecar_by_dir: &OrderedMap<FilePath, Option<FilePath>>,
    chunk_size: usize,
) -> (r: Vec<Result<LibraryBuilder, Error>>)
    requires
        chunk_size > 0,
    ensures
        r.len() == chunks(tracks.deep_view(), chunk_size as int).len(),
        forall|i: int|
            0 <= i < r.len() ==> {
                &&& outcome(#[trigger] r[i]) == built(
                    sidecar_by_dir.deep_view(),
                    root.deep_view(),
                    chunks(tracks.deep_view(), chunk_size as int)[i],
                )
                &&& r[i] matches Ok(builder) ==> builder.deep_view().wf()
            },
{
    tracks
        .par_chunks(chunk_size)
        .map(|chunk| build_partial(root, chunk, sidecar_by_dir))
        .collect()
}

/// The library that the tracks make when they are added in chunks of `chunk_size`.
pub fn build_index_in_chunks(
    root: &FilePath,
    scanned_tracks: &Vec<ScannedTrack>,
    sidecar_by_dir: OrderedMap<FilePath, Option<FilePath>>,
    chunk_size: usize,
) -> (r: Result<LibraryBuilder, Error>)
    requires
        chunk_size > 0,
    ensures
        outcome(r) == joined_chunks(
            sidecar_by_dir.deep_view(),
            root.deep_view(),
            chunks(scanned_tracks.deep_view(), chunk_size as int),
        ),
        r matches Ok(builder) ==> builder.deep_view().wf(),
{
    let partials = build_partials(root, scanned_tracks, &sidecar_by_dir, chunk_size);
    let ghost sidecars = sidecar_by_dir.deep_view();
    let ghost at = root.deep_view();
    let ghost parts = chunks(scanned_tracks.deep_view(), chunk_size as int);
    let mut merged = LibraryBuilder::new(sidecar_by_dir);
    let ghost mut done: int = 0;
    assert(parts.take(0) =~= seq![]);
    for partial in it: partials
        invariant
            sidecars == sidecar_by_dir.deep_view(),
            at == root.deep_view(),
            parts == chunks(scanned_tracks.deep_view(), chunk_size as int),
            done == it.index(),
            it.seq().len() == parts.len(),
            forall|i: int|
                0 <= i < it.seq().len() ==> {
                    &&& outcome(#[trigger] it.seq()[i]) == built(sidecars, at, parts[i])
                    &&& it.seq()[i] matches Ok(builder) ==> builder.deep_view().wf()
                },
            merged.deep_view().wf(),
            joined_chunks(sidecars, at, parts.take(done)) == Ok::<LibraryBuilderModel, ErrorModel>(
                merged.deep_view(),
            ),
    {
        let ghost upto = parts.take(done + 1);
        assert(upto.drop_last() =~= parts.take(done));
        assert(upto.last() == parts[done]);
        match partial {
            Ok(builder) => {
                merged.merge(builder);
            },
            Err(error) => {
                proof {
                    lemma_first_chunk_error(sidecars, at, parts, done + 1, error.deep_view());
                }
                return Err(error);
            },
        }
        proof {
            done = done + 1;
        }
    }
    assert(parts.take(parts.len() as int) =~= parts);
    Ok(merged)
}

/// An error stays whatever chunks follow.
proof fn lemma_first_chunk_error(
    sidecars: Map<Seq<Seq<u8>>, Option<Seq<Seq<u8>>>>,
    root: Seq<Seq<u8>>,
    parts: Seq<Seq<ScannedTrackModel>>,
    n: int,
    error: ErrorModel,
)
    requires
        0 <= n <= parts.len(),
        joined_chunks(sidecars, root, parts.take(n)) == Err::<LibraryBuilderModel, ErrorModel>(
            error,
        ),
    ensures
        joined_chunks(sidecars, root, parts) == Err::<LibraryBuilderModel, ErrorModel>(error),
    decreases parts.len(),
{
    if n == parts.len() {
        assert(parts.take(n) =~= parts);
    } else {
        assert(parts.drop_last().take(n) =~= parts.take(n));
        lemma_first_chunk_error(sidecars, root, parts.drop_last(), n, error);
    }
}

/// How many tracks a chunk has: the share of one of the threads, but at least 256.
pub open spec fn chunk_size_for(total: int, threads: int) -> int {
    if total / threads > 256 {
        total / threads
    } else {
        256
    }
}

/// The library that the scanned tracks make. They are added in chunks, whose size depends on the
/// number of threads of the machine.
pub fn build_index_parallel(
    root: &FilePath,
    scanned_tracks: &Vec<ScannedTrack>,
    sidecar_by_dir: OrderedMap<FilePath, Option<FilePath>>,
) -> (r: Result<LibraryBuilder, Error>)
    ensures
        exists|threads: int|
            threads >= 1 && outcome(r) == joined_chunks(
                sidecar_by_dir.deep_view(),
                root.deep_view(),
                chunks(
                    scanned_tracks.deep_view(),
                    #[trigger] chunk_size_for(scanned_tracks@.len() as int, threads),
                ),
            ),
        (all_filed(
            sidecar_by_dir.deep_view(),
            root.deep_view(),
            scanned_tracks.deep_view(),
        ) matches Ok(e) ==> ids_differ(e)) ==> outcome(r) == built(
            sidecar_by_dir.deep_view(),
            root.deep_view(),
            scanned_tracks.deep_view(),
        ),
        r matches Ok(builder) ==> builder.deep_view().wf(),
{
    let counted: usize = thread_count();
    let threads: usize = if counted > 1 {
        counted
    } else {
        1
    };
    let share: usize = scanned_tracks.len() / threads;
    let chunk_size: usize = if share > 256 {
        share
    } else {
        256
    };
    proof {
        assert(chunk_size == chunk_size_for(scanned_tracks@.len() as int, threads as int));
        let e = all_filed(
            sidecar_by_dir.deep_view(),
            root.deep_view(),
            scanned_tracks.deep_view(),
        );
        if e matches Ok(e) ==> ids_differ(e) {
            law_chunks_do_not_matter(
                sidecar_by_dir.deep_view(),
                root.deep_view(),
                scanned_tracks.deep_view(),
                chunk_size as int,
            );
        }
    }
    build_index_in_chunks(root, scanned_tracks, sidecar_by_dir, chunk_size)
}

} // verus!
