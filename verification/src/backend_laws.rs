//! What the backend answers, from the library to the answer.

use vstd::prelude::*;

use crate::error::ErrorModel;
use crate::index::{CoverArtSourceModel, LibraryIndexModel};
use crate::integrity::linked;
use crate::ordered_map::{lemma_listing, lemma_map_of_entry, listing, values_of, OrderedKey};
use crate::protocol::{
    AlbumId, AlbumModel, ArtistId, ArtistModel, BackendRequestModel, BackendResponseModel,
    ResolvedIdModel, SearchQueryModel, TrackId, TrackModel,
};
use crate::server::{
    album_hits, answer, artist_hits, at_most, chosen_picture, cover_reply, embedded_reply,
    law_search_finds_what_mentions_the_term, lemma_tracks_found,
    mentions, starred_set, track_hits, tracks_named, ActionModel, EmbeddedPictureModel, StarKind,
    StarredRowModel,
};
use crate::text::{law_occurrence, lower_text, text_less};

verus! {

/// Whether the backend answers with a response.
pub open spec fn replies(
    music_dir: Seq<Seq<u8>>,
    index: LibraryIndexModel,
    request: BackendRequestModel,
    response: BackendResponseModel,
) -> bool {
    answer(music_dir, index, request) == Ok::<ActionModel, ErrorModel>(
        ActionModel::Reply(response),
    )
}

/// Whether the backend answers that there is no such thing.
pub open spec fn misses_one(
    music_dir: Seq<Seq<u8>>,
    index: LibraryIndexModel,
    request: BackendRequestModel,
    kind: Seq<char>,
    id: Seq<char>,
) -> bool {
    answer(music_dir, index, request) == Err::<ActionModel, ErrorModel>(
        ErrorModel::NotFound(kind, id),
    )
}

/// What stands in the library under an id is what a request for the id gets, and a request for an id that
/// is not there is told so.
pub proof fn law_library_is_answered_from(
    music_dir: Seq<Seq<u8>>,
    index: LibraryIndexModel,
    id: Seq<char>,
)
    ensures
        index.artists.dom().contains(id) ==> replies(
            music_dir,
            index,
            BackendRequestModel::GetArtist { artist_id: id },
            BackendResponseModel::Artist(index.artists[id]),
        ),
        !index.artists.dom().contains(id) ==> misses_one(
            music_dir,
            index,
            BackendRequestModel::GetArtist { artist_id: id },
            "artist"@,
            id,
        ),
        index.albums.dom().contains(id) ==> replies(
            music_dir,
            index,
            BackendRequestModel::GetAlbum { album_id: id },
            BackendResponseModel::Album(index.albums[id]),
        ),
        !index.albums.dom().contains(id) ==> misses_one(
            music_dir,
            index,
            BackendRequestModel::GetAlbum { album_id: id },
            "album"@,
            id,
        ),
        !index.albums.dom().contains(id) ==> misses_one(
            music_dir,
            index,
            BackendRequestModel::GetAlbumTracks { album_id: id },
            "album"@,
            id,
        ),
        index.tracks.dom().contains(id) ==> replies(
            music_dir,
            index,
            BackendRequestModel::GetTrack { track_id: id },
            BackendResponseModel::Track(index.tracks[id]),
        ),
        !index.tracks.dom().contains(id) ==> misses_one(
            music_dir,
            index,
            BackendRequestModel::GetTrack { track_id: id },
            "track"@,
            id,
        ),
        !index.tracks.dom().contains(id) ==> misses_one(
            music_dir,
            index,
            BackendRequestModel::OpenStream { track_id: id },
            "track"@,
            id,
        ),
        !index.cover_arts.dom().contains(id) ==> misses_one(
            music_dir,
            index,
            BackendRequestModel::GetCoverArt { cover_art_id: id },
            "cover art"@,
            id,
        ),
{
}

/// An id that names an album is taken for the album, else one that names an artist for the artist, else
/// one that names a track for the track; to star goes by artists first, then albums, then tracks.
pub proof fn law_ids_are_resolved(
    music_dir: Seq<Seq<u8>>,
    index: LibraryIndexModel,
    id: Seq<char>,
    starred: bool,
)
    ensures
        index.albums.dom().contains(id) ==> replies(
            music_dir,
            index,
            BackendRequestModel::ResolveId { id },
            BackendResponseModel::ResolvedId(ResolvedIdModel::Album(index.albums[id])),
        ),
        !index.albums.dom().contains(id) && index.artists.dom().contains(id) ==> replies(
            music_dir,
            index,
            BackendRequestModel::ResolveId { id },
            BackendResponseModel::ResolvedId(ResolvedIdModel::Artist(index.artists[id])),
        ),
        !index.albums.dom().contains(id) && !index.artists.dom().contains(id)
            && index.tracks.dom().contains(id) ==> replies(
            music_dir,
            index,
            BackendRequestModel::ResolveId { id },
            BackendResponseModel::ResolvedId(ResolvedIdModel::Track(index.tracks[id])),
        ),
        !index.albums.dom().contains(id) && !index.artists.dom().contains(id)
            && !index.tracks.dom().contains(id) ==> misses_one(
            music_dir,
            index,
            BackendRequestModel::ResolveId { id },
            "id"@,
            id,
        ) && misses_one(
            music_dir,
            index,
            BackendRequestModel::SetStarred { id, starred },
            "id"@,
            id,
        ),
        index.artists.dom().contains(id) ==> answer(
            music_dir,
            index,
            BackendRequestModel::SetStarred { id, starred: true },
        ) == Ok::<ActionModel, ErrorModel>(ActionModel::Star { id, kind: StarKind::Artist }),
        !index.artists.dom().contains(id) && index.albums.dom().contains(id) ==> answer(
            music_dir,
            index,
            BackendRequestModel::SetStarred { id, starred: true },
        ) == Ok::<ActionModel, ErrorModel>(ActionModel::Star { id, kind: StarKind::Album }),
        !index.artists.dom().contains(id) && !index.albums.dom().contains(id)
            && index.tracks.dom().contains(id) ==> answer(
            music_dir,
            index,
            BackendRequestModel::SetStarred { id, starred: true },
        ) == Ok::<ActionModel, ErrorModel>(ActionModel::Star { id, kind: StarKind::Track }),
        index.artists.dom().contains(id) || index.albums.dom().contains(id)
            || index.tracks.dom().contains(id) ==> answer(
            music_dir,
            index,
            BackendRequestModel::SetStarred { id, starred: false },
        ) == Ok::<ActionModel, ErrorModel>(ActionModel::Unstar { id }),
{
}

/// A summary counts what the library holds.
pub proof fn law_summary_counts(music_dir: Seq<Seq<u8>>, index: LibraryIndexModel)
    requires
        index.artists.len() <= usize::MAX,
        index.albums.len() <= usize::MAX,
        index.tracks.len() <= usize::MAX,
    ensures
        answer(music_dir, index, BackendRequestModel::GetLibrarySummary) matches Ok(
            ActionModel::Reply(
                BackendResponseModel::LibrarySummary { artist_count, album_count, track_count },
            ),
        ) && artist_count == index.artists.len() && album_count == index.albums.len() && track_count
            == index.tracks.len(),
{
}

/// The tracks of an album are answered in the order in which the album names them, each as it stands in
/// the library.
pub proof fn law_album_tracks_in_order(
    music_dir: Seq<Seq<u8>>,
    index: LibraryIndexModel,
    album_id: Seq<char>,
)
    requires
        linked(index),
        index.albums.dom().contains(album_id),
    ensures
        answer(music_dir, index, BackendRequestModel::GetAlbumTracks { album_id }) matches Ok(
            ActionModel::Reply(BackendResponseModel::Tracks(tracks)),
        ) && tracks.len() == index.albums[album_id].track_ids.len() && forall|i: int|
            0 <= i < tracks.len() ==> #[trigger] tracks[i]
                == index.tracks[index.albums[album_id].track_ids[i]],
{
    let ids = index.albums[album_id].track_ids;
    assert forall|i: int| 0 <= i < ids.len()
        implies index.tracks.dom().contains(#[trigger] ids[i]) by {
        assert(ids.contains(ids[i]));
    }
    lemma_tracks_found(index.tracks, ids);
}

/// The values of a map are listed each under a key of its own, in the order of the keys.
pub proof fn law_values_are_listed<K: OrderedKey, B>(m: Map<K::V, B>) -> (keys: Seq<K::V>)
    requires
        m.dom().finite(),
    ensures
        keys.len() == values_of::<K, B>(m).len(),
        forall|i: int|
            0 <= i < keys.len() ==> m.dom().contains(#[trigger] keys[i]) && m[keys[i]]
                == values_of::<K, B>(m)[i],
        forall|i: int, j: int|
            0 <= i < j < keys.len() ==> K::less(#[trigger] keys[i], #[trigger] keys[j]),
        forall|k: K::V| m.dom().contains(k) ==> #[trigger] keys.contains(k),
{
    lemma_listing::<K, B>(m);
    let entries = listing::<K, B>(m);
    let keys = Seq::new(entries.len(), |i: int| entries[i].0);
    assert forall|i: int| 0 <= i < keys.len() implies m.dom().contains(#[trigger] keys[i])
        && m[keys[i]] == values_of::<K, B>(m)[i] by {
        lemma_map_of_entry::<K, B>(entries, i);
    }
    assert forall|k: K::V| m.dom().contains(k) implies #[trigger] keys.contains(k) by {
        let i = choose|i: int| 0 <= i < entries.len() && (#[trigger] entries[i]).0 == k;
        assert(keys[i] == k);
    }
    keys
}

proof fn lemma_value_is_listed<K: OrderedKey, B>(m: Map<K::V, B>, k: K::V)
    requires
        m.dom().finite(),
        m.dom().contains(k),
    ensures
        values_of::<K, B>(m).contains(m[k]),
{
    let keys = law_values_are_listed::<K, B>(m);
    assert(keys.contains(k));
    let i = choose|i: int| 0 <= i < keys.len() && keys[i] == k;
    assert(values_of::<K, B>(m)[i] == m[k]);
}

proof fn lemma_listed_is_value<K: OrderedKey, B>(m: Map<K::V, B>, value: B)
    requires
        m.dom().finite(),
        values_of::<K, B>(m).contains(value),
    ensures
        exists|k: K::V| #[trigger] m.dom().contains(k) && m[k] == value,
{
    let keys = law_values_are_listed::<K, B>(m);
    let i = choose|i: int| 0 <= i < values_of::<K, B>(m).len() && values_of::<K, B>(m)[i] == value;
    assert(m.dom().contains(keys[i]));
}

/// Every artist of the library is listed, once, in the order of the ids.
pub proof fn law_artists_are_listed(music_dir: Seq<Seq<u8>>, index: LibraryIndexModel)
    requires
        linked(index),
        index.artists.dom().finite(),
    ensures
        answer(music_dir, index, BackendRequestModel::ListArtists) matches Ok(
            ActionModel::Reply(BackendResponseModel::Artists(artists)),
        ) && {
            &&& forall|i: int|
                0 <= i < artists.len() ==> index.artists.dom().contains(
                    (#[trigger] artists[i]).id,
                ) && index.artists[artists[i].id] == artists[i]
            &&& forall|i: int, j: int|
                0 <= i < j < artists.len() ==> text_less(
                    (#[trigger] artists[i]).id,
                    (#[trigger] artists[j]).id,
                )
            &&& forall|id: Seq<char>| #[trigger]
                index.artists.dom().contains(id) ==> artists.contains(index.artists[id])
        },
{
    let artists = values_of::<ArtistId, ArtistModel>(index.artists);
    let keys = law_values_are_listed::<ArtistId, ArtistModel>(index.artists);
    assert forall|i: int| 0 <= i < artists.len() implies index.artists.dom().contains(
        (#[trigger] artists[i]).id,
    ) && index.artists[artists[i].id] == artists[i] by {
        assert(index.artists.dom().contains(keys[i]));
        assert(artists[i].id == keys[i]);
    }
    assert forall|i: int, j: int| 0 <= i < j < artists.len() implies text_less(
        (#[trigger] artists[i]).id,
        (#[trigger] artists[j]).id,
    ) by {
        assert(index.artists.dom().contains(keys[i]) && index.artists.dom().contains(keys[j]));
        assert(artists[i].id == keys[i] && artists[j].id == keys[j]);
        assert(ArtistId::less(keys[i], keys[j]));
    }
    assert forall|id: Seq<char>| #[trigger] index.artists.dom().contains(id)
        implies artists.contains(
        index.artists[id],
    ) by {
        lemma_value_is_listed::<ArtistId, ArtistModel>(index.artists, id);
    }
}

/// Whether a text holds a term between something and something, whatever the case of letters.
pub open spec fn holds_term(text: Seq<char>, term: Seq<char>) -> bool {
    exists|a: Seq<char>, b: Seq<char>| lower_text(text) == #[trigger] (a + lower_text(term) + b)
}

/// What a search finds holds the term, and there is no more of it than asked for: an artist by the name,
/// an album by the title or the artist, a track by the title, the artist or the album.
pub proof fn law_hits_hold_the_term(
    music_dir: Seq<Seq<u8>>,
    index: LibraryIndexModel,
    query: SearchQueryModel,
)
    requires
        query.limit > 0,
        index.artists.dom().finite(),
        index.albums.dom().finite(),
        index.tracks.dom().finite(),
    ensures
        answer(music_dir, index, BackendRequestModel::Search { query }) matches Ok(
            ActionModel::Reply(BackendResponseModel::SearchResults { artists, albums, tracks }),
        ) && {
            &&& artists.len() <= query.limit && albums.len() <= query.limit && tracks.len()
                <= query.limit
            &&& forall|i: int|
                0 <= i < artists.len() ==> holds_term((#[trigger] artists[i]).name, query.term)
                    && exists|id: Seq<char>| #[trigger]
                    index.artists.dom().contains(id) && index.artists[id] == artists[i]
            &&& forall|i: int|
                0 <= i < albums.len() ==> (holds_term((#[trigger] albums[i]).title, query.term)
                    || holds_term(albums[i].artist, query.term)) && exists|id: Seq<char>| #[trigger]
                    index.albums.dom().contains(id) && index.albums[id] == albums[i]
            &&& forall|i: int|
                0 <= i < tracks.len() ==> (holds_term((#[trigger] tracks[i]).title, query.term)
                    || holds_term(tracks[i].artist, query.term) || holds_term(
                    tracks[i].album,
                    query.term,
                )) && exists|id: Seq<char>| #[trigger]
                    index.tracks.dom().contains(id) && index.tracks[id] == tracks[i]
        },
{
    law_search_finds_what_mentions_the_term(index, query);
    let artists = crate::server::artist_hits(index, query);
    let albums = crate::server::album_hits(index, query);
    let tracks = crate::server::track_hits(index, query);
    let term = lower_text(query.term);
    assert forall|i: int| 0 <= i < artists.len() implies holds_term(
        (#[trigger] artists[i]).name,
        query.term,
    ) && exists|id: Seq<char>| #[trigger]
        index.artists.dom().contains(id) && index.artists[id] == artists[i] by {
        law_occurrence(lower_text(artists[i].name), term);
        lemma_listed_is_value::<ArtistId, ArtistModel>(index.artists, artists[i]);
    }
    assert forall|i: int| 0 <= i < albums.len() implies (holds_term(
        (#[trigger] albums[i]).title,
        query.term,
    ) || holds_term(albums[i].artist, query.term)) && exists|id: Seq<char>| #[trigger]
        index.albums.dom().contains(id) && index.albums[id] == albums[i] by {
        law_occurrence(lower_text(albums[i].title), term);
        law_occurrence(lower_text(albums[i].artist), term);
        lemma_listed_is_value::<AlbumId, AlbumModel>(index.albums, albums[i]);
    }
    assert forall|i: int| 0 <= i < tracks.len() implies (holds_term(
        (#[trigger] tracks[i]).title,
        query.term,
    ) || holds_term(tracks[i].artist, query.term) || holds_term(tracks[i].album, query.term))
        && exists|id: Seq<char>| #[trigger]
        index.tracks.dom().contains(id) && index.tracks[id] == tracks[i] by {
        law_occurrence(lower_text(tracks[i].title), term);
        law_occurrence(lower_text(tracks[i].artist), term);
        law_occurrence(lower_text(tracks[i].album), term);
        lemma_listed_is_value::<TrackId, TrackModel>(index.tracks, tracks[i]);
    }
}

/// A search finds the term wherever it stands: `a`, the term and `b` are found by the term, whatever `a`
/// and `b` are and whatever the case of letters, unless enough else was found.
pub proof fn law_term_is_found_wherever_it_stands(
    music_dir: Seq<Seq<u8>>,
    index: LibraryIndexModel,
    query: SearchQueryModel,
    id: Seq<char>,
    a: Seq<char>,
    b: Seq<char>,
)
    requires
        query.limit > 0,
        index.artists.dom().finite(),
        index.albums.dom().finite(),
        index.tracks.dom().finite(),
    ensures
        answer(music_dir, index, BackendRequestModel::Search { query }) matches Ok(
            ActionModel::Reply(BackendResponseModel::SearchResults { artists, albums, tracks }),
        ) && {
            let found = a + lower_text(query.term) + b;
            &&& artists.len() < query.limit && index.artists.dom().contains(id) && lower_text(
                index.artists[id].name,
            ) == found ==> artists.contains(index.artists[id])
            &&& albums.len() < query.limit && index.albums.dom().contains(id) && (lower_text(
                index.albums[id].title,
            ) == found || lower_text(index.albums[id].artist) == found) ==> albums.contains(
                index.albums[id],
            )
            &&& tracks.len() < query.limit && index.tracks.dom().contains(id) && (lower_text(
                index.tracks[id].title,
            ) == found || lower_text(index.tracks[id].artist) == found || lower_text(
                index.tracks[id].album,
            ) == found) ==> tracks.contains(index.tracks[id])
        },
{
    law_search_finds_what_mentions_the_term(index, query);
    let found = a + lower_text(query.term) + b;
    law_occurrence(found, lower_text(query.term));
    if index.artists.dom().contains(id) {
        lemma_value_is_listed::<ArtistId, ArtistModel>(index.artists, id);
        let all = values_of::<ArtistId, ArtistModel>(index.artists);
        let k = choose|k: int| 0 <= k < all.len() && all[k] == index.artists[id];
        assert(all[k] == index.artists[id]);
    }
    if index.albums.dom().contains(id) {
        lemma_value_is_listed::<AlbumId, AlbumModel>(index.albums, id);
        let all = values_of::<AlbumId, AlbumModel>(index.albums);
        let k = choose|k: int| 0 <= k < all.len() && all[k] == index.albums[id];
        assert(all[k] == index.albums[id]);
    }
    if index.tracks.dom().contains(id) {
        lemma_value_is_listed::<TrackId, TrackModel>(index.tracks, id);
        let all = values_of::<TrackId, TrackModel>(index.tracks);
        let k = choose|k: int| 0 <= k < all.len() && all[k] == index.tracks[id];
        assert(all[k] == index.tracks[id]);
    }
}

/// A search for no hits at all is refused.
pub proof fn law_search_without_hits_is_refused(
    music_dir: Seq<Seq<u8>>,
    index: LibraryIndexModel,
    term: Seq<char>,
)
    ensures
        answer(
            music_dir,
            index,
            BackendRequestModel::Search { query: SearchQueryModel { term, limit: 0 } },
        ) == Err::<ActionModel, ErrorModel>(
            ErrorModel::InvalidRequest("search limit must be greater than zero"@),
        ),
{
}

/// The file of a track and that of an image are looked for below the music directory, at the place at
/// which the scan found them.
pub proof fn law_files_are_read_below_the_music_directory(
    music_dir: Seq<Seq<u8>>,
    index: LibraryIndexModel,
    id: Seq<char>,
    place: Seq<Seq<u8>>,
    content_type: Seq<char>,
)
    requires
        place.len() > 0 ==> place[0] != seq![47u8],
    ensures
        index.tracks.dom().contains(id) && index.tracks[id].relative_path == place ==> (answer(
            music_dir,
            index,
            BackendRequestModel::OpenStream { track_id: id },
        ) matches Ok(ActionModel::Reply(BackendResponseModel::Stream(stream))) && stream.path
            == music_dir + place && stream.track_id == index.tracks[id].id && stream.file_size
            == index.tracks[id].file_size && stream.content_type == index.tracks[id].content_type),
        index.cover_arts.dom().contains(id) && index.cover_arts[id] == (
        CoverArtSourceModel::Sidecar { relative_path: place, content_type }) ==> answer(
            music_dir,
            index,
            BackendRequestModel::GetCoverArt { cover_art_id: id },
        ) == Ok::<ActionModel, ErrorModel>(
            ActionModel::ReadCover { cover_art_id: id, content_type, path: music_dir + place },
        ),
        forall|track_id: Seq<char>|
            index.cover_arts.dom().contains(id) && index.cover_arts[id] == (
            CoverArtSourceModel::Embedded { track_id }) && #[trigger] index.tracks.dom().contains(
                track_id,
            ) && index.tracks[track_id].relative_path == place ==> answer(
                music_dir,
                index,
                BackendRequestModel::GetCoverArt { cover_art_id: id },
            ) == Ok::<ActionModel, ErrorModel>(
                ActionModel::ReadEmbeddedCover {
                    cover_art_id: id,
                    track_id,
                    path: music_dir + place,
                },
            ),
{
}

/// An image on the net is fetched from its address.
pub proof fn law_outside_images_are_fetched(
    music_dir: Seq<Seq<u8>>,
    index: LibraryIndexModel,
    id: Seq<char>,
    url: Seq<char>,
)
    requires
        index.cover_arts.dom().contains(id),
        index.cover_arts[id] == (CoverArtSourceModel::External { url }),
    ensures
        answer(music_dir, index, BackendRequestModel::GetCoverArt { cover_art_id: id }) == Ok::<
            ActionModel,
            ErrorModel,
        >(ActionModel::FetchCover { cover_art_id: id, url }),
{
}

/// Of the pictures of a track the first that is a front cover is its cover, and where none is, the first
/// picture; the answer holds its bytes under the content type that it has, or that of any bytes.
pub proof fn law_front_cover_is_chosen(
    cover_art_id: Seq<char>,
    track_id: Seq<char>,
    pictures: Seq<EmbeddedPictureModel>,
    i: int,
)
    requires
        0 <= i < pictures.len(),
        forall|j: int| 0 <= j < i ==> !(#[trigger] pictures[j]).is_front_cover,
        pictures[i].is_front_cover || (i == 0 && forall|j: int|
            0 <= j < pictures.len() ==> !(#[trigger] pictures[j]).is_front_cover),
    ensures
        embedded_reply(cover_art_id, track_id, Some(pictures)) matches Ok(
            BackendResponseModel::CoverArt(cover),
        ) && cover.cover_art_id == cover_art_id && cover.bytes == pictures[i].bytes && (
        match pictures[i].content_type {
            Some(content_type) => cover.content_type == content_type,
            None => cover.content_type == "application/octet-stream"@,
        }),
{
    let front = |picture: EmbeddedPictureModel| picture.is_front_cover;
    let before = pictures.take(i);
    assert(pictures =~= before + pictures.skip(i));
    Seq::filter_distributes_over_add(before, pictures.skip(i), front);
    assert forall|j: int| 0 <= j < before.len() implies !front(#[trigger] before[j]) by {
        assert(before[j] == pictures[j]);
    }
    before.lemma_all_neg_filter_empty(front);
    if pictures[i].is_front_cover {
        let rest = pictures.skip(i);
        assert(rest =~= seq![pictures[i]] + pictures.skip(i + 1));
        Seq::filter_distributes_over_add(seq![pictures[i]], pictures.skip(i + 1), front);
        let none: Seq<EmbeddedPictureModel> = seq![];
        none.lemma_filter_push(pictures[i], front);
        none.lemma_all_neg_filter_empty(front);
        assert(none.push(pictures[i]) =~= seq![pictures[i]]);
        assert(pictures.filter(front)[0] == pictures[i]);
        assert(chosen_picture(pictures) == Some(pictures[i]));
    } else {
        pictures.lemma_all_neg_filter_empty(front);
        assert(chosen_picture(pictures) == Some(pictures[0]));
    }
}

/// A track without pictures, or without tags, has no embedded cover.
pub proof fn law_missing_picture_is_told(
    cover_art_id: Seq<char>,
    track_id: Seq<char>,
    pictures: Option<Seq<EmbeddedPictureModel>>,
)
    requires
        pictures matches Some(row) ==> row.len() == 0,
    ensures
        embedded_reply(cover_art_id, track_id, pictures) == Err::<BackendResponseModel, ErrorModel>(
            ErrorModel::InvalidRequest("embedded cover art missing for track "@ + track_id),
        ),
{
    if let Some(row) = pictures {
        row.lemma_all_neg_filter_empty(|picture: EmbeddedPictureModel| picture.is_front_cover);
    }
}

/// What is starred is listed in the order of the rows, each item of the library in the list of its kind;
/// a row that names nothing in the library is passed over.
pub proof fn law_starred_rows_are_followed(
    index: LibraryIndexModel,
    rows: Seq<StarredRowModel>,
    row: StarredRowModel,
)
    ensures
        ({
            let before = starred_set(index, rows);
            let after = starred_set(index, rows.push(row));
            &&& row.kind == "artist"@ && index.artists.dom().contains(row.id) ==> after.artists
                == before.artists.push(index.artists[row.id])
            &&& row.kind != "artist"@ || !index.artists.dom().contains(row.id) ==> after.artists
                == before.artists
            &&& row.kind == "album"@ && index.albums.dom().contains(row.id) ==> after.albums
                == before.albums.push(index.albums[row.id])
            &&& row.kind != "album"@ || !index.albums.dom().contains(row.id) ==> after.albums
                == before.albums
            &&& row.kind == "track"@ && index.tracks.dom().contains(row.id) ==> after.tracks
                == before.tracks.push(index.tracks[row.id])
            &&& row.kind != "track"@ || !index.tracks.dom().contains(row.id) ==> after.tracks
                == before.tracks
        }),
        ({
            let none = starred_set(index, Seq::<StarredRowModel>::empty());
            none.artists.len() == 0 && none.albums.len() == 0 && none.tracks.len() == 0
        }),
{
    assert(rows.push(row).drop_last() =~= rows);
}

proof fn lemma_filter_in_order<A>(
    all: Seq<A>,
    wanted: spec_fn(A) -> bool,
    earlier: spec_fn(A, A) -> bool,
)
    requires
        forall|i: int, j: int|
            0 <= i < j < all.len() ==> earlier(#[trigger] all[i], #[trigger] all[j]),
    ensures
        forall|i: int, j: int|
            0 <= i < j < all.filter(wanted).len() ==> earlier(
                #[trigger] all.filter(wanted)[i],
                #[trigger] all.filter(wanted)[j],
            ),
    decreases all.len(),
{
    reveal(Seq::filter);
    if all.len() > 0 {
        let front = all.drop_last();
        assert forall|i: int, j: int| 0 <= i < j < front.len() implies earlier(
            #[trigger] front[i],
            #[trigger] front[j],
        ) by {
            assert(front[i] == all[i] && front[j] == all[j]);
        }
        lemma_filter_in_order(front, wanted, earlier);
        let kept = front.filter(wanted);
        assert forall|i: int, j: int| 0 <= i < j < all.filter(wanted).len() implies earlier(
            #[trigger] all.filter(wanted)[i],
            #[trigger] all.filter(wanted)[j],
        ) by {
            assert(all.filter(wanted)[i] == kept[i]);
            if j < kept.len() {
                assert(all.filter(wanted)[j] == kept[j]);
            } else {
                assert(kept.contains(kept[i]));
                front.lemma_filter_contains_rev(wanted, kept[i]);
                let k = choose|k: int| 0 <= k < front.len() && front[k] == kept[i];
                assert(all[k] == kept[i]);
                assert(all.filter(wanted)[j] == all[all.len() - 1]);
            }
        }
    }
}

proof fn lemma_hits_in_order<A>(
    all: Seq<A>,
    wanted: spec_fn(A) -> bool,
    earlier: spec_fn(A, A) -> bool,
    limit: int,
)
    requires
        limit >= 0,
        forall|i: int, j: int|
            0 <= i < j < all.len() ==> earlier(#[trigger] all[i], #[trigger] all[j]),
    ensures
        ({
            let hits = at_most(all.filter(wanted), limit);
            &&& forall|i: int, j: int|
                0 <= i < j < hits.len() ==> earlier(#[trigger] hits[i], #[trigger] hits[j])
            &&& forall|k: int|
                0 <= k < all.len() && wanted(#[trigger] all[k]) ==> hits.contains(all[k]) || (
                hits.len() == limit && forall|i: int|
                    0 <= i < hits.len() ==> earlier(#[trigger] hits[i], all[k]))
        }),
{
    let found = all.filter(wanted);
    let hits = at_most(found, limit);
    lemma_filter_in_order(all, wanted, earlier);
    assert forall|i: int, j: int| 0 <= i < j < hits.len() implies earlier(
        #[trigger] hits[i],
        #[trigger] hits[j],
    ) by {
        assert(hits[i] == found[i] && hits[j] == found[j]);
    }
    assert forall|k: int| 0 <= k < all.len() && wanted(#[trigger] all[k]) implies hits.contains(
        all[k],
    ) || (hits.len() == limit && forall|i: int|
        0 <= i < hits.len() ==> earlier(#[trigger] hits[i], all[k])) by {
        all.lemma_filter_contains(wanted, k);
        let p = choose|p: int| 0 <= p < found.len() && found[p] == all[k];
        if p < hits.len() {
            assert(hits[p] == all[k]);
        } else {
            assert forall|i: int| 0 <= i < hits.len() implies earlier(#[trigger] hits[i], all[k]) by {
                assert(hits[i] == found[i] && found[p] == all[k]);
            }
        }
    }
}

/// The hits of a search come in the order of their ids, each once; what holds the term is among them, or
/// there are as many as asked for and all of them come before it.
#[verifier::rlimit(40)]
#[verifier::spinoff_prover]
pub proof fn law_search_hits_come_in_order(
    music_dir: Seq<Seq<u8>>,
    index: LibraryIndexModel,
    query: SearchQueryModel,
    id: Seq<char>,
    a: Seq<char>,
    b: Seq<char>,
)
    requires
        linked(index),
        query.limit > 0,
        index.artists.dom().finite(),
        index.albums.dom().finite(),
        index.tracks.dom().finite(),
    ensures
        answer(music_dir, index, BackendRequestModel::Search { query }) matches Ok(
            ActionModel::Reply(BackendResponseModel::SearchResults { artists, albums, tracks }),
        ) && {
            let found = a + lower_text(query.term) + b;
            &&& forall|i: int, j: int|
                0 <= i < j < artists.len() ==> text_less(
                    (#[trigger] artists[i]).id,
                    (#[trigger] artists[j]).id,
                )
            &&& index.artists.dom().contains(id) && lower_text(index.artists[id].name) == found
                ==> artists.contains(index.artists[id]) || (artists.len() == query.limit && forall|i: int|
                0 <= i < artists.len() ==> text_less((#[trigger] artists[i]).id, id))
            &&& forall|i: int, j: int|
                0 <= i < j < albums.len() ==> text_less(
                    (#[trigger] albums[i]).id,
                    (#[trigger] albums[j]).id,
                )
            &&& index.albums.dom().contains(id) && (lower_text(index.albums[id].title) == found
                || lower_text(index.albums[id].artist) == found)
                ==> albums.contains(index.albums[id]) || (albums.len() == query.limit && forall|i: int|
                0 <= i < albums.len() ==> text_less((#[trigger] albums[i]).id, id))
            &&& forall|i: int, j: int|
                0 <= i < j < tracks.len() ==> text_less(
                    (#[trigger] tracks[i]).id,
                    (#[trigger] tracks[j]).id,
                )
            &&& index.tracks.dom().contains(id) && (lower_text(index.tracks[id].title) == found
                || lower_text(index.tracks[id].artist) == found
                || lower_text(index.tracks[id].album) == found)
                ==> tracks.contains(index.tracks[id]) || (tracks.len() == query.limit && forall|i: int|
                0 <= i < tracks.len() ==> text_less((#[trigger] tracks[i]).id, id))
        },
{
    let found = a + lower_text(query.term) + b;
    law_occurrence(found, lower_text(query.term));
    let all_artists = values_of::<ArtistId, ArtistModel>(index.artists);
    let keys_artists = law_values_are_listed::<ArtistId, ArtistModel>(index.artists);
    let earlier_artists = |a: ArtistModel, b: ArtistModel| text_less(a.id, b.id);
    let wanted_artists = |item: ArtistModel| mentions(item.name, query.term);
    assert forall|i: int, j: int| 0 <= i < j < all_artists.len() implies earlier_artists(
        #[trigger] all_artists[i],
        #[trigger] all_artists[j],
    ) by {
        assert(
            index.artists.dom().contains(keys_artists[i])
                && index.artists.dom().contains(keys_artists[j])
        );
        assert(ArtistId::less(keys_artists[i], keys_artists[j]));
    }
    lemma_hits_in_order(all_artists, wanted_artists, earlier_artists, query.limit as int);
    if index.artists.dom().contains(id) {
        lemma_value_is_listed::<ArtistId, ArtistModel>(index.artists, id);
        let k = choose|k: int| 0 <= k < all_artists.len() && all_artists[k] == index.artists[id];
        assert(all_artists[k] == index.artists[id]);
    }
    let all_albums = values_of::<AlbumId, AlbumModel>(index.albums);
    let keys_albums = law_values_are_listed::<AlbumId, AlbumModel>(index.albums);
    let earlier_albums = |a: AlbumModel, b: AlbumModel| text_less(a.id, b.id);
    let wanted_albums = |item: AlbumModel|
        mentions(item.title, query.term) || mentions(item.artist, query.term);
    assert forall|i: int, j: int| 0 <= i < j < all_albums.len() implies earlier_albums(
        #[trigger] all_albums[i],
        #[trigger] all_albums[j],
    ) by {
        assert(
            index.albums.dom().contains(keys_albums[i])
                && index.albums.dom().contains(keys_albums[j])
        );
        assert(AlbumId::less(keys_albums[i], keys_albums[j]));
    }
    lemma_hits_in_order(all_albums, wanted_albums, earlier_albums, query.limit as int);
    if index.albums.dom().contains(id) {
        lemma_value_is_listed::<AlbumId, AlbumModel>(index.albums, id);
        let k = choose|k: int| 0 <= k < all_albums.len() && all_albums[k] == index.albums[id];
        assert(all_albums[k] == index.albums[id]);
    }
    let all_tracks = values_of::<TrackId, TrackModel>(index.tracks);
    let keys_tracks = law_values_are_listed::<TrackId, TrackModel>(index.tracks);
    let earlier_tracks = |a: TrackModel, b: TrackModel| text_less(a.id, b.id);
    let wanted_tracks = |item: TrackModel| mentions(item.title, query.term) || mentions(
        item.artist,
        query.term,
    ) || mentions(
        item.album,
        query.term,
    );
    assert forall|i: int, j: int| 0 <= i < j < all_tracks.len() implies earlier_tracks(
        #[trigger] all_tracks[i],
        #[trigger] all_tracks[j],
    ) by {
        assert(
            index.tracks.dom().contains(keys_tracks[i])
                && index.tracks.dom().contains(keys_tracks[j])
        );
        assert(TrackId::less(keys_tracks[i], keys_tracks[j]));
    }
    lemma_hits_in_order(all_tracks, wanted_tracks, earlier_tracks, query.limit as int);
    if index.tracks.dom().contains(id) {
        lemma_value_is_listed::<TrackId, TrackModel>(index.tracks, id);
        let k = choose|k: int| 0 <= k < all_tracks.len() && all_tracks[k] == index.tracks[id];
        assert(all_tracks[k] == index.tracks[id]);
    }
    assert(
        artist_hits(index, query) == at_most(all_artists.filter(wanted_artists), query.limit as int)
    );
    assert(
        album_hits(index, query) == at_most(all_albums.filter(wanted_albums), query.limit as int)
    );
    assert(
        track_hits(index, query) == at_most(all_tracks.filter(wanted_tracks), query.limit as int)
    );
}

/// A cover that stands in the tags of a track is read from the file of the track, below the music
/// directory.
pub proof fn law_embedded_cover_is_read_from_its_track(
    music_dir: Seq<Seq<u8>>,
    index: LibraryIndexModel,
    id: Seq<char>,
    track_id: Seq<char>,
    place: Seq<Seq<u8>>,
)
    requires
        index.cover_arts.dom().contains(id),
        index.cover_arts[id] == (CoverArtSourceModel::Embedded { track_id }),
        place.len() > 0 ==> place[0] != seq![47u8],
    ensures
        index.tracks.dom().contains(track_id) && index.tracks[track_id].relative_path == place
            ==> answer(music_dir, index, BackendRequestModel::GetCoverArt { cover_art_id: id })
                == Ok::<
            ActionModel,
            ErrorModel,
        >(
            ActionModel::ReadEmbeddedCover {
                cover_art_id: id,
                track_id,
                path: music_dir + place,
            },
        ),
        !index.tracks.dom().contains(track_id) ==> answer(
            music_dir,
            index,
            BackendRequestModel::GetCoverArt { cover_art_id: id },
        ) == Err::<ActionModel, ErrorModel>(ErrorModel::NotFound("track"@, track_id)),
{
}

/// The answer for a cover that was read is what was read, under its id and its content type.
pub proof fn law_cover_is_answered_as_it_is(id: Seq<char>, content_type: Seq<char>, bytes: Seq<u8>)
    ensures
        cover_reply(id, content_type, bytes) matches BackendResponseModel::CoverArt(cover)
            && cover.cover_art_id == id && cover.content_type == content_type
                && cover.bytes == bytes,
{
}

/// What is starred is asked for where it is kept, whatever the library holds.
pub proof fn law_starred_items_are_looked_up(music_dir: Seq<Seq<u8>>, index: LibraryIndexModel)
    ensures
        answer(music_dir, index, BackendRequestModel::GetStarred) == Ok::<ActionModel, ErrorModel>(
            ActionModel::ListStarred,
        ),
{
}

/// Where an album names a track that is not in the library, the first such track is told, and where the
/// album is not there, the album.
pub proof fn law_missing_track_is_told(
    music_dir: Seq<Seq<u8>>,
    index: LibraryIndexModel,
    album_id: Seq<char>,
    i: int,
)
    requires
        index.albums.dom().contains(album_id),
        0 <= i < index.albums[album_id].track_ids.len(),
        !index.tracks.dom().contains(index.albums[album_id].track_ids[i]),
        forall|j: int|
            0 <= j < i ==> index.tracks.dom().contains(
                #[trigger] index.albums[album_id].track_ids[j],
            ),
    ensures
        misses_one(
            music_dir,
            index,
            BackendRequestModel::GetAlbumTracks { album_id },
            "track"@,
            index.albums[album_id].track_ids[i],
        ),
{
    lemma_missing_track(index.tracks, index.albums[album_id].track_ids, i);
}

proof fn lemma_missing_track(tracks: Map<Seq<char>, TrackModel>, ids: Seq<Seq<char>>, i: int)
    requires
        0 <= i < ids.len(),
        !tracks.dom().contains(ids[i]),
        forall|j: int| 0 <= j < i ==> tracks.dom().contains(#[trigger] ids[j]),
    ensures
        tracks_named(tracks, ids) == Err::<Seq<TrackModel>, Seq<char>>(ids[i]),
    decreases ids.len(),
{
    let front = ids.drop_last();
    if i < front.len() {
        assert forall|j: int| 0 <= j < i implies tracks.dom().contains(#[trigger] front[j]) by {
            assert(front[j] == ids[j]);
        }
        lemma_missing_track(tracks, front, i);
    } else {
        assert forall|j: int| 0 <= j < front.len() implies tracks.dom().contains(
            #[trigger] front[j],
        ) by {
            assert(front[j] == ids[j]);
        }
        lemma_tracks_found(tracks, front);
    }
}

} // verus!
