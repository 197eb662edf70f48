//! What Last.fm adds to the library.

use vstd::prelude::*;

use crate::duplicate::Duplicate;
use crate::index::{CoverArtSource, CoverArtSourceModel, LibraryIndex, LibraryIndexModel};
use crate::integrity::{albums_linked, artists_linked, cover_known, linked, tracks_linked};
use crate::ordered_map::{
    ascending, lemma_listing, lemma_map_of_drop_last,
    lemma_map_of_entry, listing, map_of, OrderedKey, OrderedMap,
};
use crate::protocol::{
    Album, AlbumId, AlbumMetadata, AlbumMetadataModel, AlbumModel, CoverArtId,
};
use crate::server::found;
use crate::text::{decimal, law_number_is_read, parse_number, parsed_number, push_text};

verus! {

/// The article on an album.
#[derive(Debug)]
pub struct LastfmWiki {
    pub published: Option<String>,
    pub summary: Option<String>,
}

/// The mathematical value of a [`LastfmWiki`].
pub struct LastfmWikiModel {
    pub published: Option<Seq<char>>,
    pub summary: Option<Seq<char>>,
}

impl DeepView for LastfmWiki {
    type V = LastfmWikiModel;

    open spec fn deep_view(&self) -> LastfmWikiModel {
        LastfmWikiModel {
            published: self.published.deep_view(),
            summary: self.summary.deep_view(),
        }
    }
}

/// What Last.fm says of an album.
#[derive(Debug)]
pub struct LastfmAlbum {
    pub url: Option<String>,
    pub mbid: Option<String>,
    pub listeners: Option<String>,
    pub playcount: Option<String>,
    pub wiki: Option<LastfmWiki>,
    /// The names of its tags.
    pub tags: Option<Vec<String>>,
    /// The addresses of its images, the smallest first.
    pub images: Option<Vec<String>>,
}

/// The mathematical value of a [`LastfmAlbum`].
pub struct LastfmAlbumModel {
    pub url: Option<Seq<char>>,
    pub mbid: Option<Seq<char>>,
    pub listeners: Option<Seq<char>>,
    pub playcount: Option<Seq<char>>,
    pub wiki: Option<LastfmWikiModel>,
    pub tags: Option<Seq<Seq<char>>>,
    pub images: Option<Seq<Seq<char>>>,
}

impl DeepView for LastfmAlbum {
    type V = LastfmAlbumModel;

    open spec fn deep_view(&self) -> LastfmAlbumModel {
        LastfmAlbumModel {
            url: self.url.deep_view(),
            mbid: self.mbid.deep_view(),
            listeners: self.listeners.deep_view(),
            playcount: self.playcount.deep_view(),
            wiki: self.wiki.deep_view(),
            tags: self.tags.deep_view(),
            images: self.images.deep_view(),
        }
    }
}

/// A text that is not empty.
pub open spec fn nonempty(text: Option<Seq<char>>) -> Option<Seq<char>> {
    match text {
        Some(text) => if text.len() > 0 {
            Some(text)
        } else {
            None
        },
        None => None,
    }
}

/// The number that a field gives.
pub open spec fn count_of(field: Option<Seq<char>>) -> Option<u64> {
    match field {
        Some(text) => match parsed_number(text, u64::MAX as nat) {
            Some(n) => Some(n as u64),
            None => None,
        },
        None => None,
    }
}

/// The last text of a row that is not empty.
pub open spec fn last_nonempty(texts: Seq<Seq<char>>) -> Option<Seq<char>>
    decreases texts.len(),
{
    if texts.len() == 0 {
        None
    } else if texts.last().len() > 0 {
        Some(texts.last())
    } else {
        last_nonempty(texts.drop_last())
    }
}

/// What the library keeps of what Last.fm says of an album.
pub open spec fn metadata_of(album: LastfmAlbumModel) -> AlbumMetadataModel {
    AlbumMetadataModel {
        lastfm_url: album.url,
        lastfm_mbid: nonempty(album.mbid),
        published: match album.wiki {
            Some(wiki) => wiki.published,
            None => None,
        },
        summary: match album.wiki {
            Some(wiki) => wiki.summary,
            None => None,
        },
        image_url: match album.images {
            Some(images) => last_nonempty(images),
            None => None,
        },
        tags: match album.tags {
            Some(tags) => tags,
            None => seq![],
        },
        listeners: count_of(album.listeners),
        playcount: count_of(album.playcount),
    }
}

fn parse_count(field: Option<String>) -> (r: Option<u64>)
    ensures
        r == count_of(field.deep_view()),
{
    match field {
        Some(text) => parse_number(&text, u64::MAX),
        None => None,
    }
}

fn take_last_nonempty(texts: Vec<String>) -> (r: Option<String>)
    ensures
        r.deep_view() == last_nonempty(texts.deep_view()),
{
    let ghost all = texts.deep_view();
    let mut rest = texts;
    let ghost mut n: int = all.len() as int;
    assert(all.take(n) =~= all);
    while rest.len() > 0
        invariant
            all == texts.deep_view(),
            0 <= n <= all.len(),
            rest.deep_view() == all.take(n),
            last_nonempty(all) == last_nonempty(all.take(n)),
        ensures
            rest@.len() == 0,
        decreases n,
    {
        assert(n > 0) by {
            assert(rest.deep_view().len() == rest@.len());
        }
        assert(all.take(n).drop_last() =~= all.take(n - 1));
        assert(all.take(n).last() == rest@.last()@);
        if let Some(text) = rest.pop() {
            if text.as_str().unicode_len() > 0 {
                return Some(text);
            }
        }
        proof {
            n = n - 1;
            assert(rest.deep_view() =~= all.take(n));
        }
    }
    assert(rest.deep_view().len() == 0);
    None
}

impl LastfmAlbum {
    /// What the library keeps of what Last.fm says of the album.
    pub fn into_metadata(self) -> (r: AlbumMetadata)
        ensures
            r.deep_view() == metadata_of(self.deep_view()),
    {
        let image_url = match self.images {
            Some(images) => take_last_nonempty(images),
            None => None,
        };
        let lastfm_mbid = match self.mbid {
            Some(mbid) => if mbid.as_str().unicode_len() > 0 {
                Some(mbid)
            } else {
                None
            },
            None => None,
        };
        let (published, summary) = match self.wiki {
            Some(wiki) => (wiki.published, wiki.summary),
            None => (None, None),
        };
        let tags = match self.tags {
            Some(tags) => tags,
            None => {
                let none: Vec<String> = Vec::new();
                assert(none.deep_view() =~= seq![]);
                none
            },
        };
        AlbumMetadata {
            lastfm_url: self.url,
            lastfm_mbid,
            published,
            summary,
            image_url,
            tags,
            listeners: parse_count(self.listeners),
            playcount: parse_count(self.playcount),
        }
    }
}

/// The cover that an album gets from what was found of it: an id and an address.
pub open spec fn new_cover(album: AlbumModel, metadata: Option<AlbumMetadataModel>) -> Option<
    (Seq<char>, Seq<char>),
> {
    match metadata {
        Some(metadata) => match (album.cover_art_id, nonempty(metadata.image_url)) {
            (None, Some(url)) => Some(("lastfm-album-"@ + album.id, url)),
            _ => None,
        },
        None => None,
    }
}

/// An album with what was found of it.
pub open spec fn enriched_album(
    album: AlbumModel,
    metadata: Option<AlbumMetadataModel>,
) -> AlbumModel {
    match metadata {
        Some(found) => AlbumModel {
            cover_art_id: match new_cover(album, metadata) {
                Some((id, _)) => Some(id),
                None => album.cover_art_id,
            },
            metadata: Some(found),
            ..album
        },
        None => album,
    }
}

/// The covers of a library with those that its albums get.
pub open spec fn covers_with(
    covers: Map<Seq<char>, CoverArtSourceModel>,
    albums: Seq<(Seq<char>, AlbumModel)>,
    metadata: Map<Seq<char>, AlbumMetadataModel>,
) -> Map<Seq<char>, CoverArtSourceModel>
    decreases albums.len(),
{
    if albums.len() == 0 {
        covers
    } else {
        let before = covers_with(covers, albums.drop_last(), metadata);
        match new_cover(albums.last().1, found(metadata, albums.last().0)) {
            Some((id, url)) => before.insert(id, CoverArtSourceModel::External { url }),
            None => before,
        }
    }
}

/// Albums with what was found of them.
pub open spec fn enriched_albums(
    albums: Map<Seq<char>, AlbumModel>,
    metadata: Map<Seq<char>, AlbumMetadataModel>,
) -> Map<Seq<char>, AlbumModel> {
    Map::new(
        |id: Seq<char>| albums.dom().contains(id),
        |id: Seq<char>| enriched_album(albums[id], found(metadata, id)),
    )
}

/// The library with what was found of its albums.
pub open spec fn enriched(
    index: LibraryIndexModel,
    metadata: Map<Seq<char>, AlbumMetadataModel>,
) -> LibraryIndexModel {
    LibraryIndexModel {
        albums: enriched_albums(index.albums, metadata),
        cover_arts: covers_with(
            index.cover_arts,
            listing::<AlbumId, AlbumModel>(index.albums),
            metadata,
        ),
        ..index
    }
}

/// Takes what was found of an album into it. Where it gets a cover, that is returned.
fn enrich_album(album: &mut Album, metadata: AlbumMetadata) -> (r: Option<(CoverArtId, String)>)
    ensures
        final(album).deep_view() == enriched_album(
            old(album).deep_view(),
            Some(metadata.deep_view()),
        ),
        match r {
            Some((id, url)) => new_cover(old(album).deep_view(), Some(metadata.deep_view()))
                == Some((id.deep_view(), url@)),
            None => new_cover(old(album).deep_view(), Some(metadata.deep_view())) is None,
        },
{
    let mut cover: Option<(CoverArtId, String)> = None;
    if album.cover_art_id.is_none() {
        if let Some(url) = &metadata.image_url {
            if url.as_str().unicode_len() > 0 {
                let mut id = "lastfm-album-".to_owned();
                push_text(&mut id, &album.id.0);
                album.cover_art_id = Some(CoverArtId(id.clone()));
                cover = Some((CoverArtId(id), url.clone()));
            }
        }
    }
    album.metadata = Some(metadata);
    cover
}

/// Takes what was found of albums, by their ids, into the library. An album without a cover gets
/// the image that was found.
pub fn enrich_library(
    library: &mut LibraryIndex,
    metadata: OrderedMap<AlbumId, AlbumMetadata>,
)
    ensures
        final(library).deep_view() == enriched(old(library).deep_view(), metadata.deep_view()),
{
    let ghost facts = metadata.deep_view();
    let ghost index = library.deep_view();
    let total: usize = library.albums.len();
    let ghost entries = library.albums.entries();
    let mut albums: OrderedMap<AlbumId, Album> = OrderedMap::new();
    let mut covers = library.cover_arts.duplicate();
    let mut i: usize = 0;
    proof {
        assert(entries.take(0) =~= seq![]);
        assert(albums.deep_view() =~= enriched_albums(map_of(entries.take(0)), facts));
    }
    while i < total
        invariant
            i <= total,
            total == entries.len(),
            facts == metadata.deep_view(),
            entries == library.albums.entries(),
            ascending::<AlbumId, AlbumModel>(entries),
            albums.deep_view() == enriched_albums(map_of(entries.take(i as int)), facts),
            covers.deep_view() == covers_with(
                index.cover_arts,
                entries.take(i as int),
                facts,
            ),
        decreases total - i,
    {
        let key = library.albums.key_at(i);
        let mut album = library.albums.value_at(i).duplicate();
        let ghost upto = entries.take(i + 1);
        let ghost before = map_of(entries.take(i as int));
        proof {
            assert(upto.drop_last() =~= entries.take(i as int));
            assert(upto.last() == entries[i as int]);
            assert(ascending::<AlbumId, AlbumModel>(upto)) by {
                assert(forall|j: int| 0 <= j < upto.len() ==> #[trigger] upto[j] == entries[j]);
            }
            lemma_map_of_drop_last::<AlbumId, AlbumModel>(upto);
            lemma_map_of_entry::<AlbumId, AlbumModel>(upto, i as int);
            assert(map_of(upto) =~= before.insert(entries[i as int].0, entries[i as int].1));
        }
        if let Some(found) = metadata.get(key) {
            if let Some((id, url)) = enrich_album(&mut album, found.duplicate()) {
                covers.insert(id, CoverArtSource::External { url });
            }
        }
        albums.insert(key.duplicate(), album);
        proof {
            assert(albums.deep_view() =~= enriched_albums(map_of(upto), facts));
        }
        i = i + 1;
    }
    assert(entries.take(total as int) =~= entries);
    library.albums = albums;
    library.cover_arts = covers;
    proof {
        assert(library.deep_view().albums =~= enriched(index, facts).albums);
    }
}

/// What was found of an album does not change its id or its tracks, nor a cover that it has.
pub proof fn law_enriching_keeps_albums(
    index: LibraryIndexModel,
    metadata: Map<Seq<char>, AlbumMetadataModel>,
    id: Seq<char>,
)
    requires
        index.albums.dom().contains(id),
    ensures
        enriched(index, metadata).albums.dom().contains(id),
        enriched(index, metadata).albums[id].id == index.albums[id].id,
        enriched(index, metadata).albums[id].track_ids == index.albums[id].track_ids,
        index.albums[id].cover_art_id is Some ==> enriched(index, metadata).albums[id].cover_art_id
            == index.albums[id].cover_art_id,
{
}

proof fn lemma_covers_with(
    covers: Map<Seq<char>, CoverArtSourceModel>,
    albums: Seq<(Seq<char>, AlbumModel)>,
    metadata: Map<Seq<char>, AlbumMetadataModel>,
)
    ensures
        forall|id: Seq<char>| #[trigger]
            covers.dom().contains(id) ==> covers_with(covers, albums, metadata).dom().contains(id),
        forall|i: int|
            0 <= i < albums.len() ==> (new_cover(
                (#[trigger] albums[i]).1,
                found(metadata, albums[i].0),
            ) matches Some(cover) ==> covers_with(covers, albums, metadata).dom().contains(cover.0)),
    decreases albums.len(),
{
    if albums.len() > 0 {
        lemma_covers_with(covers, albums.drop_last(), metadata);
        let before = covers_with(covers, albums.drop_last(), metadata);
        assert forall|i: int| 0 <= i < albums.len() implies (new_cover(
            (#[trigger] albums[i]).1,
            found(metadata, albums[i].0),
        ) matches Some(cover) ==> covers_with(covers, albums, metadata).dom().contains(cover.0)) by {
            if i < albums.len() - 1 {
                assert(albums.drop_last()[i] == albums[i]);
            }
        }
    }
}

/// In a library whose ids lead somewhere, they still do once albums were enriched: in particular
/// an album that gets a cover gets one that the library has.
pub proof fn law_enriching_keeps_links(
    index: LibraryIndexModel,
    metadata: Map<Seq<char>, AlbumMetadataModel>,
)
    requires
        linked(index),
        index.albums.dom().finite(),
    ensures
        linked(enriched(index, metadata)),
{
    let entries = listing::<AlbumId, AlbumModel>(index.albums);
    let r = enriched(index, metadata);
    lemma_listing::<AlbumId, AlbumModel>(index.albums);
    lemma_covers_with(index.cover_arts, entries, metadata);
    assert(r.albums.dom() =~= index.albums.dom());
    assert(artists_linked(r.artists, r.albums)) by {
        assert forall|id: Seq<char>| #[trigger] r.artists.dom().contains(id) implies {
            &&& r.artists[id].id == id
            &&& forall|a: Seq<char>|
                r.artists[id].album_ids.contains(a) ==> #[trigger] r.albums.dom().contains(a)
        } by {
            assert(index.artists.dom().contains(id));
            assert forall|a: Seq<char>| r.artists[id].album_ids.contains(a) implies #[trigger]
                r.albums.dom().contains(a) by {
                assert(index.albums.dom().contains(a));
            }
        }
    }
    assert(albums_linked(r.albums, r.tracks, r.cover_arts)) by {
        assert forall|id: Seq<char>| #[trigger] r.albums.dom().contains(id) implies {
            &&& r.albums[id].id == id
            &&& forall|t: Seq<char>|
                r.albums[id].track_ids.contains(t) ==> #[trigger] r.tracks.dom().contains(t)
            &&& cover_known(r.cover_arts, r.albums[id].cover_art_id)
        } by {
            assert(index.albums.dom().contains(id));
            assert(map_of(entries).dom().contains(id));
            let i = choose|i: int| 0 <= i < entries.len() && (#[trigger] entries[i]).0 == id;
            lemma_map_of_entry::<AlbumId, AlbumModel>(entries, i);
            assert(entries[i].1 == index.albums[id]);
            assert(cover_known(index.cover_arts, index.albums[id].cover_art_id));
        }
    }
    assert(tracks_linked(r.tracks, r.cover_arts)) by {
        assert forall|id: Seq<char>| #[trigger] r.tracks.dom().contains(id) implies r.tracks[id].id
            == id && cover_known(r.cover_arts, r.tracks[id].cover_art_id) by {
            assert(index.tracks.dom().contains(id));
            assert(cover_known(index.cover_arts, index.tracks[id].cover_art_id));
        }
    }
}

/// What Last.fm says of an album is kept under its own name; an empty id is none, and of the images the
/// last that has an address is kept, which is the largest.
pub proof fn law_metadata_is_kept(
    album: LastfmAlbumModel,
    wiki: LastfmWikiModel,
    smaller: Seq<Seq<char>>,
    url: Seq<char>,
    blanks: Seq<Seq<char>>,
    n: u64,
)
    requires
        forall|i: int| 0 <= i < blanks.len() ==> (#[trigger] blanks[i]).len() == 0,
    ensures
        metadata_of(album).lastfm_url == album.url,
        album.mbid matches Some(id) ==> id.len() > 0 ==> metadata_of(album).lastfm_mbid == Some(id),
        album.mbid matches Some(id) ==> id.len() == 0 ==> metadata_of(album).lastfm_mbid is None,
        album.mbid is None ==> metadata_of(album).lastfm_mbid is None,
        album.wiki == Some(wiki) ==> metadata_of(album).published == wiki.published && metadata_of(
            album,
        ).summary == wiki.summary,
        album.wiki is None ==> metadata_of(album).published is None && metadata_of(
            album,
        ).summary is None,
        album.tags matches Some(tags) ==> metadata_of(album).tags == tags,
        album.tags is None ==> metadata_of(album).tags.len() == 0,
        album.images == Some(smaller + seq![url] + blanks) && url.len() > 0 ==> metadata_of(
            album,
        ).image_url == Some(url),
        album.images == Some(blanks) || album.images is None
            ==> metadata_of(album).image_url is None,
        album.listeners == Some(decimal(n as nat)) ==> metadata_of(album).listeners == Some(n),
        album.playcount == Some(decimal(n as nat)) ==> metadata_of(album).playcount == Some(n),
        album.listeners is None ==> metadata_of(album).listeners is None,
        album.playcount is None ==> metadata_of(album).playcount is None,
{
    law_number_is_read(n as nat, u64::MAX as nat, Seq::empty());
    lemma_only_blanks(blanks);
    if url.len() > 0 {
        lemma_last_nonempty(smaller, url, blanks);
    }
}

proof fn lemma_only_blanks(blanks: Seq<Seq<char>>)
    requires
        forall|i: int| 0 <= i < blanks.len() ==> (#[trigger] blanks[i]).len() == 0,
    ensures
        last_nonempty(blanks) is None,
    decreases blanks.len(),
{
    if blanks.len() > 0 {
        lemma_only_blanks(blanks.drop_last());
    }
}

proof fn lemma_last_nonempty(smaller: Seq<Seq<char>>, url: Seq<char>, blanks: Seq<Seq<char>>)
    requires
        url.len() > 0,
        forall|i: int| 0 <= i < blanks.len() ==> (#[trigger] blanks[i]).len() == 0,
    ensures
        last_nonempty(smaller + seq![url] + blanks) == Some(url),
    decreases blanks.len(),
{
    let all = smaller + seq![url] + blanks;
    if blanks.len() == 0 {
        assert(all.last() == url);
    } else {
        assert(all.last() == blanks.last());
        assert(all.drop_last() =~= smaller + seq![url] + blanks.drop_last());
        lemma_last_nonempty(smaller, url, blanks.drop_last());
    }
}

/// What was found of an album stands in the library with the album, under the id of the album, and changes
/// nothing else; an album without a cover gets the image that was found, under an id of its own.
pub proof fn law_found_metadata_stands_with_its_album(
    index: LibraryIndexModel,
    metadata: Map<Seq<char>, AlbumMetadataModel>,
    id: Seq<char>,
    url: Seq<char>,
)
    requires
        index.albums.dom().contains(id),
    ensures
        ({
            let before = index.albums[id];
            let after = enriched(index, metadata).albums[id];
            &&& metadata.dom().contains(id) ==> after.metadata == Some(metadata[id])
            &&& !metadata.dom().contains(id) ==> after == before
            &&& after.title == before.title && after.artist == before.artist && after.album_artist
                == before.album_artist && after.date == before.date && after.original_date
                == before.original_date && after.year == before.year
                    && after.genres == before.genres
                && after.labels == before.labels && after.catalog_number == before.catalog_number
                && after.comment == before.comment && after.musicbrainz_album_id
                == before.musicbrainz_album_id && after.musicbrainz_release_group_id
                == before.musicbrainz_release_group_id && after.disc_count == before.disc_count
                && after.duration_seconds == before.duration_seconds && after.size_bytes
                == before.size_bytes
            &&& metadata.dom().contains(id) && before.cover_art_id is None && metadata[id].image_url
                == Some(url) && url.len() > 0 ==> after.cover_art_id == Some(
                "lastfm-album-"@ + before.id,
            )
            &&& metadata.dom().contains(id) && before.cover_art_id is None && (
            metadata[id].image_url is None || metadata[id].image_url == Some(Seq::<char>::empty()))
                ==> after.cover_art_id is None
        }),
        enriched(index, metadata).artists == index.artists,
        enriched(index, metadata).tracks == index.tracks,
        enriched(index, metadata).albums.dom() =~= index.albums.dom(),
{
}

/// The image that an album gets is looked for at the address that was found.
pub proof fn law_found_image_is_a_cover(
    index: LibraryIndexModel,
    metadata: Map<Seq<char>, AlbumMetadataModel>,
    id: Seq<char>,
    url: Seq<char>,
)
    requires
        linked(index),
        index.albums.dom().finite(),
        index.albums.dom().contains(id),
        index.albums[id].cover_art_id is None,
        metadata.dom().contains(id),
        metadata[id].image_url == Some(url),
        url.len() > 0,
    ensures
        enriched(index, metadata).cover_arts.dom().contains("lastfm-album-"@ + id),
        enriched(index, metadata).cover_arts["lastfm-album-"@ + id] == (
        CoverArtSourceModel::External { url }),
{
    let entries = listing::<AlbumId, AlbumModel>(index.albums);
    lemma_listing::<AlbumId, AlbumModel>(index.albums);
    assert forall|i: int| 0 <= i < entries.len() implies (#[trigger] entries[i]).1.id
        == entries[i].0 by {
        lemma_map_of_entry::<AlbumId, AlbumModel>(entries, i);
    }
    assert forall|j: int, k: int| 0 <= j < k < entries.len() implies (#[trigger] entries[j]).0 != (
    #[trigger] entries[k]).0 by {
        AlbumId::less_irreflexive(entries[j].0);
    }
    let i = choose|i: int| 0 <= i < entries.len() && (#[trigger] entries[i]).0 == id;
    lemma_map_of_entry::<AlbumId, AlbumModel>(entries, i);
    lemma_cover_of_an_entry(index.cover_arts, entries, metadata, i, url);
}

proof fn lemma_cover_of_an_entry(
    covers: Map<Seq<char>, CoverArtSourceModel>,
    entries: Seq<(Seq<char>, AlbumModel)>,
    metadata: Map<Seq<char>, AlbumMetadataModel>,
    i: int,
    url: Seq<char>,
)
    requires
        0 <= i < entries.len(),
        forall|k: int| 0 <= k < entries.len() ==> (#[trigger] entries[k]).1.id == entries[k].0,
        forall|j: int, k: int|
            0 <= j < k < entries.len() ==> (#[trigger] entries[j]).0 != (#[trigger] entries[k]).0,
        new_cover(entries[i].1, found(metadata, entries[i].0)) == Some(
            ("lastfm-album-"@ + entries[i].0, url),
        ),
    ensures
        covers_with(covers, entries, metadata).dom().contains("lastfm-album-"@ + entries[i].0),
        covers_with(covers, entries, metadata)["lastfm-album-"@ + entries[i].0] == (
        CoverArtSourceModel::External { url }),
    decreases entries.len(),
{
    let before = entries.drop_last();
    if i < entries.len() - 1 {
        assert forall|k: int| 0 <= k < before.len() implies (#[trigger] before[k]).1.id
            == before[k].0 by {
            assert(before[k] == entries[k]);
        }
        assert forall|j: int, k: int| 0 <= j < k < before.len() implies (#[trigger] before[j]).0 != (
        #[trigger] before[k]).0 by {
            assert(before[j] == entries[j] && before[k] == entries[k]);
        }
        lemma_cover_of_an_entry(covers, before, metadata, i, url);
        let last = entries.last();
        assert(entries[i].0 != entries[entries.len() - 1].0);
        let prefix = "lastfm-album-"@;
        if prefix + last.1.id == prefix + entries[i].0 {
            assert((prefix + last.1.id).skip(prefix.len() as int) =~= last.1.id);
            assert((prefix + entries[i].0).skip(prefix.len() as int) =~= entries[i].0);
        }
    }
}

} // verus!
