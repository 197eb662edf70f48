//! The indexed library.

use vstd::prelude::*;

use crate::duplicate::Duplicate;
use crate::ordered_map::OrderedMap;
use crate::path::FilePath;
use crate::protocol::{
    Album, AlbumId, AlbumModel, Artist, ArtistId, ArtistModel, CoverArtId, Track, TrackId,
    TrackModel,
};

verus! {

/// Where a cover image comes from.
#[derive(Debug)]
pub enum CoverArtSource {
    Sidecar { relative_path: FilePath, content_type: String },
    Embedded { track_id: TrackId },
    External { url: String },
}

/// The mathematical value of a [`CoverArtSource`].
pub enum CoverArtSourceModel {
    Sidecar { relative_path: Seq<Seq<u8>>, content_type: Seq<char> },
    Embedded { track_id: Seq<char> },
    External { url: Seq<char> },
}

impl DeepView for CoverArtSource {
    type V = CoverArtSourceModel;

    open spec fn deep_view(&self) -> CoverArtSourceModel {
        match self {
            CoverArtSource::Sidecar { relative_path, content_type } => CoverArtSourceModel::Sidecar {
                relative_path: relative_path.deep_view(),
                content_type: content_type@,
            },
            CoverArtSource::Embedded { track_id } => CoverArtSourceModel::Embedded {
                track_id: track_id.deep_view(),
            },
            CoverArtSource::External { url } => CoverArtSourceModel::External {
                url: url@,
            },
        }
    }
}

impl Duplicate for CoverArtSource {
    fn duplicate(&self) -> (r: Self) {
        match self {
            CoverArtSource::Sidecar { relative_path, content_type } => CoverArtSource::Sidecar {
                relative_path: relative_path.duplicate(),
                content_type: content_type.clone(),
            },
            CoverArtSource::Embedded { track_id } => CoverArtSource::Embedded {
                track_id: track_id.duplicate(),
            },
            CoverArtSource::External { url } => CoverArtSource::External {
                url: url.clone(),
            },
        }
    }
}

impl Clone for CoverArtSource {
    fn clone(&self) -> (r: Self)
        ensures
            r.deep_view() == self.deep_view(),
    {
        self.duplicate()
    }
}

/// The library: every artist, album, track and cover image under its id.
pub struct LibraryIndex {
    pub artists: OrderedMap<ArtistId, Artist>,
    pub albums: OrderedMap<AlbumId, Album>,
    pub tracks: OrderedMap<TrackId, Track>,
    pub cover_arts: OrderedMap<CoverArtId, CoverArtSource>,
}

/// The mathematical value of a [`LibraryIndex`].
pub struct LibraryIndexModel {
    pub artists: Map<Seq<char>, ArtistModel>,
    pub albums: Map<Seq<char>, AlbumModel>,
    pub tracks: Map<Seq<char>, TrackModel>,
    pub cover_arts: Map<Seq<char>, CoverArtSourceModel>,
}

impl DeepView for LibraryIndex {
    type V = LibraryIndexModel;

    open spec fn deep_view(&self) -> LibraryIndexModel {
        LibraryIndexModel {
            artists: self.artists.deep_view(),
            albums: self.albums.deep_view(),
            tracks: self.tracks.deep_view(),
            cover_arts: self.cover_arts.deep_view(),
        }
    }
}

impl Duplicate for LibraryIndex {
    fn duplicate(&self) -> (r: Self) {
        LibraryIndex {
            artists: self.artists.duplicate(),
            albums: self.albums.duplicate(),
            tracks: self.tracks.duplicate(),
            cover_arts: self.cover_arts.duplicate(),
        }
    }
}

impl Clone for LibraryIndex {
    fn clone(&self) -> (r: Self)
        ensures
            r.deep_view() == self.deep_view(),
    {
        self.duplicate()
    }
}

impl Default for LibraryIndex {
    fn default() -> (r: Self)
        ensures
            r.deep_view() == (LibraryIndexModel {
                artists: Map::empty(),
                albums: Map::empty(),
                tracks: Map::empty(),
                cover_arts: Map::empty(),
            }),
    {
        LibraryIndex {
            artists: OrderedMap::new(),
            albums: OrderedMap::new(),
            tracks: OrderedMap::new(),
            cover_arts: OrderedMap::new(),
        }
    }
}

impl LibraryIndex {
    /// The number of artists.
    pub fn artist_count(&self) -> (r: usize)
        ensures
            r == self.deep_view().artists.len(),
            self.deep_view().artists.dom().finite(),
    {
        self.artists.len()
    }

    /// The number of albums.
    pub fn album_count(&self) -> (r: usize)
        ensures
            r == self.deep_view().albums.len(),
            self.deep_view().albums.dom().finite(),
    {
        self.albums.len()
    }

    /// The number of tracks.
    pub fn track_count(&self) -> (r: usize)
        ensures
            r == self.deep_view().tracks.len(),
            self.deep_view().tracks.dom().finite(),
    {
        self.tracks.len()
    }
}

} // verus!
