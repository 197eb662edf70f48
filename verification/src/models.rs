//! The requests of Subsonic clients.

use vstd::prelude::*;

use crate::duplicate::Duplicate;
use crate::text::same_text;

verus! {

/// A request of a Subsonic client.
#[derive(Debug)]
pub struct RequestContext {
    pub path: String,
    pub query: Vec<(String, String)>,
}

/// The mathematical value of a [`RequestContext`].
pub struct RequestContextModel {
    pub path: Seq<char>,
    pub query: Seq<(Seq<char>, Seq<char>)>,
}

impl DeepView for RequestContext {
    type V = RequestContextModel;

    open spec fn deep_view(&self) -> RequestContextModel {
        RequestContextModel { path: self.path@, query: self.query.deep_view() }
    }
}

impl Duplicate for RequestContext {
    fn duplicate(&self) -> (r: Self) {
        let total: usize = self.query.len();
        let mut query: Vec<(String, String)> = Vec::new();
        let mut i: usize = 0;
        while i < total
            invariant
                i <= total,
                total == self.query@.len(),
                query@.len() == i,
                forall|j: int|
                    0 <= j < i ==> (#[trigger] query@[j]).deep_view() == self.query@[j].deep_view(),
            decreases total - i,
        {
            query.push((self.query[i].0.clone(), self.query[i].1.clone()));
            i = i + 1;
        }
        assert(query.deep_view() =~= self.query.deep_view());
        RequestContext { path: self.path.clone(), query }
    }
}

impl Clone for RequestContext {
    fn clone(&self) -> (r: Self)
        ensures
            r.deep_view() == self.deep_view(),
    {
        self.duplicate()
    }
}

/// A song in a directory.
#[derive(Debug)]
pub struct Child {
    pub id: String,
    pub title: String,
    pub artist: String,
    pub album: String,
    pub content_type: String,
}

/// The mathematical value of a [`Child`].
pub struct ChildModel {
    pub id: Seq<char>,
    pub title: Seq<char>,
    pub artist: Seq<char>,
    pub album: Seq<char>,
    pub content_type: Seq<char>,
}

impl DeepView for Child {
    type V = ChildModel;

    open spec fn deep_view(&self) -> ChildModel {
        ChildModel {
            id: self.id@,
            title: self.title@,
            artist: self.artist@,
            album: self.album@,
            content_type: self.content_type@,
        }
    }
}

impl Duplicate for Child {
    fn duplicate(&self) -> (r: Self) {
        Child {
            id: self.id.clone(),
            title: self.title.clone(),
            artist: self.artist.clone(),
            album: self.album.clone(),
            content_type: self.content_type.clone(),
        }
    }
}

impl Clone for Child {
    fn clone(&self) -> (r: Self)
        ensures
            r.deep_view() == self.deep_view(),
    {
        self.duplicate()
    }
}

/// An artist in an index.
#[derive(Debug)]
pub struct IndexArtist {
    pub id: String,
    pub name: String,
}

/// The mathematical value of an [`IndexArtist`].
pub struct IndexArtistModel {
    pub id: Seq<char>,
    pub name: Seq<char>,
}

impl DeepView for IndexArtist {
    type V = IndexArtistModel;

    open spec fn deep_view(&self) -> IndexArtistModel {
        IndexArtistModel {
            id: self.id@,
            name: self.name@,
        }
    }
}

impl Duplicate for IndexArtist {
    fn duplicate(&self) -> (r: Self) {
        IndexArtist {
            id: self.id.clone(),
            name: self.name.clone(),
        }
    }
}

impl Clone for IndexArtist {
    fn clone(&self) -> (r: Self)
        ensures
            r.deep_view() == self.deep_view(),
    {
        self.duplicate()
    }
}

/// The first value of a query under a key.
pub open spec fn first_value(query: Seq<(Seq<char>, Seq<char>)>, key: Seq<char>) -> Option<Seq<char>>
    decreases query.len(),
{
    if query.len() == 0 {
        None
    } else if query[0].0 == key {
        Some(query[0].1)
    } else {
        first_value(query.drop_first(), key)
    }
}

/// The first value of the query under `key`.
pub fn query_value<'a>(request: &'a RequestContext, key: &str) -> (r: Option<&'a str>)
    ensures
        r.deep_view() == first_value(request.deep_view().query, key@),
{
    let ghost all = request.query.deep_view();
    let total: usize = request.query.len();
    let mut i: usize = 0;
    assert(all.skip(0) =~= all);
    while i < total
        invariant
            i <= total,
            total == request.query@.len(),
            all == request.query.deep_view(),
            first_value(all.skip(i as int), key@) == first_value(all, key@),
        decreases total - i,
    {
        assert(all.skip(i as int).drop_first() =~= all.skip(i + 1));
        assert(all.skip(i as int)[0] == request.query@[i as int].deep_view());
        if same_text(&request.query[i].0, key) {
            return Some(request.query[i].1.as_str());
        }
        i = i + 1;
    }
    None
}

/// The value of a query under a key is that of the first pair
/// with the key, wherever it stands; without such a pair there is none.
pub proof fn law_query_is_read(
    before: Seq<(Seq<char>, Seq<char>)>,
    key: Seq<char>,
    value: Seq<char>,
    after: Seq<(Seq<char>, Seq<char>)>,
)
    requires
        forall|i: int| 0 <= i < before.len() ==> (#[trigger] before[i]).0 != key,
    ensures
        first_value(before + seq![(key, value)] + after, key) == Some(value),
        first_value(before, key) is None,
    decreases before.len(),
{
    let all = before + seq![(key, value)] + after;
    if before.len() > 0 {
        let rest = before.drop_first();
        assert forall|i: int| 0 <= i < rest.len() implies (#[trigger] rest[i]).0 != key by {
            assert(rest[i] == before[i + 1]);
        }
        assert(all[0] == before[0]);
        assert(all.drop_first() =~= rest + seq![(key, value)] + after);
        law_query_is_read(rest, key, value, after);
    }
}

} // verus!
