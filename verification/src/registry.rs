//! The registry: every album that was fetched, by identifier, and beside each
//! the tracks of it that the listener has marked.
//!
//! Both maps are `dashmap::DashMap`s. What the functions marked
//! `external_body` say of them is believed, not proved.

use std::collections::BTreeSet;
use dashmap::DashMap;
use vstd::prelude::*;
use vstd::laws_cmp::group_laws_cmp;
use vstd::std_specs::btree::*;
use crate::history::ListenHistory;
use crate::models::{Album, AlbumID, AlbumView, TrackID, TrackView, all_valid, distinct_ids, has_id, lemma_playable_valid};

verus! {

#[verifier::external_type_specification]
#[verifier::external_body]
#[verifier::reject_recursive_types(K)]
#[verifier::reject_recursive_types(V)]
#[verifier::reject_recursive_types(S)]
pub struct ExDashMap<K, V, S>(DashMap<K, V, S>);

/// The albums a map holds, by identifier.
pub uninterp spec fn held_albums(m: DashMap<u32, Album>) -> Map<u32, AlbumView>;

/// The marked tracks a map holds, by album.
pub uninterp spec fn held_listens(m: DashMap<u32, BTreeSet<u32>>) -> Map<u32, Set<u32>>;

/// `DashMap::new`: a map that holds nothing.
#[verifier::external_body]
pub(crate) fn albums_new() -> (m: DashMap<u32, Album>)
    ensures
        (held_albums(m) == Map::<u32, AlbumView>::empty()),
{
    DashMap::new()
}

/// `DashMap::insert`: puts the album under the identifier and hands back the
/// album that stood there before, if there was one.
#[verifier::external_body]
pub(crate) fn albums_insert(m: &mut DashMap<u32, Album>, id: u32, album: Album) -> (r: Option<
    Album,
>)
    ensures
        held_albums(*final(m)) == held_albums(*old(m)).insert(id, album@),
        match r {
            Some(before) => held_albums(*old(m)).contains_key(id) && before@ == held_albums(
                *old(m),
            )[id],
            None => !held_albums(*old(m)).contains_key(id),
        },
{
    m.insert(id, album)
}

/// `DashMap::contains_key`: whether an album stands under the identifier.
#[verifier::external_body]
pub(crate) fn albums_contains(m: &DashMap<u32, Album>, id: u32) -> (r: bool)
    ensures
        r == held_albums(*m).contains_key(id),
{
    m.contains_key(&id)
}

/// `DashMap::get`: a copy of the album under the identifier, if there is one.
#[verifier::external_body]
pub(crate) fn albums_get(m: &DashMap<u32, Album>, id: u32) -> (r: Option<Album>)
    ensures
        match r {
            Some(album) => held_albums(*m).contains_key(id) && album@ == held_albums(*m)[id],
            None => !held_albums(*m).contains_key(id),
        },
{
    m.get(&id).map(|a| a.value().clone())
}

/// `DashMap::len`: the number of albums.
#[verifier::external_body]
pub(crate) fn albums_len(m: &DashMap<u32, Album>) -> (n: usize)
    ensures
        n == held_albums(*m).dom().len(),
{
    m.len()
}

/// `DashMap::new` for the marked tracks.
#[verifier::external_body]
pub(crate) fn listens_new() -> (m: DashMap<u32, BTreeSet<u32>>)
    ensures
        (held_listens(m) == Map::<u32, Set<u32>>::empty()),
{
    DashMap::new()
}

/// `DashMap::insert` for the marked tracks.
#[verifier::external_body]
pub(crate) fn listens_insert(m: &mut DashMap<u32, BTreeSet<u32>>, id: u32, marked: BTreeSet<u32>) -> (r:
    Option<BTreeSet<u32>>)
    ensures
        held_listens(*final(m)) == held_listens(*old(m)).insert(id, marked@),
        match r {
            Some(before) => held_listens(*old(m)).contains_key(id) && before@ == held_listens(
                *old(m),
            )[id],
            None => !held_listens(*old(m)).contains_key(id),
        },
{
    m.insert(id, marked)
}

/// `DashMap::remove`: takes the marked tracks of an album out of the map, if
/// it has any.
#[verifier::external_body]
pub(crate) fn listens_remove(m: &mut DashMap<u32, BTreeSet<u32>>, id: u32) -> (r: Option<
    BTreeSet<u32>,
>)
    ensures
        held_listens(*final(m)) == held_listens(*old(m)).remove(id),
        match r {
            Some(marked) => held_listens(*old(m)).contains_key(id) && marked@ == held_listens(
                *old(m),
            )[id],
            None => !held_listens(*old(m)).contains_key(id),
        },
{
    m.remove(&id).map(|kv| kv.1)
}

/// Whether the marked tracks are exactly as many as the album's tracks and
/// hold each of them.
pub open spec fn fully_heard(tracks: Seq<TrackView>, marked: Set<TrackID>) -> bool {
    &&& marked.len() == tracks.len()
    &&& forall|i: int| 0 <= i < tracks.len() ==> marked.contains((#[trigger] tracks[i]).id)
}

/// The registry as mathematics.
pub struct RegistryView {
    pub albums: Map<AlbumID, AlbumView>,
    pub listens: Map<AlbumID, Set<TrackID>>,
}

impl RegistryView {
    /// Each album stands under its own identifier, holds only playable
    /// tracks with distinct identifiers, and has a finite set of marked
    /// tracks beside it.
    pub open spec fn wf(self) -> bool {
        &&& self.albums.dom() == self.listens.dom()
        &&& forall|id: AlbumID| #[trigger]
            self.albums.contains_key(id) ==> {
                &&& self.albums[id].id == id
                &&& all_valid(self.albums[id].tracks)
                &&& distinct_ids(self.albums[id].tracks)
                &&& self.listens[id].finite()
            }
    }

    /// Whether the registry has the track under the album.
    pub open spec fn has_track(self, album: AlbumID, track: TrackID) -> bool {
        self.albums.contains_key(album) && has_id(self.albums[album].tracks, track)
    }

    /// The registry after an album was offered to it.
    pub open spec fn after_insert(self, album: AlbumView, outcome: Inserted) -> RegistryView {
        match outcome {
            Inserted::Stored => RegistryView {
                albums: self.albums.insert(album.id, album.playable()),
                listens: self.listens.insert(album.id, Set::empty()),
            },
            Inserted::Heard => self,
            Inserted::Collision => self,
        }
    }

    /// What becomes of an album that is offered: one that was heard whole is
    /// passed over, one whose identifier is taken collides, any other is
    /// stored.
    pub open spec fn insert_outcome(self, album: AlbumView, heard_albums: Set<AlbumID>) -> Inserted {
        if heard_albums.contains(album.id) {
            Inserted::Heard
        } else if self.albums.contains_key(album.id) {
            Inserted::Collision
        } else {
            Inserted::Stored
        }
    }

    /// The registry after a track of an album was marked.
    pub open spec fn after_listen(self, album: AlbumID, track: TrackID) -> RegistryView {
        if self.albums.contains_key(album) {
            RegistryView {
                albums: self.albums,
                listens: self.listens.insert(album, self.listens[album].insert(track)),
            }
        } else {
            self
        }
    }

    /// Whether the album is in the registry and heard whole.
    pub open spec fn album_heard(self, album: AlbumID) -> bool {
        self.albums.contains_key(album) && fully_heard(
            self.albums[album].tracks,
            self.listens[album],
        )
    }
}

/// What became of an album that was offered to the registry.
#[derive(Clone, Copy, Debug, PartialEq, Eq, Structural)]
pub enum Inserted {
    /// The album is now in the registry.
    Stored,
    /// The album was heard whole before; the registry passed it over.
    Heard,
    /// An album with this identifier is in the registry already; it stays.
    Collision,
}

/// The albums that were fetched and the tracks marked in each.
pub struct Registry {
    albums: DashMap<u32, Album>,
    listens: DashMap<u32, BTreeSet<u32>>,
}

impl View for Registry {
    type V = RegistryView;

    closed spec fn view(&self) -> RegistryView {
        RegistryView { albums: held_albums(self.albums), listens: held_listens(self.listens) }
    }
}

impl Registry {
    pub fn new() -> (r: Self)
        ensures
            r@.wf(),
            r@.albums == Map::<AlbumID, AlbumView>::empty(),
            r@.listens == Map::<AlbumID, Set<TrackID>>::empty(),
    {
        let r = Registry { albums: albums_new(), listens: listens_new() };
        assert(r@.albums.dom() =~= r@.listens.dom());
        r
    }

    /// Offers an album. It is stored, with only its playable tracks and with
    /// no track marked, unless it was heard whole before or its identifier is
    /// taken.
    pub fn insert(&mut self, album: Album, history: &ListenHistory) -> (outcome: Inserted)
        requires
            old(self)@.wf(),
        ensures
            final(self)@.wf(),
            outcome == old(self)@.insert_outcome(album@, history@.heard_albums),
            final(self)@ == old(self)@.after_insert(album@, outcome),
    {
        let id = album.id;
        if history.contains_album(id) {
            return Inserted::Heard;
        }
        if albums_contains(&self.albums, id) {
            return Inserted::Collision;
        }
        let ghost offered = album@;
        let ghost before = self@;
        let kept = album.retain_playable();
        proof {
            lemma_playable_valid(offered.tracks);
        }
        let n = kept.tracks.len();
        albums_insert(&mut self.albums, id, kept);
        listens_insert(&mut self.listens, id, BTreeSet::new());
        assert(self@.albums.dom() =~= self@.listens.dom());
        assert(self@ == before.after_insert(offered, Inserted::Stored));
        assert forall|other: AlbumID| #[trigger] self@.albums.contains_key(other) implies {
            &&& self@.albums[other].id == other
            &&& all_valid(self@.albums[other].tracks)
            &&& distinct_ids(self@.albums[other].tracks)
            &&& self@.listens[other].finite()
        } by {
            if other != id {
                assert(before.albums.contains_key(other));
            }
        }
        Inserted::Stored
    }

    /// Whether an album with this identifier is in the registry.
    pub fn contains(&self, id: AlbumID) -> (r: bool)
        ensures
            r == self@.albums.contains_key(id),
    {
        albums_contains(&self.albums, id)
    }

    /// A copy of the album with this identifier.
    pub fn get(&self, id: AlbumID) -> (r: Option<Album>)
        ensures
            match r {
                Some(album) => self@.albums.contains_key(id) && album@ == self@.albums[id],
                None => !self@.albums.contains_key(id),
            },
    {
        albums_get(&self.albums, id)
    }

    /// The number of albums in the registry.
    pub fn len(&self) -> (n: usize)
        ensures
            n == self@.albums.dom().len(),
    {
        albums_len(&self.albums)
    }

    /// Marks a track of an album and says whether the album is now heard
    /// whole. An album that is not in the registry has nothing marked.
    pub fn record_listen(&mut self, album_id: AlbumID, track_id: TrackID) -> (heard: bool)
        requires
            old(self)@.wf(),
        ensures
            final(self)@.wf(),
            final(self)@ == old(self)@.after_listen(album_id, track_id),
            heard == final(self)@.album_heard(album_id),
    {
        broadcast use {group_btree_axioms, group_laws_cmp};

        let ghost before = self@;
        let album = match albums_get(&self.albums, album_id) {
            Some(album) => album,
            None => {
                return false;
            },
        };
        assert(before.listens.dom().contains(album_id));
        let mut marked = match listens_remove(&mut self.listens, album_id) {
            Some(marked) => marked,
            None => BTreeSet::new(),
        };
        marked.insert(track_id);
        let n = album.tracks.len();
        let mut heard = marked.len() == n;
        let mut i: usize = 0;
        while i < n
            invariant
                n == album.tracks@.len(),
                i <= n,
                heard == (marked@.len() == n && forall|j: int|
                    0 <= j < i ==> marked@.contains((#[trigger] album.tracks@[j]).id)),
            decreases n - i,
        {
            if !marked.contains(&album.tracks.at(i).id) {
                heard = false;
            }
            i += 1;
        }
        listens_insert(&mut self.listens, album_id, marked);
        assert(self@.listens =~= before.listens.insert(
            album_id,
            before.listens[album_id].insert(track_id),
        ));
        assert(self@.albums.dom() =~= self@.listens.dom());
        assert forall|other: AlbumID| #[trigger] self@.albums.contains_key(other) implies {
            &&& self@.albums[other].id == other
            &&& all_valid(self@.albums[other].tracks)
            &&& distinct_ids(self@.albums[other].tracks)
            &&& self@.listens[other].finite()
        } by {
            assert(before.albums.contains_key(other));
        }
        heard
    }
}

} // verus!
