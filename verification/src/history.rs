//! The listen history: which tracks and albums were heard, and where the
//! listener stood.

use std::collections::HashSet;
use vstd::bytes::{
    lemma_auto_spec_u32_to_from_le_bytes,
    lemma_auto_spec_u64_to_from_le_bytes,
    spec_u32_from_le_bytes,
    spec_u32_to_le_bytes,
    spec_u64_from_le_bytes,
    spec_u64_to_le_bytes,
    u32_from_le_bytes,
    u32_to_le_bytes,
    u64_from_le_bytes,
    u64_to_le_bytes,
};
use vstd::prelude::*;
use vstd::slice::slice_subrange;
use vstd::std_specs::hash::*;
use vstd::std_specs::iter::IteratorSpec;
use crate::models::{AlbumID, TrackID};

verus! {

/// The history as mathematics.
pub struct HistoryView {
    pub heard_tracks: Set<TrackID>,
    pub heard_albums: Set<AlbumID>,
    pub cursor: nat,
}

impl HistoryView {
    /// The history in which nothing was heard.
    pub open spec fn empty() -> HistoryView {
        HistoryView { heard_tracks: Set::empty(), heard_albums: Set::empty(), cursor: 0 }
    }

    /// The history after a track was heard.
    pub open spec fn with_track(self, id: TrackID) -> HistoryView {
        HistoryView { heard_tracks: self.heard_tracks.insert(id), ..self }
    }

    /// The history after a whole album was heard.
    pub open spec fn with_album(self, id: AlbumID) -> HistoryView {
        HistoryView { heard_albums: self.heard_albums.insert(id), ..self }
    }

    /// Everything heard in `self` is heard in `later` too.
    pub open spec fn grows_into(self, later: HistoryView) -> bool {
        self.heard_tracks.subset_of(later.heard_tracks) && self.heard_albums.subset_of(
            later.heard_albums,
        )
    }
}

/// The sets of heard tracks and albums and the last position of the listener.
pub struct ListenHistory {
    track_ids: HashSet<u32>,
    album_ids: HashSet<u32>,
    last_cursor: usize,
}

impl View for ListenHistory {
    type V = HistoryView;

    closed spec fn view(&self) -> HistoryView {
        HistoryView {
            heard_tracks: self.track_ids@,
            heard_albums: self.album_ids@,
            cursor: self.last_cursor as nat,
        }
    }
}

impl ListenHistory {
    /// A history in which nothing was heard.
    pub fn new() -> (r: Self)
        ensures
            r@ == HistoryView::empty(),
    {
        ListenHistory { track_ids: HashSet::new(), album_ids: HashSet::new(), last_cursor: 0 }
    }

    /// Records a track as heard. Says whether the history changed by it.
    pub fn mark_track(&mut self, id: TrackID) -> (fresh: bool)
        ensures
            final(self)@ == old(self)@.with_track(id),
            fresh == !old(self)@.heard_tracks.contains(id),
    {
        broadcast use group_hash_axioms;

        self.track_ids.insert(id)
    }

    /// Records an album as heard. Says whether the history changed by it.
    pub fn mark_album(&mut self, id: AlbumID) -> (fresh: bool)
        ensures
            final(self)@ == old(self)@.with_album(id),
            fresh == !old(self)@.heard_albums.contains(id),
    {
        broadcast use group_hash_axioms;

        self.album_ids.insert(id)
    }

    pub fn contains_track(&self, id: TrackID) -> (r: bool)
        ensures
            r == self@.heard_tracks.contains(id),
    {
        broadcast use group_hash_axioms;

        self.track_ids.contains(&id)
    }

    pub fn contains_album(&self, id: AlbumID) -> (r: bool)
        ensures
            r == self@.heard_albums.contains(id),
    {
        broadcast use group_hash_axioms;

        self.album_ids.contains(&id)
    }

    /// The position the listener was last known to stand at.
    pub fn cursor(&self) -> (r: usize)
        ensures
            r == self@.cursor,
    {
        self.last_cursor
    }

    /// Remembers the position of the listener.
    pub fn set_cursor(&mut self, position: usize)
        ensures
            final(self)@ == (HistoryView { cursor: position as nat, ..old(self)@ }),
    {
        self.last_cursor = position;
    }

    /// The number of heard tracks.
    pub fn heard_track_count(&self) -> (n: usize)
        ensures
            n == self@.heard_tracks.len(),
    {
        broadcast use group_hash_axioms;

        self.track_ids.len()
    }

    /// The number of heard albums.
    pub fn heard_album_count(&self) -> (n: usize)
        ensures
            n == self@.heard_albums.len(),
    {
        broadcast use group_hash_axioms;

        self.album_ids.len()
    }
}

impl Default for ListenHistory {
    fn default() -> (r: Self)
        ensures
            r@ == HistoryView::empty(),
    {
        ListenHistory::new()
    }
}

/// The members of a set, each once, in the order in which the set hands them
/// out.
pub fn members(set: &HashSet<u32>) -> (r: Vec<u32>)
    ensures
        r@.to_set() == set@,
        r@.no_duplicates(),
{
    broadcast use group_hash_axioms;

    let ghost all = spec_hash_keys_iter(set).remaining();
    let mut out: Vec<u32> = Vec::new();
    for id in iter: set.iter()
        invariant
            iter.seq() == all,
            out@.len() == iter.index(),
            forall|k: int| 0 <= k < out@.len() ==> out@[k] == *(#[trigger] all[k]),
    {
        out.push(*id);
    }
    assert(out@ =~= all.unref());
    assert(out@.no_duplicates()) by {
        assert forall|i: int, j: int| 0 <= i < out@.len() && 0 <= j < out@.len() && i != j implies
            out@[i] != out@[j] by {
            assert(all[i] != all[j]);
        }
    }
    out
}

/// The version of the record that has no albums.
pub const VERSION_TRACKS_ONLY: u32 = 0;

/// The version of the record that has tracks and albums.
pub const VERSION_WITH_ALBUMS: u32 = 1;

/// The length of what stands before the tracks of a record: the version in
/// four bytes, the cursor in eight and the number of tracks in eight.
pub const HEADER_LEN: usize = 20;

/// The 32-bit number that stands at an offset, low byte first.
pub open spec fn word(bytes: Seq<u8>, at: int) -> u32 {
    spec_u32_from_le_bytes(bytes.subrange(at, at + 4))
}

/// The 64-bit number that stands at an offset, low byte first.
pub open spec fn long(bytes: Seq<u8>, at: int) -> u64 {
    spec_u64_from_le_bytes(bytes.subrange(at, at + 8))
}

/// The identifiers that stand in `n` words from an offset on, as a set.
pub open spec fn ids_at(bytes: Seq<u8>, at: int, n: int) -> Set<u32> {
    Set::new(|id: u32| exists|i: int| 0 <= i < n && id == #[trigger] word(bytes, at + 4 * i))
}

/// The history that a record holds. A record is the version, the cursor, the
/// number of tracks and the tracks, and from the second version on the number
/// of albums and the albums, with nothing before, between or after them. A
/// record of the first version holds no albums.
pub open spec fn parsed(bytes: Seq<u8>) -> Option<HistoryView> {
    if bytes.len() < HEADER_LEN {
        None
    } else {
        let version = word(bytes, 0);
        let cursor = long(bytes, 4);
        let n = long(bytes, 12) as int;
        let rest = HEADER_LEN + 4 * n;
        if version > VERSION_WITH_ALBUMS || cursor > usize::MAX || bytes.len() < rest {
            None
        } else if version == VERSION_TRACKS_ONLY {
            if bytes.len() == rest {
                Some(
                    HistoryView {
                        heard_tracks: ids_at(bytes, HEADER_LEN as int, n),
                        heard_albums: Set::empty(),
                        cursor: cursor as nat,
                    },
                )
            } else {
                None
            }
        } else if bytes.len() < rest + 8 {
            None
        } else {
            let m = long(bytes, rest) as int;
            if bytes.len() != rest + 8 + 4 * m {
                None
            } else {
                Some(
                    HistoryView {
                        heard_tracks: ids_at(bytes, HEADER_LEN as int, n),
                        heard_albums: ids_at(bytes, rest + 8, m),
                        cursor: cursor as nat,
                    },
                )
            }
        }
    }
}

/// Identifiers written one after the other, each in four bytes.
pub open spec fn ids_bytes(ids: Seq<u32>) -> Seq<u8>
    decreases ids.len(),
{
    if ids.len() == 0 {
        Seq::empty()
    } else {
        ids_bytes(ids.drop_last()) + spec_u32_to_le_bytes(ids.last())
    }
}

/// The record of the second version for a cursor, tracks and albums.
pub open spec fn record(cursor: u64, tracks: Seq<u32>, albums: Seq<u32>) -> Seq<u8> {
    spec_u32_to_le_bytes(VERSION_WITH_ALBUMS) + spec_u64_to_le_bytes(cursor) + spec_u64_to_le_bytes(
        tracks.len() as u64,
    ) + ids_bytes(tracks) + spec_u64_to_le_bytes(albums.len() as u64) + ids_bytes(albums)
}

/// The record of the first version for a cursor and tracks.
pub open spec fn record_tracks_only(cursor: u64, tracks: Seq<u32>) -> Seq<u8> {
    spec_u32_to_le_bytes(VERSION_TRACKS_ONLY) + spec_u64_to_le_bytes(cursor) + spec_u64_to_le_bytes(
        tracks.len() as u64,
    ) + ids_bytes(tracks)
}

/// Written identifiers take four bytes each, and each stands at four times
/// its position.
pub proof fn lemma_ids_bytes(ids: Seq<u32>)
    ensures
        ids_bytes(ids).len() == 4 * ids.len(),
        forall|i: int|
            0 <= i < ids.len() ==> #[trigger] ids_bytes(ids).subrange(4 * i, 4 * i + 4)
                == spec_u32_to_le_bytes(ids[i]),
    decreases ids.len(),
{
    lemma_auto_spec_u32_to_from_le_bytes();
    if ids.len() > 0 {
        let head = ids.drop_last();
        lemma_ids_bytes(head);
        let all = ids_bytes(ids);
        assert forall|i: int| 0 <= i < ids.len() implies #[trigger] all.subrange(4 * i, 4 * i + 4)
            == spec_u32_to_le_bytes(ids[i]) by {
            if i < head.len() {
                assert(all.subrange(4 * i, 4 * i + 4) =~= ids_bytes(head).subrange(
                    4 * i,
                    4 * i + 4,
                ));
                assert(head[i] == ids[i]);
            } else {
                assert(all.subrange(4 * i, 4 * i + 4) =~= spec_u32_to_le_bytes(ids.last()));
            }
        }
    }
}

/// The identifiers read back from where they were written are the
/// identifiers that were written.
pub proof fn lemma_ids_at(bytes: Seq<u8>, at: int, ids: Seq<u32>)
    requires
        0 <= at,
        at + 4 * ids.len() <= bytes.len(),
        bytes.subrange(at, at + 4 * ids.len()) == ids_bytes(ids),
    ensures
        ids_at(bytes, at, ids.len() as int) == ids.to_set(),
{
    lemma_auto_spec_u32_to_from_le_bytes();
    lemma_ids_bytes(ids);
    let written = ids_bytes(ids);
    assert forall|i: int| 0 <= i < ids.len() implies #[trigger] word(bytes, at + 4 * i)
        == ids[i] by {
        assert(bytes.subrange(at + 4 * i, at + 4 * i + 4) =~= written.subrange(4 * i, 4 * i + 4));
    }
    assert(ids_at(bytes, at, ids.len() as int) =~= ids.to_set()) by {
        assert forall|id: u32| ids.to_set().contains(id) implies ids_at(
            bytes,
            at,
            ids.len() as int,
        ).contains(id) by {
            let i = choose|i: int| 0 <= i < ids.len() && ids[i] == id;
            assert(word(bytes, at + 4 * i) == id);
        }
        assert forall|id: u32| ids_at(bytes, at, ids.len() as int).contains(id) implies ids.to_set().contains(
            id,
        ) by {
            let i = choose|i: int| 0 <= i < ids.len() && id == #[trigger] word(bytes, at + 4 * i);
            assert(ids[i] == id);
            assert(ids.contains(id));
        }
    }
}

/// Reading a record of the second version gives back the cursor, the tracks
/// and the albums that were written.
pub proof fn law_record_round_trip(cursor: u64, tracks: Seq<u32>, albums: Seq<u32>)
    requires
        cursor <= usize::MAX,
        tracks.len() <= u64::MAX,
        albums.len() <= u64::MAX,
    ensures
        parsed(record(cursor, tracks, albums)) == Some(
            HistoryView {
                heard_tracks: tracks.to_set(),
                heard_albums: albums.to_set(),
                cursor: cursor as nat,
            },
        ),
{
    lemma_auto_spec_u32_to_from_le_bytes();
    lemma_auto_spec_u64_to_from_le_bytes();
    lemma_ids_bytes(tracks);
    lemma_ids_bytes(albums);
    let bytes = record(cursor, tracks, albums);
    let n = tracks.len() as int;
    let m = albums.len() as int;
    let rest = 20 + 4 * n;
    assert(bytes.len() == rest + 8 + 4 * m);
    assert(bytes.subrange(0, 4) =~= spec_u32_to_le_bytes(VERSION_WITH_ALBUMS));
    assert(bytes.subrange(4, 12) =~= spec_u64_to_le_bytes(cursor));
    assert(bytes.subrange(12, 20) =~= spec_u64_to_le_bytes(tracks.len() as u64));
    assert(bytes.subrange(20, rest) =~= ids_bytes(tracks));
    assert(bytes.subrange(rest, rest + 8) =~= spec_u64_to_le_bytes(albums.len() as u64));
    assert(bytes.subrange(rest + 8, rest + 8 + 4 * m) =~= ids_bytes(albums));
    lemma_ids_at(bytes, 20, tracks);
    lemma_ids_at(bytes, rest + 8, albums);
}

/// Reading a record of the first version gives the cursor and the tracks that
/// were written, and no albums.
pub proof fn law_record_tracks_only_upgrades(cursor: u64, tracks: Seq<u32>)
    requires
        cursor <= usize::MAX,
        tracks.len() <= u64::MAX,
    ensures
        parsed(record_tracks_only(cursor, tracks)) == Some(
            HistoryView {
                heard_tracks: tracks.to_set(),
                heard_albums: Set::empty(),
                cursor: cursor as nat,
            },
        ),
{
    lemma_auto_spec_u32_to_from_le_bytes();
    lemma_auto_spec_u64_to_from_le_bytes();
    lemma_ids_bytes(tracks);
    let bytes = record_tracks_only(cursor, tracks);
    let n = tracks.len() as int;
    let rest = 20 + 4 * n;
    assert(bytes.len() == rest);
    assert(bytes.subrange(0, 4) =~= spec_u32_to_le_bytes(VERSION_TRACKS_ONLY));
    assert(bytes.subrange(4, 12) =~= spec_u64_to_le_bytes(cursor));
    assert(bytes.subrange(12, 20) =~= spec_u64_to_le_bytes(tracks.len() as u64));
    assert(bytes.subrange(20, rest) =~= ids_bytes(tracks));
    lemma_ids_at(bytes, 20, tracks);
}

/// Writes identifiers after what is written already.
fn write_ids(out: &mut Vec<u8>, ids: &Vec<u32>)
    ensures
        final(out)@ == old(out)@ + ids_bytes(ids@),
{
    let ghost start = out@;
    let n = ids.len();
    let mut i: usize = 0;
    assert(ids@.subrange(0, 0) =~= Seq::<u32>::empty());
    assert(start + ids_bytes(Seq::<u32>::empty()) =~= start);
    while i < n
        invariant
            n == ids@.len(),
            i <= n,
            out@ == start + ids_bytes(ids@.subrange(0, i as int)),
        decreases n - i,
    {
        let word = u32_to_le_bytes(ids[i]);
        let ghost before = out@;
        out.extend_from_slice(word.as_slice());
        proof {
            let longer = ids@.subrange(0, i as int + 1);
            assert(longer.drop_last() =~= ids@.subrange(0, i as int));
            assert(longer.last() == ids@[i as int]);
            assert(out@ =~= start + ids_bytes(longer));
        }
        i += 1;
    }
    assert(ids@.subrange(0, n as int) =~= ids@);
}

/// Reads `n` identifiers from an offset on.
fn read_ids(bytes: &[u8], at: usize, n: usize) -> (r: HashSet<u32>)
    requires
        at + 4 * n <= bytes@.len(),
    ensures
        r@ == ids_at(bytes@, at as int, n as int),
{
    broadcast use group_hash_axioms;

    let len = bytes.len();
    let mut set: HashSet<u32> = HashSet::new();
    let mut i: usize = 0;
    assert(set@ =~= ids_at(bytes@, at as int, 0));
    while i < n
        invariant
            at + 4 * n <= bytes@.len(),
            bytes@.len() == len,
            i <= n,
            set@ == ids_at(bytes@, at as int, i as int),
        decreases n - i,
    {
        let from = at + 4 * i;
        let id = u32_from_le_bytes(slice_subrange(bytes, from, from + 4));
        let ghost before = set@;
        set.insert(id);
        proof {
            assert(id == word(bytes@, at + 4 * i));
            assert(set@ =~= ids_at(bytes@, at as int, i as int + 1)) by {
                assert forall|x: u32| ids_at(bytes@, at as int, i as int + 1).contains(
                    x,
                ) implies set@.contains(x) by {
                    let k = choose|k: int|
                        0 <= k < i + 1 && x == #[trigger] word(bytes@, at + 4 * k);
                    if k < i {
                        assert(before.contains(x));
                    }
                }
                assert forall|x: u32| set@.contains(x) implies ids_at(
                    bytes@,
                    at as int,
                    i as int + 1,
                ).contains(x) by {
                    if x == id {
                        assert(x == word(bytes@, at + 4 * (i as int)));
                    } else {
                        let k = choose|k: int|
                            0 <= k < i && x == #[trigger] word(bytes@, at + 4 * k);
                        assert(x == word(bytes@, at + 4 * k));
                    }
                }
            }
        }
        i += 1;
    }
    set
}

impl ListenHistory {
    /// Writes the history as a record of the second version. Reading the
    /// record gives the history back.
    pub fn to_bytes(&self) -> (r: Vec<u8>)
        ensures
            parsed(r@) == Some(self@),
    {
        let tracks = members(&self.track_ids);
        let albums = members(&self.album_ids);
        let cursor = self.last_cursor as u64;
        let mut out = u32_to_le_bytes(VERSION_WITH_ALBUMS);
        let c = u64_to_le_bytes(cursor);
        out.extend_from_slice(c.as_slice());
        let n = u64_to_le_bytes(tracks.len() as u64);
        out.extend_from_slice(n.as_slice());
        write_ids(&mut out, &tracks);
        let m = u64_to_le_bytes(albums.len() as u64);
        out.extend_from_slice(m.as_slice());
        write_ids(&mut out, &albums);
        proof {
            assert(out@ =~= record(cursor, tracks@, albums@));
            law_record_round_trip(cursor, tracks@, albums@);
        }
        out
    }

    /// Reads a history from a record of either version. Gives `None` for
    /// bytes that are no record.
    pub fn from_bytes(bytes: &[u8]) -> (r: Option<ListenHistory>)
        ensures
            match r {
                Some(history) => parsed(bytes@) == Some(history@),
                None => parsed(bytes@).is_none(),
            },
    {
        let len = bytes.len();
        if len < HEADER_LEN {
            return None;
        }
        let version = u32_from_le_bytes(slice_subrange(bytes, 0, 4));
        let cursor = u64_from_le_bytes(slice_subrange(bytes, 4, 12));
        let n = u64_from_le_bytes(slice_subrange(bytes, 12, 20));
        if version > VERSION_WITH_ALBUMS || cursor > usize::MAX as u64 {
            return None;
        }
        if n > ((len - HEADER_LEN) / 4) as u64 {
            return None;
        }
        let n = n as usize;
        let rest = HEADER_LEN + 4 * n;
        let track_ids = read_ids(bytes, HEADER_LEN, n);
        if version == VERSION_TRACKS_ONLY {
            if len != rest {
                return None;
            }
            return Some(
                ListenHistory {
                    track_ids,
                    album_ids: HashSet::new(),
                    last_cursor: cursor as usize,
                },
            );
        }
        if len - rest < 8 {
            return None;
        }
        let m = u64_from_le_bytes(slice_subrange(bytes, rest, rest + 8));
        let room = len - rest - 8;
        if m > (room / 4) as u64 || (m as usize) * 4 != room {
            return None;
        }
        let album_ids = read_ids(bytes, rest + 8, m as usize);
        Some(ListenHistory { track_ids, album_ids, last_cursor: cursor as usize })
    }

    /// The history that was stored, or one in which nothing was heard where
    /// nothing was stored or what was stored is no record.
    pub fn load_or_default(stored: Option<&[u8]>) -> (r: ListenHistory)
        ensures
            r@ == match stored {
                Some(bytes) => match parsed(bytes@) {
                    Some(history) => history,
                    None => HistoryView::empty(),
                },
                None => HistoryView::empty(),
            },
    {
        match stored {
            Some(bytes) => match ListenHistory::from_bytes(bytes) {
                Some(history) => history,
                None => ListenHistory::new(),
            },
            None => ListenHistory::new(),
        }
    }
}

} // verus!
