//! What holds of the player whatever it is asked to do. Each function here is
//! a theorem about the descriptions that the contracts of the player's
//! functions use.

use vstd::prelude::*;
use crate::discovery::{
    heard_count,
    index_after_all,
    outcomes_fit,
    ALBUM_QUEUE_CAPACITY,
    Discovery,
    DiscoveryView,
    LONG_REST_MS,
    POLL_MS,
    URL_QUEUE_CAPACITY,
    album_queued,
    album_taken,
    albums_pace,
    all_heard,
    cursor_after_next,
    cursor_after_previous,
    expanded,
    marked,
    tracks_pace,
};
use crate::index::{Admission, IndexView};
use crate::models::{
    inserted,
    AlbumID,
    AlbumView,
    TrackID,
    TrackView,
    distinct_ids,
    has_id,
    id_set,
    lemma_position_of,
};
use crate::registry::fully_heard;
use crate::spider::{ld_album, ld_all_tracks, ld_item_track, ld_single_track, ld_tracks};

verus! {

/// Every position of the filtered list leads somewhere: its slot is in the
/// master list, the album of that slot is in the registry, the album has the
/// track, and looking the position up finds an entry.
pub proof fn law_filtered_positions_resolve(v: DiscoveryView, p: int)
    requires
        v.wf(),
        0 <= p < v.index.filtered.len(),
    ensures
        v.index.master.contains_key(v.index.filtered[p]),
        v.index.ref_at(p) == Some(v.index.master[v.index.filtered[p]]),
        v.registry.has_track(
            v.index.master[v.index.filtered[p]].0,
            v.index.master[v.index.filtered[p]].1,
        ),
        v.track_at(p).is_some(),
        v.lookup(p) is Found,
{
    let slot = v.index.filtered[p];
    assert(v.index.master.contains_key(slot));
    let (album, track) = v.index.master[slot];
    assert(v.registry.has_track(album, track));
    lemma_position_of(v.registry.albums[album].tracks, track);
}

/// A step of the listener.
pub enum Move {
    Next,
    Previous,
}

/// The player after one step of the listener.
pub open spec fn moved(v: DiscoveryView, m: Move) -> DiscoveryView {
    match m {
        Move::Next => DiscoveryView { cursor: cursor_after_next(v), ..v },
        Move::Previous => DiscoveryView { cursor: cursor_after_previous(v), ..v },
    }
}

/// The player after a sequence of steps.
pub open spec fn walked(v: DiscoveryView, moves: Seq<Move>) -> DiscoveryView
    decreases moves.len(),
{
    if moves.len() == 0 {
        v
    } else {
        moved(walked(v, moves.drop_last()), moves.last())
    }
}

/// The positions the cursor stood at before, between and after the steps.
pub open spec fn visited(v: DiscoveryView, moves: Seq<Move>) -> Set<nat>
    decreases moves.len(),
{
    if moves.len() == 0 {
        set![v.cursor]
    } else {
        visited(v, moves.drop_last()).insert(walked(v, moves).cursor)
    }
}

/// A set of positions without a gap.
pub open spec fn connected(s: Set<nat>) -> bool {
    forall|a: nat, b: nat, c: nat| s.contains(a) && s.contains(c) && a <= b <= c ==> s.contains(b)
}

/// A step of the listener keeps the player sound and moves the cursor by one
/// position at most.
pub proof fn law_step_keeps_cursor_in_reach(v: DiscoveryView, m: Move)
    requires
        v.wf(),
    ensures
        moved(v, m).wf(),
        moved(v, m).cursor <= v.index.cap(),
        moved(v, m).cursor <= v.cursor + 1,
        v.cursor <= moved(v, m).cursor + 1,
{
    let w = moved(v, m);
    assert(w.index == v.index && w.registry == v.registry && w.albums == v.albums);
}

/// Whatever steps the listener takes, the positions the cursor visits lie
/// between zero and the highest position of the filtered list and have no gap
/// between them, and the cursor ends on one of them.
pub proof fn law_cursor_visits_connected_positions(v: DiscoveryView, moves: Seq<Move>)
    requires
        v.wf(),
    ensures
        walked(v, moves).wf(),
        walked(v, moves).index == v.index,
        visited(v, moves).contains(walked(v, moves).cursor),
        forall|p: nat| visited(v, moves).contains(p) ==> p <= v.index.cap(),
        connected(visited(v, moves)),
    decreases moves.len(),
{
    if moves.len() > 0 {
        let head = moves.drop_last();
        law_cursor_visits_connected_positions(v, head);
        let w = walked(v, head);
        law_step_keeps_cursor_in_reach(w, moves.last());
        let before = visited(v, head);
        let n = walked(v, moves).cursor;
        let m = w.cursor;
        assert(before.contains(m));
        assert forall|a: nat, b: nat, c: nat|
            visited(v, moves).contains(a) && visited(v, moves).contains(c) && a <= b
                <= c implies visited(v, moves).contains(b) by {
            if b != n {
                let lo = if a == n {
                    m
                } else {
                    a
                };
                let hi = if c == n {
                    m
                } else {
                    c
                };
                assert(before.contains(lo) && before.contains(hi));
                if lo <= b <= hi {
                    assert(before.contains(b));
                } else if b < lo {
                    assert(a == n && b == m);
                } else {
                    assert(c == n && b == m);
                }
            }
        }
    }
}

/// Marking puts the track under the cursor into the history.
pub proof fn law_mark_records_track(v: DiscoveryView)
    requires
        v.wf(),
        v.cursor < v.index.filtered.len(),
    ensures
        v.track_at(v.cursor as int).is_some(),
        marked(v).history.heard_tracks.contains(v.track_at(v.cursor as int).unwrap().1),
{
    law_filtered_positions_resolve(v, v.cursor as int);
}

/// Marking twice at one position is marking once.
pub proof fn law_mark_twice_is_once(v: DiscoveryView)
    ensures
        marked(marked(v)) == marked(v),
{
    match v.track_at(v.cursor as int) {
        Some((album, track)) => {
            let once = marked(v);
            assert(once.index == v.index);
            assert(once.registry.albums == v.registry.albums);
            assert(once.track_at(once.cursor as int) == Some((album, track)));
            let again = marked(once);
            let marks = v.registry.listens[album].insert(track);
            assert(once.registry.listens[album] == marks);
            assert(marks.insert(track) =~= marks);
            assert(again.registry.listens =~= once.registry.listens);
            assert(again.registry == once.registry);
            assert(again.history.heard_tracks =~= once.history.heard_tracks);
            assert(again.history.heard_albums =~= once.history.heard_albums);
            assert(again.history == once.history);
        },
        None => {},
    }
}

/// The identifiers of tracks with distinct identifiers are as many as the
/// tracks.
pub proof fn lemma_id_set_len(tracks: Seq<TrackView>)
    requires
        distinct_ids(tracks),
    ensures
        id_set(tracks).finite(),
        id_set(tracks).len() == tracks.len(),
    decreases tracks.len(),
{
    if tracks.len() == 0 {
        assert(id_set(tracks) =~= Set::<TrackID>::empty());
    } else {
        let head = tracks.drop_last();
        let last = tracks.last();
        assert forall|i: int, j: int| 0 <= i < j < head.len() implies (#[trigger] head[i]).id != (
        #[trigger] head[j]).id by {
            assert(tracks[i].id != tracks[j].id);
        }
        lemma_id_set_len(head);
        assert(!id_set(head).contains(last.id)) by {
            if has_id(head, last.id) {
                let k = choose|k: int| 0 <= k < head.len() && (#[trigger] head[k]).id == last.id;
                assert(tracks[k].id != tracks[tracks.len() - 1].id);
            }
        }
        assert(id_set(tracks) =~= id_set(head).insert(last.id)) by {
            assert forall|id: TrackID| id_set(tracks).contains(id) implies id_set(head).insert(
                last.id,
            ).contains(id) by {
                let k = choose|k: int| 0 <= k < tracks.len() && (#[trigger] tracks[k]).id == id;
                if k < head.len() {
                    assert(head[k].id == id);
                }
            }
            assert forall|id: TrackID| id_set(head).insert(last.id).contains(id) implies id_set(
                tracks,
            ).contains(id) by {
                if id == last.id {
                    assert(tracks[tracks.len() - 1].id == id);
                } else {
                    let k = choose|k: int| 0 <= k < head.len() && (#[trigger] head[k]).id == id;
                    assert(tracks[k].id == id);
                }
            }
        }
    }
}

/// Once the last track of an album that was not marked yet is marked, the
/// album is in the history.
pub proof fn law_album_closes_on_last_mark(v: DiscoveryView, album: AlbumID, track: TrackID)
    requires
        v.wf(),
        v.track_at(v.cursor as int) == Some((album, track)),
        forall|i: int|
            0 <= i < v.registry.albums[album].tracks.len() ==> {
                let id = (#[trigger] v.registry.albums[album].tracks[i]).id;
                id == track || v.registry.listens[album].contains(id)
            },
    ensures
        marked(v).registry.album_heard(album),
        marked(v).history.heard_albums.contains(album),
        marked(v).history.heard_tracks.contains(track),
{
    let tracks = v.registry.albums[album].tracks;
    let marks = v.registry.listens[album].insert(track);
    assert(v.registry.albums.contains_key(album));
    assert(v.registry.listens.dom().contains(album));
    lemma_id_set_len(tracks);
    assert(marks =~= id_set(tracks)) by {
        assert forall|id: TrackID| marks.contains(id) implies id_set(tracks).contains(id) by {
            if id != track {
                assert(v.registry.listens[album].contains(id));
            }
        }
        assert forall|id: TrackID| id_set(tracks).contains(id) implies marks.contains(id) by {
            let k = choose|k: int| 0 <= k < tracks.len() && (#[trigger] tracks[k]).id == id;
        }
    }
    assert(marked(v).registry.listens[album] == marks);
    assert(fully_heard(tracks, marks)) by {
        assert forall|i: int| 0 <= i < tracks.len() implies marks.contains(
            (#[trigger] tracks[i]).id,
        ) by {
            assert(has_id(tracks, tracks[i].id));
        }
    }
}

/// An album of which every track was heard before it was expanded is in the
/// history after the expansion.
pub proof fn law_album_closes_on_expansion(v: DiscoveryView, outcomes: Seq<Admission>)
    requires
        v.albums.len() > 0,
        all_heard(v.registry.albums[v.albums[0]].tracks, v.history.heard_tracks),
    ensures
        expanded(v, outcomes).history.heard_albums.contains(v.albums[0]),
{
}

/// An album that is in the history stays out of the registry and out of the
/// album queue when it is fetched again.
pub proof fn law_heard_album_stays_out(v: DiscoveryView, album: AlbumView)
    requires
        v.history.heard_albums.contains(album.id),
    ensures
        album_taken(v, album).registry == v.registry,
        album_taken(v, album).albums == v.albums,
        !album_queued(v, album),
        album_taken(v, album) == v,
{
}

/// Marking and expanding only add to the history.
pub proof fn law_history_only_grows(v: DiscoveryView, outcomes: Seq<Admission>)
    ensures
        v.history.grows_into(marked(v).history),
        v.history.grows_into(expanded(v, outcomes).history),
{
}

/// The two queues never hold more than their capacities.
pub proof fn law_queues_bounded(state: &Discovery)
    requires
        state.wf(),
    ensures
        state@.urls.len() <= URL_QUEUE_CAPACITY,
        state@.albums.len() <= ALBUM_QUEUE_CAPACITY,
{
    state.lemma_wf();
}

/// No stage rests longer than the long rest in one piece, or polls in turns
/// longer than the poll turn, and a stopped player lets no stage rest at all.
pub proof fn law_rests_bounded(v: DiscoveryView)
    ensures
        tracks_pace(v).rest_ms <= LONG_REST_MS,
        tracks_pace(v).poll_ms <= POLL_MS,
        forall|queued: bool| (#[trigger] albums_pace(v, queued)).rest_ms <= LONG_REST_MS,
        forall|queued: bool| (#[trigger] albums_pace(v, queued)).poll_ms <= POLL_MS,
        !v.running ==> tracks_pace(v).rest_ms == 0 && tracks_pace(v).poll_ms == 0
            && forall|queued: bool|
            (#[trigger] albums_pace(v, queued)).rest_ms == 0 && albums_pace(v, queued).poll_ms
                == 0,
{
}

/// Adding the tracks of an album only extends the index: what the filtered
/// list held it holds at the same positions, its highest position does not
/// fall, what the master list held it holds under the same slots, and a
/// sound index stays sound.
pub proof fn law_index_only_grows(
    index: IndexView,
    heard: Set<TrackID>,
    album: AlbumID,
    tracks: Seq<TrackView>,
    outcomes: Seq<Admission>,
)
    requires
        outcomes_fit(index, heard, album, tracks, outcomes),
    ensures
        ({
            let after = index_after_all(index, album, tracks, outcomes);
            &&& index.filtered.len() <= after.filtered.len()
            &&& after.filtered.subrange(0, index.filtered.len() as int) == index.filtered
            &&& index.cap() <= after.cap()
            &&& index.admitted <= after.admitted
            &&& forall|slot: usize| #[trigger]
                index.master.contains_key(slot) ==> after.master.contains_key(slot)
                    && after.master[slot] == index.master[slot]
            &&& index.wf() ==> after.wf()
        }),
    decreases tracks.len(),
{
    let after = index_after_all(index, album, tracks, outcomes);
    if tracks.len() == 0 {
        assert(after.filtered.subrange(0, index.filtered.len() as int) =~= index.filtered);
    } else {
        let before = index_after_all(index, album, tracks.drop_last(), outcomes.drop_last());
        law_index_only_grows(index, heard, album, tracks.drop_last(), outcomes.drop_last());
        assert(after == before.after((album, tracks.last().id), outcomes.last()));
        assert(after.filtered.subrange(0, index.filtered.len() as int) =~= before.filtered.subrange(
            0,
            index.filtered.len() as int,
        ));
        assert forall|slot: usize| #[trigger] index.master.contains_key(slot) implies
            after.master.contains_key(slot) && after.master[slot] == index.master[slot] by {
            assert(before.master.contains_key(slot));
        }
        if index.wf() {
            assert forall|p: int| 0 <= p < after.filtered.len() implies after.master.contains_key(
                #[trigger] after.filtered[p],
            ) by {
                if p < before.filtered.len() {
                    assert(before.master.contains_key(before.filtered[p]));
                }
            }
        }
    }
}

/// Every track of the sequence names the album as its own.
pub open spec fn owned_by(tracks: Seq<TrackView>, album: AlbumID) -> bool {
    forall|i: int| 0 <= i < tracks.len() ==> (#[trigger] tracks[i]).album_id == album
}

/// Putting a track of the album among tracks of the album leaves tracks of
/// the album.
pub proof fn lemma_inserted_owned(tracks: Seq<TrackView>, t: TrackView, album: AlbumID)
    requires
        owned_by(tracks, album),
        t.album_id == album,
    ensures
        owned_by(inserted(tracks, t), album),
{
    lemma_position_of(tracks, t.id);
    let after = inserted(tracks, t);
    assert forall|i: int| 0 <= i < after.len() implies (#[trigger] after[i]).album_id == album by {
        if i < tracks.len() && after[i] == tracks[i] {
        } else {
            assert(after[i] == t);
        }
    }
}

/// The tracks read from the items of a page's linked data belong to the
/// album they are read for.
pub proof fn lemma_listed_tracks_owned(
    items: Seq<Seq<char>>,
    album: AlbumID,
    fallback: Option<AlbumView>,
    n: int,
)
    ensures
        owned_by(ld_tracks(items, album, fallback, n), album),
    decreases n,
{
    if n > 0 {
        lemma_listed_tracks_owned(items, album, fallback, n - 1);
        match ld_item_track(items[n - 1], album, fallback) {
            Some(t) => {
                lemma_inserted_owned(ld_tracks(items, album, fallback, n - 1), t, album);
            },
            None => {},
        }
    }
}

/// An album that is read from a page owns its tracks: each of them carries
/// the album's identifier.
pub proof fn law_scraped_album_owns_its_tracks(json: Seq<char>, fallback: Option<AlbumView>)
    ensures
        match ld_album(json, fallback) {
            Some(album) => owned_by(album.tracks, album.id),
            None => true,
        },
{
    match ld_album(json, fallback) {
        Some(album) => {
            let tracks = ld_all_tracks(json, album.id, fallback);
            assert(tracks == Some(album.tracks));
            let items = crate::json::gjson_array(json, "track.itemListElement"@);
            if items.len() == 0 {
                let one = ld_single_track(json, album.id, fallback);
                assert(album.tracks == seq![one.unwrap()]);
            } else {
                lemma_listed_tracks_owned(items, album.id, fallback, items.len() as int);
            }
        },
        None => {},
    }
}

/// The tracks that were not heard, in their order.
pub open spec fn unheard(tracks: Seq<TrackView>, heard: Set<TrackID>) -> Seq<TrackView> {
    tracks.filter(|t: TrackView| !heard.contains(t.id))
}

/// Whether the two lists took every track: no track was refused and none
/// that was to be listed stayed unlisted.
pub open spec fn all_taken(outcomes: Seq<Admission>) -> bool {
    forall|i: int|
        0 <= i < outcomes.len() ==> (#[trigger] outcomes[i]) is Listed || outcomes[i] is Hidden
}

/// The unheard tracks of a sequence that grew by one track.
pub proof fn lemma_unheard_push(tracks: Seq<TrackView>, t: TrackView, heard: Set<TrackID>)
    ensures
        unheard(tracks.push(t), heard) == if heard.contains(t.id) {
            unheard(tracks, heard)
        } else {
            unheard(tracks, heard).push(t)
        },
{
    assert(tracks.push(t).drop_last() =~= tracks);
    reveal(Seq::filter);
}

/// Where both lists took every track of an album, the master list has grown
/// by all of them and the filtered list by those that were not heard, which
/// stand at the positions after the old ones, in the order of the album.
pub proof fn law_taken_tracks_are_listed_in_order(
    index: IndexView,
    heard: Set<TrackID>,
    album: AlbumID,
    tracks: Seq<TrackView>,
    outcomes: Seq<Admission>,
)
    requires
        outcomes_fit(index, heard, album, tracks, outcomes),
        all_taken(outcomes),
    ensures
        ({
            let after = index_after_all(index, album, tracks, outcomes);
            let fresh = unheard(tracks, heard);
            &&& after.admitted == index.admitted + tracks.len()
            &&& after.filtered.len() == index.filtered.len() + fresh.len()
            &&& fresh.len() + heard_count(tracks, heard) == tracks.len()
            &&& forall|k: int|
                0 <= k < fresh.len() ==> #[trigger] after.ref_at(index.filtered.len() + k) == Some(
                    (album, fresh[k].id),
                )
            &&& forall|k: int|
                0 <= k < fresh.len() ==> has_id(tracks, (#[trigger] fresh[k]).id)
                    && !heard.contains(fresh[k].id)
        }),
    decreases tracks.len(),
{
    let after = index_after_all(index, album, tracks, outcomes);
    let fresh = unheard(tracks, heard);
    if tracks.len() == 0 {
        reveal(Seq::filter);
    } else {
        let head = tracks.drop_last();
        let last = tracks.last();
        let before = index_after_all(index, album, head, outcomes.drop_last());
        let earlier = unheard(head, heard);
        let outcome = outcomes.last();
        assert(all_taken(outcomes.drop_last())) by {
            assert forall|i: int| 0 <= i < outcomes.drop_last().len() implies (
            #[trigger] outcomes.drop_last()[i]) is Listed || outcomes.drop_last()[i] is Hidden by {
                assert(outcomes[i] is Listed || outcomes[i] is Hidden);
            }
        }
        law_taken_tracks_are_listed_in_order(index, heard, album, head, outcomes.drop_last());
        assert(head.push(last) =~= tracks);
        lemma_unheard_push(head, last, heard);
        assert(after == before.after((album, last.id), outcome));
        assert(before.allows(heard.contains(last.id), outcome));
        assert(outcome is Listed || outcome is Hidden);
        assert forall|k: int| 0 <= k < fresh.len() implies #[trigger] after.ref_at(
            index.filtered.len() + k,
        ) == Some((album, fresh[k].id)) by {
            if k < earlier.len() {
                assert(before.ref_at(index.filtered.len() + k) == Some((album, earlier[k].id)));
                assert(fresh[k] == earlier[k]);
            }
        }
        assert forall|k: int| 0 <= k < fresh.len() implies has_id(tracks, (#[trigger] fresh[k]).id)
            && !heard.contains(fresh[k].id) by {
            if k < earlier.len() {
                assert(fresh[k] == earlier[k]);
                let w = choose|w: int| 0 <= w < head.len() && (#[trigger] head[w]).id == earlier[k].id;
                assert(tracks[w].id == fresh[k].id);
            } else {
                assert(fresh[k] == last);
                assert(tracks[tracks.len() - 1].id == last.id);
            }
        }
    }
}

/// Where the expander takes an album and both lists take every track of it:
/// the album has left the queue; the master list has grown by all its tracks
/// and the filtered list by those not heard before, in their order; each of
/// the new positions leads to its track; and the album has entered the
/// history exactly if every track of it was heard before.
pub proof fn law_expansion_where_every_track_is_taken(v: DiscoveryView, outcomes: Seq<Admission>)
    requires
        v.wf(),
        v.albums.len() > 0,
        outcomes_fit(
            v.index,
            v.history.heard_tracks,
            v.albums[0],
            v.registry.albums[v.albums[0]].tracks,
            outcomes,
        ),
        all_taken(outcomes),
    ensures
        ({
            let album = v.albums[0];
            let tracks = v.registry.albums[album].tracks;
            let fresh = unheard(tracks, v.history.heard_tracks);
            let w = expanded(v, outcomes);
            &&& w.albums == v.albums.drop_first()
            &&& w.index.admitted == v.index.admitted + tracks.len()
            &&& w.index.filtered.len() == v.index.filtered.len() + fresh.len()
            &&& forall|k: int|
                0 <= k < fresh.len() ==> #[trigger] w.track_at(v.index.filtered.len() + k) == Some(
                    (album, fresh[k].id),
                )
            &&& fresh.len() == 0 <==> all_heard(tracks, v.history.heard_tracks)
            &&& w.history.heard_tracks == v.history.heard_tracks
            &&& w.history.heard_albums == if fresh.len() == 0 {
                v.history.heard_albums.insert(album)
            } else {
                v.history.heard_albums
            }
        }),
{
    let album = v.albums[0];
    let tracks = v.registry.albums[album].tracks;
    let heard = v.history.heard_tracks;
    let fresh = unheard(tracks, heard);
    let w = expanded(v, outcomes);
    law_taken_tracks_are_listed_in_order(v.index, heard, album, tracks, outcomes);
    crate::discovery::lemma_heard_count(tracks, heard);
    assert(v.registry.albums.contains_key(album));
    assert forall|k: int| 0 <= k < fresh.len() implies #[trigger] w.track_at(
        v.index.filtered.len() + k,
    ) == Some((album, fresh[k].id)) by {
        assert(w.index.ref_at(v.index.filtered.len() + k) == Some((album, fresh[k].id)));
        assert(has_id(tracks, fresh[k].id));
    }
}

/// With nothing heard, every track is an unheard track.
pub proof fn law_nothing_heard_nothing_hidden(tracks: Seq<TrackView>)
    ensures
        unheard(tracks, Set::empty()) == tracks,
    decreases tracks.len(),
{
    reveal(Seq::filter);
    if tracks.len() > 0 {
        let head = tracks.drop_last();
        law_nothing_heard_nothing_hidden(head);
        assert(head.push(tracks.last()) =~= tracks);
        lemma_unheard_push(head, tracks.last(), Set::empty());
    }
}

} // verus!
