//! The discovery player: two bounded queues, the registry, the track index,
//! the listen history and the listener's cursor, owned by one value.
//!
//! Nothing here waits or sleeps. A function that would have to wait says so in
//! its result, and the caller comes back later; a stage of the pipeline is one
//! function that does one round of work and says how long to rest after it.

use crossbeam::queue::ArrayQueue;
use vstd::prelude::*;
use vstd::string::StringExecFns;
use crate::api::{
    Api,
    DiscoveryType,
    Format,
    Function,
    FunctionView,
    Genre,
    QueryError,
    RecommendedType,
    discover_api,
    discover_base,
    get_web_view,
};
use crate::json::{gjson_items, gjson_text, gjson_valid, json_items, json_text, json_valid};
use crate::history::{HistoryView, ListenHistory};
use crate::index::{Admission, IndexView, TrackIndex, TrackRef};
use crate::models::{
    Album,
    AlbumID,
    AlbumView,
    TrackID,
    TrackView,
    clone_text,
    has_id,
    text_of,
    track_by_id,
};
use crate::queue::{
    url_queue_is_full,
    url_queue_push,
    id_queue_is_full,
    id_queue_len,
    id_queue_limit,
    id_queue_new,
    id_queue_pop,
    id_queue_push,
    url_queue_pop,
    queued_ids,
    queued_urls,
    url_queue_limit,
    url_queue_new,
};
use crate::registry::{Inserted, Registry, RegistryView};
use crate::text::decimal;

verus! {

/// How many page addresses may wait for the fetcher.
pub const URL_QUEUE_CAPACITY: usize = 32;

/// How many albums may wait for the expander.
pub const ALBUM_QUEUE_CAPACITY: usize = 4;

/// How many workers a running player has.
pub const WORKER_COUNT: usize = 3;

/// What a listener is shown of a track, as mathematics.
pub struct EntryView {
    pub name: Seq<char>,
    pub artist: Seq<char>,
    pub album_name: Seq<char>,
    pub album_art_url: Option<Seq<char>>,
    pub url: Seq<char>,
}

/// What a listener is shown of a track.
#[derive(Debug)]
pub struct Entry {
    pub name: String,
    pub artist: String,
    pub album_name: String,
    pub album_art_url: Option<String>,
    pub url: String,
}

impl View for Entry {
    type V = EntryView;

    open spec fn view(&self) -> EntryView {
        EntryView {
            name: self.name@,
            artist: self.artist@,
            album_name: self.album_name@,
            album_art_url: text_of(self.album_art_url),
            url: self.url@,
        }
    }
}

impl Default for Entry {
    fn default() -> (r: Self)
        ensures
            r@ == (EntryView {
                name: Seq::empty(),
                artist: Seq::empty(),
                album_name: Seq::empty(),
                album_art_url: None,
                url: Seq::empty(),
            }),
    {
        Entry {
            name: String::new(),
            artist: String::new(),
            album_name: String::new(),
            album_art_url: None,
            url: String::new(),
        }
    }
}

impl Clone for Entry {
    fn clone(&self) -> (r: Self)
        ensures
            r@ == self@,
    {
        Entry {
            name: self.name.clone(),
            artist: self.artist.clone(),
            album_name: self.album_name.clone(),
            album_art_url: clone_text(&self.album_art_url),
            url: self.url.clone(),
        }
    }
}

impl EntryView {
    /// The entry as text: the name, and below it the artist and the album.
    pub open spec fn text(self) -> Seq<char> {
        self.name + "\n "@ + self.artist + " by "@ + self.album_name
    }
}

impl Entry {
    /// The entry as text: the name, and below it the artist and the album.
    pub fn to_text(&self) -> (r: String)
        ensures
            r@ == self@.text(),
    {
        let mut r = self.name.clone();
        r.append("\n ");
        r.append(self.artist.as_str());
        r.append(" by ");
        r.append(self.album_name.as_str());
        r
    }

    /// Whether two entries show the same texts.
    pub fn same_as(&self, other: &Entry) -> (r: bool)
        ensures
            r == (self@ == other@),
    {
        let art = match &self.album_art_url {
            Some(a) => match &other.album_art_url {
                Some(b) => *a == *b,
                None => false,
            },
            None => other.album_art_url.is_none(),
        };
        let name = self.name == other.name;
        let artist = self.artist == other.artist;
        let album_name = self.album_name == other.album_name;
        let url = self.url == other.url;
        art && name && artist && album_name && url
    }
}

/// What looking up a position gave, as mathematics.
pub enum LookupView {
    Wait,
    Missing,
    Found(EntryView),
}

/// What looking up a position of the filtered list gave.
#[derive(Debug)]
pub enum Lookup {
    /// The list has not grown that far: come back later.
    Wait,
    /// The position is there, but its album or track is not.
    Missing,
    /// The track at the position.
    Found(Entry),
}

impl View for Lookup {
    type V = LookupView;

    open spec fn view(&self) -> LookupView {
        match self {
            Lookup::Wait => LookupView::Wait,
            Lookup::Missing => LookupView::Missing,
            Lookup::Found(e) => LookupView::Found(e@),
        }
    }
}

impl Lookup {
    /// The entry, if one was found.
    pub fn found(self) -> (r: Option<Entry>)
        ensures
            match r {
                Some(e) => self@ == LookupView::Found(e@),
                None => !(self@ is Found),
            },
    {
        match self {
            Lookup::Found(e) => Some(e),
            _ => None,
        }
    }
}

/// The whole player as mathematics.
#[verifier::ext_equal]
pub struct DiscoveryView {
    pub running: bool,
    pub workers: nat,
    pub urls: Seq<Seq<char>>,
    pub albums: Seq<AlbumID>,
    pub registry: RegistryView,
    pub index: IndexView,
    pub history: HistoryView,
    pub cursor: nat,
}

impl DiscoveryView {
    /// The track a position of the filtered list names, with its album, if
    /// every link from the position to the track holds.
    pub open spec fn track_at(self, p: int) -> Option<TrackRef> {
        match self.index.ref_at(p) {
            Some((album, track)) => if self.registry.has_track(album, track) {
                Some((album, track))
            } else {
                None
            },
            None => None,
        }
    }

    /// What looking up a position gives: `Wait` beyond the end of the
    /// filtered list, else the entry built from the album and the track that
    /// the position names, or `Missing` where a link is broken.
    pub open spec fn lookup(self, p: int) -> LookupView {
        if p < 0 || p >= self.index.filtered.len() {
            LookupView::Wait
        } else {
            match self.index.ref_at(p) {
                Some((album, track)) => {
                    if self.registry.albums.contains_key(album) {
                        let a = self.registry.albums[album];
                        match track_by_id(a.tracks, track) {
                            Some(t) => LookupView::Found(
                                EntryView {
                                    name: t.name,
                                    artist: a.artist,
                                    album_name: a.name,
                                    album_art_url: a.album_art_url,
                                    url: t.url,
                                },
                            ),
                            None => LookupView::Missing,
                        }
                    } else {
                        LookupView::Missing
                    }
                },
                None => LookupView::Missing,
            }
        }
    }

    /// Every slot of the master list names a track of an album in the
    /// registry.
    pub open spec fn refs_resolve(self) -> bool {
        forall|slot: usize| #[trigger]
            self.index.master.contains_key(slot) ==> self.registry.has_track(
                self.index.master[slot].0,
                self.index.master[slot].1,
            )
    }

    /// Every album that waits for the expander is in the registry.
    pub open spec fn waiting_albums_stored(self) -> bool {
        forall|i: int|
            0 <= i < self.albums.len() ==> self.registry.albums.contains_key(
                #[trigger] self.albums[i],
            )
    }

    /// Every marked track is a track of its album.
    pub open spec fn listens_in_album(self) -> bool {
        forall|album: AlbumID, track: TrackID|
            self.registry.listens.contains_key(album) && #[trigger] self.registry.listens[album].contains(
                track,
            ) ==> has_id(self.registry.albums[album].tracks, track)
    }

    /// The cursor stands on a position of the filtered list, or on zero while
    /// the list is empty.
    pub open spec fn cursor_in_reach(self) -> bool {
        self.cursor <= self.index.cap()
    }

    /// What holds of the player at all times.
    pub open spec fn wf(self) -> bool {
        &&& self.urls.len() <= URL_QUEUE_CAPACITY
        &&& self.albums.len() <= ALBUM_QUEUE_CAPACITY
        &&& self.workers <= WORKER_COUNT
        &&& self.registry.wf()
        &&& self.index.wf()
        &&& self.refs_resolve()
        &&& self.waiting_albums_stored()
        &&& self.listens_in_album()
        &&& self.cursor_in_reach()
    }
}

/// The player.
pub struct Discovery {
    running: bool,
    workers: usize,
    url_queue: ArrayQueue<String>,
    album_queue: ArrayQueue<u32>,
    registry: Registry,
    index: TrackIndex,
    history: ListenHistory,
    cursor: usize,
}

impl View for Discovery {
    type V = DiscoveryView;

    closed spec fn view(&self) -> DiscoveryView {
        DiscoveryView {
            running: self.running,
            workers: self.workers as nat,
            urls: queued_urls(self.url_queue),
            albums: queued_ids(self.album_queue),
            registry: self.registry@,
            index: self.index@,
            history: self.history@,
            cursor: self.cursor as nat,
        }
    }
}

impl Discovery {
    /// The player's parts fit together: the queues have their capacities, the
    /// index is sound, and the view is well-formed.
    pub closed spec fn wf(&self) -> bool {
        &&& url_queue_limit(self.url_queue) == URL_QUEUE_CAPACITY
        &&& id_queue_limit(self.album_queue) == ALBUM_QUEUE_CAPACITY
        &&& self.index.wf()
        &&& self@.wf()
    }

    /// A well-formed player has a well-formed view.
    pub proof fn lemma_wf(&self)
        requires
            self.wf(),
        ensures
            self@.wf(),
    {
    }

    /// A player that is not running and has fetched nothing, with the given
    /// history.
    pub fn new(history: ListenHistory) -> (r: Self)
        ensures
            r.wf(),
            !r@.running,
            r@.workers == 0,
            r@.urls.len() == 0,
            r@.albums.len() == 0,
            r@.registry.albums == Map::<AlbumID, AlbumView>::empty(),
            r@.index.filtered.len() == 0,
            r@.index.admitted == 0,
            r@.history == history@,
            r@.cursor == 0,
    {
        let index = TrackIndex::new();
        let r = Discovery {
            running: false,
            workers: 0,
            url_queue: url_queue_new(URL_QUEUE_CAPACITY),
            album_queue: id_queue_new(ALBUM_QUEUE_CAPACITY),
            registry: Registry::new(),
            index,
            history,
            cursor: 0,
        };
        proof {
            r.index.lemma_view_wf();
        }
        r
    }

    pub fn is_running(&self) -> (r: bool)
        ensures
            r == self@.running,
    {
        self.running
    }

    /// The position of the listener in the filtered list.
    pub fn cursor(&self) -> (r: usize)
        ensures
            r == self@.cursor,
    {
        self.cursor
    }

    /// The highest position of the filtered list, zero while it is empty.
    pub fn filtered_cap(&self) -> (r: usize)
        ensures
            r == self@.index.cap(),
    {
        self.index.filtered_cap()
    }

    /// The length of the filtered list.
    pub fn filtered_len(&self) -> (r: usize)
        ensures
            r == self@.index.filtered.len(),
    {
        self.index.filtered_len()
    }

    /// The number of tracks in the master list.
    pub fn master_len(&self) -> (r: usize)
        ensures
            r == self@.index.admitted,
    {
        self.index.master_len()
    }

    /// The listen history.
    pub fn history(&self) -> (r: &ListenHistory)
        ensures
            r@ == self@.history,
    {
        &self.history
    }

    /// The registry of fetched albums.
    pub fn registry(&self) -> (r: &Registry)
        ensures
            r@ == self@.registry,
    {
        &self.registry
    }
}

/// Looks up a position of the filtered list and builds the entry of the track
/// that stands there.
pub fn get_entry(state: &Discovery, position: usize) -> (r: Lookup)
    requires
        state.wf(),
    ensures
        r@ == state@.lookup(position as int),
        r@ is Wait <==> position >= state@.index.filtered.len(),
{
    let (album_id, track_id) = match state.index.ref_at(position) {
        Some(found) => found,
        None => {
            return Lookup::Wait;
        },
    };
    let album = match state.registry.get(album_id) {
        Some(album) => album,
        None => {
            return Lookup::Missing;
        },
    };
    match album.tracks.get(track_id) {
        Some(track) => Lookup::Found(
            Entry {
                name: track.name.clone(),
                artist: album.artist.clone(),
                album_name: album.name.clone(),
                album_art_url: clone_text(&album.album_art_url),
                url: track.url.clone(),
            },
        ),
        None => Lookup::Missing,
    }
}

/// The entry under the cursor.
pub fn current(state: &Discovery) -> (r: Lookup)
    requires
        state.wf(),
    ensures
        r@ == state@.lookup(state@.cursor as int),
{
    get_entry(state, state.cursor)
}

/// Where the cursor stands after a step forward: one further if an entry was
/// found there, else where it stood.
pub open spec fn cursor_after_next(v: DiscoveryView) -> nat {
    if v.lookup(v.cursor as int + 1) is Found {
        v.cursor + 1
    } else {
        v.cursor
    }
}

/// Steps forward: looks up the position after the cursor and moves the cursor
/// there if an entry was found. Nothing else changes.
pub fn next(state: &mut Discovery) -> (r: Lookup)
    requires
        old(state).wf(),
    ensures
        final(state).wf(),
        r@ == old(state)@.lookup(old(state)@.cursor as int + 1),
        final(state)@ == (DiscoveryView { cursor: cursor_after_next(old(state)@), ..old(state)@ }),
{
    if state.cursor >= state.index.filtered_len() {
        return Lookup::Wait;
    }
    let found = get_entry(state, state.cursor + 1);
    if let Lookup::Found(_) = &found {
        state.cursor = state.cursor + 1;
    }
    found
}

/// Where the cursor stands after a step back.
pub open spec fn cursor_after_previous(v: DiscoveryView) -> nat {
    if v.cursor > 0 && v.lookup(v.cursor - 1) is Found {
        (v.cursor - 1) as nat
    } else {
        v.cursor
    }
}

/// Steps back: looks up the position before the cursor and moves the cursor
/// there if an entry was found; at position zero it looks up position zero and
/// the cursor stays.
pub fn previous(state: &mut Discovery) -> (r: Lookup)
    requires
        old(state).wf(),
    ensures
        final(state).wf(),
        r@ == old(state)@.lookup(
            if old(state)@.cursor > 0 {
                old(state)@.cursor - 1
            } else {
                0
            },
        ),
        final(state)@ == (DiscoveryView {
            cursor: cursor_after_previous(old(state)@),
            ..old(state)@
        }),
{
    if state.cursor > 0 {
        let found = get_entry(state, state.cursor - 1);
        if let Lookup::Found(_) = &found {
            state.cursor = state.cursor - 1;
        }
        return found;
    }
    get_entry(state, 0)
}

/// The player after the track under the cursor was marked as heard: the
/// track is in the history and among the marked tracks of its album, and the
/// album is in the history too if it is heard whole by now. Where the cursor
/// names no track, nothing changes.
pub open spec fn marked(v: DiscoveryView) -> DiscoveryView {
    match v.track_at(v.cursor as int) {
        Some((album, track)) => {
            let registry = v.registry.after_listen(album, track);
            let history = v.history.with_track(track);
            DiscoveryView {
                registry,
                history: if registry.album_heard(album) {
                    history.with_album(album)
                } else {
                    history
                },
                ..v
            }
        },
        None => v,
    }
}

/// Marks the track under the cursor as heard. Returns `None`, and changes
/// nothing, where the cursor names no track.
pub fn mark_current_track(state: &mut Discovery) -> (r: Option<()>)
    requires
        old(state).wf(),
    ensures
        final(state).wf(),
        final(state)@ == marked(old(state)@),
        r.is_some() == old(state)@.track_at(old(state)@.cursor as int).is_some(),
        r.is_some() == (old(state)@.cursor < old(state)@.index.filtered.len()),
{
    let ghost before = state@;
    let (album, track) = match state.index.ref_at(state.cursor) {
        Some(found) => found,
        None => {
            return None;
        },
    };
    assert(before.index.master.contains_key(before.index.filtered[before.cursor as int]));
    assert(before.registry.has_track(album, track));
    state.history.mark_track(track);
    let heard = state.registry.record_listen(album, track);
    if heard {
        state.history.mark_album(album);
    }
    proof {
        let after = state@;
        assert(after.registry.albums == before.registry.albums);
        assert(after == marked(before));
        assert forall|slot: usize| #[trigger] after.index.master.contains_key(slot) implies
            after.registry.has_track(after.index.master[slot].0, after.index.master[slot].1) by {
            assert(before.index.master.contains_key(slot));
        }
        assert forall|i: int| 0 <= i < after.albums.len() implies after.registry.albums.contains_key(
            #[trigger] after.albums[i],
        ) by {
            assert(before.registry.albums.contains_key(before.albums[i]));
        }
        assert forall|a: AlbumID, t: TrackID|
            after.registry.listens.contains_key(a) && #[trigger] after.registry.listens[a].contains(
                t,
            ) implies has_id(after.registry.albums[a].tracks, t) by {
            if a == album && t == track {
            } else {
                assert(before.registry.listens.contains_key(a));
                assert(before.registry.listens[a].contains(t));
            }
        }
    }
    Some(())
}

/// How long a stage rests after a round: first `rest_ms` milliseconds, then,
/// where `poll_ms` is not zero, in turns of `poll_ms` milliseconds until the
/// stage's gate opens.
#[derive(Clone, Copy, Debug, PartialEq, Eq, Structural)]
pub struct Pace {
    pub rest_ms: u64,
    pub poll_ms: u64,
}

/// The rest a stage takes to let the slower stage after it catch up.
pub const LONG_REST_MS: u64 = 2500;

/// The turn in which a stage looks again at a full buffer.
pub const POLL_MS: u64 = 500;

/// The turn in which a stage looks again at an empty queue.
pub const IDLE_MS: u64 = 100;

/// The turn in which the paginator looks again at a full queue.
pub const URL_WAIT_MS: u64 = 1000;

/// How close to the end of the filtered list the cursor counts as near.
pub const NEAR_LAG: usize = 8;

/// How far behind the end of the filtered list the cursor counts as far.
pub const FAR_LAG: usize = 32;

/// How far the cursor is behind the end of the filtered list.
pub open spec fn lag(v: DiscoveryView) -> nat {
    if v.cursor < v.index.cap() {
        (v.index.cap() - v.cursor) as nat
    } else {
        0
    }
}

/// The expander's pace: none once the player has stopped; turns of half a
/// second while the cursor is far behind; a long rest while it is near.
pub open spec fn tracks_pace(v: DiscoveryView) -> Pace {
    if !v.running {
        Pace { rest_ms: 0, poll_ms: 0 }
    } else if lag(v) > FAR_LAG {
        Pace { rest_ms: 0, poll_ms: POLL_MS }
    } else if lag(v) <= NEAR_LAG {
        Pace { rest_ms: LONG_REST_MS, poll_ms: 0 }
    } else {
        Pace { rest_ms: 0, poll_ms: 0 }
    }
}

/// The fetcher's pace after a round: none once the player has stopped; else a
/// long rest where the round queued an album and more than one album waits,
/// and turns of half a second while the album queue is full.
pub open spec fn albums_pace(v: DiscoveryView, queued: bool) -> Pace {
    if !v.running {
        Pace { rest_ms: 0, poll_ms: 0 }
    } else {
        Pace {
            rest_ms: if queued && v.albums.len() > 1 {
                LONG_REST_MS
            } else {
                0
            },
            poll_ms: if v.albums.len() >= ALBUM_QUEUE_CAPACITY {
                POLL_MS
            } else {
                0
            },
        }
    }
}

/// The pace the expander should keep now.
pub fn expander_pace(state: &Discovery) -> (r: Pace)
    requires
        state.wf(),
    ensures
        r == tracks_pace(state@),
{
    if !state.running {
        return Pace { rest_ms: 0, poll_ms: 0 };
    }
    let cap = state.index.filtered_cap();
    let behind = if state.cursor < cap {
        cap - state.cursor
    } else {
        0
    };
    if behind > FAR_LAG {
        Pace { rest_ms: 0, poll_ms: POLL_MS }
    } else if behind <= NEAR_LAG {
        Pace { rest_ms: LONG_REST_MS, poll_ms: 0 }
    } else {
        Pace { rest_ms: 0, poll_ms: 0 }
    }
}

/// The pace the fetcher should keep after a round that queued an album or
/// did not.
pub fn fetcher_pace_after(state: &Discovery, queued: bool) -> (r: Pace)
    requires
        state.wf(),
    ensures
        r == albums_pace(state@, queued),
{
    if !state.running {
        return Pace { rest_ms: 0, poll_ms: 0 };
    }
    let waiting = id_queue_len(&state.album_queue);
    Pace {
        rest_ms: if queued && waiting > 1 {
            LONG_REST_MS
        } else {
            0
        },
        poll_ms: if id_queue_is_full(&state.album_queue) {
            POLL_MS
        } else {
            0
        },
    }
}

/// The pace the fetcher should keep while it waits for room in the album
/// queue.
pub fn fetcher_pace(state: &Discovery) -> (r: Pace)
    requires
        state.wf(),
    ensures
        r == albums_pace(state@, false),
{
    fetcher_pace_after(state, false)
}

/// How many of the tracks are in a set of heard tracks.
pub open spec fn heard_count(tracks: Seq<TrackView>, heard: Set<TrackID>) -> nat
    decreases tracks.len(),
{
    if tracks.len() == 0 {
        0
    } else {
        heard_count(tracks.drop_last(), heard) + if heard.contains(tracks.last().id) {
            1nat
        } else {
            0nat
        }
    }
}

/// Whether each of the tracks is in a set of heard tracks.
pub open spec fn all_heard(tracks: Seq<TrackView>, heard: Set<TrackID>) -> bool {
    forall|i: int| 0 <= i < tracks.len() ==> heard.contains((#[trigger] tracks[i]).id)
}

/// As many tracks are heard as there are tracks exactly when each is heard.
pub proof fn lemma_heard_count(tracks: Seq<TrackView>, heard: Set<TrackID>)
    ensures
        heard_count(tracks, heard) <= tracks.len(),
        heard_count(tracks, heard) == tracks.len() <==> all_heard(tracks, heard),
    decreases tracks.len(),
{
    if tracks.len() > 0 {
        let head = tracks.drop_last();
        lemma_heard_count(head, heard);
        if all_heard(tracks, heard) {
            assert(heard.contains(tracks[tracks.len() - 1].id));
            assert forall|i: int| 0 <= i < head.len() implies heard.contains(
                (#[trigger] head[i]).id,
            ) by {
                assert(heard.contains(tracks[i].id));
            }
        }
        if heard_count(tracks, heard) == tracks.len() {
            assert forall|i: int| 0 <= i < tracks.len() implies heard.contains(
                (#[trigger] tracks[i]).id,
            ) by {
                if i < head.len() {
                    assert(heard.contains(head[i].id));
                }
            }
        }
    }
}

/// The index after the tracks of an album were added one after the other,
/// each with its outcome.
pub open spec fn index_after_all(
    index: IndexView,
    album: AlbumID,
    tracks: Seq<TrackView>,
    outcomes: Seq<Admission>,
) -> IndexView
    decreases tracks.len(),
{
    if tracks.len() == 0 || outcomes.len() != tracks.len() {
        index
    } else {
        index_after_all(index, album, tracks.drop_last(), outcomes.drop_last()).after(
            (album, tracks.last().id),
            outcomes.last(),
        )
    }
}

/// Whether each outcome is one that the index, as it stood before the track,
/// allows for it.
pub open spec fn outcomes_fit(
    index: IndexView,
    heard: Set<TrackID>,
    album: AlbumID,
    tracks: Seq<TrackView>,
    outcomes: Seq<Admission>,
) -> bool
    decreases tracks.len(),
{
    outcomes.len() == tracks.len() && (tracks.len() == 0 || (outcomes_fit(
        index,
        heard,
        album,
        tracks.drop_last(),
        outcomes.drop_last(),
    ) && index_after_all(index, album, tracks.drop_last(), outcomes.drop_last()).allows(
        heard.contains(tracks.last().id),
        outcomes.last(),
    )))
}

/// The player after the expander took the first waiting album and added its
/// tracks with the given outcomes: the album has left the queue, the index has
/// grown, and an album of which every track was heard before is in the
/// history.
pub open spec fn expanded(v: DiscoveryView, outcomes: Seq<Admission>) -> DiscoveryView {
    let album = v.albums[0];
    let tracks = v.registry.albums[album].tracks;
    DiscoveryView {
        albums: v.albums.drop_first(),
        index: index_after_all(v.index, album, tracks, outcomes),
        history: if all_heard(tracks, v.history.heard_tracks) {
            v.history.with_album(album)
        } else {
            v.history
        },
        ..v
    }
}

/// What one round of the expander did.
#[derive(Debug)]
pub enum TracksStep {
    /// The player has stopped: the expander ends.
    Stop,
    /// No album waits: look again after `IDLE_MS`.
    Idle,
    /// An album was expanded.
    Expanded(Expansion),
}

/// The report of an expanded album.
#[derive(Debug)]
pub struct Expansion {
    /// The album that was taken from the queue.
    pub album: AlbumID,
    /// How adding each of its tracks ended, in the order of the tracks.
    pub outcomes: Vec<Admission>,
    /// How many of its tracks were heard before.
    pub heard: usize,
    /// Whether all of them were, so that the album went into the history.
    pub whole: bool,
    /// How long the expander rests now.
    pub pace: Pace,
}

/// One round of the expander: takes the first waiting album, adds each of its
/// tracks to the master list and each track not heard before to the filtered
/// list, and records the album as heard if every track was.
pub fn discovery_load_tracks_job(state: &mut Discovery) -> (r: TracksStep)
    requires
        old(state).wf(),
    ensures
        final(state).wf(),
        match r {
            TracksStep::Stop => !old(state)@.running && final(state)@ == old(state)@,
            TracksStep::Idle => old(state)@.running && old(state)@.albums.len() == 0 && final(state)@ == old(state)@,
            TracksStep::Expanded(e) => {
                let v = old(state)@;
                let tracks = v.registry.albums[v.albums[0]].tracks;
                &&& v.running
                &&& v.albums.len() > 0
                &&& e.album == v.albums[0]
                &&& outcomes_fit(v.index, v.history.heard_tracks, e.album, tracks, e.outcomes@)
                &&& final(state)@ == expanded(v, e.outcomes@)
                &&& e.heard == heard_count(tracks, v.history.heard_tracks)
                &&& e.whole == all_heard(tracks, v.history.heard_tracks)
                &&& e.pace == tracks_pace(final(state)@)
            },
        },
{
    if !state.running {
        return TracksStep::Stop;
    }
    let ghost before = state@;
    let id = match id_queue_pop(&mut state.album_queue) {
        Some(id) => id,
        None => {
            return TracksStep::Idle;
        },
    };
    // Whatever waits in the album queue is in the registry, so the album is
    // always found.
    assert(before.registry.albums.contains_key(before.albums[0]));
    let album = match state.registry.get(id) {
        Some(album) => album,
        None => {
            assert(false);
            return TracksStep::Idle;
        },
    };
    let ghost tracks = album.tracks@;
    let ghost heard_set = before.history.heard_tracks;
    let ghost popped = DiscoveryView { albums: before.albums.drop_first(), ..before };
    let n = album.tracks.len();
    let mut outcomes: Vec<Admission> = Vec::new();
    let mut heard: usize = 0;
    let mut i: usize = 0;
    assert(tracks.subrange(0, 0) =~= Seq::<TrackView>::empty());
    while i < n
        invariant
            n == tracks.len(),
            tracks == album.tracks@,
            i <= n,
            outcomes@.len() == i,
            heard <= i,
            heard == heard_count(tracks.subrange(0, i as int), heard_set),
            state.index.wf(),
            url_queue_limit(state.url_queue) == URL_QUEUE_CAPACITY,
            id_queue_limit(state.album_queue) == ALBUM_QUEUE_CAPACITY,
            heard_set == state@.history.heard_tracks,
            state@ == (DiscoveryView { index: state@.index, ..popped }),
            state@.index == index_after_all(
                before.index,
                id,
                tracks.subrange(0, i as int),
                outcomes@,
            ),
            outcomes_fit(before.index, heard_set, id, tracks.subrange(0, i as int), outcomes@),
            state@.index.filtered.len() >= before.index.filtered.len(),
            popped.registry.albums.contains_key(id),
            popped.registry.albums[id].tracks == tracks,
            forall|slot: usize| #[trigger]
                state@.index.master.contains_key(slot) ==> popped.registry.has_track(
                    state@.index.master[slot].0,
                    state@.index.master[slot].1,
                ),
        decreases n - i,
    {
        let track = album.tracks.at(i);
        let was_heard = state.history.contains_track(track.id);
        let ghost index_before = state@.index;
        let ghost head = tracks.subrange(0, i as int);
        let ghost longer = tracks.subrange(0, i as int + 1);
        let ghost outcomes_before = outcomes@;
        let outcome = state.index.add_track(id, track.id, was_heard);
        outcomes.push(outcome);
        if was_heard {
            heard = heard + 1;
        }
        proof {
            assert(longer.drop_last() =~= head);
            assert(longer.last() == tracks[i as int]);
            assert(outcomes@.drop_last() =~= outcomes_before);
            assert(outcomes@.last() == outcome);
            assert(has_id(tracks, track.id));
            assert forall|slot: usize| #[trigger]
                state@.index.master.contains_key(slot) implies popped.registry.has_track(
                state@.index.master[slot].0,
                state@.index.master[slot].1,
            ) by {
                if index_before.master.contains_key(slot) && state@.index.master[slot]
                    == index_before.master[slot] {
                } else {
                    assert(state@.index.master[slot] == (id, track.id));
                }
            }
        }
        i = i + 1;
    }
    assert(tracks.subrange(0, n as int) =~= tracks);
    proof {
        lemma_heard_count(tracks, heard_set);
    }
    let whole = heard == n;
    if whole {
        state.history.mark_album(id);
    }
    proof {
        state.index.lemma_view_wf();
        let after = state@;
        assert(after == expanded(before, outcomes@));
        assert forall|k: int| 0 <= k < after.albums.len() implies after.registry.albums.contains_key(
            #[trigger] after.albums[k],
        ) by {
            assert(before.registry.albums.contains_key(before.albums[k + 1]));
        }
        assert forall|a: AlbumID, t: TrackID|
            after.registry.listens.contains_key(a) && #[trigger] after.registry.listens[a].contains(
                t,
            ) implies has_id(after.registry.albums[a].tracks, t) by {
            assert(before.registry.listens[a].contains(t));
        }
    }
    let pace = expander_pace(state);
    TracksStep::Expanded(Expansion { album: id, outcomes, heard, whole, pace })
}

/// What the fetcher is to do next.
#[derive(Debug)]
pub enum UrlTake {
    /// The player has stopped: the fetcher ends.
    Stop,
    /// No address waits: look again after `IDLE_MS`.
    Idle,
    /// Fetch the album page at this address.
    Fetch(String),
}

/// Takes the first waiting page address for the fetcher.
pub fn next_album_url(state: &mut Discovery) -> (r: UrlTake)
    requires
        old(state).wf(),
    ensures
        final(state).wf(),
        match r {
            UrlTake::Stop => !old(state)@.running && final(state)@ == old(state)@,
            UrlTake::Idle => old(state)@.running && old(state)@.urls.len() == 0 && final(state)@
                == old(state)@,
            UrlTake::Fetch(url) => old(state)@.running && old(state)@.urls.len() > 0 && url@
                == old(state)@.urls[0] && final(state)@ == (DiscoveryView {
                urls: old(state)@.urls.drop_first(),
                ..old(state)@
            }),
        },
{
    if !state.running {
        return UrlTake::Stop;
    }
    match url_queue_pop(&mut state.url_queue) {
        Some(url) => UrlTake::Fetch(url),
        None => UrlTake::Idle,
    }
}

/// Whether an album that was fetched goes on to the expander: it does unless
/// it was heard whole before or the album queue is full.
pub open spec fn album_queued(v: DiscoveryView, album: AlbumView) -> bool {
    v.registry.insert_outcome(album, v.history.heard_albums) != Inserted::Heard && v.albums.len()
        < ALBUM_QUEUE_CAPACITY
}

/// The player after the fetcher handed over an album: the registry has taken
/// it or passed it over, and its identifier waits for the expander if there
/// was room.
pub open spec fn album_taken(v: DiscoveryView, album: AlbumView) -> DiscoveryView {
    let outcome = v.registry.insert_outcome(album, v.history.heard_albums);
    DiscoveryView {
        registry: v.registry.after_insert(album, outcome),
        albums: if album_queued(v, album) {
            v.albums.push(album.id)
        } else {
            v.albums
        },
        ..v
    }
}

/// What the fetcher did with what it fetched.
#[derive(Clone, Copy, Debug, PartialEq, Eq, Structural)]
pub struct AlbumStep {
    /// What the registry did with the album; `None` where none was fetched.
    pub stored: Option<Inserted>,
    /// Whether the album's identifier went into the album queue.
    pub queued: bool,
    /// How long the fetcher rests now.
    pub pace: Pace,
}

/// The second half of a round of the fetcher, after the page was fetched:
/// an album that was heard whole is dropped; any other is offered to the
/// registry and its identifier is queued for the expander.
pub fn discovery_load_albums_job(state: &mut Discovery, fetched: Option<Album>) -> (r: AlbumStep)
    requires
        old(state).wf(),
    ensures
        final(state).wf(),
        match fetched {
            Some(album) => {
                &&& final(state)@ == album_taken(old(state)@, album@)
                &&& r.stored == Some(
                    old(state)@.registry.insert_outcome(album@, old(state)@.history.heard_albums),
                )
                &&& r.queued == album_queued(old(state)@, album@)
            },
            None => final(state)@ == old(state)@ && r.stored.is_none() && !r.queued,
        },
        r.pace == albums_pace(final(state)@, r.queued),
{
    let ghost before = state@;
    let album = match fetched {
        Some(album) => album,
        None => {
            let pace = fetcher_pace_after(state, false);
            return AlbumStep { stored: None, queued: false, pace };
        },
    };
    let id = album.id;
    let ghost offered = album@;
    let outcome = state.registry.insert(album, &state.history);
    let queued = match outcome {
        Inserted::Heard => false,
        _ => id_queue_push(&mut state.album_queue, id).is_ok(),
    };
    proof {
        let after = state@;
        assert(after == album_taken(before, offered));
        assert(after.registry.albums.contains_key(id) || outcome == Inserted::Heard);
        assert forall|slot: usize| #[trigger] after.index.master.contains_key(slot) implies
            after.registry.has_track(after.index.master[slot].0, after.index.master[slot].1) by {
            assert(before.registry.has_track(
                before.index.master[slot].0,
                before.index.master[slot].1,
            ));
        }
        assert forall|k: int| 0 <= k < after.albums.len() implies after.registry.albums.contains_key(
            #[trigger] after.albums[k],
        ) by {
            if k < before.albums.len() {
                assert(before.registry.albums.contains_key(before.albums[k]));
            }
        }
        assert forall|a: AlbumID, t: TrackID|
            after.registry.listens.contains_key(a) && #[trigger] after.registry.listens[a].contains(
                t,
            ) implies has_id(after.registry.albums[a].tracks, t) by {
            if before.registry.listens.contains_key(a) && after.registry.listens[a]
                == before.registry.listens[a] {
                assert(before.registry.listens[a].contains(t));
            }
        }
    }
    let pace = fetcher_pace_after(state, queued);
    AlbumStep { stored: Some(outcome), queued, pace }
}

/// The address of an album page: `https://`, the artist's subdomain, the
/// catalog's domain, and the album's slug.
pub open spec fn album_address(subdomain: Seq<char>, slug: Seq<char>) -> Seq<char> {
    "https://"@ + subdomain + ".bandcamp.com/album/"@ + slug
}

/// Writes the address of an album page.
pub fn album_page_url(subdomain: &str, slug: &str) -> (r: String)
    ensures
        r@ == album_address(subdomain@, slug@),
{
    let mut r = String::from_str("https://");
    r.append(subdomain);
    r.append(".bandcamp.com/album/");
    r.append(slug);
    r
}

/// The path that selects, in a page of the feed, the address hints of the
/// items that are albums.
pub open spec fn hints_path() -> Seq<char> {
    "@this.items.#(type=a)#.url_hints"@
}

/// The address that an address hint stands for.
pub open spec fn hint_address(hint: Seq<char>) -> Seq<char> {
    album_address(gjson_text(hint, "subdomain"@), gjson_text(hint, "slug"@))
}

/// The addresses that the first `n` hints stand for, in their order. A hint
/// that is not well-formed JSON is passed over.
pub open spec fn hint_addresses(hints: Seq<Seq<char>>, n: int) -> Seq<Seq<char>>
    decreases n,
{
    if n <= 0 {
        Seq::empty()
    } else if gjson_valid(hints[n - 1]) {
        hint_addresses(hints, n - 1).push(hint_address(hints[n - 1]))
    } else {
        hint_addresses(hints, n - 1)
    }
}

/// The album addresses of a page of the feed, in the order of the page. A
/// body that is not well-formed JSON has none.
pub open spec fn page_addresses(body: Seq<char>) -> Seq<Seq<char>> {
    if gjson_valid(body) {
        let hints = gjson_items(body, hints_path());
        hint_addresses(hints, hints.len() as int)
    } else {
        Seq::empty()
    }
}

/// The characters of each text of a vector.
pub open spec fn texts_of(texts: Seq<String>) -> Seq<Seq<char>> {
    texts.map_values(|t: String| t@)
}

/// Reads the album addresses from a page of the feed.
pub fn album_urls(body: &str) -> (r: Vec<String>)
    ensures
        texts_of(r@) == page_addresses(body@),
{
    let mut urls: Vec<String> = Vec::new();
    if !json_valid(body) {
        assert(texts_of(urls@) =~= page_addresses(body@));
        return urls;
    }
    let hints = json_items(body, "@this.items.#(type=a)#.url_hints");
    let ghost views = gjson_items(body@, hints_path());
    let n = hints.len();
    let mut i: usize = 0;
    assert(texts_of(urls@) =~= hint_addresses(views, 0));
    while i < n
        invariant
            n == hints@.len(),
            n == views.len(),
            i <= n,
            forall|k: int| 0 <= k < n ==> (#[trigger] hints@[k])@ == views[k],
            texts_of(urls@) == hint_addresses(views, i as int),
        decreases n - i,
    {
        let hint = hints[i].as_str();
        let ghost before = texts_of(urls@);
        if json_valid(hint) {
            let subdomain = json_text(hint, "subdomain");
            let slug = json_text(hint, "slug");
            urls.push(album_page_url(subdomain.as_str(), slug.as_str()));
            assert(texts_of(urls@) =~= before.push(hint_address(views[i as int])));
        }
        i += 1;
    }
    urls
}

/// The paginator as mathematics: the request for the page it stands at, the
/// number of that page, and the addresses of the page that are not queued
/// yet.
pub struct PaginatorView {
    pub function: FunctionView,
    pub page: nat,
    pub pending: Seq<Seq<char>>,
}

/// The page after a page; the last page is its own successor.
pub open spec fn page_after(page: nat) -> nat {
    if page < u32::MAX {
        page + 1
    } else {
        page
    }
}

impl PaginatorView {
    /// The paginator at the next page, with the addresses of the page that
    /// was read.
    pub open spec fn turned(self, found: Seq<Seq<char>>) -> PaginatorView {
        PaginatorView {
            function: self.function.updated("p"@, decimal(page_after(self.page))),
            page: page_after(self.page),
            pending: found,
        }
    }
}

/// The stage that asks the catalog for one page of the feed after the other
/// and queues the album addresses it finds.
pub struct Paginator {
    function: Function,
    page: u32,
    found: Vec<String>,
    next: usize,
}

impl View for Paginator {
    type V = PaginatorView;

    closed spec fn view(&self) -> PaginatorView {
        PaginatorView {
            function: self.function@,
            page: self.page as nat,
            pending: texts_of(self.found@).skip(self.next as int),
        }
    }
}

impl Paginator {
    /// The paginator never looks beyond the addresses it found.
    pub closed spec fn wf(&self) -> bool {
        self.next <= self.found@.len()
    }

    /// A paginator that stands at page zero of the given request and has
    /// found nothing yet.
    pub fn new(function: Function) -> (r: Self)
        ensures
            r.wf(),
            r@ == (PaginatorView { function: function@, page: 0, pending: Seq::empty() }),
    {
        let r = Paginator { function, page: 0, found: Vec::new(), next: 0 };
        assert(r@.pending =~= Seq::<Seq<char>>::empty());
        r
    }

    /// The page the paginator stands at.
    pub fn page(&self) -> (r: u32)
        ensures
            r == self@.page,
    {
        self.page
    }

    /// How many addresses of the page are not queued yet.
    pub fn pending_len(&self) -> (n: usize)
        requires
            self.wf(),
        ensures
            n == self@.pending.len(),
    {
        self.found.len() - self.next
    }

    /// The request for the page the paginator stands at.
    pub fn function(&self) -> (r: &Function)
        ensures
            r@ == self@.function,
    {
        &self.function
    }
}

/// Takes the catalog's answer for the page the paginator asked for: the
/// album addresses of the body, or none where the request failed, are what
/// the paginator queues next, and the paginator turns to the next page.
pub fn discovery_load_album_urls_task(pager: &mut Paginator, body: Option<&str>)
    ensures
        final(pager).wf(),
        final(pager)@ == old(pager)@.turned(
            match body {
                Some(text) => page_addresses(text@),
                None => Seq::empty(),
            },
        ),
{
    let found = match body {
        Some(text) => album_urls(text),
        None => Vec::new(),
    };
    let page = if pager.page < u32::MAX {
        pager.page + 1
    } else {
        pager.page
    };
    pager.found = found;
    pager.next = 0;
    pager.page = page;
    pager.function.update_get_web_page(page);
    assert(texts_of(pager.found@).skip(0) =~= texts_of(pager.found@));
    assert(texts_of(Seq::<String>::empty()) =~= Seq::<Seq<char>>::empty());
}

/// What one round of the paginator did.
#[derive(Debug)]
pub enum UrlsStep {
    /// The player has stopped: the paginator ends.
    Stop,
    /// Every address of the page is queued: ask the catalog for the page at
    /// this address and hand the answer to `discovery_load_album_urls_task`.
    Request(String),
    /// The request for the page could not be written; the paginator turned
    /// to the next page.
    Failed(QueryError),
    /// The address queue is full: look again after `URL_WAIT_MS`.
    Wait,
    /// The next address of the page went into the address queue.
    Queued,
}

/// One round of the paginator: queues the next album address of the page, or
/// waits while the queue is full, or, with the page done, writes the request
/// for the page it stands at.
pub fn discovery_page_urls_job(state: &mut Discovery, pager: &mut Paginator) -> (r: UrlsStep)
    requires
        old(state).wf(),
        old(pager).wf(),
    ensures
        final(state).wf(),
        final(pager).wf(),
        match r {
            UrlsStep::Stop => {
                &&& !old(state)@.running
                &&& final(state)@ == old(state)@
                &&& final(pager)@ == old(pager)@
            },
            UrlsStep::Request(address) => {
                &&& old(state)@.running
                &&& old(pager)@.pending.len() == 0
                &&& Api::query(discover_base(), old(pager)@.function) == Ok::<
                    Seq<char>,
                    QueryError,
                >(address@)
                &&& final(state)@ == old(state)@
                &&& final(pager)@ == old(pager)@
            },
            UrlsStep::Failed(e) => {
                &&& old(state)@.running
                &&& old(pager)@.pending.len() == 0
                &&& Api::query(discover_base(), old(pager)@.function) == Err::<
                    Seq<char>,
                    QueryError,
                >(e)
                &&& final(state)@ == old(state)@
                &&& final(pager)@ == old(pager)@.turned(Seq::empty())
            },
            UrlsStep::Wait => {
                &&& old(state)@.running
                &&& old(pager)@.pending.len() > 0
                &&& old(state)@.urls.len() == URL_QUEUE_CAPACITY
                &&& final(state)@ == old(state)@
                &&& final(pager)@ == old(pager)@
            },
            UrlsStep::Queued => {
                &&& old(state)@.running
                &&& old(pager)@.pending.len() > 0
                &&& old(state)@.urls.len() < URL_QUEUE_CAPACITY
                &&& final(state)@ == (DiscoveryView {
                    urls: old(state)@.urls.push(old(pager)@.pending[0]),
                    ..old(state)@
                })
                &&& final(pager)@ == (PaginatorView {
                    pending: old(pager)@.pending.drop_first(),
                    ..old(pager)@
                })
            },
        },
{
    if !state.running {
        return UrlsStep::Stop;
    }
    if pager.next >= pager.found.len() {
        assert(pager@.pending =~= Seq::<Seq<char>>::empty());
        return match discover_api().build_query(&pager.function) {
            Ok(address) => UrlsStep::Request(address),
            Err(e) => {
                discovery_load_album_urls_task(pager, None);
                UrlsStep::Failed(e)
            },
        };
    }
    if url_queue_is_full(&state.url_queue) {
        return UrlsStep::Wait;
    }
    let ghost before = pager@;
    let url = pager.found[pager.next].clone();
    assert(url@ == before.pending[0]);
    match url_queue_push(&mut state.url_queue, url) {
        Ok(_) => {
            pager.next = pager.next + 1;
            assert(pager@.pending =~= before.pending.drop_first());
            UrlsStep::Queued
        },
        Err(_) => UrlsStep::Wait,
    }
}

/// The player after `start`: running, where it was not.
pub open spec fn started(v: DiscoveryView) -> DiscoveryView {
    DiscoveryView { running: true, ..v }
}

/// Starts the player. A player that runs already stays as it is and `None`
/// comes back; else the player runs from now on and the paginator for the
/// feed that was asked for comes back, standing at page zero.
pub fn start(
    state: &mut Discovery,
    genre: Option<Genre>,
    discovery_type: Option<DiscoveryType>,
    format: Option<Format>,
    recommended_type: Option<RecommendedType>,
) -> (r: Option<Paginator>)
    requires
        old(state).wf(),
    ensures
        final(state).wf(),
        final(state)@ == started(old(state)@),
        r.is_some() == !old(state)@.running,
        match r {
            Some(pager) => pager.wf() && pager@ == (PaginatorView {
                function: get_web_view(0, genre, discovery_type, format, recommended_type),
                page: 0,
                pending: Seq::empty(),
            }),
            None => true,
        },
{
    if state.running {
        return None;
    }
    state.running = true;
    Some(Paginator::new(Function::get_web(0, genre, discovery_type, format, recommended_type)))
}

/// Counts a worker that was spawned. A running player has room for
/// `WORKER_COUNT` of them; a further one is refused and nothing changes.
pub fn register_worker(state: &mut Discovery) -> (taken: bool)
    requires
        old(state).wf(),
    ensures
        final(state).wf(),
        taken == (old(state)@.workers < WORKER_COUNT),
        final(state)@ == (DiscoveryView {
            workers: if taken {
                old(state)@.workers + 1
            } else {
                old(state)@.workers
            },
            ..old(state)@
        }),
{
    if state.workers < WORKER_COUNT {
        state.workers = state.workers + 1;
        true
    } else {
        false
    }
}

/// The number of workers that were counted since the last stop.
pub fn worker_count(state: &Discovery) -> (n: usize)
    ensures
        n == state@.workers,
{
    state.workers
}

/// The player after `stop`: not running, with no worker counted. The queues,
/// the registry, the index, the history and the cursor stay.
pub open spec fn stopped(v: DiscoveryView) -> DiscoveryView {
    DiscoveryView { running: false, workers: 0, ..v }
}

/// Stops the player and says how many workers are to be joined.
pub fn stop(state: &mut Discovery) -> (joined: usize)
    requires
        old(state).wf(),
    ensures
        final(state).wf(),
        final(state)@ == stopped(old(state)@),
        joined == old(state)@.workers,
{
    state.running = false;
    let joined = state.workers;
    state.workers = 0;
    joined
}

} // verus!
