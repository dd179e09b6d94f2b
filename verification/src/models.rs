//! Albums and tracks as the catalog describes them.

use vstd::prelude::*;
use vstd::string::StringExecFns;
use crate::text::{decimal, decimal_string};

verus! {

pub type AlbumID = u32;

pub type TrackID = u32;

pub type TrackNum = i32;

/// A track as mathematics: its numbers and the characters of its texts.
pub struct TrackView {
    pub id: TrackID,
    pub num: TrackNum,
    pub name: Seq<char>,
    pub url: Seq<char>,
    pub album_id: AlbumID,
}

impl TrackView {
    /// A track can be played only if it has both a name and a stream address.
    pub open spec fn valid(self) -> bool {
        self.name.len() > 0 && self.url.len() > 0
    }
}

/// One item of an album.
#[derive(Debug)]
pub struct Track {
    pub id: TrackID,
    pub num: TrackNum,
    pub name: String,
    pub url: String,
    pub album_id: AlbumID,
}

impl View for Track {
    type V = TrackView;

    open spec fn view(&self) -> TrackView {
        TrackView {
            id: self.id,
            num: self.num,
            name: self.name@,
            url: self.url@,
            album_id: self.album_id,
        }
    }
}

impl TrackView {
    /// The track in a line of text: its name and its identifier.
    pub open spec fn text(self) -> Seq<char> {
        self.name + " : "@ + decimal(self.id as nat)
    }
}

impl Track {
    /// The track in a line of text: its name and its identifier.
    pub fn to_text(&self) -> (r: String)
        ensures
            r@ == self@.text(),
    {
        let mut r = self.name.clone();
        r.append(" : ");
        r.append(decimal_string(self.id).as_str());
        r
    }

    /// Whether the track has both a name and a stream address.
    pub fn valid(&self) -> (r: bool)
        ensures
            r == self@.valid(),
    {
        !self.name.as_str().is_empty() && !self.url.as_str().is_empty()
    }
}

impl Clone for Track {
    fn clone(&self) -> (r: Self)
        ensures
            r@ == self@,
    {
        Track {
            id: self.id,
            num: self.num,
            name: self.name.clone(),
            url: self.url.clone(),
            album_id: self.album_id,
        }
    }
}

impl Default for Track {
    fn default() -> (r: Self)
        ensures
            r@ == (TrackView { id: 0, num: 0, name: Seq::empty(), url: Seq::empty(), album_id: 0 }),
    {
        Track { id: 0, num: 0, name: String::new(), url: String::new(), album_id: 0 }
    }
}

/// The position of the first track with the given identifier, if there is one.
pub open spec fn position_of(tracks: Seq<TrackView>, id: TrackID) -> Option<int>
    decreases tracks.len(),
{
    if tracks.len() == 0 {
        None
    } else if tracks[0].id == id {
        Some(0)
    } else {
        match position_of(tracks.drop_first(), id) {
            Some(i) => Some(i + 1),
            None => None,
        }
    }
}

/// The first track with the given identifier, if there is one.
pub open spec fn track_by_id(tracks: Seq<TrackView>, id: TrackID) -> Option<TrackView> {
    match position_of(tracks, id) {
        Some(i) => Some(tracks[i]),
        None => None,
    }
}

/// The sequence after a track was put into it: in the place of the first track
/// that has its identifier, or at the end where none has.
pub open spec fn inserted(tracks: Seq<TrackView>, t: TrackView) -> Seq<TrackView> {
    match position_of(tracks, t.id) {
        Some(i) => tracks.update(i, t),
        None => tracks.push(t),
    }
}

/// No two tracks of the sequence share an identifier.
pub open spec fn distinct_ids(tracks: Seq<TrackView>) -> bool {
    forall|i: int, j: int|
        0 <= i < j < tracks.len() ==> (#[trigger] tracks[i]).id != (#[trigger] tracks[j]).id
}

/// Whether some track of the sequence carries the identifier.
pub open spec fn has_id(tracks: Seq<TrackView>, id: TrackID) -> bool {
    exists|i: int| 0 <= i < tracks.len() && (#[trigger] tracks[i]).id == id
}

/// Every track of the sequence can be played.
pub open spec fn all_valid(tracks: Seq<TrackView>) -> bool {
    forall|i: int| 0 <= i < tracks.len() ==> (#[trigger] tracks[i]).valid()
}

/// The tracks of the sequence that can be played, in their order.
pub open spec fn playable(tracks: Seq<TrackView>) -> Seq<TrackView> {
    tracks.filter(|t: TrackView| t.valid())
}

/// The identifiers of the tracks, as a set.
pub open spec fn id_set(tracks: Seq<TrackView>) -> Set<TrackID> {
    Set::new(|id: TrackID| has_id(tracks, id))
}

/// `position_of` finds a position exactly when the identifier occurs, and the
/// position it finds is the first one that carries it.
pub proof fn lemma_position_of(tracks: Seq<TrackView>, id: TrackID)
    ensures
        match position_of(tracks, id) {
            Some(i) => {
                &&& 0 <= i < tracks.len()
                &&& tracks[i].id == id
                &&& has_id(tracks, id)
                &&& forall|j: int| 0 <= j < i ==> (#[trigger] tracks[j]).id != id
            },
            None => !has_id(tracks, id),
        },
    decreases tracks.len(),
{
    if tracks.len() == 0 {
    } else if tracks[0].id == id {
    } else {
        let rest = tracks.drop_first();
        lemma_position_of(rest, id);
        match position_of(rest, id) {
            Some(i) => {
                assert(tracks[i + 1] == rest[i]);
                assert forall|j: int| 0 <= j < i + 1 implies (#[trigger] tracks[j]).id != id by {
                    if j > 0 {
                        assert(rest[j - 1] == tracks[j]);
                    }
                }
            },
            None => {
                if has_id(tracks, id) {
                    let k = choose|k: int| 0 <= k < tracks.len() && (#[trigger] tracks[k]).id == id;
                    assert(rest[k - 1].id == id);
                }
            },
        }
    }
}

/// The views of a vector of tracks.
pub open spec fn views_of(tracks: Seq<Track>) -> Seq<TrackView> {
    tracks.map_values(|t: Track| t@)
}

/// The tracks of an album, kept in the order in which they were added and
/// addressed by identifier. Adding a track whose identifier is already taken
/// replaces the earlier track in its place.
#[derive(Debug)]
pub struct TrackList {
    items: Vec<Track>,
}

impl View for TrackList {
    type V = Seq<TrackView>;

    closed spec fn view(&self) -> Seq<TrackView> {
        views_of(self.items@)
    }
}

impl TrackList {
    #[verifier::type_invariant]
    spec fn inv(self) -> bool {
        distinct_ids(views_of(self.items@))
    }

    pub fn new() -> (r: Self)
        ensures
            r@ == Seq::<TrackView>::empty(),
    {
        let r = TrackList { items: Vec::new() };
        assert(r@ =~= Seq::<TrackView>::empty());
        r
    }

    /// The number of tracks; no two of them share an identifier.
    pub fn len(&self) -> (n: usize)
        ensures
            n == self@.len(),
            distinct_ids(self@),
    {
        proof {
            use_type_invariant(self);
        }
        self.items.len()
    }

    pub fn is_empty(&self) -> (r: bool)
        ensures
            r == (self@.len() == 0),
    {
        self.items.len() == 0
    }

    /// The track at a position of the insertion order.
    pub fn at(&self, i: usize) -> (t: &Track)
        requires
            i < self@.len(),
        ensures
            t@ == self@[i as int],
    {
        &self.items[i]
    }

    /// Where the track with this identifier stands, if the list has it.
    pub fn find(&self, id: TrackID) -> (r: Option<usize>)
        ensures
            match r {
                Some(i) => position_of(self@, id) == Some(i as int) && i < self@.len(),
                None => position_of(self@, id).is_none(),
            },
    {
        let n = self.items.len();
        let mut i: usize = 0;
        while i < n
            invariant
                n == self.items@.len(),
                i <= n,
                forall|j: int| 0 <= j < i ==> (#[trigger] self@[j]).id != id,
            decreases n - i,
        {
            if self.items[i].id == id {
                proof {
                    lemma_position_of(self@, id);
                    assert(self@[i as int].id == id);
                }
                return Some(i);
            }
            i += 1;
        }
        proof {
            lemma_position_of(self@, id);
        }
        None
    }

    pub fn contains(&self, id: TrackID) -> (r: bool)
        ensures
            r == has_id(self@, id),
    {
        proof {
            lemma_position_of(self@, id);
        }
        self.find(id).is_some()
    }

    /// The track with this identifier.
    pub fn get(&self, id: TrackID) -> (r: Option<&Track>)
        ensures
            match r {
                Some(t) => track_by_id(self@, id) == Some(t@),
                None => track_by_id(self@, id).is_none(),
            },
    {
        match self.find(id) {
            Some(i) => Some(&self.items[i]),
            None => None,
        }
    }

    /// Adds a track at the end, or puts it in the place of the track that has
    /// its identifier, which is then handed back.
    pub fn insert(&mut self, track: Track) -> (r: Option<Track>)
        ensures
            final(self)@ == inserted(old(self)@, track@),
            match position_of(old(self)@, track.id) {
                Some(i) => r.is_some() && r.unwrap()@ == old(self)@[i],
                None => r.is_none(),
            },
    {
        proof {
            use_type_invariant(&*self);
            lemma_position_of(self@, track.id);
        }
        let found = self.find(track.id);
        let mut taken = TrackList::new();
        core::mem::swap(self, &mut taken);
        let TrackList { items } = taken;
        let mut items = items;
        let ghost before = views_of(items@);
        let r = match found {
            Some(i) => {
                let mut held = track;
                core::mem::swap(&mut items[i], &mut held);
                assert(views_of(items@) =~= before.update(i as int, track@));
                assert forall|a: int, b: int| 0 <= a < b < items@.len() implies (
                #[trigger] views_of(items@)[a]).id != (#[trigger] views_of(items@)[b]).id by {
                    assert(before[a].id != before[b].id);
                }
                Some(held)
            },
            None => {
                items.push(track);
                assert(views_of(items@) =~= before.push(track@));
                assert forall|a: int, b: int| 0 <= a < b < items@.len() implies (
                #[trigger] views_of(items@)[a]).id != (#[trigger] views_of(items@)[b]).id by {
                    if b == before.len() {
                        assert(before[a].id != track.id);
                    } else {
                        assert(before[a].id != before[b].id);
                    }
                }
                None
            },
        };
        *self = TrackList { items };
        r
    }
}

impl Clone for TrackList {
    fn clone(&self) -> (r: Self)
        ensures
            r@ == self@,
    {
        proof {
            use_type_invariant(self);
        }
        let n = self.items.len();
        let mut items: Vec<Track> = Vec::new();
        let mut i: usize = 0;
        while i < n
            invariant
                n == self.items@.len(),
                i <= n,
                items@.len() == i,
                forall|j: int| 0 <= j < i ==> (#[trigger] items@[j])@ == self.items@[j]@,
            decreases n - i,
        {
            items.push(self.items[i].clone());
            i += 1;
        }
        assert(views_of(items@) =~= views_of(self.items@));
        TrackList { items }
    }
}

impl Default for TrackList {
    fn default() -> (r: Self)
        ensures
            r@ == Seq::<TrackView>::empty(),
    {
        TrackList::new()
    }
}

/// An album as mathematics.
pub struct AlbumView {
    pub id: AlbumID,
    pub artist: Seq<char>,
    pub name: Seq<char>,
    pub url: Seq<char>,
    pub release_date: Seq<char>,
    pub featured_track_num: Option<TrackNum>,
    pub tracks: Seq<TrackView>,
    pub tags: Option<Seq<char>>,
    pub album_art_url: Option<Seq<char>>,
    pub artist_art_url: Option<Seq<char>>,
}

impl AlbumView {
    /// Every track belongs to this album, and no two share an identifier.
    pub open spec fn wf(self) -> bool {
        &&& distinct_ids(self.tracks)
        &&& forall|i: int|
            0 <= i < self.tracks.len() ==> (#[trigger] self.tracks[i]).album_id == self.id
    }

    /// The album with only the tracks that can be played.
    pub open spec fn playable(self) -> AlbumView {
        AlbumView { tracks: playable(self.tracks), ..self }
    }
}

/// The characters of an optional text.
pub open spec fn text_of(s: Option<String>) -> Option<Seq<char>> {
    match s {
        Some(t) => Some(t@),
        None => None,
    }
}

/// An album page as the catalog's scraper hands it over.
#[derive(Debug)]
pub struct Album {
    pub id: AlbumID,
    pub artist: String,
    pub name: String,
    pub url: String,
    pub release_date: String,
    pub featured_track_num: Option<TrackNum>,
    pub tracks: TrackList,
    pub tags: Option<String>,
    pub album_art_url: Option<String>,
    pub artist_art_url: Option<String>,
}

impl View for Album {
    type V = AlbumView;

    open spec fn view(&self) -> AlbumView {
        AlbumView {
            id: self.id,
            artist: self.artist@,
            name: self.name@,
            url: self.url@,
            release_date: self.release_date@,
            featured_track_num: self.featured_track_num,
            tracks: self.tracks@,
            tags: text_of(self.tags),
            album_art_url: text_of(self.album_art_url),
            artist_art_url: text_of(self.artist_art_url),
        }
    }
}

/// A copy of an optional text.
pub fn clone_text(s: &Option<String>) -> (r: Option<String>)
    ensures
        text_of(r) == text_of(*s),
{
    match s {
        Some(t) => Some(t.clone()),
        None => None,
    }
}

impl Clone for Album {
    fn clone(&self) -> (r: Self)
        ensures
            r@ == self@,
    {
        Album {
            id: self.id,
            artist: self.artist.clone(),
            name: self.name.clone(),
            url: self.url.clone(),
            release_date: self.release_date.clone(),
            featured_track_num: self.featured_track_num,
            tracks: self.tracks.clone(),
            tags: clone_text(&self.tags),
            album_art_url: clone_text(&self.album_art_url),
            artist_art_url: clone_text(&self.artist_art_url),
        }
    }
}

impl Default for Album {
    fn default() -> (r: Self)
        ensures
            r@.id == 0,
            r@.artist.len() == 0,
            r@.name.len() == 0,
            r@.url.len() == 0,
            r@.release_date.len() == 0,
            r@.featured_track_num.is_none(),
            r@.tracks.len() == 0,
            r@.tags.is_none(),
            r@.album_art_url.is_none(),
            r@.artist_art_url.is_none(),
    {
        Album {
            id: 0,
            artist: String::new(),
            name: String::new(),
            url: String::new(),
            release_date: String::new(),
            featured_track_num: None,
            tracks: TrackList::new(),
            tags: None,
            album_art_url: None,
            artist_art_url: None,
        }
    }
}

/// Filtering a sequence that grew by one track keeps the track exactly when
/// it can be played.
pub proof fn lemma_playable_push(tracks: Seq<TrackView>, t: TrackView)
    ensures
        playable(tracks.push(t)) == if t.valid() {
            playable(tracks).push(t)
        } else {
            playable(tracks)
        },
{
    assert(tracks.push(t).drop_last() =~= tracks);
    reveal(Seq::filter);
}

/// Every playable track can be played, and a sequence of playable tracks is
/// its own filter.
pub proof fn lemma_playable_valid(tracks: Seq<TrackView>)
    ensures
        all_valid(playable(tracks)),
        all_valid(tracks) ==> playable(tracks) == tracks,
    decreases tracks.len(),
{
    reveal(Seq::filter);
    if tracks.len() > 0 {
        let head = tracks.drop_last();
        lemma_playable_valid(head);
        assert(head.push(tracks.last()) =~= tracks);
        lemma_playable_push(head, tracks.last());
        if all_valid(tracks) {
            assert(tracks.last().valid());
            assert forall|i: int| 0 <= i < head.len() implies (#[trigger] head[i]).valid() by {
                assert(tracks[i].valid());
            }
        }
    }
}

impl Album {
    /// Whether every track names this album as its own.
    pub fn owns_its_tracks(&self) -> (r: bool)
        ensures
            r == self@.wf(),
    {
        let n = self.tracks.len();
        let mut i: usize = 0;
        while i < n
            invariant
                n == self.tracks@.len(),
                i <= n,
                forall|j: int| 0 <= j < i ==> (#[trigger] self.tracks@[j]).album_id == self.id,
            decreases n - i,
        {
            if self.tracks.at(i).album_id != self.id {
                return false;
            }
            i += 1;
        }
        true
    }

    /// The album with only its playable tracks, in their order.
    pub fn retain_playable(self) -> (r: Album)
        ensures
            r@ == self@.playable(),
    {
        let n = self.tracks.len();
        let mut kept = TrackList::new();
        let mut i: usize = 0;
        while i < n
            invariant
                n == self.tracks@.len(),
                i <= n,
                distinct_ids(self.tracks@),
                kept@ == playable(self.tracks@.subrange(0, i as int)),
                forall|k: int|
                    0 <= k < kept@.len() ==> has_id(
                        self.tracks@.subrange(0, i as int),
                        (#[trigger] kept@[k]).id,
                    ),
            decreases n - i,
        {
            let t = self.tracks.at(i);
            let ghost all = self.tracks@;
            let ghost head = all.subrange(0, i as int);
            let ghost next = all.subrange(0, i as int + 1);
            let ghost before = kept@;
            proof {
                assert(next =~= head.push(all[i as int]));
                lemma_playable_push(head, all[i as int]);
                lemma_position_of(before, t.id);
                if has_id(before, t.id) {
                    let k = choose|k: int| 0 <= k < before.len() && (#[trigger] before[k]).id == t.id;
                    let w = choose|w: int|
                        0 <= w < head.len() && (#[trigger] head[w]).id == before[k].id;
                    assert(all[w].id != all[i as int].id);
                }
            }
            if t.valid() {
                kept.insert(t.clone());
            }
            proof {
                assert forall|k: int| 0 <= k < kept@.len() implies has_id(
                    next,
                    (#[trigger] kept@[k]).id,
                ) by {
                    if k < before.len() {
                        let w = choose|w: int|
                            0 <= w < head.len() && (#[trigger] head[w]).id == before[k].id;
                        assert(next[w].id == kept@[k].id);
                    } else {
                        assert(next[i as int].id == kept@[k].id);
                    }
                }
            }
            i += 1;
        }
        assert(self.tracks@.subrange(0, n as int) =~= self.tracks@);
        Album {
            id: self.id,
            artist: self.artist,
            name: self.name,
            url: self.url,
            release_date: self.release_date,
            featured_track_num: self.featured_track_num,
            tracks: kept,
            tags: self.tags,
            album_art_url: self.album_art_url,
            artist_art_url: self.artist_art_url,
        }
    }
}

/// The line of a track in the text of an album: a star before the track that
/// the album features, a blank before any other.
pub open spec fn track_line(t: TrackView, featured: Option<TrackNum>) -> Seq<char> {
    "\n"@ + (if featured == Some(t.num) {
        "*"@
    } else {
        " "@
    }) + " "@ + t.text()
}

/// The lines of the first `n` tracks.
pub open spec fn track_lines(tracks: Seq<TrackView>, featured: Option<TrackNum>, n: int) -> Seq<
    char,
>
    decreases n,
{
    if n <= 0 {
        Seq::empty()
    } else {
        track_lines(tracks, featured, n - 1) + track_line(tracks[n - 1], featured)
    }
}

impl AlbumView {
    /// The head of the album's text: name and identifier, the address where
    /// there is one, and the artist.
    pub open spec fn head_text(self) -> Seq<char> {
        self.name + " : "@ + decimal(self.id as nat) + (if self.url.len() > 0 {
            "\n"@ + self.url
        } else {
            Seq::empty()
        }) + "\n "@ + self.artist
    }

    /// The album as text: its head and a line for each track.
    pub open spec fn text(self) -> Seq<char> {
        self.head_text() + track_lines(self.tracks, self.featured_track_num, self.tracks.len() as int)
    }
}

impl Album {
    /// The album as text: name and identifier, the address where there is
    /// one, the artist, and a line for each track.
    pub fn to_text(&self) -> (r: String)
        ensures
            r@ == self@.text(),
    {
        let mut r = self.name.clone();
        r.append(" : ");
        r.append(decimal_string(self.id).as_str());
        if !self.url.as_str().is_empty() {
            r.append("\n");
            r.append(self.url.as_str());
        }
        r.append("\n ");
        r.append(self.artist.as_str());
        assert(r@ =~= self@.head_text());
        let n = self.tracks.len();
        let mut i: usize = 0;
        while i < n
            invariant
                n == self.tracks@.len(),
                i <= n,
                r@ == self@.head_text() + track_lines(
                    self.tracks@,
                    self.featured_track_num,
                    i as int,
                ),
            decreases n - i,
        {
            let track = self.tracks.at(i);
            let starred = match self.featured_track_num {
                Some(featured) => featured == track.num,
                None => false,
            };
            let ghost before = r@;
            r.append("\n");
            r.append(
                if starred {
                    "*"
                } else {
                    " "
                },
            );
            r.append(" ");
            r.append(track.to_text().as_str());
            assert(r@ =~= before + track_line(self.tracks@[i as int], self.featured_track_num));
            assert(r@ =~= self@.head_text() + track_lines(
                self.tracks@,
                self.featured_track_num,
                i as int + 1,
            ));
            i += 1;
        }
        r
    }
}

} // verus!
