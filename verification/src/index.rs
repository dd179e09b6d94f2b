//! The append-only track index: a master list of every track taken in and a
//! filtered list of the positions a listener can reach.
//!
//! Both lists live in a `sharded_slab::Slab`. The slab chooses its own keys,
//! and which key it hands out depends on the thread that asks, so the
//! contracts below promise no more than a key that was free. The index itself
//! checks that the filtered list grows by consecutive positions.

use sharded_slab::Slab;
use vstd::prelude::*;
use crate::models::{AlbumID, TrackID};

verus! {

/// A slab of track references. The slab's own type is bound by a trait of
/// its crate, which cannot be declared here, so the slab is held whole.
#[verifier::external_body]
pub struct RefSlab {
    inner: Slab<(u32, u32)>,
}

/// A slab of master slots, held in the same way.
#[verifier::external_body]
pub struct SlotSlab {
    inner: Slab<usize>,
}

/// The track references a slab holds, by key.
pub uninterp spec fn slab_refs(s: RefSlab) -> Map<usize, (u32, u32)>;

/// The master slots a slab holds, by key.
pub uninterp spec fn slab_slots(s: SlotSlab) -> Map<usize, usize>;

/// `Slab::new`: a slab that holds nothing.
#[verifier::external_body]
pub(crate) fn refs_new() -> (slab: RefSlab)
    ensures
        (slab_refs(slab) == Map::<usize, (u32, u32)>::empty()),
{
    RefSlab { inner: Slab::new() }
}

/// `Slab::insert`: stores the value under a key that was free and returns the
/// key, or stores nothing and returns `None` when the slab has no room.
#[verifier::external_body]
pub(crate) fn refs_insert(s: &mut RefSlab, value: (u32, u32)) -> (r: Option<usize>)
    ensures
        match r {
            Some(k) => !slab_refs(*old(s)).contains_key(k) && slab_refs(*final(s)) == slab_refs(
                *old(s),
            ).insert(k, value),
            None => slab_refs(*final(s)) == slab_refs(*old(s)),
        },
{
    s.inner.insert(value)
}

/// `Slab::get`: the value stored under the key, if there is one.
#[verifier::external_body]
pub(crate) fn refs_get(s: &RefSlab, key: usize) -> (r: Option<(u32, u32)>)
    ensures
        r == (if slab_refs(*s).contains_key(key) {
            Some(slab_refs(*s)[key])
        } else {
            None
        }),
{
    s.inner.get(key).map(|e| *e)
}

/// `Slab::new` for master slots.
#[verifier::external_body]
pub(crate) fn slots_new() -> (slab: SlotSlab)
    ensures
        (slab_slots(slab) == Map::<usize, usize>::empty()),
{
    SlotSlab { inner: Slab::new() }
}

/// `Slab::insert` for master slots.
#[verifier::external_body]
pub(crate) fn slots_insert(s: &mut SlotSlab, value: usize) -> (r: Option<usize>)
    ensures
        match r {
            Some(k) => !slab_slots(*old(s)).contains_key(k) && slab_slots(*final(s))
                == slab_slots(*old(s)).insert(k, value),
            None => slab_slots(*final(s)) == slab_slots(*old(s)),
        },
{
    s.inner.insert(value)
}

/// `Slab::get` for master slots.
#[verifier::external_body]
pub(crate) fn slots_get(s: &SlotSlab, key: usize) -> (r: Option<usize>)
    ensures
        r == (if slab_slots(*s).contains_key(key) {
            Some(slab_slots(*s)[key])
        } else {
            None
        }),
{
    s.inner.get(key).map(|e| *e)
}

/// A track named by its album and its own identifier.
pub type TrackRef = (AlbumID, TrackID);

/// What the index holds, as mathematics.
pub struct IndexView {
    /// The master list: every track taken in by its slot.
    pub master: Map<usize, TrackRef>,
    /// How many tracks the master list has taken.
    pub admitted: nat,
    /// The filtered list: the master slots of the tracks a listener can
    /// reach, by position.
    pub filtered: Seq<usize>,
}

impl IndexView {
    /// Every position of the filtered list names a slot of the master list.
    pub open spec fn wf(self) -> bool {
        forall|p: int|
            0 <= p < self.filtered.len() ==> self.master.contains_key(#[trigger] self.filtered[p])
    }

    /// The track at a position of the filtered list.
    pub open spec fn ref_at(self, p: int) -> Option<TrackRef> {
        if 0 <= p < self.filtered.len() && self.master.contains_key(self.filtered[p]) {
            Some(self.master[self.filtered[p]])
        } else {
            None
        }
    }

    /// The highest position the filtered list has handed out, zero while it
    /// is empty.
    pub open spec fn cap(self) -> nat {
        if self.filtered.len() == 0 {
            0
        } else {
            (self.filtered.len() - 1) as nat
        }
    }

    /// Whether the index can count no further track: one of its two counts
    /// stands at the largest number.
    pub open spec fn is_full(self) -> bool {
        self.admitted >= usize::MAX || self.filtered.len() >= usize::MAX
    }

    /// The index after a track was added with the given outcome.
    pub open spec fn after(self, track: TrackRef, outcome: Admission) -> IndexView {
        match outcome {
            Admission::Listed { slot, position } => IndexView {
                master: self.master.insert(slot, track),
                admitted: self.admitted + 1,
                filtered: self.filtered.push(slot),
            },
            Admission::Hidden { slot } => IndexView {
                master: self.master.insert(slot, track),
                admitted: self.admitted + 1,
                filtered: self.filtered,
            },
            Admission::Unlisted { slot } => IndexView {
                master: self.master.insert(slot, track),
                admitted: self.admitted + 1,
                filtered: self.filtered,
            },
            Admission::Refused => self,
        }
    }

    /// Which outcomes adding a track may have: a heard track is never listed,
    /// and one that is listed gets a fresh slot and the next position.
    pub open spec fn allows(self, heard: bool, outcome: Admission) -> bool {
        match outcome {
            Admission::Listed { slot, position } => !heard && !self.master.contains_key(slot)
                && position == self.filtered.len(),
            Admission::Hidden { slot } => heard && !self.master.contains_key(slot),
            Admission::Unlisted { slot } => !heard && !self.master.contains_key(slot),
            Admission::Refused => true,
        }
    }
}

/// How adding one track ended.
#[derive(Clone, Copy, Debug, PartialEq, Eq, Structural)]
pub enum Admission {
    /// The track is in the master list at `slot` and can be reached at
    /// `position` of the filtered list.
    Listed { slot: usize, position: usize },
    /// The track was heard before: it is in the master list only.
    Hidden { slot: usize },
    /// The track is in the master list, but the filtered list could not take
    /// it.
    Unlisted { slot: usize },
    /// The master list could not take the track; nothing changed.
    Refused,
}

/// What adding a track comes to, given what the two lists answered. `slot` is
/// the answer of the master list: the slot it stored the track under, or
/// nothing where it had no room. `position` is the answer of the filtered
/// list, which is asked only for a track that was not heard and has a slot:
/// the key it stored the slot under, or nothing. A track without a slot is
/// refused; a heard track is hidden; any other is listed if the filtered list
/// stored it at the next position, and is unlisted if not.
pub open spec fn admission(
    heard: bool,
    next: nat,
    slot: Option<usize>,
    position: Option<usize>,
) -> Admission {
    match slot {
        None => Admission::Refused,
        Some(slot) => if heard {
            Admission::Hidden { slot }
        } else {
            match position {
                Some(position) => if position == next {
                    Admission::Listed { slot, position }
                } else {
                    Admission::Unlisted { slot }
                },
                None => Admission::Unlisted { slot },
            }
        },
    }
}

/// Settles how adding a track ended from what the two lists answered.
pub fn admission_for(heard: bool, next: usize, slot: Option<usize>, position: Option<usize>) -> (r:
    Admission)
    ensures
        r == admission(heard, next as nat, slot, position),
{
    match slot {
        None => Admission::Refused,
        Some(slot) => {
            if heard {
                Admission::Hidden { slot }
            } else {
                match position {
                    Some(position) => {
                        if position == next {
                            Admission::Listed { slot, position }
                        } else {
                            Admission::Unlisted { slot }
                        }
                    },
                    None => Admission::Unlisted { slot },
                }
            }
        },
    }
}

/// Position `p` is held, and the slot it names is held too.
pub open spec fn position_ok(
    slots: Map<usize, usize>,
    refs: Map<usize, (u32, u32)>,
    p: usize,
) -> bool {
    slots.contains_key(p) && refs.contains_key(slots[p])
}

/// The master list and the filtered list.
pub struct TrackIndex {
    master: RefSlab,
    filtered: SlotSlab,
    admitted: usize,
    listed: usize,
}

impl View for TrackIndex {
    type V = IndexView;

    closed spec fn view(&self) -> IndexView {
        IndexView {
            master: slab_refs(self.master),
            admitted: self.admitted as nat,
            filtered: Seq::new(self.listed as nat, |p: int| slab_slots(self.filtered)[p as usize]),
        }
    }
}

impl TrackIndex {
    /// The filtered slab holds every position below the count, and each of
    /// them names a slot of the master slab.
    pub closed spec fn wf(&self) -> bool {
        forall|p: usize|
            p < self.listed ==> #[trigger] position_ok(
                slab_slots(self.filtered),
                slab_refs(self.master),
                p,
            )
    }

    /// A well-formed index has a well-formed view.
    pub proof fn lemma_view_wf(&self)
        requires
            self.wf(),
        ensures
            self@.wf(),
    {
        assert forall|p: int| 0 <= p < self@.filtered.len() implies self@.master.contains_key(
            #[trigger] self@.filtered[p],
        ) by {
            assert(position_ok(slab_slots(self.filtered), slab_refs(self.master), p as usize));
        }
    }

    pub fn new() -> (r: Self)
        ensures
            r.wf(),
            r@.master == Map::<usize, TrackRef>::empty(),
            r@.admitted == 0,
            r@.filtered == Seq::<usize>::empty(),
    {
        TrackIndex { master: refs_new(), filtered: slots_new(), admitted: 0, listed: 0 }
    }

    /// The length of the filtered list.
    pub fn filtered_len(&self) -> (n: usize)
        ensures
            n == self@.filtered.len(),
    {
        self.listed
    }

    /// The number of tracks the master list has taken.
    pub fn master_len(&self) -> (n: usize)
        ensures
            n == self@.admitted,
    {
        self.admitted
    }

    /// The highest position of the filtered list, zero while it is empty.
    pub fn filtered_cap(&self) -> (n: usize)
        ensures
            n == self@.cap(),
    {
        if self.listed == 0 {
            0
        } else {
            self.listed - 1
        }
    }

    /// The track at a position of the filtered list; `None` exactly when the
    /// list has not grown that far.
    pub fn ref_at(&self, position: usize) -> (r: Option<TrackRef>)
        requires
            self.wf(),
        ensures
            r == self@.ref_at(position as int),
            r.is_some() <==> position < self@.filtered.len(),
    {
        if position >= self.listed {
            return None;
        }
        assert(position_ok(slab_slots(self.filtered), slab_refs(self.master), position));
        match slots_get(&self.filtered, position) {
            Some(slot) => refs_get(&self.master, slot),
            None => None,
        }
    }

    /// Takes in one track: it enters the master list and, unless it was heard
    /// before, the filtered list at the next position.
    ///
    /// A full index refuses the track. Any other asks the master list for a
    /// slot and, for a track that was not heard, the filtered list for a
    /// position; each of the two may answer that it has no room, so no
    /// outcome but a refusal can be promised, and the outcome is what
    /// `admission` makes of the answers.
    pub fn add_track(&mut self, album: AlbumID, track: TrackID, heard: bool) -> (outcome: Admission)
        requires
            old(self).wf(),
        ensures
            final(self).wf(),
            old(self)@.allows(heard, outcome),
            final(self)@ == old(self)@.after((album, track), outcome),
            old(self)@.is_full() ==> outcome == Admission::Refused,
            !old(self)@.is_full() ==> exists|slot: Option<usize>, position: Option<usize>|
                outcome == #[trigger] admission(
                    heard,
                    old(self)@.filtered.len(),
                    slot,
                    position,
                ) && (slot matches Some(s) ==> !old(self)@.master.contains_key(s)),
    {
        if self.admitted == usize::MAX || self.listed == usize::MAX {
            return Admission::Refused;
        }
        let ghost before = *self;
        let slot = refs_insert(&mut self.master, (album, track));
        let position = match slot {
            Some(stored) => {
                if heard {
                    None
                } else {
                    slots_insert(&mut self.filtered, stored)
                }
            },
            None => None,
        };
        let outcome = admission_for(heard, self.listed, slot, position);
        match outcome {
            Admission::Refused => {},
            Admission::Listed { slot: _, position: _ } => {
                self.admitted = self.admitted + 1;
                self.listed = self.listed + 1;
            },
            _ => {
                self.admitted = self.admitted + 1;
            },
        }
        proof {
            assert(outcome == admission(heard, before@.filtered.len(), slot, position));
            assert forall|p: usize| p < before.listed implies #[trigger] position_ok(
                slab_slots(self.filtered),
                slab_refs(self.master),
                p,
            ) by {
                assert(position_ok(slab_slots(before.filtered), slab_refs(before.master), p));
            }
            assert forall|p: usize| p < self.listed implies #[trigger] position_ok(
                slab_slots(self.filtered),
                slab_refs(self.master),
                p,
            ) by {
                if p < before.listed {
                } else {
                    assert(outcome is Listed);
                }
            }
            assert(self@.filtered =~= before@.after((album, track), outcome).filtered) by {
                assert forall|p: int| 0 <= p < before@.filtered.len() implies self@.filtered[p]
                    == before@.filtered[p] by {
                    assert(position_ok(
                        slab_slots(before.filtered),
                        slab_refs(before.master),
                        p as usize,
                    ));
                }
            }
            assert(self@.master =~= before@.after((album, track), outcome).master);
        }
        outcome
    }
}

} // verus!
