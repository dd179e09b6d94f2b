//! The two bounded hand-over buffers of the pipeline, kept in crossbeam's
//! `ArrayQueue`. Everything in this file that is marked `external_body` is
//! believed, not proved: each contract restates what the queue's source does
//! when it is reached through an exclusive reference.

use crossbeam::queue::ArrayQueue;
use vstd::prelude::*;

verus! {

#[verifier::external_type_specification]
#[verifier::external_body]
#[verifier::reject_recursive_types(T)]
pub struct ExArrayQueue<T>(ArrayQueue<T>);

/// The album identifiers waiting in a queue, oldest first.
pub uninterp spec fn queued_ids(q: ArrayQueue<u32>) -> Seq<u32>;

/// The capacity an identifier queue was made with.
pub uninterp spec fn id_queue_limit(q: ArrayQueue<u32>) -> nat;

/// The page addresses waiting in a queue, oldest first.
pub uninterp spec fn queued_urls(q: ArrayQueue<String>) -> Seq<Seq<char>>;

/// The capacity an address queue was made with.
pub uninterp spec fn url_queue_limit(q: ArrayQueue<String>) -> nat;

/// The largest capacity this library asks of a queue.
pub const MAX_QUEUE_CAPACITY: usize = 65536;

/// `ArrayQueue::new`: an empty queue of the given capacity. The outside
/// function panics on a capacity of zero, which `requires` leaves out.
#[verifier::external_body]
pub(crate) fn id_queue_new(cap: usize) -> (q: ArrayQueue<u32>)
    requires
        0 < cap <= MAX_QUEUE_CAPACITY,
    ensures
        queued_ids(q) == Seq::<u32>::empty(),
        id_queue_limit(q) == cap,
{
    ArrayQueue::new(cap)
}

/// `ArrayQueue::push_mut`: appends the value unless the queue is full, in
/// which case the queue stays as it was and the value comes back.
#[verifier::external_body]
pub(crate) fn id_queue_push(q: &mut ArrayQueue<u32>, id: u32) -> (r: Result<(), u32>)
    ensures
        id_queue_limit(*final(q)) == id_queue_limit(*old(q)),
        match r {
            Ok(_) => queued_ids(*old(q)).len() < id_queue_limit(*old(q)) && queued_ids(*final(q))
                == queued_ids(*old(q)).push(id),
            Err(back) => queued_ids(*old(q)).len() >= id_queue_limit(*old(q)) && queued_ids(
                *final(q),
            ) == queued_ids(*old(q)) && back == id,
        },
{
    q.push_mut(id)
}

/// `ArrayQueue::pop_mut`: takes the oldest value, or nothing from an empty
/// queue.
#[verifier::external_body]
pub(crate) fn id_queue_pop(q: &mut ArrayQueue<u32>) -> (r: Option<u32>)
    ensures
        id_queue_limit(*final(q)) == id_queue_limit(*old(q)),
        match r {
            Some(id) => queued_ids(*old(q)).len() > 0 && id == queued_ids(*old(q))[0]
                && queued_ids(*final(q)) == queued_ids(*old(q)).drop_first(),
            None => queued_ids(*old(q)).len() == 0 && queued_ids(*final(q)) == queued_ids(
                *old(q),
            ),
        },
{
    q.pop_mut()
}

/// `ArrayQueue::len`: the number of waiting values.
#[verifier::external_body]
pub(crate) fn id_queue_len(q: &ArrayQueue<u32>) -> (n: usize)
    ensures
        n == queued_ids(*q).len(),
{
    q.len()
}

/// `ArrayQueue::is_full`: whether the queue holds as many values as its
/// capacity.
#[verifier::external_body]
pub(crate) fn id_queue_is_full(q: &ArrayQueue<u32>) -> (r: bool)
    ensures
        r == (queued_ids(*q).len() >= id_queue_limit(*q)),
{
    q.is_full()
}

/// `ArrayQueue::new` for page addresses.
#[verifier::external_body]
pub(crate) fn url_queue_new(cap: usize) -> (q: ArrayQueue<String>)
    requires
        0 < cap <= MAX_QUEUE_CAPACITY,
    ensures
        queued_urls(q) == Seq::<Seq<char>>::empty(),
        url_queue_limit(q) == cap,
{
    ArrayQueue::new(cap)
}

/// `ArrayQueue::push_mut` for page addresses.
#[verifier::external_body]
pub(crate) fn url_queue_push(q: &mut ArrayQueue<String>, url: String) -> (r: Result<(), String>)
    ensures
        url_queue_limit(*final(q)) == url_queue_limit(*old(q)),
        match r {
            Ok(_) => queued_urls(*old(q)).len() < url_queue_limit(*old(q)) && queued_urls(
                *final(q),
            ) == queued_urls(*old(q)).push(url@),
            Err(back) => queued_urls(*old(q)).len() >= url_queue_limit(*old(q)) && queued_urls(
                *final(q),
            ) == queued_urls(*old(q)) && back@ == url@,
        },
{
    q.push_mut(url)
}

/// `ArrayQueue::pop_mut` for page addresses.
#[verifier::external_body]
pub(crate) fn url_queue_pop(q: &mut ArrayQueue<String>) -> (r: Option<String>)
    ensures
        url_queue_limit(*final(q)) == url_queue_limit(*old(q)),
        match r {
            Some(url) => queued_urls(*old(q)).len() > 0 && url@ == queued_urls(*old(q))[0]
                && queued_urls(*final(q)) == queued_urls(*old(q)).drop_first(),
            None => queued_urls(*old(q)).len() == 0 && queued_urls(*final(q)) == queued_urls(
                *old(q),
            ),
        },
{
    q.pop_mut()
}

/// `ArrayQueue::is_full` for page addresses.
#[verifier::external_body]
pub(crate) fn url_queue_is_full(q: &ArrayQueue<String>) -> (r: bool)
    ensures
        r == (queued_urls(*q).len() >= url_queue_limit(*q)),
{
    q.is_full()
}

} // verus!
