use vstd::prelude::*;
use crossbeam::queue::ArrayQueue;

verus! {

/// `crossbeam::queue::ArrayQueue`, a bounded FIFO queue; here it holds the
/// indices of the free registered buffers.
#[verifier::external_type_specification]
#[verifier::external_body]
#[verifier::reject_recursive_types(T)]
pub struct ExArrayQueue<T>(crossbeam::queue::ArrayQueue<T>);

/// The indices held by a queue, from its head (next to pop) to its tail.
pub uninterp spec fn queue_items(q: ArrayQueue<u16>) -> Seq<u16>;

/// The capacity a queue was created with.
pub uninterp spec fn queue_capacity(q: ArrayQueue<u16>) -> nat;

/// `ArrayQueue::new`: an empty queue of capacity `cap`. It asserts
/// that `cap` is non-zero and panics when `cap + 1` has no next power of two
/// in `usize`; both inputs are left out.
#[verifier::external_body]
pub(crate) fn queue_new(cap: usize) -> (q: ArrayQueue<u16>)
    requires
        0 < cap,
        cap as int + 1 <= (usize::MAX as int + 1) / 2,
    ensures
        queue_items(q) == Seq::<u16>::empty(),
        queue_capacity(q) == cap,
{
    ArrayQueue::new(cap)
}

/// `ArrayQueue::push`: with the queue held exclusively, the value goes to
/// the tail when fewer than `capacity` values are held, and is handed back
/// as the error otherwise.
#[verifier::external_body]
pub(crate) fn queue_push(q: &mut ArrayQueue<u16>, value: u16) -> (r: Result<(), u16>)
    ensures
        queue_capacity(*final(q)) == queue_capacity(*old(q)),
        queue_items(*old(q)).len() < queue_capacity(*old(q)) ==> {
            &&& r is Ok
            &&& queue_items(*final(q)) == queue_items(*old(q)).push(value)
        },
        queue_items(*old(q)).len() >= queue_capacity(*old(q)) ==> {
            &&& r == Err::<(), u16>(value)
            &&& queue_items(*final(q)) == queue_items(*old(q))
        },
{
    q.push(value)
}

/// `ArrayQueue::pop`: with the queue held exclusively, the value at the head
/// is removed and returned; an empty queue gives `None`.
#[verifier::external_body]
pub(crate) fn queue_pop(q: &mut ArrayQueue<u16>) -> (r: Option<u16>)
    ensures
        queue_capacity(*final(q)) == queue_capacity(*old(q)),
        queue_items(*old(q)).len() == 0 ==> {
            &&& r is None
            &&& queue_items(*final(q)) == queue_items(*old(q))
        },
        queue_items(*old(q)).len() > 0 ==> {
            &&& r == Some(queue_items(*old(q))[0])
            &&& queue_items(*final(q)) == queue_items(*old(q)).drop_first()
        },
{
    q.pop()
}

} // verus!
