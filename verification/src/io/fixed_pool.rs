use vstd::prelude::*;
use crossbeam::queue::ArrayQueue;

use super::fixed::Fixed;
use crate::sys::uio_maxiov;
use super::queue::{queue_capacity, queue_items, queue_new, queue_pop, queue_push};

verus! {

/// A sequence of distinct indices below `n` has at most `n` elements, and
/// fewer when some index below `n` is missing from it.
proof fn lemma_distinct_indices_len(s: Seq<u16>, n: u16)
    requires
        s.no_duplicates(),
        forall|k: int| 0 <= k < s.len() ==> (#[trigger] s[k]) < n,
    ensures
        s.len() <= n,
        forall|v: u16| v < n && !s.contains(v) ==> s.len() < n,
{
    let range = Set::<u16>::range(0, n);
    vstd::set_lib::range_set_properties::<u16>(0, n);
    s.unique_seq_to_set();
    assert(s.to_set().subset_of(range));
    vstd::set_lib::lemma_len_subset(s.to_set(), range);
    assert forall|v: u16| v < n && !s.contains(v) implies s.len() < n by {
        assert(s.to_set().subset_of(range.remove(v)));
        vstd::set_lib::lemma_len_subset(s.to_set(), range.remove(v));
    }
}

/// The most buffers a pool registers: `UIO_MAXIOV`, and never more than a
/// `u16` index can name.
pub open spec fn spec_max_fixed_buffers() -> nat {
    1024
}

/// The most buffers a pool takes from what it is given.
pub fn max_fixed_buffers() -> (r: usize)
    ensures
        r == spec_max_fixed_buffers(),
{
    let maxiov = uio_maxiov() as usize;
    let index_limit = u16::MAX as usize;
    if maxiov < index_limit {
        maxiov
    } else {
        index_limit
    }
}

/// What a pool holds: the indices of the free buffers in the order in
/// which they are handed out, and the buffers by index (`None` for one that
/// is lent out).
pub struct PoolState<T> {
    pub free: Seq<u16>,
    pub slots: Seq<Option<T>>,
}

impl<T> PoolState<T> {
    /// Between one and `UIO_MAXIOV` buffers; the free indices are distinct
    /// indices of the pool, and an index is free exactly when its buffer is
    /// in its slot.
    pub open spec fn wf(self) -> bool {
        &&& 0 < self.slots.len() <= spec_max_fixed_buffers()
        &&& self.free.no_duplicates()
        &&& forall|k: int| 0 <= k < self.free.len() ==> (#[trigger] self.free[k]) < self.slots.len()
        &&& forall|i: int| 0 <= i < self.slots.len() ==>
                (#[trigger] self.slots[i] is Some <==> self.free.contains(i as u16))
    }

    /// The pool that `new` makes of `bufs`: at most `UIO_MAXIOV` of them,
    /// all free, handed out in the order in which they were given.
    pub open spec fn initial(bufs: Seq<T>) -> Self {
        let n = if bufs.len() < spec_max_fixed_buffers() { bufs.len() } else { spec_max_fixed_buffers() };
        PoolState {
            free: Seq::new(n, |i: int| i as u16),
            slots: Seq::new(n, |i: int| Some(bufs[i])),
        }
    }

    /// What `get` hands out: the buffer at the head of the free queue,
    /// with its index.
    pub open spec fn next(self) -> Option<(u16, T)> {
        if self.free.len() == 0 {
            None
        } else {
            Some((self.free[0], self.slots[self.free[0] as int]->Some_0))
        }
    }

    /// The pool after `get`.
    pub open spec fn after_get(self) -> Self {
        if self.free.len() == 0 {
            self
        } else {
            PoolState {
                free: self.free.drop_first(),
                slots: self.slots.update(self.free[0] as int, None),
            }
        }
    }

    /// The indices of the buffers lent out.
    pub open spec fn lent(self) -> Set<u16> {
        Set::new(|i: u16| i < self.slots.len() && self.slots[i as int] is None)
    }

    /// Whether a buffer with this index can be put back: it is an index of
    /// the pool and its buffer is lent out.
    pub open spec fn accepts(self, index: u16) -> bool {
        index < self.slots.len() && self.slots[index as int] is None
    }

    /// The pool after a buffer is put back: it is free again, last in line.
    pub open spec fn after_put(self, index: u16, buf: T) -> Self {
        if self.accepts(index) {
            PoolState {
                free: self.free.push(index),
                slots: self.slots.update(index as int, Some(buf)),
            }
        } else {
            self
        }
    }
}

/// The pool after `k` buffers were lent out and none put back.
pub open spec fn after_gets<T>(state: PoolState<T>, k: nat) -> PoolState<T>
    decreases k,
{
    if k == 0 {
        state
    } else {
        after_gets(state, (k - 1) as nat).after_get()
    }
}

/// Lending a buffer out and putting it back leaves every buffer where it
/// was and moves its index from the head of the free queue to the tail.
pub proof fn law_get_then_put_back<T>(state: PoolState<T>)
    requires
        state.wf(),
        state.next() is Some,
    ensures
        ({
            let (index, buf) = state.next()->Some_0;
            &&& state.after_get().accepts(index)
            &&& state.after_get().after_put(index, buf) == PoolState {
                free: state.free.drop_first().push(index),
                slots: state.slots,
            }
        }),
{
    let (index, buf) = state.next()->Some_0;
    assert(state.slots[index as int] is Some);
    assert(state.slots.update(index as int, None).update(index as int, Some(buf)) =~= state.slots);
}

/// A buffer that is lent out is not lent out again before it is put back:
/// two gets in a row hand out different indices.
pub proof fn law_lent_buffers_are_distinct<T>(state: PoolState<T>)
    requires
        state.wf(),
        state.next() is Some,
        state.after_get().next() is Some,
    ensures
        state.next()->Some_0.0 != state.after_get().next()->Some_0.0,
{
    assert(state.free.drop_first()[0] == state.free[1]);
}

/// `get` lends out an index that is not lent out, and it is then lent
/// out: no two buffers lent out at once share an index.
pub proof fn law_get_lends_a_new_index<T>(state: PoolState<T>)
    requires
        state.wf(),
        state.next() is Some,
    ensures
        !state.lent().contains(state.next()->Some_0.0),
        state.after_get().lent() == state.lent().insert(state.next()->Some_0.0),
{
    let i = state.free[0];
    assert(state.slots[i as int] is Some);
    assert(state.after_get().lent() =~= state.lent().insert(i));
}

/// `put_back` takes back only an index that is lent out, and it is then
/// free again.
pub proof fn law_put_back_returns_a_lent_index<T>(state: PoolState<T>, index: u16, buf: T)
    requires
        state.accepts(index),
    ensures
        state.lent().contains(index),
        state.after_put(index, buf).lent() == state.lent().remove(index),
{
    assert(state.after_put(index, buf).lent() =~= state.lent().remove(index));
}

/// Every buffer is either free or lent out: the free indices and the
/// indices lent out together count the pool's buffers.
pub proof fn law_free_and_lent_count_all<T>(state: PoolState<T>)
    requires
        state.wf(),
    ensures
        state.lent().finite(),
        state.free.len() + state.lent().len() == state.slots.len(),
{
    let n = state.slots.len() as u16;
    let range = Set::<u16>::range(0, n);
    vstd::set_lib::range_set_properties::<u16>(0, n);
    state.free.unique_seq_to_set();
    let free_set = state.free.to_set();
    assert(free_set.disjoint(state.lent()));
    assert(free_set + state.lent() =~= range) by {
        assert forall|i: u16| range.contains(i) implies (free_set + state.lent()).contains(i) by {
            assert(state.slots[i as int] is Some <==> state.free.contains(i as int as u16));
        }
        assert forall|i: u16| (free_set + state.lent()).contains(i) implies range.contains(i) by {
            if free_set.contains(i) {
                let k = choose|k: int| 0 <= k < state.free.len() && state.free[k] == i;
                assert(state.free[k] < state.slots.len());
            }
        }
    }
    vstd::set_lib::lemma_len_subset(state.lent(), range);
    vstd::set_lib::lemma_set_disjoint_lens(free_set, state.lent());
}

/// A new pool lends out its buffers in the order in which they were given,
/// under the indices `0, 1, 2, ...`, and then has none left.
pub proof fn law_new_pool_lends_in_order<T>(bufs: Seq<T>, k: nat)
    requires
        bufs.len() > 0,
    ensures
        k < PoolState::initial(bufs).slots.len() ==>
            after_gets(PoolState::initial(bufs), k).next() == Some((k as u16, bufs[k as int])),
        k >= PoolState::initial(bufs).slots.len() ==>
            after_gets(PoolState::initial(bufs), k).next() is None,
{
    lemma_after_gets_initial(bufs, k);
}

proof fn lemma_after_gets_initial<T>(bufs: Seq<T>, k: nat)
    requires
        bufs.len() > 0,
    ensures
        ({
            let init = PoolState::initial(bufs);
            let n = init.slots.len();
            let m = if k < n { k } else { n };
            &&& after_gets(init, k).free == init.free.subrange(m as int, n as int)
            &&& after_gets(init, k).slots.len() == n
            &&& forall|i: int| m <= i < n ==> #[trigger] after_gets(init, k).slots[i] == Some(bufs[i])
        }),
    decreases k,
{
    let init = PoolState::initial(bufs);
    let n = init.slots.len();
    if k > 0 {
        lemma_after_gets_initial(bufs, (k - 1) as nat);
        let prev = after_gets(init, (k - 1) as nat);
        if k - 1 < n {
            assert(prev.free[0] == (k - 1) as u16);
            assert(prev.free.drop_first() =~= init.free.subrange(k as int, n as int));
        }
    } else {
        assert(init.free.subrange(0, n as int) =~= init.free);
    }
}

/// A pool of buffers registered with the ring under the indices
/// `0..len()`. Free buffers wait in a FIFO queue of their indices; a buffer
/// that is lent out leaves its slot empty until it is put back.
pub struct FixedPool<T> {
    id: u64,
    queue: ArrayQueue<u16>,
    slots: Vec<Option<T>>,
}

impl<T> View for FixedPool<T> {
    type V = PoolState<T>;

    closed spec fn view(&self) -> PoolState<T> {
        PoolState { free: queue_items(self.queue), slots: self.slots@ }
    }
}

impl<T> FixedPool<T> {
    /// The pool's invariant: its state is well formed and the free queue
    /// has room for every buffer.
    pub closed spec fn wf(&self) -> bool {
        &&& self@.wf()
        &&& queue_capacity(self.queue) == self.slots@.len()
    }

    /// The identity the pool was made with; the buffers it lends carry it.
    pub closed spec fn id(&self) -> u64 {
        self.id
    }

    /// What a well-formed pool gives its state: a well-formed `PoolState`.
    pub proof fn lemma_wf(&self)
        requires
            self.wf(),
        ensures
            self@.wf(),
    {
    }

    /// The number of registered buffers.
    pub open spec fn total(&self) -> nat {
        self@.slots.len()
    }

    /// Takes at most `UIO_MAXIOV` of `bufs` as the pool's buffers, indexed
    /// in the order given, all free; the pool and the buffers it lends carry
    /// the identity `id`, which tells its buffers from those of other pools.
    /// An empty `bufs` is left out: the queue of free buffers cannot be made
    /// with no room.
    pub fn new(bufs: Vec<T>, id: u64) -> (pool: Self)
        requires
            bufs@.len() > 0,
        ensures
            pool.wf(),
            pool@.wf(),
            pool@ == PoolState::initial(bufs@),
            pool.id() == id,
    {
        let mut rest = bufs;
        let take_n = max_fixed_buffers();
        rest.truncate(take_n);
        let n = rest.len();
        let ghost taken = rest@;
        let mut queue = queue_new(n);
        let mut slots: Vec<Option<T>> = Vec::new();
        let mut i: usize = 0;
        while i < n
            invariant
                0 < n <= spec_max_fixed_buffers(),
                taken.len() == n,
                i <= n,
                rest@ == taken.subrange(i as int, n as int),
                slots@ == Seq::new(i as nat, |k: int| Some(taken[k])),
                queue_items(queue) == Seq::new(i as nat, |k: int| k as u16),
                queue_capacity(queue) == n,
            decreases n - i,
        {
            let buf = rest.remove(0);
            slots.push(Some(buf));
            let pushed = queue_push(&mut queue, i as u16);
            proof {
                assert(queue_items(queue) =~= Seq::new((i + 1) as nat, |k: int| k as u16));
                assert(slots@ =~= Seq::new((i + 1) as nat, |k: int| Some(taken[k])));
                assert(rest@ =~= taken.subrange(i + 1, n as int));
            }
            i = i + 1;
        }
        let pool = FixedPool { id, queue, slots };
        proof {
            let init = PoolState::<T>::initial(bufs@);
            assert(n == init.slots.len());
            assert(taken =~= bufs@.subrange(0, n as int));
            assert(pool@.free =~= init.free);
            assert(pool@.slots =~= init.slots);
            assert(pool@ =~= init);
            let free = pool@.free;
            assert forall|a: int, b: int| 0 <= a < b < free.len() implies free[a] != free[b] by {
                assert(free[a] == a as u16 && free[b] == b as u16);
            }
            assert forall|j: int| 0 <= j < n implies (#[trigger] pool@.slots[j] is Some <==> free.contains(j as u16)) by {
                assert(free[j] == j as u16);
            }
        }
        pool
    }

    /// Lends out the free buffer that has waited longest, or gives `None`
    /// when every buffer is lent out.
    pub fn get(&mut self) -> (r: Option<Fixed<T>>)
        requires
            old(self).wf(),
        ensures
            final(self).wf(),
            final(self)@.wf(),
            final(self).id() == old(self).id(),
            final(self)@ == old(self)@.after_get(),
            old(self)@.next() is None <==> r is None,
            r matches Some(f) ==> {
                &&& old(self)@.next() == Some((f.spec_index(), f.spec_inner()))
                &&& f.spec_pool() == old(self).id()
            },
    {
        let popped = queue_pop(&mut self.queue);
        match popped {
            None => None,
            Some(index) => {
                let ghost before = old(self)@;
                assert(before.free.contains(index));
                assert(before.slots[index as int] is Some);
                let taken = self.slots[index as usize].take();
                proof {
                    let after = self@;
                    assert(after.slots =~= before.slots.update(index as int, None));
                    assert forall|i: int| 0 <= i < after.slots.len() implies
                        (#[trigger] after.slots[i] is Some <==> after.free.contains(i as u16)) by {
                        if i == index as int {
                            if after.free.contains(i as u16) {
                                let k = choose|k: int| 0 <= k < after.free.len() && after.free[k] == i as u16;
                                assert(before.free[k + 1] == before.free[0]);
                            }
                        } else {
                            assert(before.slots[i] is Some <==> before.free.contains(i as u16));
                            if before.free.contains(i as u16) {
                                let k = choose|k: int| 0 <= k < before.free.len() && before.free[k] == i as u16;
                                assert(k != 0);
                                assert(after.free[k - 1] == i as u16);
                            }
                        }
                    }
                }
                match taken {
                    Some(inner) => Some(Fixed::from_parts(index, self.id, inner)),
                    None => None,
                }
            },
        }
    }

    /// Puts a lent-out buffer back, last in line among the free ones. A
    /// buffer of another pool, or whose index is not one of the pool's
    /// lent-out indices, is refused and handed back.
    pub fn put_back(&mut self, fixed: Fixed<T>) -> (r: Result<(), Fixed<T>>)
        requires
            old(self).wf(),
        ensures
            final(self).wf(),
            final(self)@.wf(),
            final(self).id() == old(self).id(),
            r is Ok <==> fixed.spec_pool() == old(self).id() && old(self)@.accepts(fixed.spec_index()),
            r is Ok ==> final(self)@ == old(self)@.after_put(fixed.spec_index(), fixed.spec_inner()),
            r is Err ==> final(self)@ == old(self)@ && r == Err::<(), Fixed<T>>(fixed),
    {
        let index = fixed.index();
        if fixed.pool() == self.id && (index as usize) < self.slots.len() && self.slots[index as usize].is_none() {
            let ghost before = self@;
            proof {
                lemma_distinct_indices_len(before.free, before.slots.len() as u16);
                assert(!before.free.contains(index));
            }
            let (index, inner) = fixed.into_parts();
            self.slots.set(index as usize, Some(inner));
            let pushed = queue_push(&mut self.queue, index);
            proof {
                let after = self@;
                assert(after.free =~= before.free.push(index));
                assert forall|i: int| 0 <= i < after.slots.len() implies
                    (#[trigger] after.slots[i] is Some <==> after.free.contains(i as u16)) by {
                    if i != index as int {
                        assert(before.slots[i] is Some <==> before.free.contains(i as u16));
                        if after.free.contains(i as u16) {
                            let k = choose|k: int| 0 <= k < after.free.len() && after.free[k] == i as u16;
                            assert(k < before.free.len());
                            assert(before.free[k] == i as u16);
                        }
                        if before.free.contains(i as u16) {
                            let k = choose|k: int| 0 <= k < before.free.len() && before.free[k] == i as u16;
                            assert(after.free[k] == i as u16);
                        }
                    } else {
                        assert(after.free[before.free.len() as int] == index);
                    }
                }
                assert forall|a: int, b: int| 0 <= a < b < after.free.len() implies after.free[a] != after.free[b] by {
                    if b == before.free.len() {
                        assert(before.free[a] == after.free[a]);
                    }
                }
            }
            Ok(())
        } else {
            Err(fixed)
        }
    }
}

} // verus!
