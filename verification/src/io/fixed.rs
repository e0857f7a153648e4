use vstd::prelude::*;

verus! {

/// A buffer lent out by a [`FixedPool`](super::FixedPool): the buffer itself,
/// its index among the registered buffers, and the identity of the pool it
/// belongs to.
pub struct Fixed<T> {
    pub(crate) index: u16,
    pub(crate) pool: u64,
    pub(crate) inner: T,
}

impl<T> Fixed<T> {
    /// The index under which the buffer is registered with the ring.
    pub closed spec fn spec_index(&self) -> u16 {
        self.index
    }

    /// The identity of the pool the buffer belongs to.
    pub closed spec fn spec_pool(&self) -> u64 {
        self.pool
    }

    /// The buffer itself.
    pub closed spec fn spec_inner(&self) -> T {
        self.inner
    }

    pub(crate) fn from_parts(index: u16, pool: u64, inner: T) -> (r: Self)
        ensures
            r.spec_index() == index,
            r.spec_pool() == pool,
            r.spec_inner() == inner,
    {
        Fixed { index, pool, inner }
    }

    pub(crate) fn into_parts(self) -> (r: (u16, T))
        ensures
            r == (self.spec_index(), self.spec_inner()),
    {
        (self.index, self.inner)
    }

    /// The identity of the pool the buffer belongs to.
    pub fn pool(&self) -> (r: u64)
        ensures
            r == self.spec_pool(),
    {
        self.pool
    }

    /// The index under which the buffer is registered with the ring.
    pub fn index(&self) -> (r: u16)
        ensures
            r == self.spec_index(),
    {
        self.index
    }

    /// The buffer.
    pub fn buf(&self) -> (r: &T)
        ensures
            *r == self.spec_inner(),
    {
        &self.inner
    }

    /// The buffer, to be filled.
    pub fn buf_mut(&mut self) -> (r: &mut T)
        ensures
            *r == old(self).spec_inner(),
            final(self).spec_index() == old(self).spec_index(),
            final(self).spec_pool() == old(self).spec_pool(),
            final(self).spec_inner() == *final(r),
    {
        &mut self.inner
    }
}

} // verus!
