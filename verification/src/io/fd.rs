use vstd::prelude::*;

use crate::error::Error;
use crate::op::{Op, OpView};

verus! {

/// An open file descriptor, and whether it has been closed through the
/// ring. A descriptor that was not closed so is to be closed when it is
/// dropped.
pub struct Fd {
    fd: i32,
    closed: bool,
}

impl Fd {
    /// The raw descriptor.
    pub closed spec fn raw(&self) -> i32 {
        self.fd
    }

    /// Whether the descriptor was closed through the ring.
    pub closed spec fn is_closed(&self) -> bool {
        self.closed
    }

    /// Takes ownership of a raw descriptor.
    pub fn new(fd: i32) -> (r: Self)
        ensures
            r.raw() == fd,
            !r.is_closed(),
    {
        Fd { fd, closed: false }
    }

    /// Takes ownership of a raw descriptor.
    pub fn from_descriptor(fd: i32) -> (r: Self)
        ensures
            r.raw() == fd,
            !r.is_closed(),
    {
        Self::new(fd)
    }

    /// The raw descriptor, for a request.
    pub fn fd(&self) -> (r: i32)
        ensures
            r == self.raw(),
    {
        self.fd
    }

    /// Gives up ownership and returns the raw descriptor; it will not be
    /// closed on drop.
    pub fn into_raw_fd(self) -> (r: i32)
        ensures
            r == self.raw(),
    {
        self.fd
    }

    /// Whether dropping the descriptor must close it: exactly when it was
    /// not closed through the ring.
    pub fn needs_close_on_drop(&self) -> (r: bool)
        ensures
            r == !self.is_closed(),
    {
        !self.closed
    }

    /// The request that closes the descriptor.
    pub fn close_op(&self) -> (r: Op)
        ensures
            r@ == (OpView::Close { fd: self.raw() }),
    {
        Op::Close { fd: self.fd }
    }

    /// Ends a close: a failed close is reported and leaves the descriptor
    /// as it was; a close that succeeded marks it closed.
    pub fn finish_close(&mut self, res: Result<i32, Error>) -> (r: Result<(), Error>)
        ensures
            final(self).raw() == old(self).raw(),
            res matches Err(e) ==> r == Err::<(), Error>(e) && final(self).is_closed() == old(self).is_closed(),
            res is Ok ==> r is Ok && final(self).is_closed(),
    {
        match res {
            Err(e) => Err(e),
            Ok(_) => {
                self.closed = true;
                Ok(())
            },
        }
    }
}

} // verus!
