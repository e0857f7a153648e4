use vstd::prelude::*;

use crate::error::Error;
use crate::io::buf::{Buf, BufMut};
use crate::io::fd::Fd;
use crate::io::fixed::Fixed;
use crate::op::{Op, OpView};

verus! {

/// An open file: a descriptor that the ring reads and writes.
pub struct File {
    fd: Fd,
}

impl File {
    /// The file's descriptor.
    pub closed spec fn descriptor(&self) -> Fd {
        self.fd
    }

    /// The file made of a descriptor.
    pub closed spec fn spec_from_fd(fd: Fd) -> File {
        File { fd }
    }

    /// The file that owns `fd`.
    pub fn from_fd(fd: Fd) -> (r: Self)
        ensures
            r == File::spec_from_fd(fd),
    {
        File { fd }
    }

    /// Gives up the file for its descriptor.
    pub fn into_fd(self) -> (r: Fd)
        ensures
            r == self.descriptor(),
    {
        self.fd
    }

    /// The request that reads at `offset` into a buffer with room for `cap`
    /// bytes, asking for all of that room; as for the descriptor.
    pub fn read_op(&self, cap: usize, offset: u64) -> (r: Op)
        ensures
            r@ == (OpView::Read {
                fd: self.descriptor().raw(),
                len: crate::io::rw::request_len(cap),
                offset,
            }),
    {
        self.fd.read_op(cap, offset)
    }

    /// The request that writes the bytes of `buf` at `offset`; as for the
    /// descriptor.
    pub fn write_op<T: Buf + ?Sized>(&self, buf: &T, offset: u64) -> (r: Op)
        ensures
            r@ == (OpView::Write {
                fd: self.descriptor().raw(),
                len: crate::io::rw::request_len(buf.buf_len() as usize),
                offset,
            }),
    {
        self.fd.write_op(buf, offset)
    }

    /// The request that reads at `offset` into the registered buffer `buf`,
    /// which has room for `cap` bytes, asking for all of that room.
    pub fn read_fixed_op<T: BufMut>(&self, buf: &Fixed<T>, cap: usize, offset: u64) -> (r: Op)
        ensures
            r@ == (OpView::ReadFixed {
                fd: self.descriptor().raw(),
                len: crate::io::rw::request_len(cap),
                buf_index: buf.spec_index(),
                offset,
            }),
    {
        self.fd.read_fixed_op(buf, cap, offset)
    }

    /// The request that writes the bytes of the registered buffer `buf` at
    /// `offset`.
    pub fn write_fixed_op<T: Buf>(&self, buf: &Fixed<T>, offset: u64) -> (r: Op)
        ensures
            r@ == (OpView::WriteFixed {
                fd: self.descriptor().raw(),
                len: crate::io::rw::request_len(buf.spec_inner().buf_len() as usize),
                buf_index: buf.spec_index(),
                offset,
            }),
    {
        self.fd.write_fixed_op(buf, offset)
    }

    /// The request that closes the file.
    pub fn close_op(&self) -> (r: Op)
        ensures
            r@ == (OpView::Close { fd: self.descriptor().raw() }),
    {
        self.fd.close_op()
    }

    /// Ends a close of the file; as for the descriptor.
    pub fn finish_close(&mut self, res: Result<i32, Error>) -> (r: Result<(), Error>)
        ensures
            final(self).descriptor().raw() == old(self).descriptor().raw(),
            res matches Err(e) ==> r == Err::<(), Error>(e)
                && final(self).descriptor().is_closed() == old(self).descriptor().is_closed(),
            res is Ok ==> r is Ok && final(self).descriptor().is_closed(),
    {
        self.fd.finish_close(res)
    }
}

/// A file and its descriptor are one and the same: making a file of a
/// descriptor and giving it up again returns that descriptor.
pub proof fn law_file_fd_round_trip(fd: Fd)
    ensures
        File::spec_from_fd(fd).descriptor() == fd,
{
}

} // verus!
