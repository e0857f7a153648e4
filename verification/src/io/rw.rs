use vstd::prelude::*;

use super::buf::{Buf, BufMut};
use super::fd::Fd;
use super::fixed::Fixed;
use crate::error::Error;
use crate::op::{Op, OpView};

verus! {

/// The length a request asks for: the ring takes a 32-bit length, so a
/// larger buffer size is cut to its low 32 bits.
pub open spec fn request_len(size: usize) -> u32 {
    #[verifier::truncate]
    (size as u32)
}

/// A request asks for exactly the size it is given when that size fits in
/// 32 bits, and for the size's low 32 bits otherwise.
pub proof fn law_request_len(size: usize)
    ensures
        size <= u32::MAX ==> request_len(size) == size,
        request_len(size) == size as int % 0x1_0000_0000,
{
    assert(size <= u32::MAX ==> (size as u32) == size) by (bit_vector);
    let wide = size as u64;
    assert((wide as u32) as u64 == wide % 0x1_0000_0000u64) by (bit_vector);
    assert((size as u32) == (wide as u32)) by (bit_vector)
        requires
            wide == size as u64,
    ;
}

fn to_request_len(size: usize) -> (r: u32)
    ensures
        r == request_len(size),
        size <= u32::MAX ==> r == size,
{
    proof {
        law_request_len(size);
    }
    #[verifier::truncate]
    (size as u32)
}

/// How a read or a write ends: the number of bytes moved, from a result
/// code that is never negative once the completion is known not to be an
/// error.
pub fn transferred(res: Result<i32, Error>) -> (r: Result<usize, Error>)
    requires
        res matches Ok(n) ==> n >= 0,
    ensures
        res matches Ok(n) ==> r == Ok::<usize, Error>(n as usize),
        res matches Err(e) ==> r == Err::<usize, Error>(e),
{
    match res {
        Ok(n) => Ok(n as usize),
        Err(e) => Err(e),
    }
}

impl Fd {
    /// The request that reads at `offset` into a buffer with room for
    /// `cap` bytes, asking for all of that room; the caller passes the
    /// capacity the buffer reports.
    pub fn read_op(&self, cap: usize, offset: u64) -> (r: Op)
        ensures
            r@ == (OpView::Read { fd: self.raw(), len: request_len(cap), offset }),
    {
        Op::Read { fd: self.fd(), len: to_request_len(cap), offset }
    }

    /// The request that reads at `offset` into the registered buffer `buf`,
    /// which has room for `cap` bytes, asking for all of that room.
    pub fn read_fixed_op<T: BufMut>(&self, buf: &Fixed<T>, cap: usize, offset: u64) -> (r: Op)
        ensures
            r@ == (OpView::ReadFixed {
                fd: self.raw(),
                len: request_len(cap),
                buf_index: buf.spec_index(),
                offset,
            }),
    {
        Op::ReadFixed { fd: self.fd(), len: to_request_len(cap), buf_index: buf.index(), offset }
    }

    /// The request that writes the bytes `buf` holds at `offset`.
    pub fn write_op<T: Buf + ?Sized>(&self, buf: &T, offset: u64) -> (r: Op)
        ensures
            r@ == (OpView::Write { fd: self.raw(), len: request_len(buf.buf_len() as usize), offset }),
    {
        let len = buf.len();
        Op::Write { fd: self.fd(), len: to_request_len(len), offset }
    }

    /// The request that writes the bytes the registered buffer `buf` holds
    /// at `offset`.
    pub fn write_fixed_op<T: Buf>(&self, buf: &Fixed<T>, offset: u64) -> (r: Op)
        ensures
            r@ == (OpView::WriteFixed {
                fd: self.raw(),
                len: request_len(buf.spec_inner().buf_len() as usize),
                buf_index: buf.spec_index(),
                offset,
            }),
    {
        let len = buf.buf().len();
        Op::WriteFixed { fd: self.fd(), len: to_request_len(len), buf_index: buf.index(), offset }
    }
}

} // verus!
