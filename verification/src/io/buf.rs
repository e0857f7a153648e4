use vstd::prelude::*;

verus! {

/// A byte buffer that a request can read from: its first `len` bytes hold
/// data, and it has room for `capacity` bytes in all.
pub trait Buf {
    /// The number of bytes that hold data.
    spec fn buf_len(&self) -> nat;

    fn len(&self) -> (r: usize)
        ensures
            r == self.buf_len(),
    ;

    fn capacity(&self) -> (r: usize)
        ensures
            r >= self.buf_len(),
    ;
}

/// A byte buffer that a request can fill: a read asks for as many bytes as
/// it has room for. Making the bytes the kernel wrote part of the buffer
/// takes raw memory access, which is the caller's part.
pub trait BufMut: Buf {
}

/// `Vec::capacity`: as documented, a vector never holds more elements than
/// its capacity. The capacity itself is what the allocator gave, so nothing
/// more is stated.
#[verifier::external_body]
fn vec_capacity(v: &Vec<u8>) -> (r: usize)
    ensures
        r >= v@.len(),
{
    v.capacity()
}

impl Buf for Vec<u8> {
    open spec fn buf_len(&self) -> nat {
        self@.len()
    }

    fn len(&self) -> (r: usize) {
        Vec::len(self)
    }

    fn capacity(&self) -> (r: usize) {
        vec_capacity(self)
    }
}

impl BufMut for Vec<u8> {
}

impl Buf for [u8] {
    open spec fn buf_len(&self) -> nat {
        self@.len()
    }

    fn len(&self) -> (r: usize) {
        <[u8]>::len(self)
    }

    /// A slice has no room beyond its length.
    fn capacity(&self) -> (r: usize)
        ensures
            r == self@.len(),
    {
        <[u8]>::len(self)
    }
}

} // verus!
