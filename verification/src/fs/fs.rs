use vstd::prelude::*;

use super::util::{spec_to_cstring, to_cstring};
use crate::error::Error;
use crate::io::fd::Fd;
use crate::op::{Op, OpView};
use crate::sys::at_fdcwd;

verus! {

/// The directory descriptor that stands for the current directory.
pub open spec fn spec_at_fdcwd() -> i32 {
    -100i32
}

/// The request that opens `path`, relative to the current directory; a
/// path holding a NUL byte is refused.
pub fn open_op(path: &[u8]) -> (r: Result<Op, Error>)
    ensures
        match spec_to_cstring(path@) {
            Ok(c) => r matches Ok(op) && op@ == (OpView::OpenAt { dirfd: spec_at_fdcwd(), path: c }),
            Err(e) => r == Err::<Op, Error>(e),
        },
{
    let path = to_cstring(path)?;
    Ok(Op::OpenAt { dirfd: at_fdcwd(), path })
}

/// Ends an open: the completion's result is the new descriptor.
pub fn finish_open(res: Result<i32, Error>) -> (r: Result<Fd, Error>)
    ensures
        res matches Ok(fd) ==> r matches Ok(f) && f.raw() == fd && !f.is_closed(),
        res matches Err(e) ==> r matches Err(e2) && e2 == e,
{
    match res {
        Ok(fd) => Ok(Fd::new(fd)),
        Err(e) => Err(e),
    }
}

/// Ends a request whose only outcome is success or an error.
pub fn finish_unit(res: Result<i32, Error>) -> (r: Result<(), Error>)
    ensures
        res is Ok ==> r is Ok,
        res matches Err(e) ==> r == Err::<(), Error>(e),
{
    match res {
        Ok(_) => Ok(()),
        Err(e) => Err(e),
    }
}

/// The request that renames `from` to `to`, both relative to the current
/// directory; `from` is checked first, then `to`.
pub fn rename_op(from: &[u8], to: &[u8]) -> (r: Result<Op, Error>)
    ensures
        match (spec_to_cstring(from@), spec_to_cstring(to@)) {
            (Ok(f), Ok(t)) => r matches Ok(op) && op@ == (OpView::RenameAt {
                olddirfd: spec_at_fdcwd(),
                oldpath: f,
                newdirfd: spec_at_fdcwd(),
                newpath: t,
            }),
            (Err(e), _) => r == Err::<Op, Error>(e),
            (Ok(_), Err(e)) => r == Err::<Op, Error>(e),
        },
{
    let from = to_cstring(from)?;
    let to = to_cstring(to)?;
    Ok(Op::RenameAt { olddirfd: at_fdcwd(), oldpath: from, newdirfd: at_fdcwd(), newpath: to })
}

/// The request that makes the directory `path`, relative to the current
/// directory, with permission bits `mode`.
pub fn mkdir_op(path: &[u8], mode: u32) -> (r: Result<Op, Error>)
    ensures
        match spec_to_cstring(path@) {
            Ok(c) => r matches Ok(op) && op@ == (OpView::MkDirAt { dirfd: spec_at_fdcwd(), path: c, mode }),
            Err(e) => r == Err::<Op, Error>(e),
        },
{
    let path = to_cstring(path)?;
    Ok(Op::MkDirAt { dirfd: at_fdcwd(), path, mode })
}

} // verus!
