use vstd::prelude::*;

use super::fs::spec_at_fdcwd;
use super::util::{spec_to_cstring, to_cstring};
use crate::error::Error;
use crate::op::{Op, OpView};
use crate::sys::{at_fdcwd, at_removedir};

verus! {

/// The `unlinkat` flag that asks for a directory to be removed.
pub open spec fn spec_at_removedir() -> i32 {
    0x200
}

/// The request that removes `path`, relative to the current directory,
/// with the `unlinkat` flags `flags`.
pub fn unlink_op(path: &[u8], flags: i32) -> (r: Result<Op, Error>)
    ensures
        match spec_to_cstring(path@) {
            Ok(c) => r matches Ok(op) && op@ == (OpView::UnlinkAt { dirfd: spec_at_fdcwd(), path: c, flags }),
            Err(e) => r == Err::<Op, Error>(e),
        },
{
    let path = to_cstring(path)?;
    Ok(Op::UnlinkAt { dirfd: at_fdcwd(), path, flags })
}

/// The request that removes the file `path`: `unlink_op` with no flag.
pub fn unlink_file_op(path: &[u8]) -> (r: Result<Op, Error>)
    ensures
        match spec_to_cstring(path@) {
            Ok(c) => r matches Ok(op) && op@ == (OpView::UnlinkAt { dirfd: spec_at_fdcwd(), path: c, flags: 0 }),
            Err(e) => r == Err::<Op, Error>(e),
        },
{
    unlink_op(path, 0)
}

/// The request that removes the directory `path`: `unlink_op` with
/// `AT_REMOVEDIR`.
pub fn unlink_dir_op(path: &[u8]) -> (r: Result<Op, Error>)
    ensures
        match spec_to_cstring(path@) {
            Ok(c) => r matches Ok(op) && op@ == (OpView::UnlinkAt {
                dirfd: spec_at_fdcwd(),
                path: c,
                flags: spec_at_removedir(),
            }),
            Err(e) => r == Err::<Op, Error>(e),
        },
{
    unlink_op(path, at_removedir())
}

/// The request that makes `to` a symbolic link to `from`, `to` relative to
/// the current directory; `from` is checked first, then `to`.
pub fn symlink_op(from: &[u8], to: &[u8]) -> (r: Result<Op, Error>)
    ensures
        match (spec_to_cstring(from@), spec_to_cstring(to@)) {
            (Ok(f), Ok(t)) => r matches Ok(op) && op@ == (OpView::SymlinkAt {
                newdirfd: spec_at_fdcwd(),
                target: f,
                linkpath: t,
            }),
            (Err(e), _) => r == Err::<Op, Error>(e),
            (Ok(_), Err(e)) => r == Err::<Op, Error>(e),
        },
{
    let from = to_cstring(from)?;
    let to = to_cstring(to)?;
    Ok(Op::SymlinkAt { newdirfd: at_fdcwd(), target: from, linkpath: to })
}

} // verus!
