use vstd::prelude::*;

verus! {

/// `libc::UIO_MAXIOV`: the most buffers one registration may name;
/// `libc` defines it as 1024 on Linux.
#[verifier::external_body]
pub(crate) fn uio_maxiov() -> (r: i32)
    ensures
        r == 1024,
{
    libc::UIO_MAXIOV
}

/// `libc::AT_FDCWD`: the directory descriptor that stands for the current
/// directory; `libc` defines it as -100 on Linux.
#[verifier::external_body]
pub(crate) fn at_fdcwd() -> (r: i32)
    ensures
        r == -100,
{
    libc::AT_FDCWD
}

/// `libc::AT_REMOVEDIR`: the `unlinkat` flag that removes a directory;
/// `libc` defines it as 0x200 on Linux.
#[verifier::external_body]
pub(crate) fn at_removedir() -> (r: i32)
    ensures
        r == 0x200,
{
    libc::AT_REMOVEDIR
}

} // verus!
