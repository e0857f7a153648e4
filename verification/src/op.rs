use vstd::prelude::*;

verus! {

/// A request to submit to the ring, with everything but the addresses of
/// the memory it reads or fills: the caller adds the buffer's address to a
/// read or a write. Paths are NUL-terminated.
#[derive(Debug, PartialEq, Eq)]
pub enum Op {
    /// Does nothing; used to wake the ring.
    Nop,
    /// Reads up to `len` bytes at `offset` into a buffer.
    Read { fd: i32, len: u32, offset: u64 },
    /// Reads up to `len` bytes at `offset` into registered buffer `buf_index`.
    ReadFixed { fd: i32, len: u32, buf_index: u16, offset: u64 },
    /// Writes `len` bytes of a buffer at `offset`.
    Write { fd: i32, len: u32, offset: u64 },
    /// Writes `len` bytes of registered buffer `buf_index` at `offset`.
    WriteFixed { fd: i32, len: u32, buf_index: u16, offset: u64 },
    /// Closes a descriptor.
    Close { fd: i32 },
    /// Opens `path`, relative to `dirfd`.
    OpenAt { dirfd: i32, path: Vec<u8> },
    /// Renames `oldpath` (relative to `olddirfd`) to `newpath` (relative to `newdirfd`).
    RenameAt { olddirfd: i32, oldpath: Vec<u8>, newdirfd: i32, newpath: Vec<u8> },
    /// Makes the directory `path` with permission bits `mode`.
    MkDirAt { dirfd: i32, path: Vec<u8>, mode: u32 },
    /// Removes `path`; `flags` may ask for a directory.
    UnlinkAt { dirfd: i32, path: Vec<u8>, flags: i32 },
    /// Makes `linkpath` a symbolic link to `target`.
    SymlinkAt { newdirfd: i32, target: Vec<u8>, linkpath: Vec<u8> },
}

/// A request as a value of the specification, paths by their bytes.
pub enum OpView {
    Nop,
    Read { fd: i32, len: u32, offset: u64 },
    ReadFixed { fd: i32, len: u32, buf_index: u16, offset: u64 },
    Write { fd: i32, len: u32, offset: u64 },
    WriteFixed { fd: i32, len: u32, buf_index: u16, offset: u64 },
    Close { fd: i32 },
    OpenAt { dirfd: i32, path: Seq<u8> },
    RenameAt { olddirfd: i32, oldpath: Seq<u8>, newdirfd: i32, newpath: Seq<u8> },
    MkDirAt { dirfd: i32, path: Seq<u8>, mode: u32 },
    UnlinkAt { dirfd: i32, path: Seq<u8>, flags: i32 },
    SymlinkAt { newdirfd: i32, target: Seq<u8>, linkpath: Seq<u8> },
}

impl View for Op {
    type V = OpView;

    open spec fn view(&self) -> OpView {
        match self {
            Op::Nop => OpView::Nop,
            Op::Read { fd, len, offset } => OpView::Read { fd: *fd, len: *len, offset: *offset },
            Op::ReadFixed { fd, len, buf_index, offset } => OpView::ReadFixed {
                fd: *fd,
                len: *len,
                buf_index: *buf_index,
                offset: *offset,
            },
            Op::Write { fd, len, offset } => OpView::Write { fd: *fd, len: *len, offset: *offset },
            Op::WriteFixed { fd, len, buf_index, offset } => OpView::WriteFixed {
                fd: *fd,
                len: *len,
                buf_index: *buf_index,
                offset: *offset,
            },
            Op::Close { fd } => OpView::Close { fd: *fd },
            Op::OpenAt { dirfd, path } => OpView::OpenAt { dirfd: *dirfd, path: path@ },
            Op::RenameAt { olddirfd, oldpath, newdirfd, newpath } => OpView::RenameAt {
                olddirfd: *olddirfd,
                oldpath: oldpath@,
                newdirfd: *newdirfd,
                newpath: newpath@,
            },
            Op::MkDirAt { dirfd, path, mode } => OpView::MkDirAt { dirfd: *dirfd, path: path@, mode: *mode },
            Op::UnlinkAt { dirfd, path, flags } => OpView::UnlinkAt {
                dirfd: *dirfd,
                path: path@,
                flags: *flags,
            },
            Op::SymlinkAt { newdirfd, target, linkpath } => OpView::SymlinkAt {
                newdirfd: *newdirfd,
                target: target@,
                linkpath: linkpath@,
            },
        }
    }
}

/// The wake-up request.
pub fn nop() -> (r: Op)
    ensures
        r@ == OpView::Nop,
{
    Op::Nop
}

} // verus!
