use wring::fs::util::to_cstring;
use wring::fs::{mkdir_op, open_op, rename_op, symlink_op, unlink_dir_op, unlink_file_op, unlink_op, File};
use wring::fs::fs::{finish_open, finish_unit};
use wring::io::rw::transferred;
use wring::io::{Buf, Fd, FixedPool};
use wring::op::{nop, Op};
use wring::Error;

#[test]
fn cstring_appends_nul() {
    assert_eq!(to_cstring(b"Cargo.toml"), Ok(b"Cargo.toml\0".to_vec()));
    assert_eq!(to_cstring(b""), Ok(vec![0u8]));
}

#[test]
fn cstring_refuses_interior_nul() {
    assert_eq!(to_cstring(b"a\0b\0"), Err(Error::InteriorNul(1)));
    assert_eq!(to_cstring(b"\0"), Err(Error::InteriorNul(0)));
}

#[test]
fn open_builds_openat_in_current_directory() {
    assert_eq!(open_op(b"f"), Ok(Op::OpenAt { dirfd: -100, path: b"f\0".to_vec() }));
    assert_eq!(open_op(b"f\0"), Err(Error::InteriorNul(1)));
}

#[test]
fn rename_checks_from_then_to() {
    assert_eq!(
        rename_op(b"a", b"b"),
        Ok(Op::RenameAt { olddirfd: -100, oldpath: b"a\0".to_vec(), newdirfd: -100, newpath: b"b\0".to_vec() })
    );
    assert_eq!(rename_op(b"\0a", b"b\0"), Err(Error::InteriorNul(0)));
    assert_eq!(rename_op(b"a", b"bb\0"), Err(Error::InteriorNul(2)));
}

#[test]
fn mkdir_carries_mode() {
    assert_eq!(mkdir_op(b"d", 0o755), Ok(Op::MkDirAt { dirfd: -100, path: b"d\0".to_vec(), mode: 0o755 }));
}

#[test]
fn unlink_variants() {
    assert_eq!(unlink_op(b"x", 7), Ok(Op::UnlinkAt { dirfd: -100, path: b"x\0".to_vec(), flags: 7 }));
    assert_eq!(unlink_file_op(b"x"), Ok(Op::UnlinkAt { dirfd: -100, path: b"x\0".to_vec(), flags: 0 }));
    assert_eq!(unlink_dir_op(b"x"), Ok(Op::UnlinkAt { dirfd: -100, path: b"x\0".to_vec(), flags: 0x200 }));
    assert_eq!(unlink_dir_op(b"\0"), Err(Error::InteriorNul(0)));
}

#[test]
fn symlink_target_and_link() {
    assert_eq!(
        symlink_op(b"t", b"l"),
        Ok(Op::SymlinkAt { newdirfd: -100, target: b"t\0".to_vec(), linkpath: b"l\0".to_vec() })
    );
    assert_eq!(symlink_op(b"t", b"l\0"), Err(Error::InteriorNul(1)));
}

#[test]
fn nop_is_nop() {
    assert_eq!(nop(), Op::Nop);
}

#[test]
fn read_asks_for_the_whole_room() {
    let fd = Fd::new(5);
    let slice: &[u8] = &[1, 2, 3];
    assert_eq!(fd.write_op(slice, 9), Op::Write { fd: 5, len: 3, offset: 9 });
    let buf: Vec<u8> = Vec::with_capacity(1024);
    let cap = Buf::capacity(&buf) as u32;
    assert!(cap >= 1024);
    assert_eq!(fd.read_op(Buf::capacity(&buf), 0), Op::Read { fd: 5, len: cap, offset: 0 });
    assert_eq!(fd.read_op(1024, 7), Op::Read { fd: 5, len: 1024, offset: 7 });
    // the ring takes a 32-bit length: a larger room is cut to its low bits
    assert_eq!(fd.read_op(0x1_0000_0010, 0), Op::Read { fd: 5, len: 0x10, offset: 0 });
}

#[test]
fn write_asks_for_the_held_bytes() {
    let fd = Fd::new(3);
    let mut buf: Vec<u8> = Vec::with_capacity(64);
    buf.extend_from_slice(b"hello");
    assert_eq!(fd.write_op(&buf, 100), Op::Write { fd: 3, len: 5, offset: 100 });
}

#[test]
fn fixed_ops_carry_the_index() {
    let fd = Fd::new(4);
    let mut pool = FixedPool::new(vec![vec![0u8; 8], vec![1u8; 16]], 7);
    let _a = pool.get().unwrap();
    let b = pool.get().unwrap();
    assert_eq!(fd.write_fixed_op(&b, 2), Op::WriteFixed { fd: 4, len: 16, buf_index: 1, offset: 2 });
    let cap = Buf::capacity(b.buf());
    assert!(cap >= 16);
    assert_eq!(
        fd.read_fixed_op(&b, cap, 3),
        Op::ReadFixed { fd: 4, len: cap as u32, buf_index: 1, offset: 3 }
    );
}

#[test]
fn close_marks_closed_only_on_success() {
    let mut fd = Fd::new(9);
    assert_eq!(fd.close_op(), Op::Close { fd: 9 });
    assert!(fd.needs_close_on_drop());
    assert_eq!(fd.finish_close(Err(Error::Os(9))), Err(Error::Os(9)));
    assert!(fd.needs_close_on_drop());
    assert_eq!(fd.finish_close(Ok(0)), Ok(()));
    assert!(!fd.needs_close_on_drop());
    assert_eq!(fd.into_raw_fd(), 9);
}

#[test]
fn file_round_trips_its_descriptor() {
    let file = File::from_fd(Fd::new(12));
    assert_eq!(file.close_op(), Op::Close { fd: 12 });
    assert_eq!(file.read_op(1024, 0), Op::Read { fd: 12, len: 1024, offset: 0 });
    let fd = file.into_fd();
    assert_eq!(fd.fd(), 12);
}

#[test]
fn finishing_requests() {
    let fd = finish_open(Ok(6)).unwrap();
    assert_eq!(fd.fd(), 6);
    assert!(finish_open(Err(Error::Os(2))).is_err());
    assert_eq!(finish_unit(Ok(0)), Ok(()));
    assert_eq!(finish_unit(Err(Error::Os(17))), Err(Error::Os(17)));
    assert_eq!(transferred(Ok(42)), Ok(42));
    assert_eq!(transferred(Err(Error::Os(5))), Err(Error::Os(5)));
}

#[test]
fn buffers_len_and_capacity() {
    let v = vec![1u8, 2, 3];
    assert_eq!(Buf::len(&v), 3);
    assert!(Buf::capacity(&v) >= 3);
    let s: &[u8] = &[4, 5];
    assert_eq!(Buf::len(s), 2);
    assert_eq!(Buf::capacity(s), 2);
}
