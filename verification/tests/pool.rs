use wring::io::fixed_pool::max_fixed_buffers;
use wring::io::FixedPool;

#[test]
fn pool_size_is_capped() {
    assert_eq!(max_fixed_buffers(), 1024);
    let bufs: Vec<Vec<u8>> = (0..1030).map(|i| vec![(i % 256) as u8]).collect();
    let mut pool = FixedPool::new(bufs, 1);
    let mut seen = 0;
    while let Some(f) = pool.get() {
        assert_eq!(f.index() as usize, seen);
        assert_eq!(f.buf()[0], (seen % 256) as u8);
        seen += 1;
    }
    assert_eq!(seen, 1024);
}

#[test]
fn pool_lends_in_order_and_runs_out() {
    let bufs = vec![vec![10u8], vec![11u8], vec![12u8]];
    let mut pool = FixedPool::new(bufs, 1);
    let a = pool.get().unwrap();
    let b = pool.get().unwrap();
    let c = pool.get().unwrap();
    assert_eq!((a.index(), b.index(), c.index()), (0, 1, 2));
    assert_eq!((a.buf()[0], b.buf()[0], c.buf()[0]), (10, 11, 12));
    assert!(pool.get().is_none());
    assert!(pool.put_back(b).is_ok());
    let again = pool.get().unwrap();
    assert_eq!(again.index(), 1);
    assert_eq!(again.buf(), &vec![11u8]);
}

#[test]
fn put_back_goes_to_the_end_of_the_line() {
    let bufs = vec![vec![0u8; 4], vec![1u8; 4], vec![2u8; 4]];
    let mut pool = FixedPool::new(bufs, 1);
    let first = pool.get().unwrap();
    assert_eq!(first.index(), 0);
    assert!(pool.put_back(first).is_ok());
    assert_eq!(pool.get().unwrap().index(), 1);
    assert_eq!(pool.get().unwrap().index(), 2);
    assert_eq!(pool.get().unwrap().index(), 0);
}

#[test]
fn put_back_keeps_what_was_written() {
    let mut pool = FixedPool::new(vec![Vec::<u8>::new()], 1);
    let mut f = pool.get().unwrap();
    f.buf_mut().extend_from_slice(b"abc");
    assert!(pool.put_back(f).is_ok());
    let f = pool.get().unwrap();
    assert_eq!(f.buf(), &b"abc".to_vec());
}

#[test]
fn put_back_refuses_a_buffer_that_is_not_lent_out() {
    let mut one = FixedPool::new(vec![vec![1u8], vec![4u8]], 1);
    let mut two = FixedPool::new(vec![vec![2u8], vec![3u8]], 2);
    let from_two = two.get().unwrap();
    assert_eq!(from_two.pool(), 2);
    // index 0 of `one` is free, so a buffer claiming index 0 is refused.
    let refused = one.put_back(from_two).unwrap_err();
    assert_eq!(refused.index(), 0);
    assert_eq!(refused.buf(), &vec![2u8]);
    // index 0 of `one` is lent out, but a buffer of `two` is still refused.
    let own = one.get().unwrap();
    assert_eq!((own.index(), own.pool()), (0, 1));
    let refused = one.put_back(refused).unwrap_err();
    assert_eq!(refused.pool(), 2);
    assert_eq!(one.get().unwrap().index(), 1);
    assert!(one.get().is_none());
    assert!(one.put_back(own).is_ok());
    assert_eq!(one.get().unwrap().buf(), &vec![1u8]);
}
