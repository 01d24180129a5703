use roundtable::buffer_pool::BufferPool;
use roundtable::limits::{BUFFER_POOL_SIZE, BUFFER_SIZE};

#[test]
fn constants_of_the_pool() {
    assert_eq!(BUFFER_SIZE, 8192);
    assert_eq!(BUFFER_POOL_SIZE, 50);
}

#[test]
fn new_pool_is_empty() {
    let pool = BufferPool::new(50);
    assert_eq!(pool.len(), 0);
}

#[test]
fn empty_pool_hands_out_a_blank_buffer() {
    let mut pool = BufferPool::new(2);
    let buf = pool.get_buffer();
    assert_eq!(buf.len(), BUFFER_SIZE);
    assert!(buf.iter().all(|b| *b == 0));
    assert_eq!(pool.len(), 0);
}

#[test]
fn returned_buffer_is_blanked_and_reused() {
    let mut pool = BufferPool::new(2);
    let mut buf = pool.get_buffer();
    buf[0] = 9;
    buf[8191] = 7;
    pool.return_buffer(buf);
    assert_eq!(pool.len(), 1);
    let again = pool.get_buffer();
    assert_eq!(pool.len(), 0);
    assert_eq!(again.len(), BUFFER_SIZE);
    assert!(again.iter().all(|b| *b == 0));
}

#[test]
fn pool_keeps_no_more_than_its_limit() {
    let mut pool = BufferPool::new(2);
    pool.return_buffer(vec![1u8; BUFFER_SIZE]);
    pool.return_buffer(vec![2u8; BUFFER_SIZE]);
    pool.return_buffer(vec![3u8; BUFFER_SIZE]);
    assert_eq!(pool.len(), 2);
}

#[test]
fn pool_with_limit_zero_keeps_nothing() {
    let mut pool = BufferPool::new(0);
    pool.return_buffer(vec![0u8; BUFFER_SIZE]);
    assert_eq!(pool.len(), 0);
    assert_eq!(pool.get_buffer().len(), BUFFER_SIZE);
}

#[test]
fn buffer_of_small_capacity_is_dropped() {
    let mut pool = BufferPool::new(2);
    pool.return_buffer_with_capacity(vec![0u8; 10], 10);
    assert_eq!(pool.len(), 0);
    pool.return_buffer_with_capacity(Vec::new(), BUFFER_SIZE - 1);
    assert_eq!(pool.len(), 0);
}

#[test]
fn short_buffer_of_full_capacity_is_kept_and_blanked() {
    let mut pool = BufferPool::new(2);
    let mut buf = Vec::with_capacity(BUFFER_SIZE);
    buf.push(5u8);
    let capacity = buf.capacity();
    pool.return_buffer_with_capacity(buf, capacity);
    assert_eq!(pool.len(), 1);
    let again = pool.get_buffer();
    assert_eq!(again.len(), BUFFER_SIZE);
    assert!(again.iter().all(|b| *b == 0));
}

#[test]
fn return_buffer_goes_by_the_capacity_of_the_buffer() {
    let mut pool = BufferPool::new(4);
    pool.return_buffer(Vec::with_capacity(BUFFER_SIZE));
    assert_eq!(pool.len(), 1);
    pool.return_buffer(vec![0u8; 16]);
    assert_eq!(pool.len(), 1);
}

#[test]
fn a_buffer_never_returned_does_not_block_the_pool() {
    let mut pool = BufferPool::new(1);
    let lost = pool.get_buffer();
    drop(lost);
    let next = pool.get_buffer();
    assert_eq!(next.len(), BUFFER_SIZE);
    pool.return_buffer(next);
    assert_eq!(pool.len(), 1);
}
