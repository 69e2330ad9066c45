use task_syscalls::config::PAGE_SIZE;
use task_syscalls::frame::{Frame, FramePool};

fn is_blank(frame: &Frame) -> bool {
    (0..PAGE_SIZE).all(|offset| frame.read(offset) == 0)
}

#[test]
fn a_fresh_frame_holds_a_page_of_zero_bytes() {
    let mut pool = FramePool::new(2);
    let frame = pool.acquire().unwrap();
    assert!(is_blank(&frame));
    let other = pool.acquire().unwrap();
    assert!(is_blank(&other));
}

#[test]
fn a_frame_keeps_what_is_written_to_it() {
    let mut pool = FramePool::new(1);
    let mut frame = pool.acquire().unwrap();
    frame.write(0, 0x11);
    frame.write(1, 0x22);
    frame.write(PAGE_SIZE - 1, 0x33);
    frame.write(1, 0x44);
    assert_eq!(frame.read(0), 0x11);
    assert_eq!(frame.read(1), 0x44);
    assert_eq!(frame.read(2), 0);
    assert_eq!(frame.read(PAGE_SIZE - 2), 0);
    assert_eq!(frame.read(PAGE_SIZE - 1), 0x33);
}

#[test]
fn a_pool_hands_out_as_many_frames_as_it_holds() {
    let mut pool = FramePool::new(3);
    assert_eq!(pool.available(), 3);
    assert!(pool.acquire().is_some());
    assert!(pool.acquire().is_some());
    assert_eq!(pool.available(), 1);
    assert!(pool.acquire().is_some());
    assert_eq!(pool.available(), 0);
    assert!(pool.acquire().is_none());
    assert_eq!(pool.available(), 0);
}

#[test]
fn an_empty_pool_has_nothing_to_give() {
    let mut pool = FramePool::new(0);
    assert_eq!(pool.available(), 0);
    assert!(pool.acquire().is_none());
}

#[test]
fn a_released_frame_comes_back_wiped() {
    let mut pool = FramePool::new(1);
    let mut frame = pool.acquire().unwrap();
    assert!(is_blank(&frame));
    frame.write(0, 0xaa);
    frame.write(PAGE_SIZE - 1, 0x55);
    assert!(!is_blank(&frame));
    pool.release(frame);
    assert_eq!(pool.available(), 1);
    let again = pool.acquire().unwrap();
    assert!(is_blank(&again));
}

#[test]
fn frames_move_between_pools_without_loss() {
    let mut left = FramePool::new(2);
    let mut right = FramePool::new(0);
    let frame = left.acquire().unwrap();
    right.release(frame);
    assert_eq!(left.available(), 1);
    assert_eq!(right.available(), 1);
}
