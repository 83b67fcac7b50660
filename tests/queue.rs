use moq_transfork::queue::Queue;
use moq_transfork::state::{Poll, State};
use moq_transfork::error::ServeError;

#[test]
fn closed_queue_drains_in_order_then_ends() {
    let mut q: Queue<u32> = Queue::new();
    assert!(q.push(1).is_ok());
    assert!(q.push(2).is_ok());
    assert!(q.push(3).is_ok());
    q.close();
    assert_eq!(q.push(4), Err(4));
    assert_eq!(q.pop(), Poll::Ready(Some(1)));
    assert_eq!(q.pop(), Poll::Ready(Some(2)));
    assert_eq!(q.pop(), Poll::Ready(Some(3)));
    assert_eq!(q.pop(), Poll::Ready(None));
    assert_eq!(q.pop(), Poll::Ready(None));
}

#[test]
fn empty_open_queue_is_pending() {
    let mut q: Queue<u32> = Queue::default();
    assert_eq!(q.pop(), Poll::Pending);
    assert!(q.push(5).is_ok());
    assert_eq!(q.pop(), Poll::Ready(Some(5)));
}

#[test]
fn drain_takes_everything() {
    let mut q: Queue<u32> = Queue::new();
    q.split();
    assert!(q.push(1).is_ok());
    assert!(q.push(2).is_ok());
    assert_eq!(q.drain(), vec![1, 2]);
    assert_eq!(q.len(), 0);
    q.drop_writer();
    assert!(!q.is_closed());
    q.drop_writer();
    assert!(q.is_closed());
}

#[test]
fn last_writer_drop_cancels_and_wakes_once() {
    let mut s = State::new(10u32);
    s.split();
    assert!(s.modified());
    assert!(s.modified());
    assert_eq!(s.drop_writer(), 0);
    assert!(!s.is_closed());
    assert_eq!(s.drop_writer(), 2);
    assert!(s.is_closed());
    assert!(matches!(s.closed_result(), Err(ServeError::Cancel)));
    assert!(!s.modified());
    assert_eq!(*s.lock(), 10);
    assert_eq!(s.set(11), Err(11));
}

#[test]
fn change_bumps_epoch_and_wakes_all() {
    let mut s = State::new(1u32);
    assert!(s.modified());
    assert!(s.modified());
    assert!(s.modified());
    assert_eq!(s.set(2), Ok(3));
    assert_eq!(s.epoch_now(), 1);
    assert_eq!(*s.lock(), 2);
    *s.lock_mut() = 5;
    assert_eq!(s.epoch_now(), 2);
    assert_eq!(*s.lock(), 5);
}
