use moq_transfork::error::ServeError;
use moq_transfork::state::Poll;
use moq_transfork::subscriber::Subscriber;
use moq_transfork::track::Track;

#[test]
fn namespace_is_cached_by_name() {
    let mut s = Subscriber::new();
    let (b, fresh) = s.namespace("live");
    assert_eq!(b.name, "live");
    assert!(fresh);
    let (_, fresh) = s.namespace("live");
    assert!(!fresh);
    assert!(s.remove_broadcast("live"));
    let (_, fresh) = s.namespace("live");
    assert!(fresh);
}

#[test]
fn subscription_ids_count_up_and_route_groups() {
    let mut s = Subscriber::new();
    let (a, reader_a) = s.init_subscribe(Track::new("live", "video").build());
    let (b, _) = s.init_subscribe(Track::new("live", "audio").build());
    assert_eq!((a, b), (0, 1));
    assert_eq!(reader_a.info().name, "video");
    assert!(s.create_group(a, 0).is_ok());
    assert!(matches!(s.create_group(a, 0), Err(ServeError::Duplicate)));
    assert!(matches!(s.create_group(9, 0), Err(ServeError::NotFound)));
    assert!(s.drop_subscribe(a));
    assert!(matches!(s.create_group(a, 1), Err(ServeError::NotFound)));
    assert!(s.create_group(b, 3).is_ok());
}

#[test]
fn announcements_queue_in_order() {
    let mut s = Subscriber::new();
    assert!(matches!(s.announced(), Poll::Pending));
    assert_eq!(s.recv_announce("one").unwrap().name, "one");
    assert!(s.recv_announce("two").is_ok());
    match s.announced() {
        Poll::Ready(Some(b)) => assert_eq!(b.name, "one"),
        _ => panic!("first announcement"),
    }
    s.close_announced();
    assert!(matches!(s.recv_announce("three"), Err(ServeError::Cancel)));
    match s.announced() {
        Poll::Ready(Some(b)) => assert_eq!(b.name, "two"),
        _ => panic!("second announcement"),
    }
    assert!(matches!(s.announced(), Poll::Ready(None)));
}
