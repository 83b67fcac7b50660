use moq_transfork::error::ServeError;
use moq_transfork::state::Poll;
use moq_transfork::track::{GroupOrder, Track};

#[test]
fn duplicate_group_is_refused() {
    let (mut writer, reader) = Track::new("live", "video").produce();
    let first = writer.create(5);
    assert!(first.is_ok());
    let second = writer.create(5);
    assert!(matches!(second, Err(ServeError::Duplicate)));
    assert_eq!(reader.latest(&writer), Some(5));
}

#[test]
fn older_group_stays_invisible() {
    let (mut writer, mut reader) = Track::new("live", "video").produce();
    assert!(writer.create(7).is_ok());
    let mut stale = writer.create(3).expect("an older group still gets a writer");
    assert_eq!(stale.info().sequence, 3);
    assert!(stale.write_frame(&[1, 2, 3]).is_ok());
    match reader.next(&writer) {
        Poll::Ready(Ok(Some(group))) => assert_eq!(group.sequence(), 7),
        _ => panic!("expected the latest group"),
    }
    assert!(reader.get(&writer, 3).is_none());
    assert_eq!(reader.get(&writer, 7).map(|g| g.sequence()), Some(7));
}

#[test]
fn append_counts_from_zero() {
    let (mut writer, reader) = Track::new("live", "audio").produce();
    for expected in 0..4u64 {
        let group = writer.append().expect("append on an open track");
        assert_eq!(group.info().sequence, expected);
        assert_eq!(reader.latest(&writer), Some(expected));
    }
}

#[test]
fn latest_never_moves_back() {
    let (mut writer, reader) = Track::new("b", "t").produce();
    let mut last = 0u64;
    for seq in [2u64, 9, 4, 9, 11, 1] {
        let _ = writer.create(seq);
        let now = reader.latest(&writer).unwrap();
        assert!(now >= last);
        last = now;
    }
    assert_eq!(last, 11);
}

#[test]
fn next_reports_each_change_once() {
    let (mut writer, mut reader) = Track::new("b", "t").produce();
    assert!(matches!(reader.next(&writer), Poll::Pending));
    assert!(writer.create(1).is_ok());
    assert!(writer.create(2).is_ok());
    match reader.next(&writer) {
        Poll::Ready(Ok(Some(g))) => assert_eq!(g.sequence(), 2),
        _ => panic!("expected group 2"),
    }
    assert!(matches!(reader.next(&writer), Poll::Pending));
}

#[test]
fn closing_reports_error_and_refuses_groups() {
    let (mut writer, mut reader) = Track::new("b", "t").produce();
    assert!(writer.close(ServeError::NotFound).is_ok());
    assert!(matches!(writer.close(ServeError::WrongSize), Err(ServeError::NotFound)));
    assert!(matches!(writer.create(1), Err(ServeError::Cancel)));
    assert!(matches!(reader.next(&writer), Poll::Ready(Err(ServeError::NotFound))));
    assert!(matches!(reader.closed(&writer), Poll::Ready(Err(ServeError::NotFound))));
}

#[test]
fn last_writer_gone_ends_track() {
    let (mut writer, mut reader) = Track::new("b", "t").produce();
    writer.split();
    writer.drop_writer();
    assert!(matches!(reader.closed(&writer), Poll::Pending));
    writer.drop_writer();
    assert!(matches!(reader.next(&writer), Poll::Ready(Ok(None))));
    assert!(matches!(reader.closed(&writer), Poll::Ready(Ok(()))));
}

#[test]
fn builder_sets_options() {
    let track = Track::new("live", "video").order(GroupOrder::Descending).priority(3).expires(500).build();
    assert_eq!(track.broadcast, "live");
    assert_eq!(track.name, "video");
    assert_eq!(track.priority, Some(3));
    assert_eq!(track.group_order, Some(GroupOrder::Descending));
    assert_eq!(track.group_expires, Some(500));
    let (_, reader) = Track::new("live", "video").priority(8).produce();
    assert_eq!(reader.priority(), Some(8));
    assert_eq!(reader.info().name, "video");
}

#[test]
fn explicit_cancel_is_reported_not_ended() {
    let (mut writer, mut reader) = Track::new("b", "t").produce();
    let second = reader.clone_reader();
    assert!(writer.close(ServeError::Cancel).is_ok());
    assert!(matches!(reader.next(&writer), Poll::Ready(Err(ServeError::Cancel))));
    assert!(matches!(second.closed(&writer), Poll::Ready(Err(ServeError::Cancel))));
    writer.drop_writer();
    assert!(matches!(second.closed(&writer), Poll::Ready(Err(ServeError::Cancel))));
}

#[test]
fn produce_keeps_every_option() {
    let (writer, reader) = Track::new("live", "video").priority(2).order(GroupOrder::Ascending).expires(40).produce();
    for t in [writer.info(), reader.info()] {
        assert_eq!(t.broadcast, "live");
        assert_eq!(t.name, "video");
        assert_eq!(t.priority, Some(2));
        assert_eq!(t.group_order, Some(GroupOrder::Ascending));
        assert_eq!(t.group_expires, Some(40));
    }
}
