use moq_transfork::error::ServeError;
use moq_transfork::group::GroupWriter;
use moq_transfork::message::{Frame, GroupHeader, Subscribe};
use moq_transfork::setup::{Client, Role, Server, FORK_00};
use moq_transfork::state::Poll;
use moq_transfork::subscribed::{info_reply, subscribe_request, Subscribed};
use moq_transfork::subscriber::{ingest_chunk, Subscriber};
use moq_transfork::group::GroupReader;
use moq_transfork::track::{Track, TrackReader, TrackWriter};

/// Sends every frame of a publisher's group to a subscriber's group the
/// way the wire carries it: a frame header, then the payload in chunks.
fn relay(from: &GroupWriter, to: &mut GroupWriter, chunk: usize) {
    for i in 0..from.frame_count() {
        let frame = from.frame(i);
        let mut wire = Vec::new();
        Frame { size: frame.len() as u64 }.encode(&mut wire).unwrap();
        let (header, _) = Frame::decode(&wire, 0).unwrap();
        to.create_frame(header.size as usize).unwrap();
        for piece in frame.chunks(chunk) {
            ingest_chunk(to, Some(piece)).unwrap();
        }
    }
    to.finish().unwrap();
}

fn deliver(
    served: &mut Subscribed,
    publisher: &TrackWriter,
    publisher_reader: &mut TrackReader,
    subscriber: &mut Subscriber,
    group: &GroupWriter,
) -> GroupWriter {
    let header = served.on_group(ready(publisher_reader.next(publisher))).unwrap().unwrap();
    let mut wire = Vec::new();
    header.encode(&mut wire).unwrap();
    let (header, _) = GroupHeader::decode(&wire, 0).unwrap();
    let mut incoming = subscriber.create_group(header.subscribe, header.sequence).unwrap();
    relay(group, &mut incoming, 1);
    incoming
}

fn ready<T>(p: Poll<T>) -> T {
    match p {
        Poll::Ready(v) => v,
        Poll::Pending => panic!("expected a result"),
    }
}

#[test]
fn happy_path_publisher() {
    let reply = Server::any()
        .role(0, Client { versions: vec![FORK_00], role: Some(Role::Publisher) })
        .unwrap();
    assert_eq!(reply.role, Role::Publisher);

    let mut subscriber = Subscriber::new();
    subscriber.recv_announce("live").unwrap();
    let (_, fresh) = subscriber.namespace("live");
    assert!(!fresh);
    match subscriber.announced() {
        Poll::Ready(Some(b)) => assert_eq!(b.name, "live"),
        _ => panic!("announcement"),
    }

    let (id, mut sub_reader) = subscriber.init_subscribe(Track::new("live", "video").build());
    let request = subscribe_request(id, "live", &sub_reader);
    let mut wire = Vec::new();
    request.encode(&mut wire).unwrap();
    let (request, _): (Subscribe, usize) = Subscribe::decode(&wire, 0).unwrap();
    assert_eq!(request.broadcast, b"live".to_vec());
    assert_eq!(request.track, b"video".to_vec());

    let (mut publisher, mut pub_reader) = Track::new("live", "video").produce();
    let mut served = Subscribed::new(request.id);
    let mut received = Vec::new();
    for expected in 0..3u64 {
        let mut group = publisher.append().unwrap();
        group.write_frame(&[0xAA, 0xBB]).unwrap();
        group.finish().unwrap();
        let incoming = deliver(&mut served, &publisher, &mut pub_reader, &mut subscriber, &group);
        assert_eq!(incoming.info().sequence, expected);
        received.push(incoming);
    }
    let track = subscriber.track(id).unwrap();
    assert_eq!(sub_reader.latest(track), Some(2));
    match sub_reader.next(track) {
        Poll::Ready(Ok(Some(g))) => assert_eq!(g.sequence(), 2),
        _ => panic!("latest group"),
    }
    for (seq, group) in received.iter().enumerate() {
        let mut r = GroupReader::new(group.info());
        assert_eq!(r.sequence(), seq as u64);
        match r.read_frame(group) {
            Poll::Ready(Ok(Some(f))) => assert_eq!(f, vec![0xAA, 0xBB]),
            _ => panic!("frame"),
        }
        assert!(matches!(r.read_frame(group), Poll::Ready(Ok(None))));
    }
}

#[test]
fn frame_size_mismatch_spares_later_groups() {
    let mut subscriber = Subscriber::new();
    let (id, _) = subscriber.init_subscribe(Track::new("live", "video").build());
    let mut first = subscriber.create_group(id, 0).unwrap();
    first.create_frame(10).unwrap();
    ingest_chunk(&mut first, Some(&[1, 2, 3, 4, 5, 6][..])).unwrap();
    assert!(matches!(ingest_chunk(&mut first, None), Err(ServeError::WrongSize)));
    let mut second = subscriber.create_group(id, 1).unwrap();
    assert!(second.write_frame(&[7; 10]).is_ok());
    assert!(second.finish().is_ok());
}

#[test]
fn fan_out_to_two_subscriptions() {
    let (mut publisher, reader) = Track::new("live", "video").produce();
    let mut readers = vec![reader.clone_reader(), reader];
    let mut served = vec![Subscribed::new(0), Subscribed::new(1)];
    let mut group = publisher.append().unwrap();
    group.write_frame(&[1]).unwrap();
    for (r, s) in readers.iter_mut().zip(served.iter_mut()) {
        let header = s.on_group(ready(r.next(&publisher))).unwrap().unwrap();
        assert_eq!(header.sequence, 0);
    }
    let dropped = served.pop().unwrap();
    assert_eq!(
        dropped.on_group_done(0, Err(ServeError::Cancel)).map(|d| (d.sequence, d.count, d.code)),
        Some((0, 0, 0))
    );
    assert_eq!(
        dropped.on_group_done(3, Err(ServeError::WrongSize)).map(|d| (d.sequence, d.code)),
        Some((3, 413))
    );
    let _ = publisher.append().unwrap();
    let header = served[0].on_group(ready(readers[0].next(&publisher))).unwrap().unwrap();
    assert_eq!((header.subscribe, header.sequence), (0, 1));
    assert_eq!(served[0].on_group_done(1, Ok(())).map(|d| d.sequence), None);
}

#[test]
fn track_end_stops_serving() {
    let (mut publisher, mut reader) = Track::new("b", "t").produce();
    let mut served = Subscribed::new(4);
    publisher.drop_writer();
    assert!(matches!(served.on_group(ready(reader.next(&publisher))), Ok(None)));
    assert!(served.fin);
    assert!(matches!(served.on_group(Err(ServeError::NotFound)), Err(ServeError::NotFound)));
}

#[test]
fn info_reply_describes_the_track() {
    let (mut writer, reader) = Track::new("live", "video").priority(4).expires(250).produce();
    let info = info_reply(&reader, &writer);
    assert_eq!((info.priority, info.group_latest, info.group_expires), (4, None, Some(250)));
    writer.create(12).unwrap();
    assert_eq!(info_reply(&reader, &writer).group_latest, Some(12));
    let (w, r) = Track::new("live", "audio").produce();
    assert_eq!(info_reply(&r, &w).priority, 0);
}
