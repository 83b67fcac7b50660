use moq_transfork::coding::{decode_bytes, decode_varint, encode_bytes, encode_varint, VARINT_BOUND};
use moq_transfork::error::ServeError;
use moq_transfork::message::{
    decode_client, decode_server, encode_client, encode_server, Announce, AnnounceOk, Frame,
    GroupDrop, GroupHeader, Info, StreamKind, StreamUniKind, Subscribe, SubscribeUpdate,
};
use moq_transfork::setup::{Client, Role, ServerReply, FORK_00};
use moq_transfork::track::GroupOrder;

fn varint_bytes(v: u64) -> Vec<u8> {
    let mut out = Vec::new();
    encode_varint(v, &mut out).unwrap();
    out
}

#[test]
fn varint_widths_match_the_wire_format() {
    assert_eq!(varint_bytes(37), vec![0x25]);
    assert_eq!(varint_bytes(15293), vec![0x7b, 0xbd]);
    assert_eq!(varint_bytes(494878333), vec![0x9d, 0x7f, 0x3e, 0x7d]);
    assert_eq!(
        varint_bytes(151288809941952652),
        vec![0xc2, 0x19, 0x7c, 0x5e, 0xff, 0x14, 0xe8, 0x8c]
    );
}

#[test]
fn varint_round_trips_at_every_width_edge() {
    for v in [0u64, 63, 64, 16383, 16384, (1 << 30) - 1, 1 << 30, VARINT_BOUND - 1] {
        let mut buf = vec![0xff];
        encode_varint(v, &mut buf).unwrap();
        buf.push(0x11);
        let (got, n) = decode_varint(&buf, 1).unwrap();
        assert_eq!(got, v);
        assert_eq!(n + 2, buf.len());
    }
}

#[test]
fn oversized_varint_is_refused() {
    let mut out = vec![1];
    assert!(matches!(encode_varint(VARINT_BOUND, &mut out), Err(ServeError::Encode)));
    assert_eq!(out, vec![1]);
}

#[test]
fn truncated_varint_is_not_read() {
    assert_eq!(decode_varint(&[0x7b], 0), None);
    assert_eq!(decode_varint(&[0x25], 1), None);
}

#[test]
fn bytes_round_trip() {
    let mut out = Vec::new();
    encode_bytes(b"live", &mut out).unwrap();
    assert_eq!(out, vec![4, b'l', b'i', b'v', b'e']);
    let (b, n) = decode_bytes(&out, 0).unwrap();
    assert_eq!(b, b"live".to_vec());
    assert_eq!(n, 5);
    assert_eq!(decode_bytes(&out[..3], 0), None);
}

#[test]
fn int_messages_round_trip() {
    let mut out = Vec::new();
    Frame { size: 300 }.encode(&mut out).unwrap();
    assert_eq!(Frame::decode(&out, 0).unwrap(), (Frame { size: 300 }, 2));

    let drop = GroupDrop { sequence: 9, count: 0, code: 1 };
    let mut out = Vec::new();
    drop.encode(&mut out).unwrap();
    assert_eq!(out, vec![9, 0, 1]);
    assert_eq!(GroupDrop::decode(&out, 0).unwrap(), (drop, 3));

    let header = GroupHeader { subscribe: 2, sequence: 70, expires: Some(0) };
    let mut out = Vec::new();
    header.encode(&mut out).unwrap();
    assert_eq!(out, vec![2, 0x40, 70, 1]);
    assert_eq!(GroupHeader::decode(&out, 0).unwrap(), (header, 4));

    let info = Info {
        priority: 3,
        group_latest: None,
        group_order: Some(GroupOrder::Descending),
        group_expires: Some(1000),
    };
    let mut out = Vec::new();
    info.encode(&mut out).unwrap();
    assert_eq!(Info::decode(&out, 0).unwrap(), (info, out.len()));

    let update = SubscribeUpdate {
        priority: 1,
        group_order: None,
        group_expires: None,
        group_min: Some(5),
        group_max: Some(10),
    };
    let mut out = Vec::new();
    update.encode(&mut out).unwrap();
    assert_eq!(SubscribeUpdate::decode(&out, 0).unwrap(), (update, 5));
}

#[test]
fn bad_order_code_is_a_decode_error() {
    assert!(matches!(Info::decode(&[0, 0, 3, 0], 0), Err(ServeError::Decode)));
    assert!(matches!(Frame::decode(&[], 0), Err(ServeError::Decode)));
}

#[test]
fn too_large_option_is_refused() {
    let header = GroupHeader { subscribe: 0, sequence: 0, expires: Some(VARINT_BOUND - 1) };
    let mut out = Vec::new();
    assert!(header.encode(&mut out).is_err());
    assert!(out.is_empty());
}

#[test]
fn announce_and_subscribe_round_trip() {
    let mut out = Vec::new();
    Announce { broadcast: b"live".to_vec() }.encode(&mut out).unwrap();
    let (a, n) = Announce::decode(&out, 0).unwrap();
    assert_eq!(a.broadcast, b"live".to_vec());
    assert_eq!(n, 5);
    assert_eq!(AnnounceOk {}.encode(&mut out), Ok(()));
    assert_eq!(AnnounceOk::decode(&out, 5).unwrap().1, 0);

    let sub = Subscribe {
        id: 7,
        broadcast: b"live".to_vec(),
        track: b"video".to_vec(),
        priority: Some(2),
        group_order: Some(GroupOrder::Ascending),
        group_expires: None,
        group_min: None,
        group_max: Some(99),
    };
    let mut out = Vec::new();
    sub.encode(&mut out).unwrap();
    let (got, n) = Subscribe::decode(&out, 0).unwrap();
    assert_eq!(n, out.len());
    assert_eq!(got.id, 7);
    assert_eq!(got.broadcast, b"live".to_vec());
    assert_eq!(got.track, b"video".to_vec());
    assert_eq!(got.priority, Some(2));
    assert_eq!(got.group_order, Some(GroupOrder::Ascending));
    assert_eq!(got.group_expires, None);
    assert_eq!(got.group_max, Some(99));
    assert!(matches!(Subscribe::decode(&out[..out.len() - 1], 0), Err(ServeError::Decode)));
}

#[test]
fn handshake_messages_round_trip() {
    let client = Client { versions: vec![1, FORK_00], role: Some(Role::Publisher) };
    let mut out = Vec::new();
    encode_client(&client, &mut out).unwrap();
    let (got, n) = decode_client(&out, 0).unwrap();
    assert_eq!(n, out.len());
    assert_eq!(got.versions, vec![1, FORK_00]);
    assert_eq!(got.role, Some(Role::Publisher));

    let bare = Client { versions: vec![], role: None };
    let mut out = Vec::new();
    encode_client(&bare, &mut out).unwrap();
    assert_eq!(out, vec![0, 0]);
    let (got, _) = decode_client(&out, 0).unwrap();
    assert!(got.versions.is_empty());
    assert_eq!(got.role, None);

    let reply = ServerReply { version: FORK_00, role: Role::Both };
    let mut out = Vec::new();
    encode_server(&reply, &mut out).unwrap();
    assert_eq!(decode_server(&out, 0).unwrap(), (reply, out.len()));
}

#[test]
fn stream_tags() {
    assert_eq!(StreamKind::Subscribe.to_code(), 2);
    assert_eq!(StreamKind::from_code(1), Ok(StreamKind::Announce));
    assert!(matches!(StreamKind::from_code(9), Err(ServeError::UnexpectedStream(9))));
    assert_eq!(StreamUniKind::from_code(0), Ok(StreamUniKind::Group));
    assert_eq!(StreamUniKind::Group.to_code(), 0);
}
