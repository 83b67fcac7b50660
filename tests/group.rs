use moq_transfork::error::ServeError;
use moq_transfork::group::Group;
use moq_transfork::state::Poll;
use moq_transfork::subscriber::ingest_chunk;

#[test]
fn frames_come_out_in_write_order() {
    let (mut writer, mut reader) = Group::new(0).produce();
    assert!(writer.write_frame(&[0xAA, 0xBB]).is_ok());
    assert!(writer.create_frame(3).is_ok());
    assert!(writer.write_chunk(&[1]).is_ok());
    assert!(writer.write_chunk(&[2, 3]).is_ok());
    assert!(writer.finish().is_ok());
    match reader.read_frame(&writer) {
        Poll::Ready(Ok(Some(f))) => assert_eq!(f, vec![0xAA, 0xBB]),
        _ => panic!("first frame"),
    }
    match reader.read_frame(&writer) {
        Poll::Ready(Ok(Some(f))) => assert_eq!(f, vec![1, 2, 3]),
        _ => panic!("second frame"),
    }
    assert!(matches!(reader.read_frame(&writer), Poll::Ready(Ok(None))));
}

#[test]
fn short_frame_closes_group_wrong_size() {
    let (mut writer, mut reader) = Group::new(4).produce();
    assert!(writer.create_frame(10).is_ok());
    assert!(ingest_chunk(&mut writer, Some(&[0u8; 6][..])).is_ok());
    assert!(matches!(ingest_chunk(&mut writer, None), Err(ServeError::WrongSize)));
    assert!(matches!(reader.read_frame(&writer), Poll::Ready(Err(ServeError::WrongSize))));
}

#[test]
fn long_chunk_closes_group_wrong_size() {
    let (mut writer, _) = Group::new(1).produce();
    assert!(writer.create_frame(2).is_ok());
    assert!(matches!(writer.write_chunk(&[1, 2, 3]), Err(ServeError::WrongSize)));
    assert!(matches!(writer.write_chunk(&[1]), Err(ServeError::WrongSize)));
}

#[test]
fn unfinished_frame_blocks_next_frame() {
    let (mut writer, _) = Group::new(1).produce();
    assert!(writer.create_frame(2).is_ok());
    assert!(writer.write_chunk(&[9]).is_ok());
    assert!(matches!(writer.create_frame(1), Err(ServeError::WrongSize)));
    assert_eq!(writer.frame_count(), 0);
}

#[test]
fn open_group_without_frames_is_pending() {
    let (writer, mut reader) = Group::new(1).produce();
    assert!(matches!(reader.read_frame(&writer), Poll::Pending));
}

#[test]
fn frame_completes_exactly_at_its_size() {
    let (mut writer, mut reader) = Group::new(2).produce();
    assert!(writer.create_frame(5).is_ok());
    for piece in [&[1u8, 2][..], &[3][..], &[4, 5][..]] {
        assert!(ingest_chunk(&mut writer, Some(piece)).is_ok());
    }
    assert_eq!(writer.frame_count(), 1);
    match reader.read_frame(&writer) {
        Poll::Ready(Ok(Some(f))) => assert_eq!(f, vec![1, 2, 3, 4, 5]),
        _ => panic!("the frame"),
    }
    assert!(matches!(ingest_chunk(&mut writer, Some(&[6][..])), Err(ServeError::WrongSize)));
}
