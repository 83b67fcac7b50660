use moq_transfork::catalog::{catalog_track, CatalogError, Reader};
use moq_transfork::error::ServeError;
use moq_transfork::state::Poll;
use moq_transfork::track::GroupOrder;

#[test]
fn catalog_track_options() {
    let t = catalog_track("live");
    assert_eq!(t.broadcast, "live");
    assert_eq!(t.name, "catalog.json");
    assert_eq!(t.priority, Some(0));
    assert_eq!(t.group_order, Some(GroupOrder::Descending));
    assert_eq!(t.group_expires, Some(0));
}

#[test]
fn catalog_reads_first_frame_of_latest_group() {
    let (mut writer, track_reader) = catalog_track("live").produce();
    let mut reader = Reader::new(track_reader);
    assert!(matches!(reader.next_group(&writer), Poll::Pending));
    let mut group = writer.append().unwrap();
    let mut g = match reader.next_group(&writer) {
        Poll::Ready(Ok(g)) => g,
        _ => panic!("a group"),
    };
    assert!(matches!(Reader::read(&mut g, &group), Poll::Pending));
    group.write_frame(b"{\"tracks\":[]}").unwrap();
    group.write_frame(b"ignored").unwrap();
    match Reader::read(&mut g, &group) {
        Poll::Ready(Ok(bytes)) => assert_eq!(bytes, b"{\"tracks\":[]}".to_vec()),
        _ => panic!("the catalog"),
    }
}

#[test]
fn catalog_of_ended_track_is_empty() {
    let (mut writer, track_reader) = catalog_track("live").produce();
    let mut reader = Reader::new(track_reader);
    writer.drop_writer();
    assert!(matches!(reader.next_group(&writer), Poll::Ready(Err(CatalogError::Empty))));
    let (mut writer, track_reader) = catalog_track("live").produce();
    let mut reader = Reader::new(track_reader);
    writer.close(ServeError::NotFound).unwrap();
    assert!(matches!(
        reader.next_group(&writer),
        Poll::Ready(Err(CatalogError::Serve(ServeError::NotFound)))
    ));
}

#[test]
fn empty_finished_group_has_no_catalog() {
    let (mut writer, track_reader) = catalog_track("live").produce();
    let mut reader = Reader::new(track_reader);
    let mut group = writer.append().unwrap();
    group.finish().unwrap();
    let mut g = match reader.next_group(&writer) {
        Poll::Ready(Ok(g)) => g,
        _ => panic!("a group"),
    };
    assert!(matches!(Reader::read(&mut g, &group), Poll::Ready(Err(CatalogError::Empty))));
}
