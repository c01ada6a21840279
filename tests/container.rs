use std::sync::Arc;

use blobstore::{BlobstoreError, Container, EmbeddedStorage, OutgoingValue};

fn setup_test_container() -> (Arc<EmbeddedStorage>, Container) {
    let storage = Arc::new(EmbeddedStorage::new());
    storage.create_container("test-container".to_string()).unwrap();
    let container = Container::new("test-container".to_string(), Arc::clone(&storage));
    (storage, container)
}

fn finished(bytes: &[u8]) -> OutgoingValue {
    let outgoing = OutgoingValue::new();
    let stream = outgoing.write_body().unwrap();
    stream.write(bytes).unwrap();
    stream.close().unwrap();
    outgoing.finish().unwrap();
    outgoing
}

#[test]
fn test_container_name() {
    let (_storage, container) = setup_test_container();
    let name = container.name().unwrap();
    assert_eq!(name, "test-container");
}

#[test]
fn test_container_info() {
    let (_storage, container) = setup_test_container();
    let info = container.info().unwrap();
    assert_eq!(info.name, "test-container");
    assert!(info.created_at > 0);
}

#[test]
fn test_write_and_read_data() {
    let (_storage, container) = setup_test_container();

    let outgoing = OutgoingValue::new();
    let stream = outgoing.write_body().unwrap();
    stream.write(b"Hello, World!").unwrap();
    stream.close().unwrap();
    outgoing.finish().unwrap();

    container.write_data("test-object".to_string(), &outgoing).unwrap();

    let incoming = container.get_data("test-object".to_string(), 0, 12).unwrap();
    assert_eq!(incoming.size(), 13);

    let data = incoming.consume_sync().unwrap();
    assert_eq!(data, b"Hello, World!");
}

#[test]
fn test_write_unfinished_outgoing_value() {
    let (_storage, container) = setup_test_container();

    let outgoing = OutgoingValue::new();
    let stream = outgoing.write_body().unwrap();
    stream.write(b"Hello").unwrap();

    let result = container.write_data("test-object".to_string(), &outgoing);
    assert!(result.is_err());
}

#[test]
fn test_partial_read() {
    let (_storage, container) = setup_test_container();

    let outgoing = OutgoingValue::new();
    let stream = outgoing.write_body().unwrap();
    stream.write(b"0123456789").unwrap();
    stream.close().unwrap();
    outgoing.finish().unwrap();

    container.write_data("test-object".to_string(), &outgoing).unwrap();

    let incoming = container.get_data("test-object".to_string(), 2, 5).unwrap();
    let data = incoming.consume_sync().unwrap();
    assert_eq!(data, b"2345");
}

#[test]
fn container_test_object_operations() {
    let (_storage, container) = setup_test_container();

    assert!(!container.has_object("test-object".to_string()).unwrap());

    let outgoing = OutgoingValue::new();
    let stream = outgoing.write_body().unwrap();
    stream.write(b"test data").unwrap();
    stream.close().unwrap();
    outgoing.finish().unwrap();

    container.write_data("test-object".to_string(), &outgoing).unwrap();

    assert!(container.has_object("test-object".to_string()).unwrap());

    let info = container.object_info("test-object".to_string()).unwrap();
    assert_eq!(info.name, "test-object");
    assert_eq!(info.container, "test-container");
    assert_eq!(info.size, 9);

    container.delete_object("test-object".to_string()).unwrap();
    assert!(!container.has_object("test-object".to_string()).unwrap());

    container.delete_object("non-existent".to_string()).unwrap();
}

#[test]
fn test_list_objects() {
    let (_storage, container) = setup_test_container();

    for i in 0..5 {
        let outgoing = OutgoingValue::new();
        let stream = outgoing.write_body().unwrap();
        stream.write(format!("data{}", i).as_bytes()).unwrap();
        stream.close().unwrap();
        outgoing.finish().unwrap();

        container.write_data(format!("object{}", i), &outgoing).unwrap();
    }

    let mut stream = container.list_objects().unwrap();
    let (objects, _) = stream.read_stream_object_names(10).unwrap();

    assert_eq!(objects.len(), 5);
    assert_eq!(
        objects,
        vec![
            "object0".to_string(),
            "object1".to_string(),
            "object2".to_string(),
            "object3".to_string(),
            "object4".to_string(),
        ]
    );
}

#[test]
fn test_delete_multiple_objects() {
    let (_storage, container) = setup_test_container();

    for i in 0..5 {
        let outgoing = OutgoingValue::new();
        let stream = outgoing.write_body().unwrap();
        stream.write(format!("data{}", i).as_bytes()).unwrap();
        stream.close().unwrap();
        outgoing.finish().unwrap();

        container.write_data(format!("object{}", i), &outgoing).unwrap();
    }

    let to_delete = vec![
        "object1".to_string(),
        "object3".to_string(),
        "non-existent".to_string(),
    ];
    container.delete_objects(to_delete).unwrap();

    let mut stream = container.list_objects().unwrap();
    let (objects, _) = stream.read_stream_object_names(10).unwrap();

    assert_eq!(
        objects,
        vec!["object0".to_string(), "object2".to_string(), "object4".to_string()]
    );
}

#[test]
fn test_clear_container() {
    let (_storage, container) = setup_test_container();

    for i in 0..3 {
        let outgoing = OutgoingValue::new();
        let stream = outgoing.write_body().unwrap();
        stream.write(format!("data{}", i).as_bytes()).unwrap();
        stream.close().unwrap();
        outgoing.finish().unwrap();

        container.write_data(format!("object{}", i), &outgoing).unwrap();
    }

    let mut stream = container.list_objects().unwrap();
    let (objects, _) = stream.read_stream_object_names(10).unwrap();
    assert_eq!(objects.len(), 3);

    container.clear().unwrap();

    let mut stream = container.list_objects().unwrap();
    let (objects, _) = stream.read_stream_object_names(10).unwrap();
    assert!(objects.is_empty());
}

#[test]
fn test_container_clone() {
    let (_storage, container1) = setup_test_container();
    let container2 = container1.clone();

    assert_eq!(container1.name().unwrap(), container2.name().unwrap());

    let outgoing = OutgoingValue::new();
    let stream = outgoing.write_body().unwrap();
    stream.write(b"shared data").unwrap();
    stream.close().unwrap();
    outgoing.finish().unwrap();

    container1.write_data("shared-object".to_string(), &outgoing).unwrap();

    assert!(container2.has_object("shared-object".to_string()).unwrap());
}

#[test]
fn unfinished_value_is_invalid_operation_whatever_was_written() {
    let (_storage, container) = setup_test_container();
    let empty = OutgoingValue::new();
    assert!(matches!(
        container.write_data("o".to_string(), &empty),
        Err(BlobstoreError::InvalidOperation(_))
    ));
    let written = OutgoingValue::new();
    let stream = written.write_body().unwrap();
    stream.write(b"a lot of bytes").unwrap();
    stream.write(b" and more").unwrap();
    stream.close().unwrap();
    assert!(matches!(
        container.write_data("o".to_string(), &written),
        Err(BlobstoreError::InvalidOperation(_))
    ));
    assert!(!container.has_object("o".to_string()).unwrap());
}

#[test]
fn listing_is_a_snapshot() {
    let (_storage, container) = setup_test_container();
    container.write_data("b".to_string(), &finished(b"1")).unwrap();
    container.write_data("a".to_string(), &finished(b"2")).unwrap();
    let mut listing = container.list_objects().unwrap();
    container.write_data("c".to_string(), &finished(b"3")).unwrap();
    container.delete_object("a".to_string()).unwrap();
    assert_eq!(
        listing.read_all_remaining().unwrap(),
        vec!["a".to_string(), "b".to_string()]
    );
}

#[test]
fn handle_on_deleted_container_reports_not_found() {
    let (storage, container) = setup_test_container();
    storage.delete_container(&"test-container".to_string()).unwrap();
    assert!(matches!(container.info(), Err(BlobstoreError::ContainerNotFound(_))));
    assert!(matches!(
        container.write_data("o".to_string(), &finished(b"x")),
        Err(BlobstoreError::ContainerNotFound(_))
    ));
    assert!(matches!(container.list_objects(), Err(BlobstoreError::ContainerNotFound(_))));
    assert!(matches!(container.clear(), Err(BlobstoreError::ContainerNotFound(_))));
}

#[test]
fn get_data_errors() {
    let (_storage, container) = setup_test_container();
    assert!(matches!(
        container.get_data("missing".to_string(), 0, 1),
        Err(BlobstoreError::ObjectNotFound(_))
    ));
    container.write_data("o".to_string(), &finished(b"abc")).unwrap();
    assert!(matches!(
        container.get_data("o".to_string(), 2, 1),
        Err(BlobstoreError::InvalidRange { start: 2, end: 1 })
    ));
    assert!(matches!(
        container.get_data("o".to_string(), 3, 3),
        Err(BlobstoreError::InvalidRange { start: 3, end: 3 })
    ));
}
