use blobstore::{
    container_exists, copy_object, create_container, delete_container, get_container,
    list_containers, move_object, reset_blobstore, ObjectId, OutgoingValue,
};

#[test]
fn test_full_workflow() {
    let storage = reset_blobstore();

    let container = create_container(&storage, "test-workflow".to_string()).unwrap();

    let test_data = vec![
        ("file1.txt", "Hello, World!"),
        ("file2.txt", "This is a test file."),
        ("file3.txt", "Another test file with more data."),
    ];

    for (name, content) in &test_data {
        let outgoing = OutgoingValue::new();
        let stream = outgoing.write_body().unwrap();
        stream.write(content.as_bytes()).unwrap();
        stream.close().unwrap();
        outgoing.finish().unwrap();

        container.write_data(name.to_string(), &outgoing).unwrap();
    }

    let mut object_stream = container.list_objects().unwrap();
    let (objects, _) = object_stream.read_stream_object_names(10).unwrap();
    assert_eq!(objects.len(), 3);
    assert!(objects.contains(&"file1.txt".to_string()));
    assert!(objects.contains(&"file2.txt".to_string()));
    assert!(objects.contains(&"file3.txt".to_string()));

    for (name, expected_content) in &test_data {
        let incoming = container
            .get_data(name.to_string(), 0, expected_content.len() as u64 - 1)
            .unwrap();
        let data = incoming.consume_sync().unwrap();
        assert_eq!(data, expected_content.as_bytes());
    }

    let incoming = container.get_data("file1.txt".to_string(), 7, 11).unwrap();
    let partial_data = incoming.consume_sync().unwrap();
    assert_eq!(partial_data, b"World");

    let metadata = container.object_info("file1.txt".to_string()).unwrap();
    assert_eq!(metadata.name, "file1.txt");
    assert_eq!(metadata.container, "test-workflow");
    assert_eq!(metadata.size, 13);

    container
        .delete_objects(vec!["file1.txt".to_string(), "file3.txt".to_string()])
        .unwrap();

    assert!(!container.has_object("file1.txt".to_string()).unwrap());
    assert!(container.has_object("file2.txt".to_string()).unwrap());
    assert!(!container.has_object("file3.txt".to_string()).unwrap());

    container.clear().unwrap();

    let mut object_stream = container.list_objects().unwrap();
    let (objects, _) = object_stream.read_stream_object_names(10).unwrap();
    assert!(objects.is_empty());
}

#[test]
fn test_multi_container_operations() {
    let storage = reset_blobstore();

    let container1 = create_container(&storage, "container1".to_string()).unwrap();
    let container2 = create_container(&storage, "container2".to_string()).unwrap();

    let outgoing = OutgoingValue::new();
    let stream = outgoing.write_body().unwrap();
    stream.write(b"shared data").unwrap();
    stream.close().unwrap();
    outgoing.finish().unwrap();

    container1.write_data("shared-object".to_string(), &outgoing).unwrap();

    copy_object(
        &storage,
        ObjectId {
            container: "container1".to_string(),
            object: "shared-object".to_string(),
        },
        ObjectId {
            container: "container2".to_string(),
            object: "copied-object".to_string(),
        },
    )
    .unwrap();

    assert!(container1.has_object("shared-object".to_string()).unwrap());
    assert!(container2.has_object("copied-object".to_string()).unwrap());

    let data1 = container1.get_data("shared-object".to_string(), 0, 10).unwrap();
    let data2 = container2.get_data("copied-object".to_string(), 0, 10).unwrap();

    let content1 = data1.consume_sync().unwrap();
    let content2 = data2.consume_sync().unwrap();
    assert_eq!(content1, content2);
    assert_eq!(content1, b"shared data");

    move_object(
        &storage,
        ObjectId {
            container: "container2".to_string(),
            object: "copied-object".to_string(),
        },
        ObjectId {
            container: "container1".to_string(),
            object: "moved-object".to_string(),
        },
    )
    .unwrap();

    assert!(!container2.has_object("copied-object".to_string()).unwrap());
    assert!(container1.has_object("moved-object".to_string()).unwrap());

    let containers = list_containers(&storage).unwrap();
    assert_eq!(containers, vec!["container1".to_string(), "container2".to_string()]);

    delete_container(&storage, "container1".to_string()).unwrap();
    delete_container(&storage, "container2".to_string()).unwrap();

    assert!(!container_exists(&storage, "container1".to_string()).unwrap());
    assert!(!container_exists(&storage, "container2".to_string()).unwrap());

    let containers = list_containers(&storage).unwrap();
    assert!(containers.is_empty());
}

#[test]
fn test_streaming_large_object_list() {
    let storage = reset_blobstore();

    let container = create_container(&storage, "large-container".to_string()).unwrap();

    let object_count = 100;
    for i in 0..object_count {
        let outgoing = OutgoingValue::new();
        let stream = outgoing.write_body().unwrap();
        stream.write(format!("data for object {}", i).as_bytes()).unwrap();
        stream.close().unwrap();
        outgoing.finish().unwrap();

        container.write_data(format!("object_{:03}", i), &outgoing).unwrap();
    }

    let mut object_stream = container.list_objects().unwrap();
    let mut all_objects = Vec::new();
    let chunk_size = 10;

    loop {
        let (chunk, is_end) = object_stream.read_stream_object_names(chunk_size).unwrap();
        all_objects.extend(chunk);

        if is_end {
            break;
        }
    }

    assert_eq!(all_objects.len(), object_count);

    for i in 0..object_count {
        assert_eq!(all_objects[i], format!("object_{:03}", i));
    }

    let mut object_stream2 = container.list_objects().unwrap();
    let (skipped, _) = object_stream2.skip_stream_object_names(50).unwrap();
    assert_eq!(skipped, 50);

    let (remaining, _) = object_stream2.read_stream_object_names(100).unwrap();
    assert_eq!(remaining.len(), 50);
    assert_eq!(remaining[0], "object_050".to_string());
}

#[test]
fn test_error_conditions() {
    let storage = reset_blobstore();

    assert!(get_container(&storage, "non-existent".to_string()).is_err());

    assert!(delete_container(&storage, "non-existent".to_string()).is_err());

    let container = create_container(&storage, "test-errors".to_string()).unwrap();

    assert!(container.get_data("non-existent".to_string(), 0, 10).is_err());

    assert!(container.object_info("non-existent".to_string()).is_err());

    let outgoing = OutgoingValue::new();
    let stream = outgoing.write_body().unwrap();
    stream.write(b"0123456789").unwrap();
    stream.close().unwrap();
    outgoing.finish().unwrap();

    container.write_data("test-object".to_string(), &outgoing).unwrap();

    assert!(container.get_data("test-object".to_string(), 15, 20).is_err());
    assert!(container.get_data("test-object".to_string(), 5, 3).is_err());

    assert!(copy_object(
        &storage,
        ObjectId {
            container: "non-existent".to_string(),
            object: "object".to_string(),
        },
        ObjectId {
            container: "test-errors".to_string(),
            object: "copied".to_string(),
        },
    )
    .is_err());

    assert!(copy_object(
        &storage,
        ObjectId {
            container: "test-errors".to_string(),
            object: "test-object".to_string(),
        },
        ObjectId {
            container: "non-existent".to_string(),
            object: "copied".to_string(),
        },
    )
    .is_err());
}
