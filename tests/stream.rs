use blobstore::{ObjectName, StreamObjectNames};

fn create_test_objects() -> Vec<ObjectName> {
    vec![
        "object3".to_string(),
        "object1".to_string(),
        "object4".to_string(),
        "object2".to_string(),
        "object5".to_string(),
    ]
}

#[test]
fn test_stream_creation_and_sorting() {
    let objects = create_test_objects();
    let stream = StreamObjectNames::new(objects);

    // Should be sorted
    assert_eq!(
        stream.iter_remaining(),
        vec![
            "object1".to_string(),
            "object2".to_string(),
            "object3".to_string(),
            "object4".to_string(),
            "object5".to_string(),
        ]
    );

    assert_eq!(stream.position(), 0);
    assert_eq!(stream.total_count(), 5);
    assert_eq!(stream.remaining_count(), 5);
    assert!(!stream.is_end());
}

#[test]
fn test_read_stream_object_names() {
    let objects = create_test_objects();
    let mut stream = StreamObjectNames::new(objects);

    let (result1, is_end1) = stream.read_stream_object_names(2).unwrap();
    assert_eq!(result1, vec!["object1".to_string(), "object2".to_string()]);
    assert!(!is_end1);
    assert_eq!(stream.position(), 2);
    assert_eq!(stream.remaining_count(), 3);

    let (result2, is_end2) = stream.read_stream_object_names(3).unwrap();
    assert_eq!(
        result2,
        vec!["object3".to_string(), "object4".to_string(), "object5".to_string()]
    );
    assert!(is_end2);
    assert_eq!(stream.position(), 5);
    assert_eq!(stream.remaining_count(), 0);
    assert!(stream.is_end());

    let (result3, is_end3) = stream.read_stream_object_names(5).unwrap();
    assert!(result3.is_empty());
    assert!(is_end3);
}

#[test]
fn test_read_more_than_available() {
    let objects = vec!["object1".to_string(), "object2".to_string()];
    let mut stream = StreamObjectNames::new(objects);

    let (result, is_end) = stream.read_stream_object_names(10).unwrap();
    assert_eq!(result.len(), 2);
    assert!(is_end);
    assert!(stream.is_end());
}

#[test]
fn test_skip_stream_object_names() {
    let objects = create_test_objects();
    let mut stream = StreamObjectNames::new(objects);

    let (skipped1, is_end1) = stream.skip_stream_object_names(2).unwrap();
    assert_eq!(skipped1, 2);
    assert!(!is_end1);
    assert_eq!(stream.position(), 2);

    let (result, _) = stream.read_stream_object_names(1).unwrap();
    assert_eq!(result, vec!["object3".to_string()]);

    let (skipped2, is_end2) = stream.skip_stream_object_names(10).unwrap();
    assert_eq!(skipped2, 2);
    assert!(is_end2);
    assert!(stream.is_end());

    let (skipped3, is_end3) = stream.skip_stream_object_names(5).unwrap();
    assert_eq!(skipped3, 0);
    assert!(is_end3);
}

#[test]
fn test_iterator_interface() {
    let objects = vec![
        "object2".to_string(),
        "object1".to_string(),
        "object3".to_string(),
    ];
    let mut stream = StreamObjectNames::new(objects);

    let mut collected: Vec<ObjectName> = Vec::new();
    while let Some(name) = stream.next() {
        collected.push(name);
    }
    assert_eq!(
        collected,
        vec!["object1".to_string(), "object2".to_string(), "object3".to_string()]
    );
    assert!(stream.is_end());
}

#[test]
fn test_utility_methods() {
    let objects = create_test_objects();
    let mut stream = StreamObjectNames::new(objects);

    assert_eq!(stream.peek_next(), Some(&"object1".to_string()));
    assert_eq!(stream.position(), 0);

    stream.read_stream_object_names(2).unwrap();
    assert_eq!(stream.peek_next(), Some(&"object3".to_string()));

    let remaining = stream.read_all_remaining().unwrap();
    assert_eq!(
        remaining,
        vec!["object3".to_string(), "object4".to_string(), "object5".to_string()]
    );
    assert!(stream.is_end());

    stream.reset();
    assert_eq!(stream.position(), 0);
    assert!(!stream.is_end());
    assert_eq!(stream.remaining_count(), 5);
}

#[test]
fn test_empty_stream() {
    let objects: Vec<ObjectName> = Vec::new();
    let mut stream = StreamObjectNames::new(objects);

    assert_eq!(stream.total_count(), 0);
    assert_eq!(stream.remaining_count(), 0);
    assert!(stream.is_end());

    let (result, is_end) = stream.read_stream_object_names(5).unwrap();
    assert!(result.is_empty());
    assert!(is_end);

    let (skipped, is_end) = stream.skip_stream_object_names(5).unwrap();
    assert_eq!(skipped, 0);
    assert!(is_end);
}

#[test]
fn test_size_hint() {
    let objects = create_test_objects();
    let mut stream = StreamObjectNames::new(objects);

    assert_eq!(stream.size_hint(), (5, Some(5)));
    assert_eq!(stream.len(), 5);

    stream.read_stream_object_names(2).unwrap();
    assert_eq!(stream.size_hint(), (3, Some(3)));
    assert_eq!(stream.len(), 3);

    stream.read_stream_object_names(3).unwrap();
    assert_eq!(stream.size_hint(), (0, Some(0)));
    assert_eq!(stream.len(), 0);
}

#[test]
fn paging_by_two_then_ten_splits_five_names() {
    let names: Vec<ObjectName> = (0..5).map(|i| format!("object{}", i)).collect();
    let mut stream = StreamObjectNames::new(names.clone());
    let (first, end1) = stream.read_stream_object_names(2).unwrap();
    let (second, end2) = stream.read_stream_object_names(10).unwrap();
    assert_eq!(first.len(), 2);
    assert_eq!(second.len(), 3);
    assert!(!end1);
    assert!(end2);
    let mut all = first;
    all.extend(second);
    assert_eq!(all, names);
}

#[test]
fn paging_matches_one_full_read() {
    let names: Vec<ObjectName> = vec!["d", "a", "c", "e", "b", "f", "g"]
        .into_iter()
        .map(|s| s.to_string())
        .collect();
    let mut paged = StreamObjectNames::new(names.clone());
    let mut collected = Vec::new();
    loop {
        let (chunk, end) = paged.read_stream_object_names(3).unwrap();
        collected.extend(chunk);
        if end {
            break;
        }
    }
    let mut whole = StreamObjectNames::new(names);
    let (all, end) = whole.read_stream_object_names(7).unwrap();
    assert!(end);
    assert_eq!(collected, all);
}

#[test]
fn skip_then_read_matches_longer_read() {
    let names: Vec<ObjectName> = (0..6).map(|i| format!("n{}", i)).collect();
    let mut skipping = StreamObjectNames::new(names.clone());
    let (skipped, _) = skipping.skip_stream_object_names(2).unwrap();
    assert_eq!(skipped, 2);
    let (after, _) = skipping.read_stream_object_names(3).unwrap();
    let mut reading = StreamObjectNames::new(names);
    let (longer, _) = reading.read_stream_object_names(5).unwrap();
    assert_eq!(after, longer[2..].to_vec());
}

#[test]
fn sorting_uses_byte_order() {
    let names: Vec<ObjectName> = vec!["b", "B", "a", "ä", "A", "aa", ""]
        .into_iter()
        .map(|s| s.to_string())
        .collect();
    let mut expected = names.clone();
    expected.sort();
    let stream = StreamObjectNames::new(names);
    assert_eq!(stream.iter_remaining(), expected);
}

#[test]
fn read_zero_names_does_not_move() {
    let mut stream = StreamObjectNames::new(create_test_objects());
    let (batch, end) = stream.read_stream_object_names(0).unwrap();
    assert!(batch.is_empty());
    assert!(!end);
    assert_eq!(stream.position(), 0);
}
