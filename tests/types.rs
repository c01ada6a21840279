use blobstore::{current_timestamp, validate_range, BlobstoreError, ObjectId};

#[test]
fn test_current_timestamp() {
    let ts1 = current_timestamp();
    let ts2 = current_timestamp();
    assert!(ts2 >= ts1);
}

#[test]
fn test_validate_range() {
    assert!(validate_range(0, 10, 20).is_ok());
    assert!(validate_range(10, 10, 20).is_ok());
    assert!(validate_range(11, 10, 20).is_err());
    assert!(validate_range(20, 25, 20).is_err());
}

#[test]
fn test_object_id_equality() {
    let id1 = ObjectId {
        container: "container1".to_string(),
        object: "object1".to_string(),
    };
    let id2 = ObjectId {
        container: "container1".to_string(),
        object: "object1".to_string(),
    };
    assert_eq!(id1, id2);
}

#[test]
fn validate_range_reports_the_bounds() {
    assert_eq!(
        validate_range(11, 10, 20),
        Err(BlobstoreError::InvalidRange { start: 11, end: 10 })
    );
    assert_eq!(
        validate_range(20, 25, 20),
        Err(BlobstoreError::InvalidRange { start: 20, end: 25 })
    );
}

#[test]
fn validate_range_on_empty_object_only_checks_order() {
    assert!(validate_range(5, 9, 0).is_ok());
    assert!(validate_range(0, 0, 0).is_ok());
    assert!(validate_range(3, 2, 0).is_err());
}

#[test]
fn validate_range_last_byte() {
    assert!(validate_range(19, 19, 20).is_ok());
    assert!(validate_range(19, u64::MAX, 20).is_ok());
}
