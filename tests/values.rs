use blobstore::{BlobstoreError, IncomingValue, OutgoingValue};

#[test]
fn test_outgoing_value() {
    let outgoing = OutgoingValue::new();
    assert!(!outgoing.is_finished());

    let stream = outgoing.write_body().unwrap();
    stream.write(b"Hello, ").unwrap();
    stream.write(b"World!").unwrap();
    stream.close().unwrap();

    outgoing.finish().unwrap();
    assert!(outgoing.is_finished());

    let data = outgoing.get_data().unwrap();
    assert_eq!(data, b"Hello, World!");

    assert!(outgoing.write_body().is_err());
}

#[test]
fn test_incoming_value_sync() {
    let data = b"Hello, World!".to_vec();
    let incoming = IncomingValue::new(data.clone());

    assert_eq!(incoming.size(), data.len() as u64);

    let result = incoming.consume_sync().unwrap();
    assert_eq!(result, data);
}

#[test]
fn test_incoming_value_async() {
    let data = b"Hello, World! This is a test.".to_vec();
    let incoming = IncomingValue::new(data.clone());

    let mut stream = incoming.consume_async().unwrap();
    assert_eq!(stream.size(), data.len());
    assert_eq!(stream.position(), 0);
    assert!(!stream.is_end());

    let mut result = Vec::new();
    while let Some(chunk) = stream.read().unwrap() {
        result.extend_from_slice(&chunk);
    }

    assert_eq!(result, data);
    assert!(stream.is_end());
    assert_eq!(stream.position(), data.len());
}

#[test]
fn test_incoming_value_stream_chunk_size() {
    let data = b"0123456789".to_vec();
    let incoming = IncomingValue::new(data.clone());

    let mut stream = incoming.consume_async().unwrap();
    stream.set_chunk_size(3);

    let chunk1 = stream.read().unwrap().unwrap();
    assert_eq!(chunk1, b"012");

    let chunk2 = stream.read().unwrap().unwrap();
    assert_eq!(chunk2, b"345");

    let chunk3 = stream.read().unwrap().unwrap();
    assert_eq!(chunk3, b"678");

    let chunk4 = stream.read().unwrap().unwrap();
    assert_eq!(chunk4, b"9");

    let chunk5 = stream.read().unwrap();
    assert!(chunk5.is_none());
}

#[test]
fn test_incoming_value_stream_read_all() {
    let data = b"Hello, World!".to_vec();
    let incoming = IncomingValue::new(data.clone());

    let mut stream = incoming.consume_async().unwrap();

    stream.set_chunk_size(5);
    let first_chunk = stream.read().unwrap().unwrap();
    assert_eq!(first_chunk, b"Hello");

    let remaining = stream.read_all().unwrap();
    assert_eq!(remaining, b", World!");

    assert!(stream.is_end());
    let empty = stream.read_all().unwrap();
    assert!(empty.is_empty());
}

#[test]
fn test_outgoing_value_error_cases() {
    let outgoing = OutgoingValue::new();

    assert!(outgoing.get_data().is_err());

    outgoing.finish().unwrap();

    assert!(outgoing.finish().is_err());

    assert!(outgoing.write_body().is_err());
}

#[test]
fn stream_write_after_finish_is_invalid_operation() {
    let outgoing = OutgoingValue::new();
    let stream = outgoing.write_body().unwrap();
    stream.write(b"abc").unwrap();
    outgoing.finish().unwrap();
    assert!(matches!(
        stream.write(b"def"),
        Err(BlobstoreError::InvalidOperation(_))
    ));
    assert_eq!(outgoing.get_data().unwrap(), b"abc");
}

#[test]
fn closing_a_stream_does_not_finish() {
    let outgoing = OutgoingValue::default();
    let first = outgoing.write_body().unwrap();
    first.write(b"ab").unwrap();
    first.close().unwrap();
    assert!(!outgoing.is_finished());
    let second = outgoing.write_body().unwrap();
    second.write(b"cd").unwrap();
    second.close().unwrap();
    assert!(matches!(
        outgoing.get_data(),
        Err(BlobstoreError::InvalidOperation(_))
    ));
    outgoing.finish().unwrap();
    assert_eq!(outgoing.get_data().unwrap(), b"abcd");
}

#[test]
fn incoming_close_moves_to_end() {
    let mut stream = IncomingValue::new(b"xyz".to_vec()).consume_async().unwrap();
    stream.close().unwrap();
    assert!(stream.is_end());
    assert_eq!(stream.position(), 3);
    assert!(stream.read().unwrap().is_none());
}

#[test]
fn incoming_empty_value_is_at_end() {
    let mut stream = IncomingValue::new(Vec::new()).consume_async().unwrap();
    assert!(stream.is_end());
    assert!(stream.read().unwrap().is_none());
    assert!(stream.read_all().unwrap().is_empty());
}

#[test]
fn default_chunk_is_eight_kibibytes() {
    let data = vec![7u8; 10000];
    let mut stream = IncomingValue::new(data).consume_async().unwrap();
    assert_eq!(stream.read().unwrap().unwrap().len(), 8192);
    assert_eq!(stream.read().unwrap().unwrap().len(), 10000 - 8192);
    assert!(stream.read().unwrap().is_none());
}
