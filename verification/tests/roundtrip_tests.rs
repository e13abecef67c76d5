use bytes::Bytes;
use vecstream::chunker::RecordChunker;
use vecstream::decoder::BufferDecoder;
use vecstream::error::{absent_or_failure, from_store_error, TaskError};
use vecstream::upload::{PartBuffer, UploadInfo};

/// A small deterministic pseudo-random byte source.
fn pseudo_random_bytes(len: usize, seed: u64) -> Vec<u8> {
    let mut state = seed;
    (0..len)
        .map(|_| {
            state = state.wrapping_mul(6364136223846793005).wrapping_add(1442695040888963407);
            (state >> 33) as u8
        })
        .collect()
}

fn upload_info(part_size: usize) -> UploadInfo {
    UploadInfo {
        bucket: "bucket".to_string(),
        key: "key".to_string(),
        size_per_upload: part_size,
        upload_id: "upload-1".to_string(),
        parts: Vec::new(),
        uploaded_bytes: 0,
    }
}

/// Push `data` through an upload session in blocks, pumping parts the way
/// the driver does, and return what the store object would hold: the
/// committed part payloads concatenated in part order.
fn upload_object(data: &[u8], part_size: usize, block: usize) -> Vec<u8> {
    let mut upload = PartBuffer::new(upload_info(part_size));
    let mut object: Vec<u8> = Vec::new();
    let mut tag = 0usize;
    for piece in data.chunks(block.max(1)) {
        upload.push(Bytes::from(piece.to_vec()));
        while upload.wants_part() {
            if upload.pending_part().is_some() {
                upload.fold_part(format!("etag-{tag}"));
                tag += 1;
            }
            let (payload, _number) = upload.take_part();
            object.extend_from_slice(payload.as_ref());
        }
    }
    if upload.pending_part().is_some() {
        upload.fold_part(format!("etag-{tag}"));
        tag += 1;
    }
    if let Some((payload, _number)) = upload.take_final_part() {
        object.extend_from_slice(payload.as_ref());
        upload.fold_part(format!("etag-{tag}"));
    }
    assert_eq!(upload.completion_parts().len(), upload.info.parts.len());
    object
}

/// Re-chunk a stored object into records and assemble it to completion,
/// the way a whole-object download does.
fn download_object(object: &[u8], chunk_size: usize, element_size: usize) -> Vec<u8> {
    let mut decoder = BufferDecoder::new(object.len(), element_size).unwrap();
    let mut chunker = RecordChunker::new(chunk_size, None);
    // The network hands pieces of arbitrary size; 7 is deliberately coprime
    // with the sizes in use.
    for piece in object.chunks(7) {
        chunker.push(Bytes::from(piece.to_vec()));
        while let Some(record) = chunker.try_next() {
            decoder.write_chunk(&record).unwrap();
        }
    }
    chunker.finish().unwrap();
    // A record smaller than chunk_size would still be buffered; whole
    // objects are record-aligned, so nothing is.
    assert!(decoder.is_complete());
    decoder.into_buffer()
}

#[test]
fn round_trip_reproduces_the_bytes() {
    // 96 bytes: uploaded in 5-byte blocks with 16-byte parts, downloaded in
    // records of 8 over elements of 4.
    let data = pseudo_random_bytes(96, 11);
    let object = upload_object(&data, 16, 5);
    assert_eq!(object, data);
    let roundtripped = download_object(&object, 8, 4);
    assert_eq!(roundtripped, data);
}

#[test]
fn round_trip_with_partial_final_part() {
    // 45 bytes with 16-byte parts: two full parts and a 13-byte final one.
    let data = pseudo_random_bytes(45, 99);
    let object = upload_object(&data, 16, 4);
    assert_eq!(object, data);
}

#[test]
fn absent_key_is_not_an_error() {
    let absent = aws_sdk_s3::Error::NoSuchKey(
        aws_sdk_s3::types::error::NoSuchKey::builder().build(),
    );
    assert!(absent_or_failure(absent).is_none());
}

#[test]
fn other_store_failures_surface_with_their_message() {
    let failure = aws_sdk_s3::Error::NoSuchBucket(
        aws_sdk_s3::types::error::NoSuchBucket::builder().build(),
    );
    match absent_or_failure(failure) {
        Some(TaskError::AWSError(_message)) => {},
        other => panic!("expected a store error, got {:?}", other.is_some()),
    }
}

#[test]
fn store_error_keeps_its_diagnostic_text() {
    let failure = aws_sdk_s3::Error::NoSuchBucket(
        aws_sdk_s3::types::error::NoSuchBucket::builder().build(),
    );
    let expected = failure.to_string();
    let wrapped = from_store_error(failure);
    assert_eq!(wrapped.message(), &expected);
}
