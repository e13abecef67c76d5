use bytes::Bytes;
use vecstream::upload::{MultiUploadInfo, PartBuffer, UploadInfo};

fn fresh_info(part_size: usize) -> UploadInfo {
    UploadInfo {
        bucket: "bucket".to_string(),
        key: "key".to_string(),
        size_per_upload: part_size,
        upload_id: "upload-1".to_string(),
        parts: Vec::new(),
        uploaded_bytes: 0,
    }
}

/// Drive the machine the way the upload driver does: whenever a full part
/// is buffered, fold the in-flight one and cut the next. Returns the
/// payloads taken, in part order, with their part numbers.
fn send(upload: &mut PartBuffer, data: Vec<u8>, taken: &mut Vec<(usize, Vec<u8>)>) {
    upload.push(Bytes::from(data));
    while upload.wants_part() {
        if upload.pending_part().is_some() {
            let tag = format!("etag-{}", taken.len() - 1);
            upload.fold_part(tag);
        }
        let (payload, number) = upload.take_part();
        taken.push((number, payload.as_ref().to_vec()));
    }
}

fn complete(upload: &mut PartBuffer, taken: &mut Vec<(usize, Vec<u8>)>) {
    if upload.pending_part().is_some() {
        let tag = format!("etag-{}", taken.len() - 1);
        upload.fold_part(tag);
    }
    if let Some((payload, number)) = upload.take_final_part() {
        taken.push((number, payload.as_ref().to_vec()));
        let tag = format!("etag-{}", taken.len() - 1);
        upload.fold_part(tag);
    }
}

#[test]
fn boundary_crossings_make_numbered_parts_plus_remainder() {
    // Part size 8; pushes of 5 bytes each, 7 times = 35 bytes: the buffer
    // crosses the boundary 4 times, so 4 full parts numbered 1..=4, plus a
    // final 3-byte part number 5.
    let mut upload = PartBuffer::new(fresh_info(8));
    let mut taken: Vec<(usize, Vec<u8>)> = Vec::new();
    let mut sent: Vec<u8> = Vec::new();
    let mut value = 0u8;
    for _ in 0..7 {
        let block: Vec<u8> = (0..5)
            .map(|_| {
                value = value.wrapping_add(1);
                value
            })
            .collect();
        sent.extend_from_slice(&block);
        send(&mut upload, block, &mut taken);
    }
    complete(&mut upload, &mut taken);

    assert_eq!(taken.len(), 5);
    for (i, (number, payload)) in taken.iter().enumerate() {
        assert_eq!(*number, i + 1);
        if i < 4 {
            assert_eq!(payload.len(), 8);
        } else {
            assert_eq!(payload.len(), 3);
        }
    }
    let rejoined: Vec<u8> = taken.iter().flat_map(|(_, p)| p.clone()).collect();
    assert_eq!(rejoined, sent);

    let numbered = upload.completion_parts();
    assert_eq!(numbered.len(), 5);
    for (i, part) in numbered.iter().enumerate() {
        assert_eq!(part.part_number, i + 1);
        assert_eq!(part.e_tag, format!("etag-{i}"));
    }
    // Committed byte count covers every committed part.
    assert_eq!(upload.info.uploaded_bytes, 35);
}

#[test]
fn exact_multiple_leaves_no_final_part() {
    let mut upload = PartBuffer::new(fresh_info(4));
    let mut taken: Vec<(usize, Vec<u8>)> = Vec::new();
    send(&mut upload, (0u8..12).collect(), &mut taken);
    complete(&mut upload, &mut taken);
    assert_eq!(taken.len(), 3);
    assert_eq!(upload.completion_parts().len(), 3);
    assert_eq!(upload.info.uploaded_bytes, 12);
}

#[test]
fn empty_stream_completes_with_empty_part_list() {
    let mut upload = PartBuffer::new(fresh_info(8));
    assert!(upload.take_final_part().is_none());
    let numbered = upload.completion_parts();
    assert!(numbered.is_empty());
    assert_eq!(upload.info.uploaded_bytes, 0);
}

#[test]
fn one_part_stays_in_flight_until_folded() {
    let mut upload = PartBuffer::new(fresh_info(4));
    upload.push(Bytes::from((0u8..10).collect::<Vec<u8>>()));
    assert!(upload.pending_part().is_none());
    let (payload, number) = upload.take_part();
    assert_eq!(number, 1);
    assert_eq!(payload.as_ref(), &[0u8, 1, 2, 3]);
    assert_eq!(upload.pending_part(), Some(4));
    assert_eq!(upload.buffered_len(), 6);
    // The tag folds in before the next part starts.
    upload.fold_part("etag-a".to_string());
    assert!(upload.pending_part().is_none());
    assert_eq!(upload.info.uploaded_bytes, 4);
    assert_eq!(upload.info.parts, vec!["etag-a".to_string()]);
    let (_, number) = upload.take_part();
    assert_eq!(number, 2);
}

#[test]
fn resumed_upload_keeps_committed_parts() {
    // A restored state holds two committed parts; the session numbers its
    // first new part 3 and appends tags after the existing ones.
    let mut info = fresh_info(4);
    info.parts = vec!["old-1".to_string(), "old-2".to_string()];
    info.uploaded_bytes = 8;
    let mut upload = PartBuffer::new(info);
    upload.push(Bytes::from((0u8..4).collect::<Vec<u8>>()));
    let (_, number) = upload.take_part();
    assert_eq!(number, 3);
    upload.fold_part("new-3".to_string());
    assert_eq!(upload.info.uploaded_bytes, 12);
    assert_eq!(
        upload.info.parts,
        vec!["old-1".to_string(), "old-2".to_string(), "new-3".to_string()]
    );
    let numbered = upload.completion_parts();
    assert_eq!(numbered.len(), 3);
    assert_eq!(numbered[2].part_number, 3);
    assert_eq!(numbered[2].e_tag, "new-3");
}

#[test]
fn multi_upload_info_keeps_partition_order() {
    let multi = MultiUploadInfo {
        uploads: vec![fresh_info(4), fresh_info(8)],
    };
    assert_eq!(multi.uploads.len(), 2);
    assert_eq!(multi.uploads[0].size_per_upload, 4);
    assert_eq!(multi.uploads[1].size_per_upload, 8);
}
