use vecstream::reader::{RangedRetryingReader, ReadAction, ReadEvent, FAILURE_LIMIT};

#[test]
fn records_advance_the_cursor_in_order() {
    let mut reader = RangedRetryingReader::new(0, Some(3), 8);
    for expected_pos in 0..3u32 {
        assert_eq!(reader.position() as u32, expected_pos);
        assert_eq!(reader.on_event(ReadEvent::Record), ReadAction::Deliver);
    }
    assert_eq!(reader.position(), 3);
    assert_eq!(reader.on_event(ReadEvent::End), ReadAction::Finished);
}

#[test]
fn resume_restarts_at_first_undelivered_record() {
    // Deliver k = 2 records, fail once, then deliver the rest: the retry is
    // issued exactly at record 2, and no record is re-delivered or skipped.
    let mut reader = RangedRetryingReader::new(0, Some(5), 16);
    assert_eq!(reader.on_event(ReadEvent::Record), ReadAction::Deliver);
    assert_eq!(reader.on_event(ReadEvent::Record), ReadAction::Deliver);
    assert_eq!(reader.position(), 2);

    assert_eq!(reader.on_event(ReadEvent::Failure), ReadAction::Retry);
    assert_eq!(reader.position(), 2);
    // The fresh ranged read starts at byte 2 * 16 and wants 3 more records.
    assert_eq!(reader.byte_range(), (32, Some(5 * 16 - 1)));
    assert_eq!(reader.remaining_count(), Some(3));

    for _ in 0..3 {
        assert_eq!(reader.on_event(ReadEvent::Record), ReadAction::Deliver);
    }
    assert_eq!(reader.position(), 5);
    assert_eq!(reader.on_event(ReadEvent::End), ReadAction::Finished);
}

#[test]
fn failure_counter_resets_on_success() {
    let mut reader = RangedRetryingReader::new(0, None, 4);
    for _ in 0..FAILURE_LIMIT - 1 {
        assert_eq!(reader.on_event(ReadEvent::Failure), ReadAction::Retry);
    }
    assert_eq!(reader.failure_run_len(), FAILURE_LIMIT - 1);
    // One successful record wipes the run out.
    assert_eq!(reader.on_event(ReadEvent::Record), ReadAction::Deliver);
    assert_eq!(reader.failure_run_len(), 0);
    // The budget is whole again afterwards.
    for _ in 0..FAILURE_LIMIT - 1 {
        assert_eq!(reader.on_event(ReadEvent::Failure), ReadAction::Retry);
    }
    assert_eq!(reader.on_event(ReadEvent::Failure), ReadAction::Abort);
}

#[test]
fn permanent_failure_aborts_after_five_without_advancing() {
    let mut reader = RangedRetryingReader::new(7, Some(20), 4);
    for attempt in 1..=FAILURE_LIMIT {
        let action = reader.on_event(ReadEvent::Failure);
        if attempt < FAILURE_LIMIT {
            assert_eq!(action, ReadAction::Retry);
        } else {
            assert_eq!(action, ReadAction::Abort);
        }
    }
    // Exactly five consecutive failures, and the cursor never moved.
    assert_eq!(reader.failure_run_len(), FAILURE_LIMIT);
    assert_eq!(reader.position(), 7);
}

#[test]
fn byte_range_follows_the_request_convention() {
    // start_pos = start * chunk_size; bounded end is inclusive.
    let bounded = RangedRetryingReader::new(3, Some(10), 8);
    assert_eq!(bounded.byte_range(), (24, Some(79)));
    assert_eq!(bounded.remaining_count(), Some(7));

    let tail = RangedRetryingReader::new(5, None, 8);
    assert_eq!(tail.byte_range(), (40, None));
    assert_eq!(tail.remaining_count(), None);
}
