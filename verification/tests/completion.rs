use folo::completion::{Completion, CompletionRecord, Outcome, WAKE_UP_COMPLETION_KEY};
use folo::io_waker::{wake_packet, CompletionPacket};

#[test]
fn wake_up_key_has_its_value() {
    assert_eq!(WAKE_UP_COMPLETION_KEY, 0x23546789897);
    assert_eq!(WAKE_UP_COMPLETION_KEY, 2_427_838_830_743);
}

#[test]
fn wake_on_a_live_port_posts_the_sentinel() {
    assert_eq!(
        wake_packet(true),
        Some(CompletionPacket {
            bytes_transferred: 0,
            completion_key: WAKE_UP_COMPLETION_KEY,
            operation: None,
        })
    );
}

#[test]
fn wake_on_a_port_that_is_gone_does_nothing() {
    assert_eq!(wake_packet(false), None);
}

#[test]
fn posted_wake_up_comes_out_as_a_sentinel() {
    let packet = wake_packet(true).unwrap();
    let record = packet.as_record();
    assert_eq!(
        record,
        CompletionRecord {
            completion_key: WAKE_UP_COMPLETION_KEY,
            operation: None,
            bytes_transferred: 0,
            status: 0,
        }
    );
    assert_eq!(record.classify(), Completion::Sentinel);
}

#[test]
fn posted_packet_keeps_what_was_posted() {
    let packet = CompletionPacket { bytes_transferred: 9, completion_key: 4, operation: Some(3) };
    assert_eq!(
        packet.as_record(),
        CompletionRecord { completion_key: 4, operation: Some(3), bytes_transferred: 9, status: 0 }
    );
}

#[test]
fn the_tag_decides_before_anything_else() {
    let record = CompletionRecord {
        completion_key: WAKE_UP_COMPLETION_KEY,
        operation: Some(12),
        bytes_transferred: 100,
        status: 5,
    };
    assert_eq!(record.classify(), Completion::Sentinel);
}

#[test]
fn successful_record_carries_the_byte_count() {
    let record =
        CompletionRecord { completion_key: 1, operation: Some(12), bytes_transferred: 4096, status: 0 };
    assert_eq!(
        record.classify(),
        Completion::Operation { id: 12, outcome: Outcome::Success(4096) }
    );
}

#[test]
fn failed_record_carries_the_error_code() {
    let record =
        CompletionRecord { completion_key: 1, operation: Some(12), bytes_transferred: 17, status: 38 };
    assert_eq!(
        record.classify(),
        Completion::Operation { id: 12, outcome: Outcome::Failure(38) }
    );
}

#[test]
fn record_without_an_operation_is_unattached() {
    let record =
        CompletionRecord { completion_key: 1, operation: None, bytes_transferred: 0, status: 0 };
    assert_eq!(record.classify(), Completion::Unattached);
}
