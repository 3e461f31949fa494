use fileserver::error::FileServerError;
use fileserver::gate::AdmissionGate;
use fileserver::stats::{build_stats_message, encode_stats_message, no_files_name, Stats};
use fileserver::tracker::FileUsageTracker;

#[test]
fn encoding_lays_the_four_fields_out_in_order() {
    let msg = encode_stats_message(2, b"abc", 7);
    assert_eq!(msg, vec![2, 3, b'a', b'b', b'c', 7]);
}

#[test]
fn numeric_fields_are_capped_at_one_byte() {
    let msg = encode_stats_message(300, b"f", 1000);
    assert_eq!(msg, vec![255, 1, b'f', 255]);
}

#[test]
fn long_names_are_truncated_to_the_length_byte() {
    let name = vec![b'x'; 300];
    let msg = encode_stats_message(1, &name, 1);
    assert_eq!(msg.len(), 3 + 255);
    assert_eq!(msg[1], 255);
    assert_eq!(&msg[2..257], &name[..255]);
}

#[test]
fn decoding_reads_back_what_was_sent() {
    let msg = encode_stats_message(4, b"most.txt", 9);
    let stats = Stats::stats_from_bytes(&msg).unwrap();
    assert_eq!(stats.number_of_clients, 4);
    assert_eq!(stats.most_downloaded_file, b"most.txt".to_vec());
    assert_eq!(stats.file_downloaded_count, 9);
}

#[test]
fn bytes_past_the_message_are_ignored() {
    let mut msg = encode_stats_message(1, b"a", 2);
    msg.extend_from_slice(b"next message");
    let stats = Stats::stats_from_bytes(&msg).unwrap();
    assert_eq!(stats.most_downloaded_file, b"a".to_vec());
    assert_eq!(stats.file_downloaded_count, 2);
}

#[test]
fn truncated_messages_are_refused() {
    assert!(matches!(
        Stats::stats_from_bytes(b""),
        Err(FileServerError::ServerReadError(_))
    ));
    assert!(matches!(
        Stats::stats_from_bytes(&[3]),
        Err(FileServerError::ServerReadError(_))
    ));
    // length byte announces 5 name bytes, but only 2 follow
    assert!(matches!(
        Stats::stats_from_bytes(&[1, 5, b'a', b'b']),
        Err(FileServerError::ServerReadError(_))
    ));
}

#[test]
fn empty_tracker_reports_the_sentinel() {
    let gate = AdmissionGate::new(10);
    let tracker = FileUsageTracker::new();
    let msg = build_stats_message(&gate, &tracker);
    let stats = Stats::stats_from_bytes(&msg).unwrap();
    assert_eq!(stats.number_of_clients, 0);
    assert_eq!(stats.most_downloaded_file, no_files_name());
    assert_eq!(stats.most_downloaded_file, b"no files".to_vec());
    assert_eq!(stats.file_downloaded_count, 0);
}

// After 3 downloads of one file and fewer of any other, a
// subscriber's message names that file with count 3, and the load matches
// the slots in use.
#[test]
fn subscriber_sees_the_most_downloaded_file() {
    let mut gate = AdmissionGate::new(10);
    let mut tracker = FileUsageTracker::new();
    gate.try_acquire();
    gate.try_acquire();
    for _ in 0..3 {
        tracker.record_download(b"temp_test_file");
    }
    tracker.record_download(b"other_file");
    let msg = build_stats_message(&gate, &tracker);
    let stats = Stats::stats_from_bytes(&msg).unwrap();
    assert_eq!(stats.number_of_clients, 2);
    assert_eq!(stats.most_downloaded_file, b"temp_test_file".to_vec());
    assert_eq!(stats.file_downloaded_count, 3);
}

// At the wire cap the count byte saturates at 255 instead of wrapping.
#[test]
fn count_byte_saturates_at_255() {
    let gate = AdmissionGate::new(1);
    let mut tracker = FileUsageTracker::new();
    for _ in 0..300 {
        tracker.record_download(b"hot");
    }
    let msg = build_stats_message(&gate, &tracker);
    let stats = Stats::stats_from_bytes(&msg).unwrap();
    assert_eq!(stats.file_downloaded_count, 255);
    assert_eq!(tracker.count_of(b"hot"), 300);
}

// Even a saturated gate never reports more than the
// configured maximum.
#[test]
fn reported_load_never_exceeds_the_maximum() {
    let mut gate = AdmissionGate::new(3);
    let tracker = FileUsageTracker::new();
    for _ in 0..5 {
        gate.try_acquire();
    }
    let msg = build_stats_message(&gate, &tracker);
    let stats = Stats::stats_from_bytes(&msg).unwrap();
    assert_eq!(stats.number_of_clients, 3);
}
