use fileserver::tracker::FileUsageTracker;

#[test]
fn fresh_tracker_is_empty() {
    let t = FileUsageTracker::new();
    assert_eq!(t.len(), 0);
    assert!(t.most_downloaded().is_none());
    assert_eq!(t.count_of(b"anything"), 0);
}

#[test]
fn first_download_enters_with_count_one() {
    let mut t = FileUsageTracker::new();
    t.record_download(b"report.pdf");
    assert_eq!(t.len(), 1);
    assert_eq!(t.count_of(b"report.pdf"), 1);
}

// Two downloads of the same file, each recorded once under the
// tracker's lock, end with its count at exactly 2.
#[test]
fn two_downloads_count_exactly_twice() {
    let mut t = FileUsageTracker::new();
    t.record_download(b"shared.bin");
    t.record_download(b"shared.bin");
    assert_eq!(t.count_of(b"shared.bin"), 2);
    assert_eq!(t.len(), 1);
}

#[test]
fn counts_are_kept_per_filename() {
    let mut t = FileUsageTracker::new();
    t.record_download(b"a");
    t.record_download(b"b");
    t.record_download(b"a");
    t.record_download(b"c");
    t.record_download(b"a");
    assert_eq!(t.count_of(b"a"), 3);
    assert_eq!(t.count_of(b"b"), 1);
    assert_eq!(t.count_of(b"c"), 1);
    assert_eq!(t.count_of(b"d"), 0);
    assert_eq!(t.len(), 3);
}

#[test]
fn most_downloaded_finds_the_strict_leader() {
    let mut t = FileUsageTracker::new();
    t.record_download(b"one");
    t.record_download(b"two");
    t.record_download(b"two");
    let (name, count) = t.most_downloaded().unwrap();
    assert_eq!(name, b"two".to_vec());
    assert_eq!(count, 2);
}

#[test]
fn ties_keep_the_earliest_inserted_name() {
    let mut t = FileUsageTracker::new();
    t.record_download(b"early");
    t.record_download(b"late");
    let (name, count) = t.most_downloaded().unwrap();
    assert_eq!(name, b"early".to_vec());
    assert_eq!(count, 1);
}
