use chaturbate_recorder::segment::SegmentTracker;

#[test]
fn test_extract_sequence() {
    let tracker = SegmentTracker::new().unwrap();

    assert_eq!(tracker.extract_sequence("playlist_480p_123.ts"), Some(123));
    assert_eq!(tracker.extract_sequence("chunklist_720p30fps_456.ts"), Some(456));
    assert_eq!(tracker.extract_sequence("invalid.m3u8"), None);
}

#[test]
fn test_segment_tracker() {
    let mut tracker = SegmentTracker::new().unwrap();

    assert!(tracker.is_new_segment(1));
    tracker.update_sequence(1);
    assert!(!tracker.is_new_segment(1));
    assert!(tracker.is_new_segment(2));
}

#[test]
fn extract_sequence_edge_cases() {
    let tracker = SegmentTracker::default();
    assert_eq!(tracker.extract_sequence("_0.ts"), Some(0));
    assert_eq!(tracker.extract_sequence("a_1_23.ts"), Some(23));
    assert_eq!(tracker.extract_sequence("seg123.ts"), None);
    assert_eq!(tracker.extract_sequence("seg_.ts"), None);
    assert_eq!(tracker.extract_sequence("seg_12.ts?x"), None);
    assert_eq!(tracker.extract_sequence("seg_18446744073709551615.ts"), Some(u64::MAX));
    assert_eq!(tracker.extract_sequence("seg_18446744073709551616.ts"), None);
    assert_eq!(tracker.extract_sequence(""), None);
}

#[test]
fn tracker_never_goes_back() {
    let mut tracker = SegmentTracker::new().unwrap();
    let mut seen = Vec::new();
    for s in [5u64, 3, 7, 7, 2, 10, 9] {
        assert_eq!(tracker.is_new_segment(s), s > tracker.last_sequence());
        tracker.update_sequence(s);
        seen.push(tracker.last_sequence());
    }
    assert_eq!(seen, vec![5, 5, 7, 7, 7, 10, 10]);
}
