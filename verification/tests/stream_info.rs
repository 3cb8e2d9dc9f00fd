use streamhead::stream_info::{
    authenticate_rtmp_stream, map_entries,
    BandwidthAnalyzer, SnapshotSchedule, StreamRepository, StreamType, BANDWIDTH_REPORT_INTERVAL,
    SNAPSHOT_INTERVAL,
};

fn viewers_of(events: &[StreamType], id: i32) -> Option<u32> {
    events.iter().find_map(|e| match e {
        StreamType::StreamExisting { stream_session_id, viewers, .. } if *stream_session_id == id => {
            Some(*viewers)
        }
        _ => None,
    })
}

#[test]
fn start_join_leave_stop() {
    let mut repo = StreamRepository::new();
    let ev = repo.start_stream(7, "alice".to_string());
    assert!(matches!(ev, StreamType::StreamStarted { stream_session_id: 7, meta: None }));
    assert_eq!(repo.lookup(&"alice".to_string()), Some(7));
    assert_eq!(repo.lookup(&"bob".to_string()), None);

    assert!(matches!(repo.viewer_join(7), StreamType::ViewerJoin { stream_session_id: 7 }));
    assert!(matches!(repo.viewer_join(7), StreamType::ViewerJoin { stream_session_id: 7 }));
    assert_eq!(viewers_of(&repo.existing_events(), 7), Some(2));
    assert!(matches!(repo.viewer_disconnect(7), StreamType::ViewerLeave { stream_session_id: 7 }));
    assert_eq!(viewers_of(&repo.existing_events(), 7), Some(1));

    assert!(matches!(repo.stop_stream(7), StreamType::StreamStopped { stream_session_id: 7 }));
    assert!(repo.existing_events().is_empty());
    assert_eq!(repo.lookup(&"alice".to_string()), Some(7));
}

#[test]
fn join_then_leave_restores_the_count() {
    let mut repo = StreamRepository::new();
    repo.start_stream(1, "a".to_string());
    repo.viewer_join(1);
    let before = viewers_of(&repo.existing_events(), 1);
    repo.viewer_join(1);
    repo.viewer_disconnect(1);
    assert_eq!(viewers_of(&repo.existing_events(), 1), before);
}

#[test]
fn joins_of_unknown_streams_change_nothing() {
    let mut repo = StreamRepository::new();
    repo.viewer_join(9);
    repo.viewer_disconnect(9);
    assert!(repo.existing_events().is_empty());
}

#[test]
fn restarting_a_name_maps_it_to_the_new_session() {
    let mut repo = StreamRepository::new();
    repo.start_stream(1, "a".to_string());
    repo.start_stream(2, "b".to_string());
    repo.start_stream(3, "a".to_string());
    assert_eq!(repo.lookup(&"a".to_string()), Some(3));
    assert_eq!(repo.lookup(&"b".to_string()), Some(2));
    assert_eq!(repo.existing_events().len(), 3);
}

#[test]
fn attach_counts_a_viewer_of_a_live_stream() {
    let mut repo = StreamRepository::new();
    assert!(repo.attach(&"a".to_string()).is_none());
    repo.start_stream(4, "a".to_string());
    let (id, ev) = repo.attach(&"a".to_string()).unwrap();
    assert_eq!(id, 4);
    assert!(matches!(ev, StreamType::ViewerJoin { stream_session_id: 4 }));
    assert_eq!(viewers_of(&repo.existing_events(), 4), Some(1));
    repo.stop_stream(4);
    assert!(repo.attach(&"a".to_string()).is_none());
}

#[test]
fn bandwidth_reports_every_five_seconds() {
    let mut m = BandwidthAnalyzer::new(3, true, 0);
    assert!(m.analyze(100, 1_000_000_000).is_none());
    assert!(m.analyze(50, BANDWIDTH_REPORT_INTERVAL).is_none());
    match m.analyze(10, BANDWIDTH_REPORT_INTERVAL + 1) {
        Some(StreamType::StreamStats { stream_session_id, bytes_since_last_stats, is_ingest }) => {
            assert_eq!((stream_session_id, bytes_since_last_stats, is_ingest), (3, 160, true));
        }
        _ => panic!("no report"),
    }
    m.report_sent();
    assert!(m.analyze(5, BANDWIDTH_REPORT_INTERVAL + 2).is_none());
    match m.analyze(7, 3 * BANDWIDTH_REPORT_INTERVAL) {
        Some(StreamType::StreamStats { bytes_since_last_stats, .. }) => {
            assert_eq!(bytes_since_last_stats, 12)
        }
        _ => panic!("no report"),
    }
}

#[test]
fn snapshots_of_video_keyframes_every_ten_seconds() {
    let mut s = SnapshotSchedule::new();
    assert!(!s.should_take(false, true, 0));
    assert!(!s.should_take(true, false, 0));
    assert!(s.should_take(true, true, 5));
    assert!(!s.should_take(true, true, 5 + SNAPSHOT_INTERVAL));
    assert!(s.should_take(true, true, 6 + SNAPSHOT_INTERVAL));
}

#[test]
fn joins_and_leaves_that_keep_the_count_in_range() {
    let mut repo = StreamRepository::new();
    assert!(repo.can_join(9));
    assert!(repo.can_leave(9));
    repo.start_stream(9, "n".to_string());
    assert!(repo.can_join(9));
    assert!(!repo.can_leave(9));
    repo.viewer_join(9);
    assert!(repo.can_leave(9));
}

#[test]
fn counted_bytes_stay_in_32_bits() {
    let mut m = BandwidthAnalyzer::new(1, false, 0);
    assert!(m.can_count(u32::MAX as usize));
    assert!(m.analyze(10, 1).is_none());
    assert!(m.can_count(u32::MAX as usize - 10));
    assert!(!m.can_count(u32::MAX as usize - 9));
}

#[test]
fn stream_keys_are_checked_when_configured() {
    let key = "secret".to_string();
    assert!(authenticate_rtmp_stream(Some(&key), "secret"));
    assert!(!authenticate_rtmp_stream(Some(&key), "guess"));
    assert!(authenticate_rtmp_stream(None, "anything"));
}

#[test]
fn map_entries_lists_each_entry_once() {
    let mut m = std::collections::HashMap::new();
    m.insert(3, 30u32);
    m.insert(1, 10u32);
    m.insert(2, 20u32);
    let mut entries = map_entries(&m);
    entries.sort();
    assert_eq!(entries, vec![(1, 10), (2, 20), (3, 30)]);
    assert!(map_entries(&std::collections::HashMap::<i32, u32>::new()).is_empty());
}
