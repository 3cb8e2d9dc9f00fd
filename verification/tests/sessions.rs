use streamhead::sessions::{AggregatedStats, SessionAction, StreamInfo, StreamSessionState};
use streamhead::stream_info::{StreamMeta, StreamType};

#[test]
fn stream_info_defaults_to_no_viewers() {
    assert_eq!(StreamInfo::default().viewers(), 0);
}

#[test]
fn started_streams_count_viewers() {
    let mut s = StreamSessionState::new();
    assert!(s
        .handle_msg(StreamType::StreamStarted { stream_session_id: 5, meta: None }, 100)
        .is_none());
    s.handle_msg(StreamType::ViewerJoin { stream_session_id: 5 }, 101);
    s.handle_msg(StreamType::ViewerJoin { stream_session_id: 5 }, 102);
    s.handle_msg(StreamType::ViewerLeave { stream_session_id: 5 }, 103);
    s.handle_msg(StreamType::ViewerJoin { stream_session_id: 6 }, 104);
    let stop = s.handle_msg(StreamType::StreamStopped { stream_session_id: 5 }, 200);
    assert!(matches!(stop, Some(SessionAction::StopSession { stream_session_id: 5, end: 200 })));
    s.stream_stopped(5);
}

#[test]
fn metadata_is_to_be_attached() {
    let mut s = StreamSessionState::new();
    let meta = StreamMeta {
        video_encoder: Some("x264".to_string()),
        video_bitrate_kbps: Some(2500),
        parameter_sets: None,
    };
    match s.handle_msg(StreamType::StreamExisting { stream_session_id: 2, viewers: 4, meta: Some(meta) }, 0) {
        Some(SessionAction::AttachMetadata { stream_session_id, meta }) => {
            assert_eq!(stream_session_id, 2);
            assert_eq!(meta.video_bitrate_kbps, Some(2500));
        }
        _ => panic!("no metadata action"),
    }
}

#[test]
fn statistics_add_up_until_taken() {
    let mut s = StreamSessionState::new();
    s.handle_msg(StreamType::StreamStats { stream_session_id: 1, bytes_since_last_stats: 100, is_ingest: true }, 10);
    s.handle_msg(StreamType::StreamStats { stream_session_id: 1, bytes_since_last_stats: 50, is_ingest: true }, 20);
    s.handle_msg(StreamType::StreamStats { stream_session_id: 1, bytes_since_last_stats: 7, is_ingest: false }, 30);
    s.handle_msg(StreamType::StreamStats { stream_session_id: 2, bytes_since_last_stats: 1, is_ingest: false }, 40);
    let mut stats = s.take_stats();
    stats.sort_by_key(|(id, _)| *id);
    assert_eq!(stats.len(), 2);
    let (_, a): &(i32, AggregatedStats) = &stats[0];
    assert_eq!((a.time, a.ingest_bytes, a.other_bytes), (10, 150, 7));
    let (_, b) = &stats[1];
    assert_eq!((b.time, b.ingest_bytes, b.other_bytes), (40, 0, 1));
    assert!(s.take_stats().is_empty());
}

#[test]
fn new_stats_start_empty() {
    let a = AggregatedStats::new(99);
    assert_eq!((a.time, a.ingest_bytes, a.other_bytes), (99, 0, 0));
}

#[test]
fn messages_that_would_overflow_are_refused() {
    let mut s = StreamSessionState::new();
    let leave = StreamType::ViewerLeave { stream_session_id: 3 };
    assert!(s.can_handle(&leave));
    s.handle_msg(StreamType::StreamStarted { stream_session_id: 3, meta: None }, 0);
    assert!(!s.can_handle(&leave));
    assert!(s.can_handle(&StreamType::ViewerJoin { stream_session_id: 3 }));
    s.handle_msg(StreamType::ViewerJoin { stream_session_id: 3 }, 1);
    assert!(s.can_handle(&leave));
    let big = StreamType::StreamStats { stream_session_id: 3, bytes_since_last_stats: i32::MAX as u32, is_ingest: true };
    assert!(s.can_handle(&big));
    s.handle_msg(StreamType::StreamStats { stream_session_id: 3, bytes_since_last_stats: i32::MAX as u32, is_ingest: true }, 2);
    assert!(!s.can_handle(&big));
    assert!(s.can_handle(&StreamType::StreamStats { stream_session_id: 3, bytes_since_last_stats: 1, is_ingest: false }));
}
