use streamhead::media::{AudioCodecSpecificInfo, CodecTypeInfo, FrameDependency, SoundType, VideoCodecSpecificInfo};
use streamhead::rtmp::{
    codec_source, get_audio_codec_info, rtmp_aac_timebase, rtmp_timebase, get_codec_from_mp4, get_video_codec_info,
    parse_audio_tag, parse_video_tag, try_get_codec_from_mp4, AudioStep, AvcPacketType,
    CodecSource, FrameType, HandshakeAction, ParameterSetContext, PublishWait, RtmpClock,
    RtmpError, RtmpReadState, ServerSessionResult, SoundFormat, SoundRate, SoundSize, SpsInfo,
    VideoStep,
};

const SPS: [u8; 23] = [
    0x67, 0x64, 0x00, 0x0A, 0xAC, 0x72, 0x84, 0x44, 0x26, 0x84, 0x00, 0x00, 0x00, 0x04, 0x00,
    0x00, 0x00, 0xCA, 0x3C, 0x48, 0x96, 0x11, 0x80,
];
const PPS: [u8; 4] = [0x68, 0xEE, 0x3C, 0x80];

fn avcc_record() -> Vec<u8> {
    let mut v = vec![1, 0x64, 0x00, 0x0A, 0xff, 0xe1, 0, SPS.len() as u8];
    v.extend_from_slice(&SPS);
    v.push(1);
    v.extend_from_slice(&[0, PPS.len() as u8]);
    v.extend_from_slice(&PPS);
    v
}

#[test]
fn video_tags() {
    let t = parse_video_tag(&[0x17, 0x01, 0, 0, 0, 9, 8]).unwrap();
    assert_eq!(t.frame_type, FrameType::Key);
    assert_eq!(t.packet_type, AvcPacketType::NALU);
    assert_eq!(t.avc_data, vec![9, 8]);
    let t = parse_video_tag(&[0x27, 0x00, 0, 0, 0]).unwrap();
    assert_eq!(t.frame_type, FrameType::Inter);
    assert_eq!(t.packet_type, AvcPacketType::SequenceHeader);
    assert!(t.avc_data.is_empty());
    assert!(matches!(parse_video_tag(&[]), Err(RtmpError::ParseVideoTag)));
    assert!(matches!(parse_video_tag(&[0x17, 1, 0]), Err(RtmpError::ParseAvcPacket)));
}

#[test]
fn audio_tags() {
    let t = parse_audio_tag(&[0xaf, 0x00, 0x12, 0x10]).unwrap();
    assert_eq!(t.header.sound_format, SoundFormat::AAC);
    assert_eq!(t.header.sound_rate, SoundRate::_44KHZ);
    assert_eq!(t.header.sound_size, SoundSize::_16Bit);
    assert_eq!(t.data, vec![0x00, 0x12, 0x10]);
    assert!(matches!(parse_audio_tag(&[]), Err(RtmpError::ParseAudioTag)));
    assert!(matches!(parse_audio_tag(&[0xc0]), Err(RtmpError::ParseAudioTag)));
    let mp3 = parse_audio_tag(&[0x22]).unwrap();
    assert_eq!(mp3.header.sound_format, SoundFormat::MP3);
    assert_eq!(mp3.header.sound_rate, SoundRate::_5_5KHZ);
}

#[test]
fn aac_codec_info() {
    let tag = parse_audio_tag(&[0xaf, 0x00, 0x12, 0x10]).unwrap();
    let c = get_audio_codec_info(&tag).unwrap();
    assert_eq!(c.name, "AAC");
    match c.properties {
        CodecTypeInfo::Audio(a) => {
            assert_eq!(a.sample_rate, 44000);
            assert_eq!(a.sample_bpp, 16);
            assert!(matches!(a.sound_type, SoundType::Stereo));
            let AudioCodecSpecificInfo::Aac { extra } = a.extra;
            assert_eq!(extra, vec![0x12, 0x10]);
        }
        _ => panic!("not audio"),
    }
    let mp3 = parse_audio_tag(&[0x2e]).unwrap();
    assert!(matches!(get_audio_codec_info(&mp3), Err(RtmpError::UnsupportedAudioCodec)));
}

#[test]
fn codec_from_avc_sequence_header() {
    let rec = avcc_record();
    let expected = h264_reader::nal::sps::SeqParameterSet::from_bytes(
        &h264_reader::rbsp::decode_nal(&SPS[1..]),
    )
    .unwrap()
    .pixel_dimensions()
    .unwrap();
    let c = get_codec_from_mp4(&rec).unwrap();
    assert_eq!(c.name, "h264");
    match &c.properties {
        CodecTypeInfo::Video(v) => {
            assert_eq!((v.width, v.height), expected);
            let VideoCodecSpecificInfo::H264 { profile_indication, level_indication, sps, pps, .. } = &v.extra;
            assert_eq!(*profile_indication, 0x64);
            assert_eq!(*level_indication, 0x0A);
            assert_eq!(sps.as_slice(), &SPS[..]);
            assert_eq!(pps.as_slice(), &PPS[..]);
        }
        _ => panic!("not video"),
    }
    assert!(matches!(try_get_codec_from_mp4(&rec), Some(Ok(_))));
    assert!(matches!(get_codec_from_mp4(&rec[..3]), Err(RtmpError::ParseAvcConfiguration)));
    assert!(try_get_codec_from_mp4(&[1, 0x64, 0, 0x0a, 0xff, 0xe0, 0]).is_none());
}

#[test]
fn codec_from_parameter_sets() {
    let ps = ParameterSetContext {
        sps: Some((vec![0x67, 1], Some(SpsInfo {
            profile_idc: 66,
            constraint_flags: 0xc0,
            level_idc: 30,
            pixel_dimensions: Some((640, 480)),
        }))),
        pps: Some(vec![0x68, 2]),
    };
    let c = get_video_codec_info(ps);
    match &c.properties {
        CodecTypeInfo::Video(v) => {
            assert_eq!((v.width, v.height), (640, 480));
            let VideoCodecSpecificInfo::H264 { profile_indication, profile_compatibility, .. } = &v.extra;
            assert_eq!((*profile_indication, *profile_compatibility), (66, 0xc0));
        }
        _ => panic!("not video"),
    }
}

#[test]
fn clock_wraps_around() {
    let mut c = RtmpClock::new();
    assert_eq!(c.advance(u32::MAX - 10), 0);
    assert_eq!(c.advance(u32::MAX), 10);
    assert_eq!(c.advance(5), 16);
    assert_eq!(c.advance(105), 116);
}

#[test]
fn packet_types_and_codec_sources() {
    let t = parse_video_tag(&[0x17, 0x00, 0, 0, 0]).unwrap();
    assert_eq!(codec_source(&t).unwrap(), CodecSource::SequenceHeader);
    let t = parse_video_tag(&[0x17, 0x01, 0, 0, 0]).unwrap();
    assert_eq!(codec_source(&t).unwrap(), CodecSource::Nalu);
    let t = parse_video_tag(&[0x17, 0x02, 0, 0, 0]).unwrap();
    assert!(matches!(codec_source(&t), Err(RtmpError::UnsupportedAvcPacketType)));
}

#[test]
fn video_frames_after_the_codec() {
    let mut st = RtmpReadState::new();
    let now = std::time::Instant::now();
    let rec = avcc_record();
    let mut first = vec![0x17, 0x00, 0, 0, 0];
    first.extend_from_slice(&rec);
    match st.add_video_frame(&first, 1000, now).unwrap() {
        VideoStep::NeedsCodec(tag) => {
            let codec = get_codec_from_mp4(&tag.avc_data).unwrap();
            st.assign_video_stream(codec);
        }
        VideoStep::Frame(_) => panic!("frame before codec"),
    }
    match st.add_video_frame(&[0x17, 0x01, 0, 0, 0, 0xaa], 1000, now).unwrap() {
        VideoStep::Frame(f) => {
            assert_eq!(f.time.pts, 0);
            assert_eq!(f.time.timebase.denominator, 1000);
            assert_eq!(f.dependency, FrameDependency::Independent);
            assert_eq!(&f.buffer[..], &[0xaa]);
            assert_eq!(f.stream.id, 0);
        }
        _ => panic!("no frame"),
    }
    match st.add_video_frame(&[0x27, 0x01, 0, 0, 0, 0xbb], 1033, now).unwrap() {
        VideoStep::Frame(f) => {
            assert_eq!(f.time.pts, 33);
            assert_eq!(f.dependency, FrameDependency::Backwards);
        }
        _ => panic!("no frame"),
    }
}

#[test]
fn audio_frames_in_48khz() {
    let mut st = RtmpReadState::new();
    let now = std::time::Instant::now();
    match st.add_audio_frame(&[0xaf, 0x00, 0x12, 0x10], 0, now).unwrap() {
        AudioStep::NeedsCodec(tag) => st.assign_audio_stream(get_audio_codec_info(&tag).unwrap()),
        AudioStep::Frame(_) => panic!("frame before codec"),
    }
    st.add_audio_frame(&[0xaf, 0x01, 1], 100, now).unwrap();
    match st.add_audio_frame(&[0xaf, 0x01, 7, 8], 121, now).unwrap() {
        AudioStep::Frame(f) => {
            assert_eq!(f.time.pts, 21 * 48);
            assert_eq!(f.time.timebase.denominator, 48000);
            assert_eq!(&f.buffer[..], &[7, 8]);
            assert_eq!(f.stream.id, 1);
        }
        _ => panic!("no frame"),
    }
}

#[test]
fn publish_handshake() {
    let mut w = PublishWait::new();
    assert_eq!(w.handle(ServerSessionResult::OutboundResponse), HandshakeAction::Send);
    assert_eq!(
        w.handle(ServerSessionResult::ConnectionRequested { request_id: 3 }),
        HandshakeAction::Accept { request_id: 3 }
    );
    assert!(w.take_publish_request().is_none());
    assert_eq!(
        w.handle(ServerSessionResult::PublishStreamRequested {
            request_id: 4,
            app_name: "live".to_string(),
            stream_key: "key".to_string(),
        }),
        HandshakeAction::Ignore
    );
    assert_eq!(w.handle(ServerSessionResult::Other), HandshakeAction::Ignore);
    assert_eq!(
        w.take_publish_request(),
        Some((4, "live".to_string(), "key".to_string()))
    );
    assert!(w.take_publish_request().is_none());
}

#[test]
fn streams_are_ready_once_found() {
    let mut st = RtmpReadState::new();
    assert!(st.streams().is_empty());
    assert!(st.streams_ready(false, false));
    assert!(!st.streams_ready(true, false));
    assert!(st.can_add_video(0));
    assert!(st.can_add_audio(&[0xaf], 0));
    st.assign_video_stream(get_codec_from_mp4(&avcc_record()).unwrap());
    assert!(st.streams_ready(true, false));
    assert!(!st.streams_ready(true, true));
    let tag = parse_audio_tag(&[0xaf, 0x00, 0x12, 0x10]).unwrap();
    st.assign_audio_stream(get_audio_codec_info(&tag).unwrap());
    assert!(st.streams_ready(true, true));
    assert!(!st.can_add_audio(&[0xaf], 0));
    assert!(st.can_add_audio(&[0xaf, 0x01], 0));
    let ids: Vec<u32> = st.streams().iter().map(|s| s.id).collect();
    assert_eq!(ids, vec![0, 1]);
}

#[test]
fn timebases_and_clock_ticks() {
    assert_eq!((rtmp_timebase().numerator, rtmp_timebase().denominator), (1, 1000));
    assert_eq!((rtmp_aac_timebase().numerator, rtmp_aac_timebase().denominator), (1, 48000));
    let mut c = RtmpClock::new();
    assert_eq!(c.tick(500), 0);
    c.advance(500);
    assert_eq!(c.tick(520), 20);
    assert_eq!(c.tick(499), u32::MAX as u64);
}
