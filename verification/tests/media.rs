use bytes::Bytes;
use std::sync::Arc;
use streamhead::media::filters::{retain_sent, BitstreamFramerFilter, FramePlan, MediaFrameQueue};
use streamhead::media::framer::{
    convert_bitstream,    frame_nal_units, is_video_nal_unit, length_fields_fit, nut_header, parse_length_prefixed_bitstream,
    select_annexb_nal_units, NalFramer,
};
use streamhead::media::{
    convert_timebase, AudioCodecInfo, AudioCodecSpecificInfo, BitstreamFraming, CodecInfo,
    CodecTypeInfo, Fraction, Frame, FrameDependency, MediaTime, SoundType, Stream,
    VideoCodecInfo, VideoCodecSpecificInfo,
};

fn video_stream(id: u32, format: BitstreamFraming) -> Stream {
    Stream {
        id,
        codec: Arc::new(CodecInfo {
            name: "h264",
            properties: CodecTypeInfo::Video(VideoCodecInfo {
                width: 1280,
                height: 720,
                extra: VideoCodecSpecificInfo::H264 {
                    bitstream_format: format,
                    profile_indication: 100,
                    profile_compatibility: 0,
                    level_indication: 31,
                    sps: Arc::new(vec![0x67, 1, 2]),
                    pps: Arc::new(vec![0x68, 3]),
                },
            }),
        }),
        timebase: Fraction::new(1, 1000),
    }
}

fn audio_stream(id: u32) -> Stream {
    Stream {
        id,
        codec: Arc::new(CodecInfo {
            name: "AAC",
            properties: CodecTypeInfo::Audio(AudioCodecInfo {
                sample_rate: 44000,
                sample_bpp: 16,
                sound_type: SoundType::Stereo,
                extra: AudioCodecSpecificInfo::Aac { extra: vec![0x12, 0x10] },
            }),
        }),
        timebase: Fraction::new(1, 48000),
    }
}

#[test]
fn con_test() {
    assert_eq!(
        1000,
        convert_timebase(500, Fraction::new(1, 500), Fraction::new(1, 1000))
    );
}

#[test]
fn convert_timebase_rounds_down() {
    assert_eq!(convert_timebase(7, Fraction::new(1, 3), Fraction::new(1, 2)), 4);
    assert_eq!(convert_timebase(1000, Fraction::new(1, 1000), Fraction::new(1, 48000)), 48000);
}

#[test]
fn convert_timebase_roundtrip() {
    let a = Fraction::new(1, 1000);
    let b = Fraction::new(1, 48000);
    for t in [0u64, 1, 999, 123_456] {
        assert_eq!(convert_timebase(convert_timebase(t, a, b), b, a), t);
    }
}

#[test]
fn simplify_divides_by_gcd() {
    let f = Fraction::new(1920, 1080).simplify();
    assert_eq!((f.numerator, f.denominator), (16, 9));
    let g = Fraction::new(0, 5).simplify();
    assert_eq!((g.numerator, g.denominator), (0, 1));
    let h = Fraction::new(7, 3).simplify();
    assert_eq!((h.numerator, h.denominator), (7, 3));
}

#[test]
fn display_aspect_ratio_is_reduced() {
    if let CodecTypeInfo::Video(v) = &video_stream(0, BitstreamFraming::FourByteLength).codec.properties {
        let dar = v.display_aspect_ratio();
        assert_eq!((dar.numerator, dar.denominator), (16, 9));
    } else {
        panic!("not video");
    }
}

#[test]
fn start_code_framing_is_start_code() {
    assert!(BitstreamFraming::FourByteStartCode.is_start_code());
    assert!(!BitstreamFraming::FourByteLength.is_start_code());
    assert!(!BitstreamFraming::TwoByteLength.is_start_code());
}

#[test]
fn set_then_get_bitstream_format() {
    let mut s = video_stream(3, BitstreamFraming::FourByteStartCode);
    assert_eq!(s.bitstream_format(), Some(BitstreamFraming::FourByteStartCode));
    s.set_bitstream_format(BitstreamFraming::TwoByteLength);
    assert_eq!(s.bitstream_format(), Some(BitstreamFraming::TwoByteLength));
    assert_eq!(s.id, 3);
    assert!(s.is_video());
    let mut a = audio_stream(1);
    a.set_bitstream_format(BitstreamFraming::TwoByteLength);
    assert_eq!(a.bitstream_format(), None);
    assert!(a.is_audio());
}

#[test]
fn parameter_sets_are_length_framed() {
    let s = video_stream(0, BitstreamFraming::FourByteLength);
    assert_eq!(
        s.parameter_sets(),
        Some(vec![0, 0, 0, 3, 0x67, 1, 2, 0, 0, 0, 2, 0x68, 3])
    );
    assert_eq!(audio_stream(1).parameter_sets(), None);
}

#[test]
fn decoder_specific_data_of_aac() {
    let info = AudioCodecSpecificInfo::Aac { extra: vec![1, 2, 3] };
    assert_eq!(info.decoder_specific_data(), Some(vec![1, 2, 3]));
}

#[test]
fn codec_info_kinds() {
    let v = video_stream(0, BitstreamFraming::FourByteLength);
    assert!(v.codec.video().is_some());
    assert!(v.codec.audio().is_none());
    let a = audio_stream(1);
    assert!(a.codec.audio().is_some());
    assert!(a.codec.video().is_none());
}

#[test]
fn media_time_since_and_in_base() {
    let t1 = MediaTime { pts: 1500, dts: Some(1400), timebase: Fraction::new(1, 1000) };
    let t0 = MediaTime { pts: 2000, dts: None, timebase: Fraction::new(1, 1000) };
    let d = t1.since(&t0);
    assert_eq!(d.duration, -500);
    let d2 = t1.clone().sub(t0);
    assert_eq!(d2.duration, -500);
    let c = t1.in_base(Fraction::new(1, 90000));
    assert_eq!(c.pts, 135000);
    assert_eq!(c.dts, Some(126000));
    assert_eq!(c.timebase.denominator, 90000);
}

#[test]
fn keyframes_depend_on_nothing() {
    let f = Frame {
        time: MediaTime { pts: 0, dts: None, timebase: Fraction::new(1, 1000) },
        dependency: FrameDependency::Independent,
        buffer: Bytes::from_static(&[1, 2]),
        stream: video_stream(0, BitstreamFraming::FourByteLength),
        received: std::time::Instant::now(),
    };
    assert!(f.is_keyframe());
    let g = Frame { dependency: FrameDependency::Backwards, ..f.clone() };
    assert!(!g.is_keyframe());
}

#[test]
fn length_framing_roundtrip() {
    let units = vec![Bytes::from_static(&[0x65, 1, 2, 3]), Bytes::from_static(&[0x41, 9])];
    for framing in [BitstreamFraming::TwoByteLength, BitstreamFraming::FourByteLength] {
        let framed = frame_nal_units(&units, framing).freeze();
        let parsed = parse_length_prefixed_bitstream(framed, framing).unwrap();
        assert_eq!(parsed, units);
    }
}

#[test]
fn framing_bytes() {
    let units = vec![Bytes::from_static(&[0x65, 1]), Bytes::from_static(&[0x41])];
    assert_eq!(
        &frame_nal_units(&units, BitstreamFraming::FourByteStartCode)[..],
        &[0, 0, 0, 1, 0x65, 1, 0, 0, 0, 1, 0x41][..]
    );
    assert_eq!(
        &frame_nal_units(&units, BitstreamFraming::TwoByteLength)[..],
        &[0, 2, 0x65, 1, 0, 1, 0x41][..]
    );
    assert_eq!(
        &frame_nal_units(&units, BitstreamFraming::FourByteLength)[..],
        &[0, 0, 0, 2, 0x65, 1, 0, 0, 0, 1, 0x41][..]
    );
}

#[test]
fn length_parse_drops_a_short_tail() {
    let bs = Bytes::from_static(&[0, 1, 0xaa, 0, 0]);
    let parsed = parse_length_prefixed_bitstream(bs, BitstreamFraming::TwoByteLength).unwrap();
    assert_eq!(parsed, vec![Bytes::from_static(&[0xaa])]);
    assert!(parse_length_prefixed_bitstream(Bytes::new(), BitstreamFraming::FourByteStartCode).is_none());
}

#[test]
fn nal_unit_types() {
    assert_eq!(nut_header(&Bytes::from_static(&[0x67])), Some(7));
    assert_eq!(nut_header(&Bytes::from_static(&[0x65, 0])), Some(5));
    assert_eq!(nut_header(&Bytes::from_static(&[0x80])), None);
    assert!(is_video_nal_unit(&Bytes::from_static(&[0x68])));
    assert!(is_video_nal_unit(&Bytes::from_static(&[0x41])));
    assert!(!is_video_nal_unit(&Bytes::from_static(&[0x06])));
    assert!(!is_video_nal_unit(&Bytes::from_static(&[0xe7])));
}

#[test]
fn annexb_units_keep_their_headers() {
    let units = vec![vec![0x09, 0xf0], vec![0x67, 0x42, 0x00, 0x1e], vec![0x68, 0xce]];
    let selected = select_annexb_nal_units(&units);
    assert_eq!(
        selected,
        vec![
            Bytes::from_static(&[0x09, 0xf0]),
            Bytes::from_static(&[0x67, 0x42, 0x00, 0x1e]),
            Bytes::from_static(&[0x68, 0xce]),
        ]
    );
}

#[test]
fn same_framing_passes_malformed_streams_through() {
    let bad = Bytes::from_static(&[0, 0, 0, 9]);
    let out = convert_bitstream(bad.clone(), BitstreamFraming::FourByteLength, BitstreamFraming::FourByteLength);
    assert_eq!(out, Some(bad));
}

#[test]
fn nal_framer_starts_at_zero() {
    let _ = NalFramer::new();
}

#[test]
fn framer_converts_other_framings() {
    let mut f = BitstreamFramerFilter::new(BitstreamFraming::FourByteLength);
    let streams = vec![
        video_stream(0, BitstreamFraming::FourByteStartCode),
        audio_stream(1),
        video_stream(2, BitstreamFraming::FourByteLength),
    ];
    let out = f.start(streams);
    assert_eq!(out.len(), 3);
    assert_eq!(out[0].bitstream_format(), Some(BitstreamFraming::FourByteLength));
    assert_eq!(out[2].bitstream_format(), Some(BitstreamFraming::FourByteLength));
    assert_eq!(f.source_framing(0), Some(BitstreamFraming::FourByteStartCode));
    let stream = f.stream_with_id(0).unwrap();
    assert_eq!(stream.id, 0);
    assert_eq!(stream.bitstream_format(), Some(BitstreamFraming::FourByteLength));
    assert!(f.source_framing(1).is_none());
    assert!(f.source_framing(2).is_none());
    assert!(f.stream_with_id(7).is_none());
}

#[test]
fn framer_plans_each_frame() {
    let mut f = BitstreamFramerFilter::new(BitstreamFraming::FourByteLength);
    f.start(vec![video_stream(0, BitstreamFraming::FourByteStartCode), audio_stream(1)]);
    match f.frame_plan(0) {
        FramePlan::Convert { source, stream } => {
            assert_eq!(source, BitstreamFraming::FourByteStartCode);
            assert_eq!(stream.id, 0);
            assert_eq!(stream.bitstream_format(), Some(BitstreamFraming::FourByteLength));
        }
        _ => panic!("stream 0 is converted"),
    }
    assert!(matches!(f.frame_plan(1), FramePlan::PassOn));
    assert!(matches!(f.frame_plan(9), FramePlan::PassOn));
    f.start(vec![]);
    assert!(matches!(f.frame_plan(0), FramePlan::UnknownStream));
}

#[test]
fn queue_drops_closed_readers() {
    let mut q = MediaFrameQueue::new();
    let (s1, r1) = async_channel::bounded(4);
    let (s2, r2) = async_channel::bounded(4);
    q.add_target(s1);
    q.add_target(s2);
    drop(r2);
    let frame = Frame {
        time: MediaTime { pts: 0, dts: None, timebase: Fraction::new(1, 1000) },
        dependency: FrameDependency::Independent,
        buffer: Bytes::from_static(&[1]),
        stream: audio_stream(1),
        received: std::time::Instant::now(),
    };
    q.push(&frame);
    assert_eq!(r1.len(), 1);
    q.push(&frame);
    assert_eq!(r1.len(), 2);
    q.set_streams(vec![audio_stream(1)]);
    assert_eq!(q.get_streams().len(), 1);
}

#[test]
fn length_fields_must_fit_the_bitstream() {
    let fits = Bytes::from(vec![0, 2, 9, 9, 0, 1, 7]);
    assert!(length_fields_fit(&fits, BitstreamFraming::TwoByteLength));
    let short = Bytes::from(vec![0, 3, 9, 9]);
    assert!(!length_fields_fit(&short, BitstreamFraming::TwoByteLength));
    assert!(length_fields_fit(&short, BitstreamFraming::FourByteLength));
    let long = Bytes::from(vec![0, 0, 0, 9, 1, 2]);
    assert!(!length_fields_fit(&long, BitstreamFraming::FourByteLength));
    assert!(length_fields_fit(&long, BitstreamFraming::FourByteStartCode));
}

#[test]
fn receivers_get_the_streams_and_the_frames() {
    let mut q = MediaFrameQueue::new();
    q.set_streams(vec![audio_stream(1), audio_stream(2)]);
    let r = q.get_receiver();
    let ids: Vec<u32> = r.streams().iter().map(|s| s.id).collect();
    assert_eq!(ids, vec![1, 2]);
    let frame = Frame {
        time: MediaTime { pts: 5, dts: None, timebase: Fraction::new(1, 1000) },
        dependency: FrameDependency::Backwards,
        buffer: Bytes::from_static(&[4, 2]),
        stream: audio_stream(2),
        received: std::time::Instant::now(),
    };
    q.push(&frame);
    let got = r.receiver().try_recv().unwrap();
    assert_eq!(got.time.pts, 5);
    assert_eq!(&got.buffer[..], &[4, 2]);
    assert_eq!(got.stream.id, 2);
}

#[test]
fn bitstreams_are_converted_between_framings() {
    let two = Bytes::from(vec![0, 2, 0x65, 1, 0, 1, 0x41]);
    let four = convert_bitstream(two.clone(), BitstreamFraming::TwoByteLength, BitstreamFraming::FourByteLength).unwrap();
    assert_eq!(&four[..], &[0, 0, 0, 2, 0x65, 1, 0, 0, 0, 1, 0x41]);
    let annexb = convert_bitstream(four.clone(), BitstreamFraming::FourByteLength, BitstreamFraming::FourByteStartCode).unwrap();
    assert_eq!(&annexb[..], &[0, 0, 0, 1, 0x65, 1, 0, 0, 0, 1, 0x41]);
    let same = convert_bitstream(two.clone(), BitstreamFraming::TwoByteLength, BitstreamFraming::TwoByteLength).unwrap();
    assert_eq!(same, two);
    assert!(convert_bitstream(annexb, BitstreamFraming::FourByteStartCode, BitstreamFraming::TwoByteLength).is_none());
}

#[test]
fn framer_keeps_its_target() {
    let f = BitstreamFramerFilter::new(BitstreamFraming::FourByteStartCode);
    assert_eq!(f.target_framing(), BitstreamFraming::FourByteStartCode);
}

#[test]
fn retain_sent_keeps_the_readers_that_took_the_frame() {
    let (s1, r1) = async_channel::bounded::<Frame>(4);
    let (s2, r2) = async_channel::bounded::<Frame>(4);
    let (s3, r3) = async_channel::bounded::<Frame>(4);
    let kept = retain_sent(vec![s1, s2, s3], &vec![true, false, true]);
    assert_eq!(kept.len(), 2);
    assert!(!r1.is_closed());
    assert!(r2.is_closed());
    assert!(!r3.is_closed());
    let frame = Frame {
        time: MediaTime { pts: 0, dts: None, timebase: Fraction::new(1, 1000) },
        dependency: FrameDependency::Independent,
        buffer: Bytes::from_static(&[1]),
        stream: audio_stream(1),
        received: std::time::Instant::now(),
    };
    kept[1].try_send(frame).unwrap();
    assert_eq!(r1.len(), 0);
    assert_eq!(r3.len(), 1);
}
