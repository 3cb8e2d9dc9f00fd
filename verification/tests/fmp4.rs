use bytes::{Bytes, BytesMut};
use std::sync::Arc;
use streamhead::fmp4::{
    codec_message, get_codec_from_stream, get_sample_entry_for_codec_type, try_single_frame_fmp4,
    get_track_for_audio_stream, get_track_for_video_stream, single_frame_fmp4, write_preamble,
    FragmentedMp4WriteFilter, HANDLER_SOUND, HANDLER_VIDEO,
};
use streamhead::media::{
    AudioCodecInfo, AudioCodecSpecificInfo, BitstreamFraming, CodecInfo, CodecTypeInfo, Fraction,
    Frame, FrameDependency, MediaTime, SoundType, Stream, VideoCodecInfo, VideoCodecSpecificInfo,
};
use streamhead::mp4::{MediaHeader, Mp4Box, SampleEntry};

fn video_stream() -> Stream {
    Stream {
        id: 0,
        codec: Arc::new(CodecInfo {
            name: "h264",
            properties: CodecTypeInfo::Video(VideoCodecInfo {
                width: 1920,
                height: 1080,
                extra: VideoCodecSpecificInfo::H264 {
                    bitstream_format: BitstreamFraming::FourByteLength,
                    profile_indication: 100,
                    profile_compatibility: 0,
                    level_indication: 40,
                    sps: Arc::new(vec![0x67, 0x64, 0x00, 0x28]),
                    pps: Arc::new(vec![0x68, 0xee, 0x3c]),
                },
            }),
        }),
        timebase: Fraction::new(1, 1000),
    }
}

fn audio_stream() -> Stream {
    Stream {
        id: 1,
        codec: Arc::new(CodecInfo {
            name: "AAC",
            properties: CodecTypeInfo::Audio(AudioCodecInfo {
                sample_rate: 44000,
                sample_bpp: 16,
                sound_type: SoundType::Stereo,
                extra: AudioCodecSpecificInfo::Aac { extra: vec![0x12, 0x10] },
            }),
        }),
        timebase: Fraction::new(1, 48000),
    }
}

fn frame(stream: Stream, pts: u64, key: bool, data: &'static [u8]) -> Frame {
    Frame {
        time: MediaTime { pts, dts: None, timebase: stream.timebase },
        dependency: if key { FrameDependency::Independent } else { FrameDependency::Backwards },
        buffer: Bytes::from_static(data),
        stream,
        received: std::time::Instant::now(),
    }
}

fn be32(b: &[u8], at: usize) -> u32 {
    u32::from_be_bytes([b[at], b[at + 1], b[at + 2], b[at + 3]])
}

const FTYP: &[u8] = b"\x00\x00\x00\x1cftypisom\x00\x00\x00\x00isomiso5dash";

#[test]
fn sample_entry_of_video_and_audio() {
    let v = video_stream();
    match get_sample_entry_for_codec_type(&v.codec.properties) {
        SampleEntry::Avc(e) => {
            assert_eq!((e.width, e.height), (1920, 1080));
            assert_eq!(e.avcc.config.profile_indication, 100);
            assert_eq!(e.avcc.config.level_indication, 40);
            assert_eq!(e.avcc.config.sequence_parameter_set, vec![0x67, 0x64, 0x00, 0x28]);
            assert_eq!(e.avcc.config.picture_parameter_set, vec![0x68, 0xee, 0x3c]);
        }
        SampleEntry::Mp4a(_) => panic!("audio entry for video"),
    }
    match get_sample_entry_for_codec_type(&audio_stream().codec.properties) {
        SampleEntry::Mp4a(e) => {
            assert_eq!((e.channel_count, e.sample_size, e.sample_rate), (2, 16, 48000));
            assert_eq!(e.esds.descriptor.es_id, 2);
            assert_eq!(e.esds.descriptor.decoder_config.object_type_indication, 0x40);
            let d = e.esds.descriptor.decoder_config.decoder_specific_info.as_ref().unwrap();
            assert_eq!(d.data, vec![0x12, 0x10]);
            let mut w = BytesMut::new();
            e.write(&mut w).unwrap();
            let expected: Vec<u8> = [
                &[0, 0, 0, 0x57][..],
                b"mp4a",
                &[0, 0, 0, 0, 0, 0, 0, 1, 0, 0, 0, 0, 0, 0, 0, 0, 0, 2, 0, 16, 0, 0, 0, 0, 0xbb, 0x80, 0, 0],
                &[0, 0, 0, 0x33],
                b"esds",
                &[0, 0, 0, 0],
                &[3, 0x80, 0x80, 0x80, 34, 0, 2, 0],
                &[4, 0x80, 0x80, 0x80, 20, 0x40, 0x15, 0, 0, 0, 0, 0, 0, 0, 0, 0, 0, 0],
                &[5, 0x80, 0x80, 0x80, 2, 0x12, 0x10],
                &[6, 0x80, 0x80, 0x80, 1, 2],
            ]
            .concat();
            assert_eq!(w.to_vec(), expected);
            assert_eq!(e.size(), expected.len() as u64);
        }
        SampleEntry::Avc(_) => panic!("video entry for audio"),
    }
}

#[test]
fn checked_single_frame_file() {
    let data: &'static [u8] = &[0, 0, 0, 2, 0x65, 0x88];
    let f = frame(video_stream(), 5, true, data);
    let checked = try_single_frame_fmp4(f.clone()).unwrap();
    assert_eq!(checked, single_frame_fmp4(f));
}

#[test]
fn tracks_of_streams() {
    let t = get_track_for_video_stream(&video_stream());
    assert_eq!(t.tkhd.track_id, 1);
    assert_eq!(t.mdia.mdhd.timescale, 1000);
    assert_eq!(t.mdia.hdlr.handler_type, HANDLER_VIDEO);
    assert_eq!(t.mdia.hdlr.name, "Video Handler");
    assert!(matches!(t.mdia.minf.media_header, MediaHeader::Video(_)));
    assert_eq!(t.mdia.minf.stbl.stsd.entries.len(), 1);
    let a = get_track_for_audio_stream(&audio_stream());
    assert_eq!(a.tkhd.track_id, 2);
    assert_eq!(a.mdia.mdhd.timescale, 48000);
    assert_eq!(a.mdia.hdlr.handler_type, HANDLER_SOUND);
    assert_eq!(a.mdia.hdlr.name, "Audio Handler");
    assert!(matches!(a.mdia.minf.media_header, MediaHeader::Sound(_)));
    assert_eq!(a.mdia.minf.stbl.stsd.entries.len(), 1);
    let mut w = BytesMut::new();
    t.write(&mut w).unwrap();
    assert_eq!(w.len() as u64, t.size());
}

#[test]
fn preamble_is_ftyp_then_moov() {
    let mut out = BytesMut::new();
    write_preamble(&video_stream(), Some(&audio_stream()), &mut out);
    assert_eq!(&out[..FTYP.len()], FTYP);
    let moov = &out[FTYP.len()..];
    assert_eq!(&moov[4..8], b"moov");
    assert_eq!(be32(moov, 0) as usize, moov.len());
    assert_eq!(&moov[12..16], b"mvhd");
}

#[test]
fn preamble_announces_defaults_for_both_tracks() {
    let mut out = BytesMut::new();
    write_preamble(&video_stream(), None, &mut out);
    let mvex = out.windows(4).position(|w| w == b"mvex").unwrap() - 4;
    let trex: Vec<usize> = out
        .windows(4)
        .enumerate()
        .filter(|(_, w)| *w == b"trex")
        .map(|(i, _)| i - 4)
        .collect();
    assert_eq!(trex.len(), 2);
    for (n, &at) in trex.iter().enumerate() {
        assert_eq!(be32(&out, at), 32);
        assert_eq!(be32(&out, at + 12), n as u32 + 1);
        assert_eq!(be32(&out, at + 16), 1);
        assert_eq!(&out[at + 20..at + 32], &[0u8; 12]);
    }
    assert_eq!(be32(&out, mvex) as usize, 8 + 20 + 2 * 32);
}

#[test]
fn single_frame_data_offset_points_at_the_data() {
    let data: &'static [u8] = &[0, 0, 0, 2, 0x65, 0x88];
    let out = single_frame_fmp4(frame(video_stream(), 5, true, data));
    assert_eq!(&out[..FTYP.len()], FTYP);
    let moov_size = be32(&out, FTYP.len()) as usize;
    let moof_start = FTYP.len() + moov_size;
    let moof = &out[moof_start..];
    assert_eq!(&moof[4..8], b"moof");
    assert_eq!(be32(moof, 0), 96);
    assert_eq!(be32(moof, 20), 1);
    let data_offset = be32(moof, 84) as usize;
    assert_eq!(data_offset, 108);
    assert_eq!(&moof[data_offset..], data);
    assert_eq!(&moof[100..104], b"mdat");
}

#[test]
fn fragments_count_and_time_their_samples() {
    let mut w = FragmentedMp4WriteFilter::new();
    let d: &'static [u8] = &[1, 2, 3, 4, 5];

    let f0 = w.write(&frame(video_stream(), 1000, true, d));
    assert_eq!(be32(&f0, 20), 0);
    assert_eq!(be32(&f0, 44), 1);
    assert_eq!(u64::from_be_bytes(f0[60..68].try_into().unwrap()), 0);
    assert_eq!(be32(&f0, 88), 1800);
    assert_eq!(be32(&f0, 92), 5);
    let off = be32(&f0, 84) as usize;
    assert_eq!(&f0[off..], d);

    let f1 = w.write(&frame(video_stream(), 1040, false, d));
    assert_eq!(be32(&f1, 20), 1);
    assert_eq!(be32(&f1, 88), 0x10000);
    assert_eq!(be32(&f1, 92), 40);
    let off1 = be32(&f1, 84) as usize;
    assert_eq!(off1, 112);
    assert_eq!(&f1[off1..], d);

    let f2 = w.write(&frame(video_stream(), 1080, true, d));
    assert_eq!(be32(&f2, 20), 2);
    assert_eq!(u64::from_be_bytes(f2[60..68].try_into().unwrap()), 40);

    let a = w.write(&frame(audio_stream(), 0, true, d));
    assert_eq!(be32(&a, 44), 2);
}

#[test]
fn start_writes_the_preamble_of_the_first_streams() {
    let w = FragmentedMp4WriteFilter::new();
    let out = w.start(&vec![audio_stream(), video_stream()]);
    assert_eq!(&out[..FTYP.len()], FTYP);
}

#[test]
fn codec_header_message() {
    assert_eq!(get_codec_from_stream(&video_stream()), (100, 0, 40));
    assert_eq!(codec_message(&vec![audio_stream(), video_stream()]), vec![100, 0, 40]);
}

#[test]
fn writes_whose_times_overflow_are_refused() {
    let mut w = FragmentedMp4WriteFilter::new();
    let d: &'static [u8] = &[1];
    let first = frame(video_stream(), i64::MAX as u64, true, d);
    assert!(w.can_write(&first));
    w.write(&first);
    assert!(!w.can_write(&frame(video_stream(), 1u64 << 63, false, d)));
    assert!(w.can_write(&frame(video_stream(), i64::MAX as u64 - 5, false, d)));
}
