use bytes::BytesMut;
use streamhead::mp4::{
    AvcConfigurationBox, AvcDecoderConfigurationRecord, AvcSampleEntryBox, FileTypeBox,
    FullBoxHeader, MediaDataBox, Mp4Box, MovieFragmentHeaderBox, SampleEntry,
    TrackFragmentRunBox, TrackFragmentSample, TrackHeaderBox,
};

fn written<B: Mp4Box>(b: &B) -> Vec<u8> {
    let mut w = BytesMut::new();
    b.write(&mut w).unwrap();
    w.to_vec()
}

#[test]
fn full_box_header_keeps_flags() {
    let h = FullBoxHeader::new(1, 0x20000);
    assert_eq!(h.flags(), 0x20000);
}

#[test]
fn ftyp_bytes() {
    let f = FileTypeBox::new(*b"isom", 0, vec![*b"isom", *b"dash"]);
    assert_eq!(f.size(), 24);
    assert_eq!(
        written(&f),
        b"\x00\x00\x00\x18ftypisom\x00\x00\x00\x00isomdash".to_vec()
    );
}

#[test]
fn mdat_is_a_full_box() {
    let data = [1u8, 2, 3];
    let m = MediaDataBox { data: &data };
    assert_eq!(m.size(), 15);
    assert_eq!(written(&m), vec![0, 0, 0, 15, b'm', b'd', b'a', b't', 0, 0, 0, 0, 1, 2, 3]);
}

#[test]
fn mfhd_bytes() {
    let b = MovieFragmentHeaderBox { sequence_number: 7 };
    assert_eq!(written(&b), vec![0, 0, 0, 16, b'm', b'f', b'h', b'd', 0, 0, 0, 0, 0, 0, 0, 7]);
}

#[test]
fn trun_flags_follow_fields() {
    let run = TrackFragmentRunBox {
        data_offset: Some(100),
        first_sample_flags: Some(0x10000),
        samples: vec![TrackFragmentSample {
            duration: Some(1800),
            size: Some(5),
            flags: None,
            composition_time_offset: None,
        }],
    };
    assert_eq!(run.flags(), Some(0x000305));
    let bytes = written(&run);
    assert_eq!(bytes.len() as u64, run.size());
    assert_eq!(&bytes[4..8], b"trun");
    assert_eq!(&bytes[8..12], &[0, 0, 3, 5]);
    assert_eq!(&bytes[12..16], &[0, 0, 0, 1]);
    assert_eq!(&bytes[16..20], &[0, 0, 0, 100]);
}

#[test]
fn trun_size_counts_the_first_sample_fields() {
    let run = TrackFragmentRunBox {
        data_offset: Some(0),
        first_sample_flags: None,
        samples: vec![
            TrackFragmentSample { duration: Some(1), size: Some(2), flags: None, composition_time_offset: None },
            TrackFragmentSample { duration: None, size: None, flags: Some(3), composition_time_offset: None },
        ],
    };
    assert_eq!(run.content_size(), 24);
    assert_eq!(run.size(), 36);
    let one = TrackFragmentRunBox {
        data_offset: Some(0),
        first_sample_flags: None,
        samples: vec![TrackFragmentSample { duration: Some(1), size: Some(2), flags: None, composition_time_offset: None }],
    };
    assert_eq!(one.content_size(), 16);
    assert_eq!(one.size(), 28);
}

#[test]
fn tkhd_size() {
    let t = TrackHeaderBox { creation_time: 0, modification_time: 0, track_id: 1, duration: 0 };
    assert_eq!(t.size(), 104);
    let w = written(&t);
    assert_eq!(w.len(), 104);
    assert_eq!(&w[96..104], &[0x07, 0x80, 0, 0, 0x04, 0x38, 0, 0]);
}

#[test]
fn avc_record_roundtrip() {
    let rec = AvcDecoderConfigurationRecord {
        profile_indication: 100,
        profile_compatibility: 0,
        level_indication: 31,
        sequence_parameter_set: vec![0x67, 0x64, 0x00, 0x1f],
        picture_parameter_set: vec![0x68, 0xee],
    };
    let mut w = BytesMut::new();
    rec.write(&mut w).unwrap();
    assert_eq!(w.len() as u64, rec.size());
    let back = AvcDecoderConfigurationRecord::read(&w).unwrap();
    assert_eq!(back.profile_indication, 100);
    assert_eq!(back.level_indication, 31);
    assert_eq!(back.sequence_parameter_set, rec.sequence_parameter_set);
    assert_eq!(back.picture_parameter_set, rec.picture_parameter_set);
}

#[test]
fn avc_record_too_short_is_an_error() {
    assert!(AvcDecoderConfigurationRecord::read(&[1, 100, 0]).is_err());
    assert!(AvcDecoderConfigurationRecord::read(&[1, 100, 0, 31, 0xff, 0xe1, 0, 4, 0x67]).is_err());
}

#[test]
fn avc1_entry_size() {
    let e = AvcSampleEntryBox {
        width: 1280,
        height: 720,
        avcc: AvcConfigurationBox {
            config: AvcDecoderConfigurationRecord {
                profile_indication: 66,
                profile_compatibility: 0,
                level_indication: 30,
                sequence_parameter_set: vec![0x67, 1],
                picture_parameter_set: vec![0x68],
            },
        },
    };
    let n = written(&e).len() as u64;
    assert_eq!(n, e.size());
    assert_eq!(n, 8 + 78 + 8 + 11 + 3);
    let entry = SampleEntry::Avc(e);
    match entry {
        SampleEntry::Avc(a) => assert_eq!(a.width, 1280),
        SampleEntry::Mp4a(_) => panic!("not an audio entry"),
    }
}
