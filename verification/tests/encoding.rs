use bytes::BytesMut;
use streamhead::endian::{push_slice, push_u16, push_u24, push_u32, push_u64, push_zeros};
use streamhead::mp4::encode::fourcc;
use streamhead::mp4::nested::{boxes_content_size, write_boxes};
use streamhead::mp4::{record_lacks_sets, Mp4Box, MovieFragmentHeaderBox};

#[test]
fn big_endian_pushes() {
    let mut v = vec![9];
    push_u16(&mut v, 0x0102);
    push_u24(&mut v, 0xaa030405);
    push_u32(&mut v, 0x06070809);
    push_u64(&mut v, 0x0a0b0c0d0e0f1011);
    push_zeros(&mut v, 2);
    push_slice(&mut v, &[7, 7]);
    assert_eq!(
        v,
        vec![9, 1, 2, 3, 4, 5, 6, 7, 8, 9, 0x0a, 0x0b, 0x0c, 0x0d, 0x0e, 0x0f, 0x10, 0x11, 0, 0, 7, 7]
    );
}

#[test]
fn four_character_codes() {
    assert_eq!(&fourcc(b'm', b'o', b'o', b'v'), b"moov");
}

#[test]
fn boxes_in_a_row() {
    let boxes = vec![MovieFragmentHeaderBox { sequence_number: 1 }, MovieFragmentHeaderBox { sequence_number: 2 }];
    assert_eq!(boxes_content_size(&boxes), 32);
    let mut w = BytesMut::new();
    write_boxes(&boxes, &mut w).unwrap();
    assert_eq!(w.len(), 32);
    assert_eq!(&w[4..8], b"mfhd");
    assert_eq!(&w[28..32], &[0, 0, 0, 2]);
    assert_eq!(boxes[0].size(), 16);
}

#[test]
fn records_without_parameter_sets() {
    assert!(record_lacks_sets(&[1, 100, 0, 31, 0xff, 0xe0, 1, 0, 2, 0x68, 0xee]));
    assert!(record_lacks_sets(&[1, 100, 0, 31, 0xff, 0xe1, 0, 1, 0x67, 0]));
    assert!(!record_lacks_sets(&[1, 100, 0, 31, 0xff, 0xe1, 0, 1, 0x67, 1, 0, 1, 0x68]));
    assert!(!record_lacks_sets(&[1, 100, 0]));
}
