//! Track header box (`tkhd`, version 1): identity, times and presentation matrix of a track.

use crate::buf::{bytes_mut_extend, bytes_mut_view};
use crate::endian::{be_u16, be_u32, be_u64, push_slice, push_u16, push_u32, push_u64, push_zeros};
use crate::mp4::encode::{fourcc, spec_fourcc};
use crate::mp4::{FullBoxHeader, Mp4Box, Mp4BoxError, spec_header_fits};
use bytes::BytesMut;
use vstd::prelude::*;

verus! {

/// Flag bits of the track header.
pub const TRACK_ENABLED: u32 = 0x000001;
pub const TRACK_IN_MOVIE: u32 = 0x000002;
pub const TRACK_IN_PREVIEW: u32 = 0x000004;
pub const TRACK_SIZE_IS_ASPECT_RATIO: u32 = 0x000008;

pub struct TrackHeaderBox {
    pub creation_time: u64,
    pub modification_time: u64,
    pub track_id: u32,
    pub duration: u64,
}

/// The fixed tail of the track header after the duration: reserved words,
/// layer, alternate group, volume, the unity matrix and a 1920x1080 size,
/// all big-endian.
pub open spec fn spec_tkhd_tail() -> Seq<u8> {
    Seq::new(8, |i: int| 0u8) + Seq::new(8, |i: int| 0u8)
        + be_u32(0x0001_0000) + Seq::new(12, |i: int| 0u8)
        + be_u32(0x0001_0000) + Seq::new(12, |i: int| 0u8)
        + be_u32(0x4000_0000) + be_u32(1920u32 << 16u32) + be_u32(1080u32 << 16u32)
}

/// The contents of a track header (version 1, flags enabled and in movie,
/// ISO/IEC 14496-12) hold the creation and modification times in eight
/// bytes each, the track ID in four bytes at offset 16, four reserved zero
/// bytes, the duration in eight bytes at offset 24, and at the end of the
/// 92 bytes the width 1920 and the height 1080 as 16.16 fixed point; most
/// significant byte first.
pub proof fn lemma_tkhd_layout(b: TrackHeaderBox)
    ensures
        b.spec_contents().len() == 92,
        b.spec_contents().subrange(0, 8) == be_u64(b.creation_time),
        b.spec_contents().subrange(8, 16) == be_u64(b.modification_time),
        b.spec_contents().subrange(16, 20) == be_u32(b.track_id),
        b.spec_contents().subrange(20, 24) == seq![0u8, 0u8, 0u8, 0u8],
        b.spec_contents().subrange(24, 32) == be_u64(b.duration),
        b.spec_contents().subrange(84, 88) == seq![0x07u8, 0x80u8, 0u8, 0u8],
        b.spec_contents().subrange(88, 92) == seq![0x04u8, 0x38u8, 0u8, 0u8],
        b.spec_full_header() == Some(FullBoxHeader::spec_new(1, 3)),
{
    let c = b.spec_contents();
    assert(c.subrange(0, 8) =~= be_u64(b.creation_time));
    assert(c.subrange(8, 16) =~= be_u64(b.modification_time));
    assert(c.subrange(16, 20) =~= be_u32(b.track_id));
    assert(be_u32(0) == seq![0u8, 0u8, 0u8, 0u8]) by {
        assert((0u32 >> 24u32) as u8 == 0u8 && (0u32 >> 16u32) as u8 == 0u8 && (0u32 >> 8u32) as u8
            == 0u8 && 0u32 as u8 == 0u8) by (bit_vector);
        assert(be_u32(0) =~= seq![0u8, 0u8, 0u8, 0u8]);
    }
    assert(c.subrange(20, 24) =~= be_u32(0));
    assert(c.subrange(24, 32) =~= be_u64(b.duration));
    let w: u32 = 1920u32 << 16u32;
    let h: u32 = 1080u32 << 16u32;
    assert((w >> 24u32) as u8 == 0x07u8 && (w >> 16u32) as u8 == 0x80u8 && (w >> 8u32) as u8 == 0u8
        && w as u8 == 0u8) by (bit_vector)
        requires
            w == 1920u32 << 16u32,
    ;
    assert((h >> 24u32) as u8 == 0x04u8 && (h >> 16u32) as u8 == 0x38u8 && (h >> 8u32) as u8 == 0u8
        && h as u8 == 0u8) by (bit_vector)
        requires
            h == 1080u32 << 16u32,
    ;
    assert(c.subrange(84, 88) =~= be_u32(w));
    assert(c.subrange(88, 92) =~= be_u32(h));
    assert(c.subrange(84, 88) =~= seq![0x07u8, 0x80u8, 0u8, 0u8]);
    assert(c.subrange(88, 92) =~= seq![0x04u8, 0x38u8, 0u8, 0u8]);
}

impl Mp4Box for TrackHeaderBox {
    open spec fn spec_name() -> Seq<u8> {
        spec_fourcc(0x74, 0x6b, 0x68, 0x64) // "tkhd"
    }

    open spec fn spec_full_header(&self) -> Option<FullBoxHeader> {
        Some(FullBoxHeader::spec_new(1, 3))
    }

    open spec fn spec_contents(&self) -> Seq<u8> {
        be_u64(self.creation_time) + be_u64(self.modification_time) + be_u32(self.track_id)
            + be_u32(0) + be_u64(self.duration) + spec_tkhd_tail()
    }

    open spec fn spec_content_size(&self) -> nat {
        self.spec_contents().len()
    }

    open spec fn spec_well_formed(&self) -> bool {
        true
    }

    open spec fn spec_sizes_agree(&self) -> bool {
        true
    }

    proof fn lemma_sizes_agree(&self) {
    }

    proof fn lemma_name_len() {
    }

    proof fn lemma_contents_len_bound(&self) {
    }

    fn name() -> (r: [u8; 4]) {
        fourcc(0x74, 0x6b, 0x68, 0x64)
    }

    fn get_full_box_header(&self) -> (r: Option<FullBoxHeader>) {
        Some(FullBoxHeader::new(1, 3))
    }

    fn content_size(&self) -> (r: u64) {
        8 + 8 + 4 + 4 + 8 + 4 * 2 + 2 + 2 + 2 + 2 + 4 * 9 + 4 + 4
    }

    fn write_box_contents(&self, writer: &mut BytesMut) -> (r: Result<(), Mp4BoxError>) {
        let mut v: Vec<u8> = Vec::new();
        push_u64(&mut v, self.creation_time);
        push_u64(&mut v, self.modification_time);
        push_u32(&mut v, self.track_id);
        push_u32(&mut v, 0);
        push_u64(&mut v, self.duration);
        let ghost head = v@;
        push_zeros(&mut v, 8); // reserved
        push_zeros(&mut v, 8); // layer, alternate group, volume, reserved
        push_u32(&mut v, 0x0001_0000); // matrix
        push_zeros(&mut v, 12);
        push_u32(&mut v, 0x0001_0000);
        push_zeros(&mut v, 12);
        push_u32(&mut v, 0x4000_0000);
        push_u32(&mut v, 1920u32 << 16u32); // width
        push_u32(&mut v, 1080u32 << 16u32); // height
        assert(v@ =~= head + spec_tkhd_tail());
        bytes_mut_extend(writer, v.as_slice());
        Ok(())
    }
}

} // verus!
