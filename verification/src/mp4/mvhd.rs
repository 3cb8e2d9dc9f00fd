//! Movie header box (`mvhd`, version 1): times, timescale and duration of a
//! movie, and the next free track ID.
//!
//! The layout is that of ISO/IEC 14496-12: after the duration come a rate of
//! 1.0, a volume of 1.0, reserved bytes, the unity matrix and six pre-defined
//! zero words.

use crate::buf::{bytes_mut_extend, bytes_mut_view};
use crate::endian::{be_u16, be_u32, be_u64, push_u16, push_u32, push_u64, push_zeros};
use crate::mp4::encode::{fourcc, spec_fourcc};
use crate::mp4::{FullBoxHeader, Mp4Box, Mp4BoxError};
use bytes::BytesMut;
use vstd::prelude::*;

verus! {

pub struct MovieHeaderBox {
    pub creation_time: u64,
    pub modification_time: u64,
    pub timescale: u32,
    pub duration: u64,
    pub next_track_id: u32,
}

/// The fixed fields between the duration and the next track ID.
pub open spec fn spec_mvhd_fixed() -> Seq<u8> {
    be_u32(0x0001_0000) + be_u16(0x0100) + Seq::new(10, |i: int| 0u8) + be_u32(0x0001_0000)
        + Seq::new(12, |i: int| 0u8) + be_u32(0x0001_0000) + Seq::new(12, |i: int| 0u8) + be_u32(
        0x4000_0000,
    ) + Seq::new(24, |i: int| 0u8)
}

/// The contents of a movie header (version 1, ISO/IEC 14496-12) hold the
/// creation and modification times in eight bytes each, the timescale in
/// four bytes at offset 16, the duration in eight bytes at offset 20, a
/// rate of 1.0 at offset 28 and a volume of 1.0 at offset 32, and the next
/// track ID in the last four of 108 bytes, most significant byte first.
pub proof fn lemma_mvhd_layout(b: MovieHeaderBox)
    ensures
        b.spec_contents().len() == 108,
        b.spec_contents().subrange(0, 8) == be_u64(b.creation_time),
        b.spec_contents().subrange(8, 16) == be_u64(b.modification_time),
        b.spec_contents().subrange(16, 20) == be_u32(b.timescale),
        b.spec_contents().subrange(20, 28) == be_u64(b.duration),
        b.spec_contents().subrange(28, 32) == be_u32(0x0001_0000),
        b.spec_contents().subrange(32, 34) == be_u16(0x0100),
        b.spec_contents().subrange(104, 108) == be_u32(b.next_track_id),
        b.spec_full_header() == Some(FullBoxHeader::spec_new(1, 0)),
{
    let c = b.spec_contents();
    assert(c.subrange(0, 8) =~= be_u64(b.creation_time));
    assert(c.subrange(8, 16) =~= be_u64(b.modification_time));
    assert(c.subrange(16, 20) =~= be_u32(b.timescale));
    assert(c.subrange(20, 28) =~= be_u64(b.duration));
    assert(c.subrange(28, 32) =~= be_u32(0x0001_0000));
    assert(c.subrange(32, 34) =~= be_u16(0x0100));
    assert(c.subrange(104, 108) =~= be_u32(b.next_track_id));
}

impl Mp4Box for MovieHeaderBox {
    open spec fn spec_name() -> Seq<u8> {
        spec_fourcc(0x6d, 0x76, 0x68, 0x64) // "mvhd"
    }

    open spec fn spec_full_header(&self) -> Option<FullBoxHeader> {
        Some(FullBoxHeader::spec_new(1, 0))
    }

    open spec fn spec_contents(&self) -> Seq<u8> {
        be_u64(self.creation_time) + be_u64(self.modification_time) + be_u32(self.timescale)
            + be_u64(self.duration) + spec_mvhd_fixed() + be_u32(self.next_track_id)
    }

    open spec fn spec_content_size(&self) -> nat {
        self.spec_contents().len()
    }

    open spec fn spec_well_formed(&self) -> bool {
        true
    }

    open spec fn spec_sizes_agree(&self) -> bool {
        true
    }

    proof fn lemma_sizes_agree(&self) {
    }

    proof fn lemma_name_len() {
    }

    proof fn lemma_contents_len_bound(&self) {
    }

    fn name() -> (r: [u8; 4]) {
        fourcc(0x6d, 0x76, 0x68, 0x64)
    }

    fn get_full_box_header(&self) -> (r: Option<FullBoxHeader>) {
        Some(FullBoxHeader::new(1, 0))
    }

    fn content_size(&self) -> (r: u64) {
        8 + 8 + 4 + 8 + 4 + 2 + 2 + 4 * 2 + 4 * 9 + 4 * 6 + 4
    }

    fn write_box_contents(&self, writer: &mut BytesMut) -> (r: Result<(), Mp4BoxError>) {
        let mut v: Vec<u8> = Vec::new();
        push_u64(&mut v, self.creation_time);
        push_u64(&mut v, self.modification_time);
        push_u32(&mut v, self.timescale);
        push_u64(&mut v, self.duration);
        let ghost head = v@;
        push_u32(&mut v, 0x0001_0000); // rate
        push_u16(&mut v, 0x0100); // volume
        push_zeros(&mut v, 10); // reserved
        push_u32(&mut v, 0x0001_0000); // matrix
        push_zeros(&mut v, 12);
        push_u32(&mut v, 0x0001_0000);
        push_zeros(&mut v, 12);
        push_u32(&mut v, 0x4000_0000);
        push_zeros(&mut v, 24); // pre_defined
        assert(v@ =~= head + spec_mvhd_fixed());
        push_u32(&mut v, self.next_track_id);
        assert(v@ =~= self.spec_contents());
        bytes_mut_extend(writer, v.as_slice());
        Ok(())
    }
}

} // verus!
