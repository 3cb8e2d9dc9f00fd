//! Media header box (`mdhd`, version 1): times, timescale and duration of a track's media.

use crate::buf::{bytes_mut_extend, bytes_mut_view};
use crate::endian::{be_u16, be_u32, be_u64, push_slice, push_u16, push_u32, push_u64, push_zeros};
use crate::mp4::encode::{fourcc, spec_fourcc};
use crate::mp4::{FullBoxHeader, Mp4Box, Mp4BoxError, spec_header_fits};
use bytes::BytesMut;
use vstd::prelude::*;

verus! {

pub struct MediaHeaderBox {
    pub creation_time: u64,
    pub modification_time: u64,
    pub timescale: u32,
    pub duration: u64,
}

/// The contents of a media header (version 1, ISO/IEC 14496-12) hold, in
/// order: the creation time and the modification time in eight bytes each,
/// the timescale in four bytes at offset 16, the duration in eight bytes at
/// offset 20, and four zero bytes (language and pre_defined); 32 bytes in
/// all, most significant byte first.
pub proof fn lemma_mdhd_layout(b: MediaHeaderBox)
    ensures
        b.spec_contents().len() == 32,
        b.spec_contents().subrange(0, 8) == be_u64(b.creation_time),
        b.spec_contents().subrange(8, 16) == be_u64(b.modification_time),
        b.spec_contents().subrange(16, 20) == be_u32(b.timescale),
        b.spec_contents().subrange(20, 28) == be_u64(b.duration),
        b.spec_contents().subrange(28, 32) == seq![0u8, 0u8, 0u8, 0u8],
        b.spec_contents()[16] == (b.timescale >> 24u32) as u8,
        b.spec_contents()[19] == b.timescale as u8,
        b.spec_full_header() == Some(FullBoxHeader::spec_new(1, 0)),
{
    let c = b.spec_contents();
    assert(c.subrange(0, 8) =~= be_u64(b.creation_time));
    assert(c.subrange(8, 16) =~= be_u64(b.modification_time));
    assert(c.subrange(16, 20) =~= be_u32(b.timescale));
    assert(c.subrange(20, 28) =~= be_u64(b.duration));
    assert((0u16 >> 8u16) as u8 == 0u8 && 0u16 as u8 == 0u8) by (bit_vector);
    assert(c.subrange(28, 32) =~= seq![0u8, 0u8, 0u8, 0u8]);
}

impl Mp4Box for MediaHeaderBox {
    open spec fn spec_name() -> Seq<u8> {
        spec_fourcc(0x6d, 0x64, 0x68, 0x64) // "mdhd"
    }

    open spec fn spec_full_header(&self) -> Option<FullBoxHeader> {
        Some(FullBoxHeader::spec_new(1, 0))
    }

    open spec fn spec_contents(&self) -> Seq<u8> {
        be_u64(self.creation_time) + be_u64(self.modification_time) + be_u32(self.timescale)
            + be_u64(self.duration) + be_u16(0) + be_u16(0)
    }

    open spec fn spec_content_size(&self) -> nat {
        self.spec_contents().len()
    }

    open spec fn spec_well_formed(&self) -> bool {
        true
    }

    open spec fn spec_sizes_agree(&self) -> bool {
        true
    }

    proof fn lemma_sizes_agree(&self) {
    }

    proof fn lemma_name_len() {
    }

    proof fn lemma_contents_len_bound(&self) {
    }

    fn name() -> (r: [u8; 4]) {
        fourcc(0x6d, 0x64, 0x68, 0x64)
    }

    fn get_full_box_header(&self) -> (r: Option<FullBoxHeader>) {
        Some(FullBoxHeader::new(1, 0))
    }

    fn content_size(&self) -> (r: u64) {
        8 + 8 + 4 + 8 + 2 + 2
    }

    fn write_box_contents(&self, writer: &mut BytesMut) -> (r: Result<(), Mp4BoxError>) {
        let mut v: Vec<u8> = Vec::new();
        push_u64(&mut v, self.creation_time);
        push_u64(&mut v, self.modification_time);
        push_u32(&mut v, self.timescale);
        push_u64(&mut v, self.duration);
        push_u16(&mut v, 0); // language
        push_u16(&mut v, 0); // pre_defined
        assert(v@ =~= self.spec_contents());
        bytes_mut_extend(writer, v.as_slice());
        Ok(())
    }
}

} // verus!
