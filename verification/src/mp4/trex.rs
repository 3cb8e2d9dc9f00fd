//! Track extends box (`trex`): the sample defaults of a track's fragments.

use crate::buf::{bytes_mut_extend, bytes_mut_view};
use crate::endian::{be_u16, be_u32, be_u64, push_slice, push_u16, push_u32, push_u64, push_zeros};
use crate::mp4::encode::{fourcc, spec_fourcc};
use crate::mp4::{FullBoxHeader, Mp4Box, Mp4BoxError, spec_header_fits};
use bytes::BytesMut;
use vstd::prelude::*;

verus! {

pub struct TrackExtendsBox {
    pub track_id: u32,
    pub default_sample_description_index: u32,
    pub default_sample_duration: u32,
    pub default_sample_size: u32,
    pub default_sample_flags: u32,
}

/// The contents of a track extends box (ISO/IEC 14496-12) are five
/// four-byte fields in this order: the track ID, the default sample
/// description index, the default sample duration, size and flags; most
/// significant byte first.
pub proof fn lemma_trex_layout(b: TrackExtendsBox)
    ensures
        b.spec_contents().len() == 20,
        b.spec_contents().subrange(0, 4) == be_u32(b.track_id),
        b.spec_contents().subrange(4, 8) == be_u32(b.default_sample_description_index),
        b.spec_contents().subrange(8, 12) == be_u32(b.default_sample_duration),
        b.spec_contents().subrange(12, 16) == be_u32(b.default_sample_size),
        b.spec_contents().subrange(16, 20) == be_u32(b.default_sample_flags),
        b.spec_full_header() == Some(FullBoxHeader::spec_new(0, 0)),
{
    let c = b.spec_contents();
    assert(c.subrange(0, 4) =~= be_u32(b.track_id));
    assert(c.subrange(4, 8) =~= be_u32(b.default_sample_description_index));
    assert(c.subrange(8, 12) =~= be_u32(b.default_sample_duration));
    assert(c.subrange(12, 16) =~= be_u32(b.default_sample_size));
    assert(c.subrange(16, 20) =~= be_u32(b.default_sample_flags));
}

impl Mp4Box for TrackExtendsBox {
    open spec fn spec_name() -> Seq<u8> {
        spec_fourcc(0x74, 0x72, 0x65, 0x78) // "trex"
    }

    open spec fn spec_full_header(&self) -> Option<FullBoxHeader> {
        Some(FullBoxHeader::spec_new(0, 0))
    }

    open spec fn spec_contents(&self) -> Seq<u8> {
        be_u32(self.track_id) + be_u32(self.default_sample_description_index) + be_u32(
            self.default_sample_duration,
        ) + be_u32(self.default_sample_size) + be_u32(self.default_sample_flags)
    }

    open spec fn spec_content_size(&self) -> nat {
        self.spec_contents().len()
    }

    open spec fn spec_well_formed(&self) -> bool {
        true
    }

    open spec fn spec_sizes_agree(&self) -> bool {
        true
    }

    proof fn lemma_sizes_agree(&self) {
    }

    proof fn lemma_name_len() {
    }

    proof fn lemma_contents_len_bound(&self) {
    }

    fn name() -> (r: [u8; 4]) {
        fourcc(0x74, 0x72, 0x65, 0x78)
    }

    fn get_full_box_header(&self) -> (r: Option<FullBoxHeader>) {
        Some(FullBoxHeader::new(0, 0))
    }

    fn content_size(&self) -> (r: u64) {
        4 + 4 + 4 + 4 + 4
    }

    fn write_box_contents(&self, writer: &mut BytesMut) -> (r: Result<(), Mp4BoxError>) {
        let mut v: Vec<u8> = Vec::new();
        push_u32(&mut v, self.track_id);
        push_u32(&mut v, self.default_sample_description_index);
        push_u32(&mut v, self.default_sample_duration);
        push_u32(&mut v, self.default_sample_size);
        push_u32(&mut v, self.default_sample_flags);
        assert(v@ =~= self.spec_contents());
        bytes_mut_extend(writer, v.as_slice());
        Ok(())
    }
}

} // verus!
