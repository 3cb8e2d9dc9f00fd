//! Movie extends header box (`mehd`, version 1): the duration of a fragmented movie.

use crate::buf::{bytes_mut_extend, bytes_mut_view};
use crate::endian::{be_u16, be_u32, be_u64, push_slice, push_u16, push_u32, push_u64, push_zeros};
use crate::mp4::encode::{fourcc, spec_fourcc};
use crate::mp4::{FullBoxHeader, Mp4Box, Mp4BoxError, spec_header_fits};
use bytes::BytesMut;
use vstd::prelude::*;

verus! {

pub struct MovieExtendsHeaderBox {
    pub fragment_duration: u64,
}

/// A movie extends header (version 1, ISO/IEC 14496-12) holds the fragment
/// duration in eight bytes, most significant first.
pub proof fn lemma_mehd_layout(b: MovieExtendsHeaderBox)
    ensures
        b.spec_contents() == be_u64(b.fragment_duration),
        b.spec_contents().len() == 8,
        b.spec_full_header() == Some(FullBoxHeader::spec_new(1, 0)),
{
}

impl Mp4Box for MovieExtendsHeaderBox {
    open spec fn spec_name() -> Seq<u8> {
        spec_fourcc(0x6d, 0x65, 0x68, 0x64) // "mehd"
    }

    open spec fn spec_full_header(&self) -> Option<FullBoxHeader> {
        Some(FullBoxHeader::spec_new(1, 0))
    }

    open spec fn spec_contents(&self) -> Seq<u8> {
        be_u64(self.fragment_duration)
    }

    open spec fn spec_content_size(&self) -> nat {
        self.spec_contents().len()
    }

    open spec fn spec_well_formed(&self) -> bool {
        true
    }

    open spec fn spec_sizes_agree(&self) -> bool {
        true
    }

    proof fn lemma_sizes_agree(&self) {
    }

    proof fn lemma_name_len() {
    }

    proof fn lemma_contents_len_bound(&self) {
    }

    fn name() -> (r: [u8; 4]) {
        fourcc(0x6d, 0x65, 0x68, 0x64)
    }

    fn get_full_box_header(&self) -> (r: Option<FullBoxHeader>) {
        Some(FullBoxHeader::new(1, 0))
    }

    fn content_size(&self) -> (r: u64) {
        8
    }

    fn write_box_contents(&self, writer: &mut BytesMut) -> (r: Result<(), Mp4BoxError>) {
        let mut v: Vec<u8> = Vec::new();
        push_u64(&mut v, self.fragment_duration);
        bytes_mut_extend(writer, v.as_slice());
        Ok(())
    }
}

} // verus!
