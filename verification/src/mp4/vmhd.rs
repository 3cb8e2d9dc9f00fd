//! Video media header box (`vmhd`): graphics mode and colour, all zero.

use crate::buf::{bytes_mut_extend, bytes_mut_view};
use crate::endian::{be_u16, be_u32, be_u64, push_slice, push_u16, push_u32, push_u64, push_zeros};
use crate::mp4::encode::{fourcc, spec_fourcc};
use crate::mp4::{FullBoxHeader, Mp4Box, Mp4BoxError, spec_header_fits};
use bytes::BytesMut;
use vstd::prelude::*;

verus! {

pub struct VideoMediaHeaderBox {}

/// A video media header (ISO/IEC 14496-12) is version 0 with flags 1, and
/// holds a graphics mode and an opcolor of zero: eight zero bytes.
pub proof fn lemma_vmhd_layout(b: VideoMediaHeaderBox)
    ensures
        b.spec_contents().len() == 8,
        forall|i: int| 0 <= i < 8 ==> b.spec_contents()[i] == 0u8,
        b.spec_full_header() == Some(FullBoxHeader::spec_new(0, 1)),
{
}

impl Mp4Box for VideoMediaHeaderBox {
    open spec fn spec_name() -> Seq<u8> {
        spec_fourcc(0x76, 0x6d, 0x68, 0x64) // "vmhd"
    }

    open spec fn spec_full_header(&self) -> Option<FullBoxHeader> {
        Some(FullBoxHeader::spec_new(0, 1))
    }

    open spec fn spec_contents(&self) -> Seq<u8> {
        Seq::new(8, |i: int| 0u8)
    }

    open spec fn spec_content_size(&self) -> nat {
        self.spec_contents().len()
    }

    open spec fn spec_well_formed(&self) -> bool {
        true
    }

    open spec fn spec_sizes_agree(&self) -> bool {
        true
    }

    proof fn lemma_sizes_agree(&self) {
    }

    proof fn lemma_name_len() {
    }

    proof fn lemma_contents_len_bound(&self) {
    }

    fn name() -> (r: [u8; 4]) {
        fourcc(0x76, 0x6d, 0x68, 0x64)
    }

    fn get_full_box_header(&self) -> (r: Option<FullBoxHeader>) {
        Some(FullBoxHeader::new(0, 1))
    }

    fn content_size(&self) -> (r: u64) {
        2 + 2 * 3
    }

    fn write_box_contents(&self, writer: &mut BytesMut) -> (r: Result<(), Mp4BoxError>) {
        let mut v: Vec<u8> = Vec::new();
        push_zeros(&mut v, 8);
        bytes_mut_extend(writer, v.as_slice());
        Ok(())
    }
}

} // verus!
