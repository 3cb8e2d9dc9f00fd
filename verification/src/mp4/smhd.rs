//! Sound media header box (`smhd`): stereo balance of an audio track, zero.
//!
//! The layout is that of ISO/IEC 14496-12: a full box (version 0, flags 0)
//! holding a 16-bit balance and 16 reserved bits.

use crate::buf::{bytes_mut_extend, bytes_mut_view};
use crate::endian::push_zeros;
use crate::mp4::encode::{fourcc, spec_fourcc};
use crate::mp4::{FullBoxHeader, Mp4Box, Mp4BoxError};
use bytes::BytesMut;
use vstd::prelude::*;

verus! {

pub struct SoundMediaHeaderBox {}

/// A sound media header (version 0, ISO/IEC 14496-12) holds a balance of
/// zero and two reserved bytes: four zero bytes.
pub proof fn lemma_smhd_layout(b: SoundMediaHeaderBox)
    ensures
        b.spec_contents().len() == 4,
        forall|i: int| 0 <= i < 4 ==> b.spec_contents()[i] == 0u8,
        b.spec_full_header() == Some(FullBoxHeader::spec_new(0, 0)),
{
}

impl Mp4Box for SoundMediaHeaderBox {
    open spec fn spec_name() -> Seq<u8> {
        spec_fourcc(0x73, 0x6d, 0x68, 0x64) // "smhd"
    }

    open spec fn spec_full_header(&self) -> Option<FullBoxHeader> {
        Some(FullBoxHeader::spec_new(0, 0))
    }

    open spec fn spec_contents(&self) -> Seq<u8> {
        Seq::new(4, |i: int| 0u8)
    }

    open spec fn spec_content_size(&self) -> nat {
        self.spec_contents().len()
    }

    open spec fn spec_well_formed(&self) -> bool {
        true
    }

    open spec fn spec_sizes_agree(&self) -> bool {
        true
    }

    proof fn lemma_sizes_agree(&self) {
    }

    proof fn lemma_name_len() {
    }

    proof fn lemma_contents_len_bound(&self) {
    }

    fn name() -> (r: [u8; 4]) {
        fourcc(0x73, 0x6d, 0x68, 0x64)
    }

    fn get_full_box_header(&self) -> (r: Option<FullBoxHeader>) {
        Some(FullBoxHeader::new(0, 0))
    }

    fn content_size(&self) -> (r: u64) {
        2 + 2 // balance, reserved
    }

    fn write_box_contents(&self, writer: &mut BytesMut) -> (r: Result<(), Mp4BoxError>) {
        let mut v: Vec<u8> = Vec::new();
        push_zeros(&mut v, 4);
        bytes_mut_extend(writer, v.as_slice());
        Ok(())
    }
}

} // verus!
