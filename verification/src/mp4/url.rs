//! Data entry URL box (`url `): a data reference; an empty location with flag 1 means "in this file".

use crate::buf::{bytes_mut_extend, bytes_mut_view};
use crate::endian::{be_u16, be_u32, be_u64, push_slice, push_u16, push_u32, push_u64, push_zeros};
use crate::mp4::encode::{fourcc, spec_fourcc};
use crate::mp4::{FullBoxHeader, Mp4Box, Mp4BoxError, spec_header_fits};
use bytes::BytesMut;
use vstd::prelude::*;

verus! {

pub struct DataEntryUrlBox {
    pub location: String,
}

/// A data entry URL box (ISO/IEC 14496-12) is version 0 with the flag 1
/// (the media is in the same file), and holds the location in UTF-8 ended
/// by a zero byte.
pub proof fn lemma_url_layout(b: DataEntryUrlBox)
    ensures
        b.spec_contents().len() == vstd::utf8::encode_utf8(b.location@).len() + 1,
        b.spec_contents().drop_last() == vstd::utf8::encode_utf8(b.location@),
        b.spec_contents().last() == 0u8,
        b.spec_full_header() == Some(FullBoxHeader::spec_new(0, 1)),
{
    assert(b.spec_contents().drop_last() =~= vstd::utf8::encode_utf8(b.location@));
}

impl Mp4Box for DataEntryUrlBox {
    open spec fn spec_name() -> Seq<u8> {
        spec_fourcc(0x75, 0x72, 0x6c, 0x20) // "url "
    }

    open spec fn spec_full_header(&self) -> Option<FullBoxHeader> {
        Some(FullBoxHeader::spec_new(0, 0x000001))
    }

    open spec fn spec_contents(&self) -> Seq<u8> {
        vstd::utf8::encode_utf8(self.location@) + seq![0u8]
    }

    open spec fn spec_content_size(&self) -> nat {
        self.spec_contents().len()
    }

    open spec fn spec_well_formed(&self) -> bool {
        true
    }

    open spec fn spec_sizes_agree(&self) -> bool {
        true
    }

    proof fn lemma_sizes_agree(&self) {
    }

    proof fn lemma_name_len() {
    }

    proof fn lemma_contents_len_bound(&self) {
    }

    fn name() -> (r: [u8; 4]) {
        fourcc(0x75, 0x72, 0x6c, 0x20)
    }

    fn get_full_box_header(&self) -> (r: Option<FullBoxHeader>) {
        Some(FullBoxHeader::new(0, 0x000001))
    }

    fn content_size(&self) -> (r: u64) {
        let n = self.location.as_str().as_bytes().len();
        n as u64 + 1
    }

    fn write_box_contents(&self, writer: &mut BytesMut) -> (r: Result<(), Mp4BoxError>) {
        let mut v: Vec<u8> = Vec::new();
        push_slice(&mut v, self.location.as_str().as_bytes());
        v.push(0u8);
        assert(v@ =~= self.spec_contents());
        bytes_mut_extend(writer, v.as_slice());
        Ok(())
    }
}

} // verus!
