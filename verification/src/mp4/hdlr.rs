//! Handler reference box (`hdlr`): the media type of a track and a readable name.

use crate::buf::{bytes_mut_extend, bytes_mut_view};
use crate::endian::{be_u16, be_u32, be_u64, push_slice, push_u16, push_u32, push_u64, push_zeros};
use crate::mp4::encode::{fourcc, spec_fourcc};
use crate::mp4::{FullBoxHeader, Mp4Box, Mp4BoxError, spec_header_fits};
use bytes::BytesMut;
use vstd::prelude::*;

verus! {

pub struct HandlerBox {
    pub handler_type: u32,
    pub name: String,
}

/// The contents of a handler box (ISO/IEC 14496-12): four zero bytes
/// (pre_defined), the handler type in four bytes at offset 4, twelve
/// reserved zero bytes, then the name in UTF-8 ended by a zero byte.
pub proof fn lemma_hdlr_layout(b: HandlerBox)
    ensures
        b.spec_contents().len() == 21 + vstd::utf8::encode_utf8(b.name@).len(),
        b.spec_contents().subrange(0, 4) == seq![0u8, 0u8, 0u8, 0u8],
        b.spec_contents().subrange(4, 8) == be_u32(b.handler_type),
        b.spec_contents().subrange(8, 20) == Seq::new(12, |i: int| 0u8),
        b.spec_contents().subrange(20, b.spec_contents().len() - 1) == vstd::utf8::encode_utf8(
            b.name@,
        ),
        b.spec_contents().last() == 0u8,
        b.spec_full_header() == Some(FullBoxHeader::spec_new(0, 0)),
{
    let c = b.spec_contents();
    assert((0u32 >> 24u32) as u8 == 0u8 && (0u32 >> 16u32) as u8 == 0u8 && (0u32 >> 8u32) as u8
        == 0u8 && 0u32 as u8 == 0u8) by (bit_vector);
    assert(be_u32(0) =~= seq![0u8, 0u8, 0u8, 0u8]);
    assert(c.subrange(0, 4) =~= seq![0u8, 0u8, 0u8, 0u8]);
    assert(c.subrange(4, 8) =~= be_u32(b.handler_type));
    assert(c.subrange(8, 20) =~= Seq::new(12, |i: int| 0u8));
    assert(c.subrange(20, c.len() - 1) =~= vstd::utf8::encode_utf8(b.name@));
}

impl Mp4Box for HandlerBox {
    open spec fn spec_name() -> Seq<u8> {
        spec_fourcc(0x68, 0x64, 0x6c, 0x72) // "hdlr"
    }

    open spec fn spec_full_header(&self) -> Option<FullBoxHeader> {
        Some(FullBoxHeader::spec_new(0, 0))
    }

    open spec fn spec_contents(&self) -> Seq<u8> {
        be_u32(0) + be_u32(self.handler_type) + be_u32(0) + be_u32(0) + be_u32(0)
            + vstd::utf8::encode_utf8(self.name@) + seq![0u8]
    }

    open spec fn spec_content_size(&self) -> nat {
        self.spec_contents().len()
    }

    open spec fn spec_well_formed(&self) -> bool {
        true
    }

    open spec fn spec_sizes_agree(&self) -> bool {
        true
    }

    proof fn lemma_sizes_agree(&self) {
    }

    proof fn lemma_name_len() {
    }

    proof fn lemma_contents_len_bound(&self) {
    }

    fn name() -> (r: [u8; 4]) {
        fourcc(0x68, 0x64, 0x6c, 0x72)
    }

    fn get_full_box_header(&self) -> (r: Option<FullBoxHeader>) {
        Some(FullBoxHeader::new(0, 0))
    }

    fn content_size(&self) -> (r: u64) {
        let n = self.name.as_str().as_bytes().len();
        4 + 4 + 4 * 3 + n as u64 + 1
    }

    fn write_box_contents(&self, writer: &mut BytesMut) -> (r: Result<(), Mp4BoxError>) {
        let mut v: Vec<u8> = Vec::new();
        push_u32(&mut v, 0);
        push_u32(&mut v, self.handler_type);
        push_u32(&mut v, 0);
        push_u32(&mut v, 0);
        push_u32(&mut v, 0);
        push_slice(&mut v, self.name.as_str().as_bytes());
        v.push(0u8);
        assert(v@ =~= self.spec_contents());
        bytes_mut_extend(writer, v.as_slice());
        Ok(())
    }
}

} // verus!
