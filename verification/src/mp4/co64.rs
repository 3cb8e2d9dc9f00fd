//! Chunk large offset box (`co64`): 64-bit file offsets of the chunks of a track.

use crate::buf::{bytes_mut_extend, bytes_mut_view};
use crate::endian::{be_u16, be_u32, be_u64, push_slice, push_u16, push_u32, push_u64, push_zeros};
use crate::mp4::encode::{fourcc, spec_fourcc, concat_bytes, lemma_concat_bytes_len_uniform, lemma_concat_bytes_push};
use crate::mp4::{FullBoxHeader, Mp4Box, Mp4BoxError, spec_header_fits};
use bytes::BytesMut;
use vstd::prelude::*;

verus! {

pub struct ChunkLargeOffsetBox {
    pub chunk_offsets: Vec<u64>,
}

/// A chunk large offset box (version 0, ISO/IEC 14496-12) holds the entry
/// count, then each chunk's offset in eight bytes, most significant first.
pub proof fn lemma_co64_layout(b: ChunkLargeOffsetBox, i: int)
    requires
        0 <= i < b.chunk_offsets@.len(),
    ensures
        b.spec_contents().len() == 4 + 8 * b.chunk_offsets@.len(),
        b.spec_contents().subrange(0, 4) == be_u32(b.chunk_offsets@.len() as u32),
        b.spec_contents().subrange(4 + 8 * i, 12 + 8 * i) == be_u64(b.chunk_offsets@[i]),
        b.spec_full_header() == Some(FullBoxHeader::spec_new(0, 0)),
{
    let c = b.spec_contents();
    let f = |x: u64| be_u64(x);
    crate::mp4::encode::lemma_concat_bytes_uniform_at(b.chunk_offsets@, f, 8, i);
    assert(c.subrange(0, 4) =~= be_u32(b.chunk_offsets@.len() as u32));
    assert(c.subrange(4 + 8 * i, 12 + 8 * i) =~= be_u64(b.chunk_offsets@[i]));
}

impl Mp4Box for ChunkLargeOffsetBox {
    open spec fn spec_name() -> Seq<u8> {
        spec_fourcc(0x63, 0x6f, 0x36, 0x34) // "co64"
    }

    open spec fn spec_full_header(&self) -> Option<FullBoxHeader> {
        Some(FullBoxHeader::spec_new(0, 0))
    }

    open spec fn spec_contents(&self) -> Seq<u8> {
        be_u32(self.chunk_offsets@.len() as u32) + concat_bytes(
            self.chunk_offsets@,
            |x: u64| be_u64(x),
        )
    }

    open spec fn spec_content_size(&self) -> nat {
        self.spec_contents().len()
    }

    open spec fn spec_well_formed(&self) -> bool {
        true
    }

    open spec fn spec_sizes_agree(&self) -> bool {
        true
    }

    proof fn lemma_sizes_agree(&self) {
    }

    proof fn lemma_name_len() {
    }

    proof fn lemma_contents_len_bound(&self) {
    }

    fn name() -> (r: [u8; 4]) {
        fourcc(0x63, 0x6f, 0x36, 0x34)
    }

    fn get_full_box_header(&self) -> (r: Option<FullBoxHeader>) {
        Some(FullBoxHeader::new(0, 0))
    }

    fn content_size(&self) -> (r: u64) {
        proof {
            lemma_concat_bytes_len_uniform(self.chunk_offsets@, |x: u64| be_u64(x), 8);
        }
        4 + 8 * self.chunk_offsets.len() as u64
    }

    fn write_box_contents(&self, writer: &mut BytesMut) -> (r: Result<(), Mp4BoxError>) {
        let mut v: Vec<u8> = Vec::new();
        push_u32(&mut v, self.chunk_offsets.len() as u32);
        let ghost head = v@;
        let mut i: usize = 0;
        while i < self.chunk_offsets.len()
            invariant
                i <= self.chunk_offsets@.len(),
                v@ == head + concat_bytes(self.chunk_offsets@.take(i as int), |x: u64| be_u64(x)),
            decreases self.chunk_offsets@.len() - i,
        {
            proof {
                lemma_concat_bytes_push(self.chunk_offsets@, i as int, |x: u64| be_u64(x));
            }
            push_u64(&mut v, self.chunk_offsets[i]);
            i = i + 1;
        }
        assert(self.chunk_offsets@.take(i as int) =~= self.chunk_offsets@);
        bytes_mut_extend(writer, v.as_slice());
        Ok(())
    }
}

} // verus!
