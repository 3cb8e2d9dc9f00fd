//! Sample to chunk box (`stsc`): runs of chunks that share a sample count and description.

use crate::buf::{bytes_mut_extend, bytes_mut_view};
use crate::endian::{be_u16, be_u32, be_u64, push_slice, push_u16, push_u32, push_u64, push_zeros};
use crate::mp4::encode::{fourcc, spec_fourcc, concat_bytes, lemma_concat_bytes_len_uniform, lemma_concat_bytes_push};
use crate::mp4::{FullBoxHeader, Mp4Box, Mp4BoxError, spec_header_fits};
use bytes::BytesMut;
use vstd::prelude::*;

verus! {

pub struct SampleToChunkEntry {
    first_chunk: u32,
    samples_per_chunk: u32,
    sample_description_index: u32,
}

impl SampleToChunkEntry {
    /// The serialized entry: first chunk, samples per chunk, description index.
    pub closed spec fn spec_bytes(self) -> Seq<u8> {
        be_u32(self.first_chunk) + be_u32(self.samples_per_chunk) + be_u32(
            self.sample_description_index,
        )
    }

    proof fn lemma_bytes_len(self)
        ensures
            self.spec_bytes().len() == 12,
    {
    }

    fn write(&self, v: &mut Vec<u8>)
        ensures
            final(v)@ == old(v)@ + self.spec_bytes(),
    {
        push_u32(v, self.first_chunk);
        push_u32(v, self.samples_per_chunk);
        push_u32(v, self.sample_description_index);
        assert(v@ =~= old(v)@ + self.spec_bytes());
    }
}

pub struct SampleToChunkBox {
    pub entries: Vec<SampleToChunkEntry>,
}

impl Mp4Box for SampleToChunkBox {
    open spec fn spec_name() -> Seq<u8> {
        spec_fourcc(0x73, 0x74, 0x73, 0x63) // "stsc"
    }

    open spec fn spec_full_header(&self) -> Option<FullBoxHeader> {
        Some(FullBoxHeader::spec_new(0, 0))
    }

    open spec fn spec_contents(&self) -> Seq<u8> {
        be_u32(self.entries@.len() as u32) + concat_bytes(
            self.entries@,
            |e: SampleToChunkEntry| e.spec_bytes(),
        )
    }

    open spec fn spec_content_size(&self) -> nat {
        self.spec_contents().len()
    }

    open spec fn spec_well_formed(&self) -> bool {
        true
    }

    open spec fn spec_sizes_agree(&self) -> bool {
        true
    }

    proof fn lemma_sizes_agree(&self) {
    }

    proof fn lemma_name_len() {
    }

    proof fn lemma_contents_len_bound(&self) {
    }

    fn name() -> (r: [u8; 4]) {
        fourcc(0x73, 0x74, 0x73, 0x63)
    }

    fn get_full_box_header(&self) -> (r: Option<FullBoxHeader>) {
        Some(FullBoxHeader::new(0, 0))
    }

    fn content_size(&self) -> (r: u64) {
        proof {
            assert forall|e: SampleToChunkEntry| #[trigger] e.spec_bytes().len() == 12 by {
                e.lemma_bytes_len();
            }
            lemma_concat_bytes_len_uniform(self.entries@, |e: SampleToChunkEntry| e.spec_bytes(), 12);
        }
        4 + (4 * 3) * self.entries.len() as u64
    }

    fn write_box_contents(&self, writer: &mut BytesMut) -> (r: Result<(), Mp4BoxError>) {
        let mut v: Vec<u8> = Vec::new();
        push_u32(&mut v, self.entries.len() as u32);
        let ghost head = v@;
        let mut i: usize = 0;
        while i < self.entries.len()
            invariant
                i <= self.entries@.len(),
                v@ == head + concat_bytes(
                    self.entries@.take(i as int),
                    |e: SampleToChunkEntry| e.spec_bytes(),
                ),
            decreases self.entries@.len() - i,
        {
            proof {
                lemma_concat_bytes_push(
                    self.entries@,
                    i as int,
                    |e: SampleToChunkEntry| e.spec_bytes(),
                );
            }
            self.entries[i].write(&mut v);
            i = i + 1;
        }
        assert(self.entries@.take(i as int) =~= self.entries@);
        bytes_mut_extend(writer, v.as_slice());
        Ok(())
    }
}

} // verus!
