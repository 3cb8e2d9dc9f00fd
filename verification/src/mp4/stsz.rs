//! Sample size box (`stsz`): the size of each sample of a track.

use crate::buf::{bytes_mut_extend, bytes_mut_view};
use crate::endian::{be_u16, be_u32, be_u64, push_slice, push_u16, push_u32, push_u64, push_zeros};
use crate::mp4::encode::{fourcc, spec_fourcc, concat_bytes, lemma_concat_bytes_len_uniform, lemma_concat_bytes_push};
use crate::mp4::{FullBoxHeader, Mp4Box, Mp4BoxError, spec_header_fits};
use bytes::BytesMut;
use vstd::prelude::*;

verus! {

pub struct SampleSizeBox {
    pub sample_sizes: Vec<u32>,
}

/// A sample size box (version 0, ISO/IEC 14496-12) holds a default sample
/// size of zero, the sample count, then each sample's size, four bytes
/// each, most significant first.
pub proof fn lemma_stsz_layout(b: SampleSizeBox, i: int)
    requires
        0 <= i < b.sample_sizes@.len(),
    ensures
        b.spec_contents().len() == 8 + 4 * b.sample_sizes@.len(),
        b.spec_contents().subrange(0, 4) == be_u32(0),
        b.spec_contents().subrange(4, 8) == be_u32(b.sample_sizes@.len() as u32),
        b.spec_contents().subrange(8 + 4 * i, 12 + 4 * i) == be_u32(b.sample_sizes@[i]),
        b.spec_full_header() == Some(FullBoxHeader::spec_new(0, 0)),
{
    let c = b.spec_contents();
    let f = |x: u32| be_u32(x);
    crate::mp4::encode::lemma_concat_bytes_uniform_at(b.sample_sizes@, f, 4, i);
    assert(c.subrange(0, 4) =~= be_u32(0));
    assert(c.subrange(4, 8) =~= be_u32(b.sample_sizes@.len() as u32));
    assert(c.subrange(8 + 4 * i, 12 + 4 * i) =~= be_u32(b.sample_sizes@[i]));
}

impl Mp4Box for SampleSizeBox {
    open spec fn spec_name() -> Seq<u8> {
        spec_fourcc(0x73, 0x74, 0x73, 0x7a) // "stsz"
    }

    open spec fn spec_full_header(&self) -> Option<FullBoxHeader> {
        Some(FullBoxHeader::spec_new(0, 0))
    }

    open spec fn spec_contents(&self) -> Seq<u8> {
        be_u32(0) + be_u32(self.sample_sizes@.len() as u32) + concat_bytes(
            self.sample_sizes@,
            |x: u32| be_u32(x),
        )
    }

    open spec fn spec_content_size(&self) -> nat {
        self.spec_contents().len()
    }

    open spec fn spec_well_formed(&self) -> bool {
        true
    }

    open spec fn spec_sizes_agree(&self) -> bool {
        true
    }

    proof fn lemma_sizes_agree(&self) {
    }

    proof fn lemma_name_len() {
    }

    proof fn lemma_contents_len_bound(&self) {
    }

    fn name() -> (r: [u8; 4]) {
        fourcc(0x73, 0x74, 0x73, 0x7a)
    }

    fn get_full_box_header(&self) -> (r: Option<FullBoxHeader>) {
        Some(FullBoxHeader::new(0, 0))
    }

    fn content_size(&self) -> (r: u64) {
        proof {
            lemma_concat_bytes_len_uniform(self.sample_sizes@, |x: u32| be_u32(x), 4);
        }
        4 + 4 + 4 * self.sample_sizes.len() as u64
    }

    fn write_box_contents(&self, writer: &mut BytesMut) -> (r: Result<(), Mp4BoxError>) {
        let mut v: Vec<u8> = Vec::new();
        push_u32(&mut v, 0);
        push_u32(&mut v, self.sample_sizes.len() as u32);
        let ghost head = v@;
        let mut i: usize = 0;
        while i < self.sample_sizes.len()
            invariant
                i <= self.sample_sizes@.len(),
                v@ == head + concat_bytes(self.sample_sizes@.take(i as int), |x: u32| be_u32(x)),
            decreases self.sample_sizes@.len() - i,
        {
            proof {
                lemma_concat_bytes_push(self.sample_sizes@, i as int, |x: u32| be_u32(x));
            }
            push_u32(&mut v, self.sample_sizes[i]);
            i = i + 1;
        }
        assert(self.sample_sizes@.take(i as int) =~= self.sample_sizes@);
        bytes_mut_extend(writer, v.as_slice());
        Ok(())
    }
}

} // verus!
