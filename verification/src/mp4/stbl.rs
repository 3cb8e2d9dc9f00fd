//! Sample table box (`stbl`): descriptions, timing, chunking, sizes and offsets of a track's samples.

use crate::buf::bytes_mut_view;
use crate::mp4::encode::{fourcc, spec_fourcc};
use crate::mp4::{
    box_fits, box_size_agrees, lemma_box_bytes_len, spec_box_bytes, spec_box_size, FullBoxHeader,
    Mp4Box, Mp4BoxError,
};
use bytes::BytesMut;
use crate::mp4::lemma_box_bytes_bound;
use vstd::prelude::*;

use crate::mp4::{
    ChunkLargeOffsetBox, SampleDescriptionBox, SampleSizeBox, SampleToChunkBox, TimeToSampleBox,
};

verus! {

pub struct SampleTableBox {
    pub stsd: SampleDescriptionBox,
    pub stts: TimeToSampleBox,
    pub stsc: SampleToChunkBox,
    pub stsz: SampleSizeBox,
    pub co64: ChunkLargeOffsetBox,
}

impl SampleTableBox {
    /// What the box's contents, reported size and conditions are made of.
    pub proof fn lemma_unfold(&self)
        ensures
            self.spec_contents() == spec_box_bytes(&self.stsd) + spec_box_bytes(&self.stts) + spec_box_bytes(&self.stsc) + spec_box_bytes(&self.stsz) + spec_box_bytes(&self.co64),
            self.spec_content_size() == spec_box_size(&self.stsd) + spec_box_size(&self.stts) + spec_box_size(&self.stsc) + spec_box_size(&self.stsz) + spec_box_size(&self.co64),
            self.spec_well_formed() == (box_fits(&self.stsd) && box_fits(&self.stts) && box_fits(&self.stsc) && box_fits(&self.stsz) && box_fits(&self.co64)),
            self.spec_sizes_agree() == (box_size_agrees(&self.stsd) && box_size_agrees(&self.stts) && box_size_agrees(&self.stsc) && box_size_agrees(&self.stsz) && box_size_agrees(&self.co64)),
    {
    }
}

impl Mp4Box for SampleTableBox {
    open spec fn spec_name() -> Seq<u8> {
        spec_fourcc(0x73, 0x74, 0x62, 0x6c) // "stbl"
    }

    open spec fn spec_full_header(&self) -> Option<FullBoxHeader> {
        None
    }

    closed spec fn spec_contents(&self) -> Seq<u8> {
        spec_box_bytes(&self.stsd) + spec_box_bytes(&self.stts) + spec_box_bytes(&self.stsc) + spec_box_bytes(&self.stsz) + spec_box_bytes(&self.co64)
    }

    closed spec fn spec_content_size(&self) -> nat {
        spec_box_size(&self.stsd) + spec_box_size(&self.stts) + spec_box_size(&self.stsc) + spec_box_size(&self.stsz) + spec_box_size(&self.co64)
    }

    closed spec fn spec_well_formed(&self) -> bool {
        &&& box_fits(&self.stsd)
        &&& box_fits(&self.stts)
        &&& box_fits(&self.stsc)
        &&& box_fits(&self.stsz)
        &&& box_fits(&self.co64)
    }

    closed spec fn spec_sizes_agree(&self) -> bool {
        &&& box_size_agrees(&self.stsd)
        &&& box_size_agrees(&self.stts)
        &&& box_size_agrees(&self.stsc)
        &&& box_size_agrees(&self.stsz)
        &&& box_size_agrees(&self.co64)
    }

    proof fn lemma_sizes_agree(&self) {
        lemma_box_bytes_len(&self.stsd);
        lemma_box_bytes_len(&self.stts);
        lemma_box_bytes_len(&self.stsc);
        lemma_box_bytes_len(&self.stsz);
        lemma_box_bytes_len(&self.co64);
    }

    proof fn lemma_name_len() {
    }

    proof fn lemma_contents_len_bound(&self) {
        lemma_box_bytes_bound(&self.stsd);
        lemma_box_bytes_bound(&self.stts);
        lemma_box_bytes_bound(&self.stsc);
        lemma_box_bytes_bound(&self.stsz);
        lemma_box_bytes_bound(&self.co64);
    }

    fn name() -> (r: [u8; 4]) {
        fourcc(0x73, 0x74, 0x62, 0x6c)
    }

    fn get_full_box_header(&self) -> (r: Option<FullBoxHeader>) {
        None
    }

    fn content_size(&self) -> (r: u64) {
        self.stsd.size() + self.stts.size() + self.stsc.size() + self.stsz.size() + self.co64.size()
    }

    fn write_box_contents(&self, writer: &mut BytesMut) -> (r: Result<(), Mp4BoxError>) {
        self.stsd.write(writer)?;
        self.stts.write(writer)?;
        self.stsc.write(writer)?;
        self.stsz.write(writer)?;
        self.co64.write(writer)?;
        assert(bytes_mut_view(*writer) =~= bytes_mut_view(*old(writer)) + self.spec_contents());
        Ok(())
    }
}

} // verus!
