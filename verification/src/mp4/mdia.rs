//! Media box (`mdia`): the media header, handler and media information of a track.

use crate::buf::bytes_mut_view;
use crate::mp4::encode::{fourcc, spec_fourcc};
use crate::mp4::{
    box_fits, box_size_agrees, lemma_box_bytes_len, spec_box_bytes, spec_box_size, FullBoxHeader,
    Mp4Box, Mp4BoxError,
};
use bytes::BytesMut;
use crate::mp4::lemma_box_bytes_bound;
use vstd::prelude::*;

use crate::mp4::{HandlerBox, MediaHeaderBox, MediaInformationBox};

verus! {

pub struct MediaBox {
    pub mdhd: MediaHeaderBox,
    pub hdlr: HandlerBox,
    pub minf: MediaInformationBox,
}

impl MediaBox {
    /// What the box's contents, reported size and conditions are made of.
    pub proof fn lemma_unfold(&self)
        ensures
            self.spec_contents() == spec_box_bytes(&self.mdhd) + spec_box_bytes(&self.hdlr) + spec_box_bytes(&self.minf),
            self.spec_content_size() == spec_box_size(&self.mdhd) + spec_box_size(&self.hdlr) + spec_box_size(&self.minf),
            self.spec_well_formed() == (box_fits(&self.mdhd) && box_fits(&self.hdlr) && box_fits(&self.minf)),
            self.spec_sizes_agree() == (box_size_agrees(&self.mdhd) && box_size_agrees(&self.hdlr) && box_size_agrees(&self.minf)),
    {
    }
}

impl Mp4Box for MediaBox {
    open spec fn spec_name() -> Seq<u8> {
        spec_fourcc(0x6d, 0x64, 0x69, 0x61) // "mdia"
    }

    open spec fn spec_full_header(&self) -> Option<FullBoxHeader> {
        None
    }

    closed spec fn spec_contents(&self) -> Seq<u8> {
        spec_box_bytes(&self.mdhd) + spec_box_bytes(&self.hdlr) + spec_box_bytes(&self.minf)
    }

    closed spec fn spec_content_size(&self) -> nat {
        spec_box_size(&self.mdhd) + spec_box_size(&self.hdlr) + spec_box_size(&self.minf)
    }

    closed spec fn spec_well_formed(&self) -> bool {
        &&& box_fits(&self.mdhd)
        &&& box_fits(&self.hdlr)
        &&& box_fits(&self.minf)
    }

    closed spec fn spec_sizes_agree(&self) -> bool {
        &&& box_size_agrees(&self.mdhd)
        &&& box_size_agrees(&self.hdlr)
        &&& box_size_agrees(&self.minf)
    }

    proof fn lemma_sizes_agree(&self) {
        lemma_box_bytes_len(&self.mdhd);
        lemma_box_bytes_len(&self.hdlr);
        lemma_box_bytes_len(&self.minf);
    }

    proof fn lemma_name_len() {
    }

    proof fn lemma_contents_len_bound(&self) {
        lemma_box_bytes_bound(&self.mdhd);
        lemma_box_bytes_bound(&self.hdlr);
        lemma_box_bytes_bound(&self.minf);
    }

    fn name() -> (r: [u8; 4]) {
        fourcc(0x6d, 0x64, 0x69, 0x61)
    }

    fn get_full_box_header(&self) -> (r: Option<FullBoxHeader>) {
        None
    }

    fn content_size(&self) -> (r: u64) {
        self.mdhd.size() + self.hdlr.size() + self.minf.size()
    }

    fn write_box_contents(&self, writer: &mut BytesMut) -> (r: Result<(), Mp4BoxError>) {
        self.mdhd.write(writer)?;
        self.hdlr.write(writer)?;
        self.minf.write(writer)?;
        assert(bytes_mut_view(*writer) =~= bytes_mut_view(*old(writer)) + self.spec_contents());
        Ok(())
    }
}

} // verus!
