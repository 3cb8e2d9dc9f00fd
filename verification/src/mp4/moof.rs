//! Movie fragment box (`moof`): the header and track runs of one fragment.

use crate::buf::bytes_mut_view;
use crate::mp4::encode::{fourcc, spec_fourcc};
use crate::mp4::{
    box_fits, box_size_agrees, lemma_box_bytes_len, spec_box_bytes, spec_box_size, FullBoxHeader,
    Mp4Box, Mp4BoxError,
};
use bytes::BytesMut;
use crate::mp4::lemma_box_bytes_bound;
use vstd::prelude::*;

use crate::mp4::{MovieFragmentHeaderBox, TrackFragmentBox};

verus! {

pub struct MovieFragmentBox {
    pub mfhd: MovieFragmentHeaderBox,
    pub traf: TrackFragmentBox,
}

impl MovieFragmentBox {
    /// What the box's contents, reported size and conditions are made of.
    pub proof fn lemma_unfold(&self)
        ensures
            self.spec_contents() == spec_box_bytes(&self.mfhd) + spec_box_bytes(&self.traf),
            self.spec_content_size() == spec_box_size(&self.mfhd) + spec_box_size(&self.traf),
            self.spec_well_formed() == (box_fits(&self.mfhd) && box_fits(&self.traf)),
            self.spec_sizes_agree() == (box_size_agrees(&self.mfhd) && box_size_agrees(&self.traf)),
    {
    }
}

impl Mp4Box for MovieFragmentBox {
    open spec fn spec_name() -> Seq<u8> {
        spec_fourcc(0x6d, 0x6f, 0x6f, 0x66) // "moof"
    }

    open spec fn spec_full_header(&self) -> Option<FullBoxHeader> {
        None
    }

    closed spec fn spec_contents(&self) -> Seq<u8> {
        spec_box_bytes(&self.mfhd) + spec_box_bytes(&self.traf)
    }

    closed spec fn spec_content_size(&self) -> nat {
        spec_box_size(&self.mfhd) + spec_box_size(&self.traf)
    }

    closed spec fn spec_well_formed(&self) -> bool {
        &&& box_fits(&self.mfhd)
        &&& box_fits(&self.traf)
    }

    closed spec fn spec_sizes_agree(&self) -> bool {
        &&& box_size_agrees(&self.mfhd)
        &&& box_size_agrees(&self.traf)
    }

    proof fn lemma_sizes_agree(&self) {
        lemma_box_bytes_len(&self.mfhd);
        lemma_box_bytes_len(&self.traf);
    }

    proof fn lemma_name_len() {
    }

    proof fn lemma_contents_len_bound(&self) {
        lemma_box_bytes_bound(&self.mfhd);
        lemma_box_bytes_bound(&self.traf);
    }

    fn name() -> (r: [u8; 4]) {
        fourcc(0x6d, 0x6f, 0x6f, 0x66)
    }

    fn get_full_box_header(&self) -> (r: Option<FullBoxHeader>) {
        None
    }

    fn content_size(&self) -> (r: u64) {
        self.mfhd.size() + self.traf.size()
    }

    fn write_box_contents(&self, writer: &mut BytesMut) -> (r: Result<(), Mp4BoxError>) {
        self.mfhd.write(writer)?;
        self.traf.write(writer)?;
        assert(bytes_mut_view(*writer) =~= bytes_mut_view(*old(writer)) + self.spec_contents());
        Ok(())
    }
}

} // verus!
