//! Movie extends box (`mvex`): announces that the movie continues in
//! fragments, with the defaults of each track's samples.

use crate::buf::bytes_mut_view;
use crate::mp4::encode::{fourcc, spec_fourcc};
use crate::mp4::nested::{
    all_fit, all_sizes_agree, boxes_bytes, boxes_content_size, boxes_size,
    lemma_boxes_bytes_bound, lemma_boxes_size_agrees, write_boxes,
};
use crate::mp4::{
    box_fits, box_size_agrees, lemma_box_bytes_len, spec_box_bytes, spec_box_size, FullBoxHeader,
    Mp4Box, Mp4BoxError,
};
use bytes::BytesMut;
use crate::mp4::lemma_box_bytes_bound;
use vstd::prelude::*;

use crate::mp4::{MovieExtendsHeaderBox, TrackExtendsBox};

verus! {

pub struct MovieExtendsBox {
    pub mehd: MovieExtendsHeaderBox,
    pub trex: Vec<TrackExtendsBox>,
}

impl MovieExtendsBox {
    /// What the box's contents, reported size and conditions are made of.
    pub proof fn lemma_unfold(&self)
        ensures
            self.spec_contents() == spec_box_bytes(&self.mehd) + boxes_bytes(self.trex@),
            self.spec_content_size() == spec_box_size(&self.mehd) + boxes_size(self.trex@),
            self.spec_well_formed() == (box_fits(&self.mehd) && all_fit(self.trex@)),
            self.spec_sizes_agree() == (box_size_agrees(&self.mehd) && all_sizes_agree(self.trex@)),
    {
    }
}

impl Mp4Box for MovieExtendsBox {
    open spec fn spec_name() -> Seq<u8> {
        spec_fourcc(0x6d, 0x76, 0x65, 0x78) // "mvex"
    }

    open spec fn spec_full_header(&self) -> Option<FullBoxHeader> {
        None
    }

    closed spec fn spec_contents(&self) -> Seq<u8> {
        spec_box_bytes(&self.mehd) + boxes_bytes(self.trex@)
    }

    closed spec fn spec_content_size(&self) -> nat {
        spec_box_size(&self.mehd) + boxes_size(self.trex@)
    }

    closed spec fn spec_well_formed(&self) -> bool {
        &&& box_fits(&self.mehd)
        &&& all_fit(self.trex@)
    }

    closed spec fn spec_sizes_agree(&self) -> bool {
        &&& box_size_agrees(&self.mehd)
        &&& all_sizes_agree(self.trex@)
    }

    proof fn lemma_sizes_agree(&self) {
        lemma_box_bytes_len(&self.mehd);
        lemma_boxes_size_agrees(self.trex@);
    }

    proof fn lemma_name_len() {
    }

    proof fn lemma_contents_len_bound(&self) {
        lemma_box_bytes_bound(&self.mehd);
        lemma_boxes_bytes_bound(self.trex@);
    }

    fn name() -> (r: [u8; 4]) {
        fourcc(0x6d, 0x76, 0x65, 0x78)
    }

    fn get_full_box_header(&self) -> (r: Option<FullBoxHeader>) {
        None
    }

    fn content_size(&self) -> (r: u64) {
        self.mehd.size() + boxes_content_size(&self.trex)
    }

    fn write_box_contents(&self, writer: &mut BytesMut) -> (r: Result<(), Mp4BoxError>) {
        self.mehd.write(writer)?;
        write_boxes(&self.trex, writer)?;
        assert(bytes_mut_view(*writer) =~= bytes_mut_view(*old(writer)) + self.spec_contents());
        Ok(())
    }
}

} // verus!
