//! Data information box (`dinf`): where a track's media data is.

use crate::buf::bytes_mut_view;
use crate::mp4::encode::{fourcc, spec_fourcc};
use crate::mp4::{
    box_fits, box_size_agrees, lemma_box_bytes_len, spec_box_bytes, spec_box_size, FullBoxHeader,
    Mp4Box, Mp4BoxError,
};
use bytes::BytesMut;
use crate::mp4::lemma_box_bytes_bound;
use vstd::prelude::*;

use crate::mp4::DataReferenceBox;

verus! {

pub struct DataInformationBox {
    pub dref: DataReferenceBox,
}

impl DataInformationBox {
    /// What the box's contents, reported size and conditions are made of.
    pub proof fn lemma_unfold(&self)
        ensures
            self.spec_contents() == spec_box_bytes(&self.dref),
            self.spec_content_size() == spec_box_size(&self.dref),
            self.spec_well_formed() == (box_fits(&self.dref)),
            self.spec_sizes_agree() == (box_size_agrees(&self.dref)),
    {
    }
}

impl Mp4Box for DataInformationBox {
    open spec fn spec_name() -> Seq<u8> {
        spec_fourcc(0x64, 0x69, 0x6e, 0x66) // "dinf"
    }

    open spec fn spec_full_header(&self) -> Option<FullBoxHeader> {
        None
    }

    closed spec fn spec_contents(&self) -> Seq<u8> {
        spec_box_bytes(&self.dref)
    }

    closed spec fn spec_content_size(&self) -> nat {
        spec_box_size(&self.dref)
    }

    closed spec fn spec_well_formed(&self) -> bool {
        &&& box_fits(&self.dref)
    }

    closed spec fn spec_sizes_agree(&self) -> bool {
        &&& box_size_agrees(&self.dref)
    }

    proof fn lemma_sizes_agree(&self) {
        lemma_box_bytes_len(&self.dref);
    }

    proof fn lemma_name_len() {
    }

    proof fn lemma_contents_len_bound(&self) {
        lemma_box_bytes_bound(&self.dref);
    }

    fn name() -> (r: [u8; 4]) {
        fourcc(0x64, 0x69, 0x6e, 0x66)
    }

    fn get_full_box_header(&self) -> (r: Option<FullBoxHeader>) {
        None
    }

    fn content_size(&self) -> (r: u64) {
        self.dref.size()
    }

    fn write_box_contents(&self, writer: &mut BytesMut) -> (r: Result<(), Mp4BoxError>) {
        self.dref.write(writer)?;
        assert(bytes_mut_view(*writer) =~= bytes_mut_view(*old(writer)) + self.spec_contents());
        Ok(())
    }
}

} // verus!
