//! Data reference box (`dref`): the list of places a track's media data is in.

use crate::buf::{bytes_mut_extend, bytes_mut_view};
use crate::endian::{be_u32, push_u32};
use crate::mp4::encode::{fourcc, spec_fourcc};
use crate::mp4::nested::{
    all_fit, all_sizes_agree, boxes_bytes, boxes_content_size, boxes_size,
    lemma_boxes_size_agrees, write_boxes,
};
use crate::mp4::{DataEntryUrlBox, FullBoxHeader, Mp4Box, Mp4BoxError};
use bytes::BytesMut;
use crate::mp4::nested::lemma_boxes_bytes_bound;
use vstd::prelude::*;

verus! {

pub struct DataReferenceBox {
    pub entries: Vec<DataEntryUrlBox>,
}

impl DataReferenceBox {
    /// What the box's contents, reported size and conditions are made of.
    pub proof fn lemma_unfold(&self)
        ensures
            self.spec_contents() == ({
            be_u32(self.entries@.len() as u32) + boxes_bytes(self.entries@)
            }),
            self.spec_content_size() == ({
            4 + boxes_size(self.entries@)
            }),
            self.spec_well_formed() == ({
            all_fit(self.entries@)
            }),
            self.spec_sizes_agree() == ({
            all_sizes_agree(self.entries@)
            }),
    {
    }
}

impl Mp4Box for DataReferenceBox {
    open spec fn spec_name() -> Seq<u8> {
        spec_fourcc(0x64, 0x72, 0x65, 0x66) // "dref"
    }

    open spec fn spec_full_header(&self) -> Option<FullBoxHeader> {
        Some(FullBoxHeader::spec_new(0, 0))
    }

    closed spec fn spec_contents(&self) -> Seq<u8> {
        be_u32(self.entries@.len() as u32) + boxes_bytes(self.entries@)
    }

    closed spec fn spec_content_size(&self) -> nat {
        4 + boxes_size(self.entries@)
    }

    closed spec fn spec_well_formed(&self) -> bool {
        all_fit(self.entries@)
    }

    closed spec fn spec_sizes_agree(&self) -> bool {
        all_sizes_agree(self.entries@)
    }

    proof fn lemma_sizes_agree(&self) {
        lemma_boxes_size_agrees(self.entries@);
    }

    proof fn lemma_name_len() {
    }

    proof fn lemma_contents_len_bound(&self) {
        lemma_boxes_bytes_bound(self.entries@);
    }

    fn name() -> (r: [u8; 4]) {
        fourcc(0x64, 0x72, 0x65, 0x66)
    }

    fn get_full_box_header(&self) -> (r: Option<FullBoxHeader>) {
        Some(FullBoxHeader::new(0, 0))
    }

    fn content_size(&self) -> (r: u64) {
        let size: u64 = 4; // entry_count
        size + boxes_content_size(&self.entries)
    }

    fn write_box_contents(&self, writer: &mut BytesMut) -> (r: Result<(), Mp4BoxError>) {
        let mut contents: Vec<u8> = Vec::new();
        push_u32(&mut contents, self.entries.len() as u32);
        bytes_mut_extend(writer, contents.as_slice());
        write_boxes(&self.entries, writer)?;
        assert(bytes_mut_view(*writer) =~= bytes_mut_view(*old(writer)) + self.spec_contents());
        Ok(())
    }
}

} // verus!
