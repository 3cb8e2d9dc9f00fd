//! Track fragment box (`traf`): the header, decode time and runs of one
//! track in a fragment.

use crate::buf::bytes_mut_view;
use crate::mp4::encode::{fourcc, spec_fourcc};
use crate::mp4::nested::{
    all_fit, all_sizes_agree, boxes_bytes, boxes_content_size, boxes_size,
    lemma_boxes_size_agrees, lemma_opt_box_size_agrees, opt_box_bytes, opt_box_fits,
    opt_box_size, opt_box_size_agrees, write_boxes,
};
use crate::mp4::{
    box_fits, box_size_agrees, lemma_box_bytes_len, spec_box_bytes, spec_box_size, FullBoxHeader,
    Mp4Box, Mp4BoxError, TrackFragmentBaseMediaDecodeTimeBox, TrackFragmentHeaderBox,
    TrackFragmentRunBox,
};
use bytes::BytesMut;
use crate::mp4::lemma_box_bytes_bound;
use crate::mp4::nested::lemma_boxes_bytes_bound;
use crate::mp4::nested::lemma_opt_box_bytes_bound;
use vstd::prelude::*;

verus! {

pub struct TrackFragmentBox {
    pub tfhd: TrackFragmentHeaderBox,
    pub track_runs: Vec<TrackFragmentRunBox>,
    pub base_media_decode_time: Option<TrackFragmentBaseMediaDecodeTimeBox>,
}

impl TrackFragmentBox {
    /// What the box's contents, reported size and conditions are made of.
    pub proof fn lemma_unfold(&self)
        ensures
            self.spec_contents() == spec_box_bytes(&self.tfhd) + opt_box_bytes(
                self.base_media_decode_time,
            ) + boxes_bytes(self.track_runs@),
            self.spec_content_size() == spec_box_size(&self.tfhd) + boxes_size(self.track_runs@)
                + opt_box_size(self.base_media_decode_time),
            self.spec_well_formed() == (box_fits(&self.tfhd) && all_fit(self.track_runs@)
                && opt_box_fits(self.base_media_decode_time)),
            self.spec_sizes_agree() == (box_size_agrees(&self.tfhd) && all_sizes_agree(
                self.track_runs@,
            ) && opt_box_size_agrees(self.base_media_decode_time)),
    {
    }
}

impl Mp4Box for TrackFragmentBox {
    open spec fn spec_name() -> Seq<u8> {
        spec_fourcc(0x74, 0x72, 0x61, 0x66) // "traf"
    }

    open spec fn spec_full_header(&self) -> Option<FullBoxHeader> {
        None
    }

    /// The header, then the decode time, then the runs.
    closed spec fn spec_contents(&self) -> Seq<u8> {
        spec_box_bytes(&self.tfhd) + opt_box_bytes(self.base_media_decode_time) + boxes_bytes(
            self.track_runs@,
        )
    }

    closed spec fn spec_content_size(&self) -> nat {
        spec_box_size(&self.tfhd) + boxes_size(self.track_runs@) + opt_box_size(
            self.base_media_decode_time,
        )
    }

    closed spec fn spec_well_formed(&self) -> bool {
        &&& box_fits(&self.tfhd)
        &&& all_fit(self.track_runs@)
        &&& opt_box_fits(self.base_media_decode_time)
    }

    closed spec fn spec_sizes_agree(&self) -> bool {
        &&& box_size_agrees(&self.tfhd)
        &&& all_sizes_agree(self.track_runs@)
        &&& opt_box_size_agrees(self.base_media_decode_time)
    }

    proof fn lemma_sizes_agree(&self) {
        lemma_box_bytes_len(&self.tfhd);
        lemma_boxes_size_agrees(self.track_runs@);
        lemma_opt_box_size_agrees(self.base_media_decode_time);
    }

    proof fn lemma_name_len() {
    }

    proof fn lemma_contents_len_bound(&self) {
        lemma_box_bytes_bound(&self.tfhd);
        lemma_opt_box_bytes_bound(self.base_media_decode_time);
        lemma_boxes_bytes_bound(self.track_runs@);
    }

    fn name() -> (r: [u8; 4]) {
        fourcc(0x74, 0x72, 0x61, 0x66)
    }

    fn get_full_box_header(&self) -> (r: Option<FullBoxHeader>) {
        None
    }

    fn content_size(&self) -> (r: u64) {
        let mut size = self.tfhd.size();
        size = size + boxes_content_size(&self.track_runs);
        match &self.base_media_decode_time {
            Some(base_media_decode_time) => size = size + base_media_decode_time.size(),
            None => {},
        }
        size
    }

    fn write_box_contents(&self, writer: &mut BytesMut) -> (r: Result<(), Mp4BoxError>) {
        self.tfhd.write(writer)?;
        match &self.base_media_decode_time {
            Some(base_media_decode_time) => base_media_decode_time.write(writer)?,
            None => {},
        }
        write_boxes(&self.track_runs, writer)?;
        assert(bytes_mut_view(*writer) =~= bytes_mut_view(*old(writer)) + self.spec_contents());
        Ok(())
    }
}

} // verus!
