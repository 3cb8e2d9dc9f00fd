//! Movie box (`moov`): the movie header, the fragment announcement and the
//! tracks of a movie.

use crate::buf::bytes_mut_view;
use crate::mp4::encode::{fourcc, spec_fourcc};
use crate::mp4::nested::{
    all_fit, all_sizes_agree, boxes_bytes, boxes_content_size, boxes_size,
    lemma_boxes_size_agrees, lemma_opt_box_size_agrees, opt_box_bytes, opt_box_fits,
    opt_box_size, opt_box_size_agrees, write_boxes,
};
use crate::mp4::{
    box_fits, box_size_agrees, lemma_box_bytes_len, spec_box_bytes, spec_box_size, FullBoxHeader,
    MovieExtendsBox, MovieHeaderBox, Mp4Box, Mp4BoxError, TrackBox,
};
use bytes::BytesMut;
use crate::mp4::lemma_box_bytes_bound;
use crate::mp4::nested::lemma_boxes_bytes_bound;
use crate::mp4::nested::lemma_opt_box_bytes_bound;
use vstd::prelude::*;

verus! {

pub struct MovieBox {
    pub mvhd: MovieHeaderBox,
    pub mvex: Option<MovieExtendsBox>,
    pub tracks: Vec<TrackBox>,
}

impl MovieBox {
    /// What the box's contents, reported size and conditions are made of.
    pub proof fn lemma_unfold(&self)
        ensures
            self.spec_contents() == ({
            spec_box_bytes(&self.mvhd) + opt_box_bytes(self.mvex) + boxes_bytes(self.tracks@)
            }),
            self.spec_content_size() == ({
            spec_box_size(&self.mvhd) + opt_box_size(self.mvex) + boxes_size(self.tracks@)
            }),
            self.spec_well_formed() == ({
            &&& box_fits(&self.mvhd)
            &&& opt_box_fits(self.mvex)
            &&& all_fit(self.tracks@)
            }),
            self.spec_sizes_agree() == ({
            &&& box_size_agrees(&self.mvhd)
            &&& opt_box_size_agrees(self.mvex)
            &&& all_sizes_agree(self.tracks@)
            }),
    {
    }
}

impl Mp4Box for MovieBox {
    open spec fn spec_name() -> Seq<u8> {
        spec_fourcc(0x6d, 0x6f, 0x6f, 0x76) // "moov"
    }

    open spec fn spec_full_header(&self) -> Option<FullBoxHeader> {
        None
    }

    closed spec fn spec_contents(&self) -> Seq<u8> {
        spec_box_bytes(&self.mvhd) + opt_box_bytes(self.mvex) + boxes_bytes(self.tracks@)
    }

    closed spec fn spec_content_size(&self) -> nat {
        spec_box_size(&self.mvhd) + opt_box_size(self.mvex) + boxes_size(self.tracks@)
    }

    closed spec fn spec_well_formed(&self) -> bool {
        &&& box_fits(&self.mvhd)
        &&& opt_box_fits(self.mvex)
        &&& all_fit(self.tracks@)
    }

    closed spec fn spec_sizes_agree(&self) -> bool {
        &&& box_size_agrees(&self.mvhd)
        &&& opt_box_size_agrees(self.mvex)
        &&& all_sizes_agree(self.tracks@)
    }

    proof fn lemma_sizes_agree(&self) {
        lemma_box_bytes_len(&self.mvhd);
        lemma_opt_box_size_agrees(self.mvex);
        lemma_boxes_size_agrees(self.tracks@);
    }

    proof fn lemma_name_len() {
    }

    proof fn lemma_contents_len_bound(&self) {
        lemma_box_bytes_bound(&self.mvhd);
        lemma_opt_box_bytes_bound(self.mvex);
        lemma_boxes_bytes_bound(self.tracks@);
    }

    fn name() -> (r: [u8; 4]) {
        fourcc(0x6d, 0x6f, 0x6f, 0x76)
    }

    fn get_full_box_header(&self) -> (r: Option<FullBoxHeader>) {
        None
    }

    fn content_size(&self) -> (r: u64) {
        let mut size = self.mvhd.size();
        match &self.mvex {
            Some(mvex) => size = size + mvex.size(),
            None => {},
        }
        size = size + boxes_content_size(&self.tracks);
        size
    }

    fn write_box_contents(&self, writer: &mut BytesMut) -> (r: Result<(), Mp4BoxError>) {
        self.mvhd.write(writer)?;
        match &self.mvex {
            Some(mvex) => mvex.write(writer)?,
            None => {},
        }
        write_boxes(&self.tracks, writer)?;
        assert(bytes_mut_view(*writer) =~= bytes_mut_view(*old(writer)) + self.spec_contents());
        Ok(())
    }
}

} // verus!
