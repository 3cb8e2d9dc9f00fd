//! Media information box (`minf`): the media header, data information and
//! sample table of a track.

use crate::buf::bytes_mut_view;
use crate::mp4::encode::{fourcc, spec_fourcc};
use crate::mp4::{
    box_fits, box_size_agrees, lemma_box_bytes_len, spec_box_bytes, spec_box_size,
    DataInformationBox, FullBoxHeader, Mp4Box, Mp4BoxError, SampleTableBox, SoundMediaHeaderBox,
    VideoMediaHeaderBox,
};
use bytes::BytesMut;
use crate::mp4::lemma_box_bytes_bound;
use vstd::prelude::*;

verus! {

/// The media-specific header of a track.
pub enum MediaHeader {
    Video(VideoMediaHeaderBox),
    Sound(SoundMediaHeaderBox),
}

impl MediaHeader {
    /// The serialized header box.
    pub open spec fn spec_bytes(&self) -> Seq<u8> {
        match self {
            MediaHeader::Video(b) => spec_box_bytes(b),
            MediaHeader::Sound(b) => spec_box_bytes(b),
        }
    }

    /// The size the header box reports.
    pub open spec fn spec_size(&self) -> nat {
        match self {
            MediaHeader::Video(b) => spec_box_size(b),
            MediaHeader::Sound(b) => spec_box_size(b),
        }
    }

    pub open spec fn spec_fits(&self) -> bool {
        match self {
            MediaHeader::Video(b) => box_fits(b),
            MediaHeader::Sound(b) => box_fits(b),
        }
    }

    pub open spec fn spec_size_agrees(&self) -> bool {
        match self {
            MediaHeader::Video(b) => box_size_agrees(b),
            MediaHeader::Sound(b) => box_size_agrees(b),
        }
    }

    proof fn lemma_bytes_bound(&self)
        requires
            self.spec_fits(),
        ensures
            self.spec_bytes().len() <= 2 * self.spec_size(),
    {
        match self {
            MediaHeader::Video(b) => lemma_box_bytes_bound(b),
            MediaHeader::Sound(b) => lemma_box_bytes_bound(b),
        }
    }

    proof fn lemma_size_agrees(&self)
        requires
            self.spec_fits(),
        ensures
            self.spec_size_agrees() ==> self.spec_size() == self.spec_bytes().len(),
    {
        match self {
            MediaHeader::Video(b) => lemma_box_bytes_len(b),
            MediaHeader::Sound(b) => lemma_box_bytes_len(b),
        }
    }
}

pub struct MediaInformationBox {
    pub media_header: MediaHeader,
    pub dinf: DataInformationBox,
    pub stbl: SampleTableBox,
}

impl MediaInformationBox {
    /// What the box's contents, reported size and conditions are made of.
    pub proof fn lemma_unfold(&self)
        ensures
            self.spec_contents() == ({
            self.media_header.spec_bytes() + spec_box_bytes(&self.dinf) + spec_box_bytes(&self.stbl)
            }),
            self.spec_content_size() == ({
            spec_box_size(&self.dinf) + spec_box_size(&self.stbl) + self.media_header.spec_size()
            }),
            self.spec_well_formed() == ({
            &&& self.media_header.spec_fits()
            &&& box_fits(&self.dinf)
            &&& box_fits(&self.stbl)
            }),
            self.spec_sizes_agree() == ({
            &&& self.media_header.spec_size_agrees()
            &&& box_size_agrees(&self.dinf)
            &&& box_size_agrees(&self.stbl)
            }),
    {
    }
}

impl Mp4Box for MediaInformationBox {
    open spec fn spec_name() -> Seq<u8> {
        spec_fourcc(0x6d, 0x69, 0x6e, 0x66) // "minf"
    }

    open spec fn spec_full_header(&self) -> Option<FullBoxHeader> {
        None
    }

    closed spec fn spec_contents(&self) -> Seq<u8> {
        self.media_header.spec_bytes() + spec_box_bytes(&self.dinf) + spec_box_bytes(&self.stbl)
    }

    closed spec fn spec_content_size(&self) -> nat {
        spec_box_size(&self.dinf) + spec_box_size(&self.stbl) + self.media_header.spec_size()
    }

    closed spec fn spec_well_formed(&self) -> bool {
        &&& self.media_header.spec_fits()
        &&& box_fits(&self.dinf)
        &&& box_fits(&self.stbl)
    }

    closed spec fn spec_sizes_agree(&self) -> bool {
        &&& self.media_header.spec_size_agrees()
        &&& box_size_agrees(&self.dinf)
        &&& box_size_agrees(&self.stbl)
    }

    proof fn lemma_sizes_agree(&self) {
        self.media_header.lemma_size_agrees();
        lemma_box_bytes_len(&self.dinf);
        lemma_box_bytes_len(&self.stbl);
    }

    proof fn lemma_name_len() {
    }

    proof fn lemma_contents_len_bound(&self) {
        self.media_header.lemma_bytes_bound();
        lemma_box_bytes_bound(&self.dinf);
        lemma_box_bytes_bound(&self.stbl);
    }

    fn name() -> (r: [u8; 4]) {
        fourcc(0x6d, 0x69, 0x6e, 0x66)
    }

    fn get_full_box_header(&self) -> (r: Option<FullBoxHeader>) {
        None
    }

    fn content_size(&self) -> (r: u64) {
        let mut size = self.dinf.size() + self.stbl.size();
        match &self.media_header {
            MediaHeader::Video(vmhd) => size = size + vmhd.size(),
            MediaHeader::Sound(smhd) => size = size + smhd.size(),
        }
        size
    }

    fn write_box_contents(&self, writer: &mut BytesMut) -> (r: Result<(), Mp4BoxError>) {
        proof {
            self.media_header.lemma_size_agrees();
            lemma_box_bytes_len(&self.dinf);
            lemma_box_bytes_len(&self.stbl);
            match &self.media_header {
                MediaHeader::Video(b) => lemma_box_bytes_len(b),
                MediaHeader::Sound(b) => lemma_box_bytes_len(b),
            }
        }
        match &self.media_header {
            MediaHeader::Video(vmhd) => vmhd.write(writer)?,
            MediaHeader::Sound(smhd) => smhd.write(writer)?,
        }
        self.dinf.write(writer)?;
        self.stbl.write(writer)?;
        assert(bytes_mut_view(*writer) =~= bytes_mut_view(*old(writer)) + self.spec_contents());
        Ok(())
    }
}

} // verus!
