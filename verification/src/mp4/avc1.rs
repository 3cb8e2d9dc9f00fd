//! AVC sample entry box (`avc1`): the visual sample entry of an H.264 track,
//! with its decoder configuration.

use crate::buf::{bytes_mut_extend, bytes_mut_view};
use crate::endian::{be_u16, be_u32, push_u16, push_u32, push_zeros};
use crate::mp4::encode::{fourcc, spec_fourcc};
use crate::mp4::{
    box_fits, box_size_agrees, lemma_box_bytes_len, spec_box_bytes, spec_box_size,
    AvcConfigurationBox, FullBoxHeader, Mp4Box, Mp4BoxError,
};
use bytes::BytesMut;
use crate::mp4::lemma_box_bytes_bound;
use vstd::prelude::*;

verus! {

pub struct AvcSampleEntryBox {
    pub width: u16,
    pub height: u16,
    pub avcc: AvcConfigurationBox,
}

/// `n` zero bytes.
pub open spec fn zeros(n: nat) -> Seq<u8> {
    Seq::new(n, |i: int| 0u8)
}

impl AvcSampleEntryBox {
    /// The visual sample entry fields before the configuration box: reserved
    /// bytes, data reference index 1, the dimensions, 72 dpi resolutions, a
    /// frame count of 1, an empty compressor name, depth 0x18 and the
    /// pre-defined -1.
    pub open spec fn spec_fields(&self) -> Seq<u8> {
        zeros(6) + be_u16(1) + zeros(16) + be_u16(self.width) + be_u16(self.height) + be_u32(
            0x0048_0000,
        ) + be_u32(0x0048_0000) + zeros(4) + be_u16(1) + zeros(32) + be_u16(0x0018) + be_u16(
            0xffff,
        )
    }
}

impl AvcSampleEntryBox {
    /// The visual sample entry fields of an `avc1` box (ISO/IEC 14496-12)
    /// are 78 bytes: data reference index 1 at offset 6, the width at
    /// offset 24 and the height at offset 26 in two bytes each, most
    /// significant first, 72 dpi both ways at offsets 28 and 32, frame
    /// count 1 at offset 40, depth 0x18 at offset 74 and pre_defined -1 at
    /// offset 76; then the `avcC` box follows.
    pub proof fn lemma_fields_layout(&self)
        ensures
            self.spec_fields().len() == 78,
            self.spec_fields().subrange(6, 8) == be_u16(1),
            self.spec_fields().subrange(24, 26) == be_u16(self.width),
            self.spec_fields().subrange(26, 28) == be_u16(self.height),
            self.spec_fields()[24] == (self.width >> 8u16) as u8,
            self.spec_fields()[25] == self.width as u8,
            self.spec_fields()[26] == (self.height >> 8u16) as u8,
            self.spec_fields()[27] == self.height as u8,
            self.spec_fields().subrange(28, 32) == be_u32(0x0048_0000),
            self.spec_fields().subrange(32, 36) == be_u32(0x0048_0000),
            self.spec_fields().subrange(40, 42) == be_u16(1),
            self.spec_fields().subrange(74, 76) == be_u16(0x0018),
            self.spec_fields().subrange(76, 78) == be_u16(0xffff),
            self.spec_contents() == self.spec_fields() + spec_box_bytes(&self.avcc),
    {
        let f = self.spec_fields();
        assert(f.subrange(6, 8) =~= be_u16(1));
        assert(f.subrange(24, 26) =~= be_u16(self.width));
        assert(f.subrange(26, 28) =~= be_u16(self.height));
        assert(f.subrange(28, 32) =~= be_u32(0x0048_0000));
        assert(f.subrange(32, 36) =~= be_u32(0x0048_0000));
        assert(f.subrange(40, 42) =~= be_u16(1));
        assert(f.subrange(74, 76) =~= be_u16(0x0018));
        assert(f.subrange(76, 78) =~= be_u16(0xffff));
    }

    /// What the box's contents, reported size and conditions are made of.
    pub proof fn lemma_unfold(&self)
        ensures
            self.spec_contents() == ({
            self.spec_fields() + spec_box_bytes(&self.avcc)
            }),
            self.spec_content_size() == ({
            78 + spec_box_size(&self.avcc)
            }),
            self.spec_well_formed() == ({
            box_fits(&self.avcc)
            }),
            self.spec_sizes_agree() == ({
            box_size_agrees(&self.avcc)
            }),
    {
    }
}

impl Mp4Box for AvcSampleEntryBox {
    open spec fn spec_name() -> Seq<u8> {
        spec_fourcc(0x61, 0x76, 0x63, 0x31) // "avc1"
    }

    open spec fn spec_full_header(&self) -> Option<FullBoxHeader> {
        None
    }

    closed spec fn spec_contents(&self) -> Seq<u8> {
        self.spec_fields() + spec_box_bytes(&self.avcc)
    }

    closed spec fn spec_content_size(&self) -> nat {
        78 + spec_box_size(&self.avcc)
    }

    closed spec fn spec_well_formed(&self) -> bool {
        box_fits(&self.avcc)
    }

    closed spec fn spec_sizes_agree(&self) -> bool {
        box_size_agrees(&self.avcc)
    }

    proof fn lemma_sizes_agree(&self) {
        lemma_box_bytes_len(&self.avcc);
    }

    proof fn lemma_name_len() {
    }

    proof fn lemma_contents_len_bound(&self) {
        lemma_box_bytes_bound(&self.avcc);
    }

    fn name() -> (r: [u8; 4]) {
        fourcc(0x61, 0x76, 0x63, 0x31)
    }

    fn get_full_box_header(&self) -> (r: Option<FullBoxHeader>) {
        None
    }

    fn content_size(&self) -> (r: u64) {
        1 * 6 + 2 + 1 * 16 + 2 + 2 + 4 + 4 + 1 * 4 + 2 + 1 * 32 + 2 + 2 + self.avcc.size()
    }

    fn write_box_contents(&self, writer: &mut BytesMut) -> (r: Result<(), Mp4BoxError>) {
        let mut v: Vec<u8> = Vec::new();
        push_zeros(&mut v, 6);
        push_u16(&mut v, 1);
        push_zeros(&mut v, 16);
        push_u16(&mut v, self.width);
        push_u16(&mut v, self.height);
        push_u32(&mut v, 0x0048_0000);
        push_u32(&mut v, 0x0048_0000);
        push_zeros(&mut v, 4);
        push_u16(&mut v, 1);
        push_zeros(&mut v, 32);
        push_u16(&mut v, 0x0018);
        push_u16(&mut v, 0xffff); // -1 as a 16-bit two's complement
        assert(v@ =~= self.spec_fields());
        bytes_mut_extend(writer, v.as_slice());
        self.avcc.write(writer)?;
        assert(bytes_mut_view(*writer) =~= bytes_mut_view(*old(writer)) + self.spec_contents());
        Ok(())
    }
}

} // verus!
