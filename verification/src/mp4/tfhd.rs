//! Track fragment header box (`tfhd`): the track of a fragment and the
//! sample defaults that override the track's.
//!
//! The layout is that of ISO/IEC 14496-12: a full box (version 0) whose
//! flags tell which optional fields follow the track ID.

use crate::buf::{bytes_mut_extend, bytes_mut_view};
use crate::endian::{be_u32, be_u64, push_u32, push_u64};
use crate::mp4::encode::{fourcc, spec_fourcc};
use crate::mp4::{FullBoxHeader, Mp4Box, Mp4BoxError};
use bytes::BytesMut;
use vstd::prelude::*;

verus! {

pub const BASE_DATA_OFFSET_PRESENT: u32 = 0x000001;
pub const SAMPLE_DESCRIPTION_INDEX_PRESENT: u32 = 0x000002;
pub const DEFAULT_SAMPLE_DURATION_PRESENT: u32 = 0x000008;
pub const DEFAULT_SAMPLE_SIZE_PRESENT: u32 = 0x000010;
pub const DEFAULT_SAMPLE_FLAGS_PRESENT: u32 = 0x000020;
pub const DURATION_IS_EMPTY: u32 = 0x010000;
pub const DEFAULT_BASE_IS_MOOF: u32 = 0x020000;

pub struct TrackFragmentHeaderBox {
    pub track_id: u32,
    pub base_data_offset: Option<u64>,
    pub sample_description_index: Option<u32>,
    pub default_sample_duration: Option<u32>,
    pub default_sample_size: Option<u32>,
    pub default_sample_flags: Option<u32>,
    pub duration_is_empty: bool,
    pub default_base_is_moof: bool,
}

/// The big-endian bytes of an optional 32-bit field, or nothing.
pub open spec fn opt_be_u32(o: Option<u32>) -> Seq<u8> {
    match o {
        Some(x) => be_u32(x),
        None => Seq::empty(),
    }
}

fn push_opt_u32(v: &mut Vec<u8>, o: Option<u32>)
    ensures
        final(v)@ == old(v)@ + opt_be_u32(o),
{
    match o {
        Some(x) => push_u32(v, x),
        None => {
            assert(v@ =~= old(v)@ + opt_be_u32(o));
        },
    }
}

impl TrackFragmentHeaderBox {
    /// The flags: one bit for each optional field present and for each of
    /// the two booleans set.
    pub open spec fn spec_flags(&self) -> u32 {
        ((if self.base_data_offset is Some { BASE_DATA_OFFSET_PRESENT } else { 0 }) + (
        if self.sample_description_index is Some {
            SAMPLE_DESCRIPTION_INDEX_PRESENT
        } else {
            0
        }) + (if self.default_sample_duration is Some {
            DEFAULT_SAMPLE_DURATION_PRESENT
        } else {
            0
        }) + (if self.default_sample_size is Some {
            DEFAULT_SAMPLE_SIZE_PRESENT
        } else {
            0
        }) + (if self.default_sample_flags is Some {
            DEFAULT_SAMPLE_FLAGS_PRESENT
        } else {
            0
        }) + (if self.duration_is_empty { DURATION_IS_EMPTY } else { 0 }) + (
        if self.default_base_is_moof {
            DEFAULT_BASE_IS_MOOF
        } else {
            0
        })) as u32
    }

    fn flags_from_fields(&self) -> (r: u32)
        ensures
            r == self.spec_flags(),
            (r & 0x000001 != 0) == self.base_data_offset is Some,
            (r & 0x000002 != 0) == self.sample_description_index is Some,
            (r & 0x000008 != 0) == self.default_sample_duration is Some,
            (r & 0x000010 != 0) == self.default_sample_size is Some,
            (r & 0x000020 != 0) == self.default_sample_flags is Some,
            (r & 0x010000 != 0) == self.duration_is_empty,
            (r & 0x020000 != 0) == self.default_base_is_moof,
            r & 0xfffc_ffc4 == 0,
    {
        proof {
            lemma_tfhd_flags(*self);
        }
        let mut flags: u32 = 0;
        if self.base_data_offset.is_some() {
            flags = flags + BASE_DATA_OFFSET_PRESENT;
        }
        if self.sample_description_index.is_some() {
            flags = flags + SAMPLE_DESCRIPTION_INDEX_PRESENT;
        }
        if self.default_sample_duration.is_some() {
            flags = flags + DEFAULT_SAMPLE_DURATION_PRESENT;
        }
        if self.default_sample_size.is_some() {
            flags = flags + DEFAULT_SAMPLE_SIZE_PRESENT;
        }
        if self.default_sample_flags.is_some() {
            flags = flags + DEFAULT_SAMPLE_FLAGS_PRESENT;
        }
        if self.duration_is_empty {
            flags = flags + DURATION_IS_EMPTY;
        }
        if self.default_base_is_moof {
            flags = flags + DEFAULT_BASE_IS_MOOF;
        }
        flags
    }
}

proof fn lemma_flag_bits(a: bool, b: bool, c: bool, d: bool, e: bool, f: bool, g: bool, x: u32)
    by (bit_vector)
    requires
        x == ((if a { 0x000001u32 } else { 0u32 }) + (if b { 0x000002u32 } else { 0u32 }) + (if c {
            0x000008u32
        } else {
            0u32
        }) + (if d { 0x000010u32 } else { 0u32 }) + (if e { 0x000020u32 } else { 0u32 }) + (if f {
            0x010000u32
        } else {
            0u32
        }) + (if g { 0x020000u32 } else { 0u32 })) as u32,
    ensures
        (x & 0x000001 != 0) == a,
        (x & 0x000002 != 0) == b,
        (x & 0x000008 != 0) == c,
        (x & 0x000010 != 0) == d,
        (x & 0x000020 != 0) == e,
        (x & 0x010000 != 0) == f,
        (x & 0x020000 != 0) == g,
        x & 0xfffc_ffc4 == 0,
{
}

/// The flags of a track fragment header have one bit for each optional
/// field present and one for each of the two booleans set, at the places
/// ISO/IEC 14496-12 gives them (base data offset 0x1, sample description
/// index 0x2, default sample duration 0x8, size 0x10, flags 0x20,
/// duration-is-empty 0x10000, default-base-is-moof 0x20000), and no other
/// bit.
pub proof fn lemma_tfhd_flags(h: TrackFragmentHeaderBox)
    ensures
        (h.spec_flags() & 0x000001 != 0) == h.base_data_offset is Some,
        (h.spec_flags() & 0x000002 != 0) == h.sample_description_index is Some,
        (h.spec_flags() & 0x000008 != 0) == h.default_sample_duration is Some,
        (h.spec_flags() & 0x000010 != 0) == h.default_sample_size is Some,
        (h.spec_flags() & 0x000020 != 0) == h.default_sample_flags is Some,
        (h.spec_flags() & 0x010000 != 0) == h.duration_is_empty,
        (h.spec_flags() & 0x020000 != 0) == h.default_base_is_moof,
        h.spec_flags() & 0xfffc_ffc4 == 0,
        h.spec_full_header() == Some(FullBoxHeader::spec_new(0, h.spec_flags())),
{
    lemma_flag_bits(
        h.base_data_offset is Some,
        h.sample_description_index is Some,
        h.default_sample_duration is Some,
        h.default_sample_size is Some,
        h.default_sample_flags is Some,
        h.duration_is_empty,
        h.default_base_is_moof,
        h.spec_flags(),
    );
}

proof fn lemma_only_moof_bit(x: u32)
    by (bit_vector)
    requires
        x & 0x000001 == 0,
        x & 0x000002 == 0,
        x & 0x000008 == 0,
        x & 0x000010 == 0,
        x & 0x000020 == 0,
        x & 0x010000 == 0,
        x & 0x020000 != 0,
        x & 0xfffc_ffc4 == 0,
    ensures
        x == 0x020000,
{
}

/// A header with no optional field, whose duration is not empty and whose
/// base is the start of the `moof`, has exactly the flag 0x020000.
pub proof fn lemma_tfhd_moof_base_flags(h: TrackFragmentHeaderBox)
    requires
        h.base_data_offset is None,
        h.sample_description_index is None,
        h.default_sample_duration is None,
        h.default_sample_size is None,
        h.default_sample_flags is None,
        !h.duration_is_empty,
        h.default_base_is_moof,
    ensures
        h.spec_flags() == 0x020000,
{
    lemma_tfhd_flags(h);
    lemma_only_moof_bit(h.spec_flags());
}

/// The contents of a track fragment header (ISO/IEC 14496-12): the track
/// ID in four bytes, then, each only when present and in this order, the
/// base data offset in eight bytes, the sample description index and the
/// default sample duration, size and flags in four bytes each; most
/// significant byte first.
pub proof fn lemma_tfhd_layout(h: TrackFragmentHeaderBox)
    ensures
        ({
            let o1: int = 4 + (if h.base_data_offset is Some { 8int } else { 0 });
            let o2: int = o1 + (if h.sample_description_index is Some { 4int } else { 0 });
            let o3: int = o2 + (if h.default_sample_duration is Some { 4int } else { 0 });
            let o4: int = o3 + (if h.default_sample_size is Some { 4int } else { 0 });
            let o5: int = o4 + (if h.default_sample_flags is Some { 4int } else { 0 });
            &&& h.spec_contents().len() == o5
            &&& h.spec_contents().subrange(0, 4) == be_u32(h.track_id)
            &&& h.base_data_offset matches Some(x) ==> h.spec_contents().subrange(4, 12) == be_u64(x)
            &&& h.sample_description_index matches Some(x) ==> h.spec_contents().subrange(o1, o1 + 4)
                == be_u32(x)
            &&& h.default_sample_duration matches Some(x) ==> h.spec_contents().subrange(o2, o2 + 4)
                == be_u32(x)
            &&& h.default_sample_size matches Some(x) ==> h.spec_contents().subrange(o3, o3 + 4)
                == be_u32(x)
            &&& h.default_sample_flags matches Some(x) ==> h.spec_contents().subrange(o4, o4 + 4)
                == be_u32(x)
        }),
{
    let c = h.spec_contents();
    let o1: int = 4 + (if h.base_data_offset is Some { 8int } else { 0 });
    let o2: int = o1 + (if h.sample_description_index is Some { 4int } else { 0 });
    let o3: int = o2 + (if h.default_sample_duration is Some { 4int } else { 0 });
    let o4: int = o3 + (if h.default_sample_size is Some { 4int } else { 0 });
    assert(c.subrange(0, 4) =~= be_u32(h.track_id));
    match h.base_data_offset {
        Some(x) => assert(c.subrange(4, 12) =~= be_u64(x)),
        None => {},
    }
    match h.sample_description_index {
        Some(x) => assert(c.subrange(o1, o1 + 4) =~= be_u32(x)),
        None => {},
    }
    match h.default_sample_duration {
        Some(x) => assert(c.subrange(o2, o2 + 4) =~= be_u32(x)),
        None => {},
    }
    match h.default_sample_size {
        Some(x) => assert(c.subrange(o3, o3 + 4) =~= be_u32(x)),
        None => {},
    }
    match h.default_sample_flags {
        Some(x) => assert(c.subrange(o4, o4 + 4) =~= be_u32(x)),
        None => {},
    }
}

impl Mp4Box for TrackFragmentHeaderBox {
    open spec fn spec_name() -> Seq<u8> {
        spec_fourcc(0x74, 0x66, 0x68, 0x64) // "tfhd"
    }

    open spec fn spec_full_header(&self) -> Option<FullBoxHeader> {
        Some(FullBoxHeader::spec_new(0, self.spec_flags()))
    }

    open spec fn spec_contents(&self) -> Seq<u8> {
        be_u32(self.track_id) + (match self.base_data_offset {
            Some(x) => be_u64(x),
            None => Seq::empty(),
        }) + opt_be_u32(self.sample_description_index) + opt_be_u32(self.default_sample_duration)
            + opt_be_u32(self.default_sample_size) + opt_be_u32(self.default_sample_flags)
    }

    open spec fn spec_content_size(&self) -> nat {
        self.spec_contents().len()
    }

    open spec fn spec_well_formed(&self) -> bool {
        true
    }

    open spec fn spec_sizes_agree(&self) -> bool {
        true
    }

    proof fn lemma_sizes_agree(&self) {
    }

    proof fn lemma_name_len() {
    }

    proof fn lemma_contents_len_bound(&self) {
    }

    fn name() -> (r: [u8; 4]) {
        fourcc(0x74, 0x66, 0x68, 0x64)
    }

    fn get_full_box_header(&self) -> (r: Option<FullBoxHeader>) {
        Some(FullBoxHeader::new(0, self.flags_from_fields()))
    }

    fn content_size(&self) -> (r: u64) {
        let mut size: u64 = 4; // track_ID
        if self.base_data_offset.is_some() {
            size = size + 8;
        }
        if self.sample_description_index.is_some() {
            size = size + 4;
        }
        if self.default_sample_duration.is_some() {
            size = size + 4;
        }
        if self.default_sample_size.is_some() {
            size = size + 4;
        }
        if self.default_sample_flags.is_some() {
            size = size + 4;
        }
        size
    }

    fn write_box_contents(&self, writer: &mut BytesMut) -> (r: Result<(), Mp4BoxError>) {
        let mut v: Vec<u8> = Vec::new();
        push_u32(&mut v, self.track_id);
        match self.base_data_offset {
            Some(x) => push_u64(&mut v, x),
            None => {},
        }
        push_opt_u32(&mut v, self.sample_description_index);
        push_opt_u32(&mut v, self.default_sample_duration);
        push_opt_u32(&mut v, self.default_sample_size);
        push_opt_u32(&mut v, self.default_sample_flags);
        assert(v@ =~= self.spec_contents());
        bytes_mut_extend(writer, v.as_slice());
        Ok(())
    }
}

} // verus!
