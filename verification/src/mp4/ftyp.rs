//! File type box (`ftyp`): the brands a file conforms to.

use crate::buf::{bytes_mut_extend, bytes_mut_view};
use crate::endian::{be_u32, push_u32};
use crate::mp4::encode::{concat_bytes, fourcc, lemma_concat_bytes_len_uniform, lemma_concat_bytes_push, spec_fourcc};
use crate::mp4::{FullBoxHeader, Mp4Box, Mp4BoxError};
use bytes::BytesMut;
use vstd::prelude::*;

verus! {

pub struct FileTypeBox {
    major_brand: [u8; 4],
    minor_version: u32,
    compatible_brands: Vec<[u8; 4]>,
}

impl FileTypeBox {
    pub fn new(major_brand: [u8; 4], minor_version: u32, compatible_brands: Vec<[u8; 4]>) -> (r:
        Self)
        ensures
            r.spec_major_brand() == major_brand@,
            r.spec_minor_version() == minor_version,
            r.spec_compatible_brands() == compatible_brands@,
    {
        FileTypeBox { major_brand, minor_version, compatible_brands }
    }

    pub closed spec fn spec_major_brand(&self) -> Seq<u8> {
        self.major_brand@
    }

    pub closed spec fn spec_minor_version(&self) -> u32 {
        self.minor_version
    }

    pub closed spec fn spec_compatible_brands(&self) -> Seq<[u8; 4]> {
        self.compatible_brands@
    }
}

/// The brands one after the other, four bytes each.
pub open spec fn brands_bytes(s: Seq<[u8; 4]>) -> Seq<u8> {
    concat_bytes(s, |b: [u8; 4]| b@)
}

/// The contents of a file type box (ISO/IEC 14496-12): the major brand in
/// four bytes, the minor version in four bytes at offset 4, then each
/// compatible brand in four bytes, in order.
pub proof fn lemma_ftyp_layout(b: FileTypeBox, i: int)
    requires
        0 <= i < b.spec_compatible_brands().len(),
    ensures
        b.spec_contents().len() == 8 + 4 * b.spec_compatible_brands().len(),
        b.spec_contents().subrange(0, 4) == b.spec_major_brand(),
        b.spec_contents().subrange(4, 8) == be_u32(b.spec_minor_version()),
        b.spec_contents().subrange(8 + 4 * i, 12 + 4 * i) == b.spec_compatible_brands()[i]@,
        b.spec_full_header() is None,
{
    let c = b.spec_contents();
    let s = b.spec_compatible_brands();
    lemma_concat_bytes_len_uniform(s, |x: [u8; 4]| x@, 4);
    lemma_concat_bytes_len_uniform(s.take(i), |x: [u8; 4]| x@, 4);
    lemma_concat_bytes_push(s, i, |x: [u8; 4]| x@);
    crate::mp4::encode::lemma_concat_bytes_split(s, i + 1, |x: [u8; 4]| x@);
    assert(s.take(i + 1).drop_last() =~= s.take(i));
    assert(c.subrange(0, 4) =~= b.spec_major_brand());
    assert(c.subrange(4, 8) =~= be_u32(b.spec_minor_version()));
    assert(c.subrange(8 + 4 * i, 12 + 4 * i) =~= s[i]@);
}

impl Mp4Box for FileTypeBox {
    open spec fn spec_name() -> Seq<u8> {
        spec_fourcc(0x66, 0x74, 0x79, 0x70) // "ftyp"
    }

    open spec fn spec_full_header(&self) -> Option<FullBoxHeader> {
        None
    }

    /// The major brand, the minor version and the compatible brands.
    open spec fn spec_contents(&self) -> Seq<u8> {
        self.spec_major_brand() + be_u32(self.spec_minor_version()) + brands_bytes(
            self.spec_compatible_brands(),
        )
    }

    open spec fn spec_content_size(&self) -> nat {
        self.spec_contents().len()
    }

    open spec fn spec_well_formed(&self) -> bool {
        true
    }

    open spec fn spec_sizes_agree(&self) -> bool {
        true
    }

    proof fn lemma_sizes_agree(&self) {
    }

    proof fn lemma_name_len() {
    }

    proof fn lemma_contents_len_bound(&self) {
    }

    fn name() -> (r: [u8; 4]) {
        fourcc(0x66, 0x74, 0x79, 0x70)
    }

    fn get_full_box_header(&self) -> (r: Option<FullBoxHeader>) {
        None
    }

    fn content_size(&self) -> (r: u64) {
        proof {
            lemma_concat_bytes_len_uniform(self.compatible_brands@, |b: [u8; 4]| b@, 4);
        }
        4 + // major_brand
        4 + // minor_version
        4 * self.compatible_brands.len() as u64 // compatible_brands
    }

    fn write_box_contents(&self, writer: &mut BytesMut) -> (r: Result<(), Mp4BoxError>) {
        let mut v: Vec<u8> = Vec::new();
        let m = self.major_brand;
        v.push(m[0]);
        v.push(m[1]);
        v.push(m[2]);
        v.push(m[3]);
        push_u32(&mut v, self.minor_version);
        let ghost head = v@;
        let mut i: usize = 0;
        while i < self.compatible_brands.len()
            invariant
                i <= self.compatible_brands@.len(),
                v@ == head + brands_bytes(self.compatible_brands@.take(i as int)),
            decreases self.compatible_brands@.len() - i,
        {
            proof {
                lemma_concat_bytes_push(self.compatible_brands@, i as int, |b: [u8; 4]| b@);
            }
            let b = self.compatible_brands[i];
            v.push(b[0]);
            v.push(b[1]);
            v.push(b[2]);
            v.push(b[3]);
            assert(b@ =~= seq![b[0], b[1], b[2], b[3]]);
            i = i + 1;
        }
        assert(self.compatible_brands@.take(i as int) =~= self.compatible_brands@);
        assert(v@ =~= self.spec_contents());
        bytes_mut_extend(writer, v.as_slice());
        Ok(())
    }
}

} // verus!
