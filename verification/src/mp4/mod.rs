//! ISO base media file format (MP4) boxes and their serialization.
//!
//! Every box has a serialized form given by `spec_box_bytes`: a size field,
//! the four-character box type, an optional full-box header (version and
//! flags) and the box's own contents, `Mp4Box::spec_contents`.

use crate::buf::{bytes_mut_extend, bytes_mut_view};
use crate::endian::{be_u24, be_u32, be_u64, push_u24, push_u32, push_u64};
use bytes::BytesMut;
use vstd::prelude::*;

pub mod encode;
pub mod nested;
mod avc1;
mod avcc;
mod co64;
mod dinf;
mod dref;
mod ftyp;
mod mdia;
mod minf;
mod moof;
mod moov;
mod mvex;
mod mvhd;
mod smhd;
mod stbl;
mod stsd;
mod trak;
mod hdlr;
mod stsc;
mod stsz;
mod stts;
mod tfhd;
mod tkhd;
mod traf;
mod trun;
mod mdhd;
mod mehd;
mod mfhd;
mod mp4a;
mod tfdt;
mod trex;
mod url;
mod vmhd;

pub use avc1::AvcSampleEntryBox;
pub use mp4a::{
    lemma_desc_len_reads_back, lemma_es_descriptor_layout, lemma_es_descriptor_len, spec_desc_len, spec_descriptor, DecoderConfigDescriptor,
    DecoderSpecificInfo, EsDescriptor, EsdBox, Mpeg4AudioSampleEntryBox,
};
pub use avcc::{
    lemma_record_header, lemma_record_roundtrip, record_lacks_sets, spec_announced_length_size, spec_read_record, spec_read_sets, spec_record_fields,
    spec_record_lacks_sets, AvcConfigurationBox, AvcDecoderConfigurationRecord,
};
pub use co64::{lemma_co64_layout, ChunkLargeOffsetBox};
pub use dinf::DataInformationBox;
pub use dref::DataReferenceBox;
pub use ftyp::{lemma_ftyp_layout, FileTypeBox};
pub use mdia::MediaBox;
pub use minf::{MediaHeader, MediaInformationBox};
pub use moof::MovieFragmentBox;
pub use moov::MovieBox;
pub use mvex::MovieExtendsBox;
pub use mvhd::{lemma_mvhd_layout, MovieHeaderBox};
pub use smhd::{lemma_smhd_layout, SoundMediaHeaderBox};
pub use stbl::SampleTableBox;
pub use stsd::{entries_bytes, entries_size, SampleDescriptionBox, SampleEntry};
pub use trak::TrackBox;
pub use hdlr::{lemma_hdlr_layout, HandlerBox};
pub use stsc::{SampleToChunkBox, SampleToChunkEntry};
pub use stsz::{lemma_stsz_layout, SampleSizeBox};
pub use stts::{TimeToSampleBox, TimeToSampleEntry};
pub use tfhd::{
    lemma_tfhd_flags, lemma_tfhd_layout, lemma_tfhd_moof_base_flags, TrackFragmentHeaderBox,
};
pub use traf::TrackFragmentBox;
pub use trun::{lemma_sample_layout, spec_run_flags, TrackFragmentRunBox, TrackFragmentSample};
pub use tkhd::{lemma_tkhd_layout, TrackHeaderBox, TRACK_ENABLED, TRACK_IN_MOVIE, TRACK_IN_PREVIEW, TRACK_SIZE_IS_ASPECT_RATIO};
pub use mdhd::{lemma_mdhd_layout, MediaHeaderBox};
pub use mehd::{lemma_mehd_layout, MovieExtendsHeaderBox};
pub use mfhd::{lemma_mfhd_layout, MovieFragmentHeaderBox};
pub use tfdt::{lemma_tfdt_layout, TrackFragmentBaseMediaDecodeTimeBox};
pub use trex::{lemma_trex_layout, TrackExtendsBox};
pub use url::{lemma_url_layout, DataEntryUrlBox};
pub use vmhd::{lemma_vmhd_layout, VideoMediaHeaderBox};

verus! {

#[verifier::external_type_specification]
#[verifier::external_body]
pub struct ExIoError(std::io::Error);

/// Whether an I/O error's kind (`io::Error::kind`) is `UnexpectedEof`.
pub uninterp spec fn spec_is_unexpected_eof(e: std::io::Error) -> bool;

/// `std::io::Error::from(ErrorKind::UnexpectedEof)`: the error a reader gives
/// when input ends early; its kind is `UnexpectedEof`.
#[verifier::external_body]
pub(crate) fn unexpected_eof_error() -> (r: std::io::Error)
    ensures
        spec_is_unexpected_eof(r),
{
    std::io::Error::from(std::io::ErrorKind::UnexpectedEof)
}

/// Version and flags of a "full box".
#[derive(Copy, Clone)]
pub struct FullBoxHeader {
    version: u8,
    flags: u32,
}

impl FullBoxHeader {
    /// Number of bytes a full-box header takes.
    pub const SIZE: u64 = 4;

    pub closed spec fn spec_new(version: u8, flags: u32) -> FullBoxHeader {
        FullBoxHeader { version, flags }
    }

    pub closed spec fn spec_version(self) -> u8 {
        self.version
    }

    pub closed spec fn spec_flags(self) -> u32 {
        self.flags
    }

    /// A header made of a version and flags gives them back.
    pub proof fn lemma_new(version: u8, flags: u32)
        ensures
            Self::spec_new(version, flags).spec_version() == version,
            Self::spec_new(version, flags).spec_flags() == flags,
    {
    }

    pub fn new(version: u8, flags: u32) -> (r: Self)
        ensures
            r == Self::spec_new(version, flags),
            r.spec_version() == version,
            r.spec_flags() == flags,
    {
        FullBoxHeader { version, flags }
    }

    /// The flags of this header.
    pub fn flags(&self) -> (r: u32)
        ensures
            r == self.spec_flags(),
    {
        self.flags
    }

    /// The four serialized bytes: the version, then the low 24 bits of the
    /// flags, big-endian.
    pub closed spec fn spec_bytes(self) -> Seq<u8> {
        seq![self.version] + be_u24(self.flags)
    }

    /// A full-box header takes four bytes.
    pub proof fn lemma_bytes_len(self)
        ensures
            self.spec_bytes().len() == 4,
    {
    }
}

/// Error of writing or reading a box.
#[derive(Debug)]
pub enum Mp4BoxError {
    IoError(std::io::Error),
}

/// The serialized size of a box with `content_len` bytes of contents: an
/// 8-byte box header, plus 4 bytes when the box is a full box.
pub open spec fn spec_total_size(content_len: nat, has_full_header: bool) -> nat {
    if has_full_header {
        content_len + 4 + 8
    } else {
        content_len + 8
    }
}

/// The box header for a box of the given `size` and type: a 32-bit size and
/// the type, or, when `size` does not fit 32 bits, the size field 1, the type
/// and the size as 64 bits.
pub open spec fn spec_box_header(name: Seq<u8>, size: u64) -> Seq<u8> {
    if size > u32::MAX {
        be_u32(1) + name + be_u64(size)
    } else {
        be_u32(size as u32) + name
    }
}

/// The serialized form of a box with the given type, full-box header,
/// recorded content size and contents.
pub open spec fn spec_serialized(
    name: Seq<u8>,
    h: Option<FullBoxHeader>,
    content_size: nat,
    contents: Seq<u8>,
) -> Seq<u8> {
    spec_box_header(name, spec_total_size(content_size, h is Some) as u64) + spec_full_header_bytes(
        h,
    ) + contents
}

/// The serialized bytes of a full-box header, or nothing.
pub open spec fn spec_full_header_bytes(h: Option<FullBoxHeader>) -> Seq<u8> {
    match h {
        Some(h) => h.spec_bytes(),
        None => Seq::empty(),
    }
}

/// A full-box header whose flags fit the 24 bits they are written in.
pub open spec fn spec_header_fits(h: Option<FullBoxHeader>) -> bool {
    match h {
        Some(h) => h.spec_flags() < 0x100_0000,
        None => true,
    }
}

/// An MP4 box: a typed, size-prefixed unit of an MP4 file.
///
/// A box reports its content size (`content_size`) and writes its contents
/// (`write_box_contents`). For a box that holds other boxes the reported
/// size is the sum of its children's reported sizes; `spec_sizes_agree`
/// holds when that sum is the number of bytes written.
pub trait Mp4Box {
    /// The four-character box type.
    spec fn spec_name() -> Seq<u8>;

    /// The full-box header, if the box is a full box.
    spec fn spec_full_header(&self) -> Option<FullBoxHeader>;

    /// The serialized contents of the box, after its header.
    spec fn spec_contents(&self) -> Seq<u8>;

    /// The content size the box reports.
    spec fn spec_content_size(&self) -> nat;

    /// Holds of the values whose contents can be written: the conditions,
    /// beyond those `box_fits` states, under which writing neither panics
    /// nor overflows.
    spec fn spec_well_formed(&self) -> bool;

    /// Holds when every box nested in this one records, in its header, the
    /// number of bytes that follow its size field's start, so that the
    /// reported content size is the length of the contents.
    spec fn spec_sizes_agree(&self) -> bool;

    proof fn lemma_sizes_agree(&self)
        requires
            self.spec_well_formed(),
            self.spec_sizes_agree(),
        ensures
            self.spec_content_size() == self.spec_contents().len(),
    ;

    proof fn lemma_name_len()
        ensures
            Self::spec_name().len() == 4,
    ;

    /// The contents take at most twice the reported content size: nested
    /// boxes too large for a 32-bit size field take eight bytes more than
    /// they report.
    proof fn lemma_contents_len_bound(&self)
        requires
            self.spec_well_formed(),
        ensures
            self.spec_contents().len() <= 2 * self.spec_content_size(),
    ;

    /// The four-character box type.
    fn name() -> (r: [u8; 4])
        ensures
            r@ == Self::spec_name(),
    ;

    fn get_full_box_header(&self) -> (r: Option<FullBoxHeader>)
        ensures
            r == self.spec_full_header(),
    ;

    /// The flags of the full-box header, if any.
    fn flags(&self) -> (r: Option<u32>)
        ensures
            r == (match self.spec_full_header() {
                Some(h) => Some(h.spec_flags()),
                None => None::<u32>,
            }),
    {
        match self.get_full_box_header() {
            Some(h) => Some(h.flags()),
            None => None,
        }
    }

    /// The size of the contents of the box.
    fn content_size(&self) -> (r: u64)
        requires
            self.spec_content_size() + 16 <= u64::MAX,
        ensures
            r == self.spec_content_size(),
    ;

    /// The size of the whole box, header included.
    fn size(&self) -> (r: u64)
        requires
            self.spec_content_size() + 16 <= u64::MAX,
        ensures
            r == spec_total_size(self.spec_content_size(), self.spec_full_header() is Some),
    {
        let size = self.content_size();
        get_total_box_size(size, self.get_full_box_header().is_some())
    }

    /// Appends the contents of the box to `writer`.
    fn write_box_contents(&self, writer: &mut BytesMut) -> (r: Result<(), Mp4BoxError>)
        requires
            self.spec_well_formed(),
            self.spec_content_size() + 16 <= u64::MAX,
            bytes_mut_view(*old(writer)).len() + self.spec_contents().len() <= isize::MAX,
        ensures
            r is Ok,
            bytes_mut_view(*final(writer)) == bytes_mut_view(*old(writer)) + self.spec_contents(),
    ;

    /// Appends the whole box, header included, to `writer`.
    fn write(&self, writer: &mut BytesMut) -> (r: Result<(), Mp4BoxError>)
        requires
            self.spec_well_formed(),
            self.spec_content_size() + 16 <= u64::MAX,
            spec_header_fits(self.spec_full_header()),
            bytes_mut_view(*old(writer)).len() + spec_serialized(
                Self::spec_name(),
                self.spec_full_header(),
                self.spec_content_size(),
                self.spec_contents(),
            ).len() <= isize::MAX,
        ensures
            r is Ok,
            bytes_mut_view(*final(writer)) == bytes_mut_view(*old(writer)) + spec_serialized(
                Self::spec_name(),
                self.spec_full_header(),
                self.spec_content_size(),
                self.spec_contents(),
            ),
    {
        let size = self.size();
        let mut header: Vec<u8> = Vec::new();
        write_box_header(&mut header, Self::name(), size);
        let fh = self.get_full_box_header();
        match fh {
            Some(box_header) => {
                write_full_box_header(&mut header, box_header);
            },
            None => {},
        }
        assert(header@ =~= spec_box_header(Self::spec_name(), size) + spec_full_header_bytes(fh));
        bytes_mut_extend(writer, header.as_slice());
        let r = self.write_box_contents(writer);
        assert(bytes_mut_view(*writer) =~= bytes_mut_view(*old(writer)) + spec_serialized(
            Self::spec_name(),
            fh,
            self.spec_content_size(),
            self.spec_contents(),
        ));
        r
    }
}

/// A box that can be written: it is well formed, its full-box header's flags
/// fit 24 bits, and its size fits 64 bits with room for a large header.
pub open spec fn box_fits<B: Mp4Box + ?Sized>(b: &B) -> bool {
    &&& b.spec_well_formed()
    &&& spec_header_fits(b.spec_full_header())
    &&& b.spec_content_size() + 16 <= u64::MAX
}

/// The size a box reports, header included.
pub open spec fn spec_box_size<B: Mp4Box + ?Sized>(b: &B) -> nat {
    spec_total_size(b.spec_content_size(), b.spec_full_header() is Some)
}

/// The serialized form of a box.
pub open spec fn spec_box_bytes<B: Mp4Box + ?Sized>(b: &B) -> Seq<u8> {
    spec_serialized(B::spec_name(), b.spec_full_header(), b.spec_content_size(), b.spec_contents())
}

/// A box nested in another whose reported size is the number of bytes it
/// takes: its own sizes agree and it is small enough for the 32-bit size
/// field.
pub open spec fn box_size_agrees<B: Mp4Box + ?Sized>(b: &B) -> bool {
    &&& b.spec_sizes_agree()
    &&& spec_box_size(b) <= u32::MAX
}

/// The length of a box's serialized form. For a box of at most `u32::MAX`
/// bytes whose sizes agree, it is the size that the box reports.
pub proof fn lemma_box_bytes_len<B: Mp4Box + ?Sized>(b: &B)
    requires
        box_fits(b),
    ensures
        spec_box_bytes(b).len() == (if spec_box_size(b) > u32::MAX {
            16nat
        } else {
            8nat
        }) + (if b.spec_full_header() is Some {
            4nat
        } else {
            0nat
        }) + b.spec_contents().len(),
        box_size_agrees(b) ==> spec_box_bytes(b).len() == spec_box_size(b),
{
    B::lemma_name_len();
    match b.spec_full_header() {
        Some(h) => h.lemma_bytes_len(),
        None => {},
    }
    if box_size_agrees(b) {
        b.lemma_sizes_agree();
    }
}

/// A box is written (ISO/IEC 14496-12) as its size in four bytes and its
/// four-character type; for a size that does not fit 32 bits, the size
/// field is 1 and the size follows in eight bytes. A full box then has its
/// version in one byte and its flags in three, most significant first;
/// the contents come last.
pub proof fn lemma_box_layout<B: Mp4Box + ?Sized>(b: &B)
    ensures
        ({
            let bytes = spec_box_bytes(b);
            let size = spec_box_size(b) as u64;
            let head: int = if size > u32::MAX { 16 } else { 8 };
            &&& size <= u32::MAX ==> bytes.subrange(0, 4) == be_u32(size as u32)
            &&& size > u32::MAX ==> bytes.subrange(0, 4) == be_u32(1) && bytes.subrange(8, 16)
                == be_u64(size)
            &&& bytes.subrange(4, 8) == B::spec_name()
            &&& b.spec_full_header() matches Some(h) ==> {
                &&& bytes[head] == h.spec_version()
                &&& bytes.subrange(head + 1, head + 4) == be_u24(h.spec_flags())
                &&& bytes.skip(head + 4) == b.spec_contents()
            }
            &&& b.spec_full_header() is None ==> bytes.skip(head) == b.spec_contents()
        }),
{
    B::lemma_name_len();
    let bytes = spec_box_bytes(b);
    let size = spec_box_size(b) as u64;
    let head: int = if size > u32::MAX { 16 } else { 8 };
    let hb = spec_box_header(B::spec_name(), size);
    assert(hb.len() == head);
    assert(hb.subrange(4, 8) =~= B::spec_name());
    assert(bytes.subrange(4, 8) =~= hb.subrange(4, 8));
    if size > u32::MAX {
        assert(bytes.subrange(0, 4) =~= be_u32(1));
        assert(bytes.subrange(8, 16) =~= be_u64(size));
    } else {
        assert(bytes.subrange(0, 4) =~= be_u32(size as u32));
    }
    match b.spec_full_header() {
        Some(h) => {
            h.lemma_bytes_len();
            assert(bytes.subrange(head + 1, head + 4) =~= be_u24(h.spec_flags()));
            assert(bytes.skip(head + 4) =~= b.spec_contents());
        },
        None => {
            assert(bytes.skip(head) =~= b.spec_contents());
        },
    }
}

/// A box's serialized form takes at most twice the size it reports.
pub proof fn lemma_box_bytes_bound<B: Mp4Box + ?Sized>(b: &B)
    requires
        box_fits(b),
    ensures
        spec_box_bytes(b).len() <= 2 * spec_box_size(b),
{
    lemma_box_bytes_len(b);
    b.lemma_contents_len_bound();
}

fn get_total_box_size(content_size: u64, has_full_header: bool) -> (r: u64)
    requires
        content_size + 16 <= u64::MAX,
    ensures
        r == spec_total_size(content_size as nat, has_full_header),
{
    if has_full_header {
        content_size + FullBoxHeader::SIZE + 8
    } else {
        content_size + 8
    }
}

/// Appends the box header for a box of type `name` and the given size;
/// returns the number of bytes appended.
fn write_box_header(header: &mut Vec<u8>, name: [u8; 4], size: u64) -> (r: usize)
    ensures
        final(header)@ == old(header)@ + spec_box_header(name@, size),
        r == spec_box_header(name@, size).len(),
{
    if size > u32::MAX as u64 {
        push_u32(header, 1);
        header.push(name[0]);
        header.push(name[1]);
        header.push(name[2]);
        header.push(name[3]);
        push_u64(header, size);
        assert(header@ =~= old(header)@ + spec_box_header(name@, size));
        16
    } else {
        push_u32(header, size as u32);
        header.push(name[0]);
        header.push(name[1]);
        header.push(name[2]);
        header.push(name[3]);
        assert(header@ =~= old(header)@ + spec_box_header(name@, size));
        8
    }
}

/// Appends the four bytes of a full-box header; returns 4.
fn write_full_box_header(header: &mut Vec<u8>, box_header: FullBoxHeader) -> (r: usize)
    ensures
        final(header)@ == old(header)@ + box_header.spec_bytes(),
        r == 4,
{
    header.push(box_header.version);
    push_u24(header, box_header.flags);
    assert(header@ =~= old(header)@ + box_header.spec_bytes());
    4
}

} // verus!

verus! {

/// Media data (`mdat`): the raw sample bytes of a fragment, after a
/// full-box header of version 0 and flags 0.
pub struct MediaDataBox<'a> {
    pub data: &'a [u8],
}

impl<'a> Mp4Box for MediaDataBox<'a> {
    open spec fn spec_name() -> Seq<u8> {
        seq![0x6du8, 0x64, 0x61, 0x74] // "mdat"
    }

    open spec fn spec_full_header(&self) -> Option<FullBoxHeader> {
        Some(FullBoxHeader::spec_new(0, 0))
    }

    open spec fn spec_contents(&self) -> Seq<u8> {
        self.data@
    }

    open spec fn spec_content_size(&self) -> nat {
        self.spec_contents().len()
    }

    open spec fn spec_well_formed(&self) -> bool {
        true
    }

    open spec fn spec_sizes_agree(&self) -> bool {
        true
    }

    proof fn lemma_sizes_agree(&self) {
    }

    proof fn lemma_name_len() {
    }

    proof fn lemma_contents_len_bound(&self) {
    }

    fn name() -> (r: [u8; 4]) {
        let r: [u8; 4] = [0x6d, 0x64, 0x61, 0x74];
        assert(r@ =~= Self::spec_name());
        r
    }

    fn get_full_box_header(&self) -> (r: Option<FullBoxHeader>) {
        Some(FullBoxHeader::new(0, 0))
    }

    fn content_size(&self) -> (r: u64) {
        self.data.len() as u64
    }

    fn write_box_contents(&self, writer: &mut BytesMut) -> (r: Result<(), Mp4BoxError>) {
        bytes_mut_extend(writer, self.data);
        Ok(())
    }
}

} // verus!
