//! MPEG-4 audio sample entry box (`mp4a`) and its elementary stream
//! descriptor box (`esds`), which holds the decoder configuration of an AAC
//! track as MPEG-4 descriptors.

use crate::buf::{bytes_mut_extend, bytes_mut_view};
use crate::endian::{be_u16, be_u24, be_u32, push_slice, push_u16, push_u24, push_u32, push_zeros};
use crate::mp4::avc1::zeros;
use crate::mp4::encode::{fourcc, spec_fourcc};
use crate::mp4::{
    box_fits, box_size_agrees, lemma_box_bytes_bound, lemma_box_bytes_len, spec_box_bytes,
    spec_box_size, FullBoxHeader, Mp4Box, Mp4BoxError,
};
use bytes::BytesMut;
use vstd::prelude::*;

verus! {

/// The length field of a descriptor: four bytes of seven bits each, most
/// significant first, every byte but the last with its high bit set. The
/// field holds lengths below 2^28; of a longer payload it holds the low 28
/// bits.
pub open spec fn spec_desc_len(n: u32) -> Seq<u8> {
    seq![
        (0x80u32 | ((n >> 21u32) & 0x7fu32)) as u8,
        (0x80u32 | ((n >> 14u32) & 0x7fu32)) as u8,
        (0x80u32 | ((n >> 7u32) & 0x7fu32)) as u8,
        (n & 0x7fu32) as u8,
    ]
}

/// A descriptor: its tag, the length of its payload, and the payload.
pub open spec fn spec_descriptor(tag: u8, payload: Seq<u8>) -> Seq<u8> {
    seq![tag] + spec_desc_len(payload.len() as u32) + payload
}

/// Appends a descriptor with the given tag and payload.
fn push_descriptor(v: &mut Vec<u8>, tag: u8, payload: &Vec<u8>)
    ensures
        final(v)@ == old(v)@ + spec_descriptor(tag, payload@),
{
    let n = payload.len() as u32;
    v.push(tag);
    v.push((0x80u32 | ((n >> 21u32) & 0x7fu32)) as u8);
    v.push((0x80u32 | ((n >> 14u32) & 0x7fu32)) as u8);
    v.push((0x80u32 | ((n >> 7u32) & 0x7fu32)) as u8);
    v.push((n & 0x7fu32) as u8);
    push_slice(v, payload.as_slice());
    assert(v@ =~= old(v)@ + spec_descriptor(tag, payload@));
}

/// Decoder-specific information (tag 5): for AAC, the AudioSpecificConfig.
pub struct DecoderSpecificInfo {
    pub data: Vec<u8>,
}

impl DecoderSpecificInfo {
    pub open spec fn spec_bytes(&self) -> Seq<u8> {
        spec_descriptor(5, self.data@)
    }
}

/// A decoder configuration descriptor (tag 4) of an audio stream: the
/// object type, the stream type byte 0x15 (audio, not upstream), a buffer
/// size and maximum and average bit rates of 0, and the decoder-specific
/// information, if any.
pub struct DecoderConfigDescriptor {
    pub object_type_indication: u8,
    pub decoder_specific_info: Option<DecoderSpecificInfo>,
}

impl DecoderConfigDescriptor {
    pub open spec fn spec_payload(&self) -> Seq<u8> {
        seq![self.object_type_indication, 0x15u8] + be_u24(0) + be_u32(0) + be_u32(0) + match self.decoder_specific_info {
            Some(d) => d.spec_bytes(),
            None => Seq::empty(),
        }
    }

    pub open spec fn spec_bytes(&self) -> Seq<u8> {
        spec_descriptor(4, self.spec_payload())
    }
}

/// An elementary stream descriptor (tag 3): the stream's ID, no flags, its
/// decoder configuration, and the MP4 sync-layer configuration (tag 6,
/// predefined 2).
pub struct EsDescriptor {
    pub es_id: u16,
    pub decoder_config: DecoderConfigDescriptor,
}

impl EsDescriptor {
    pub open spec fn spec_payload(&self) -> Seq<u8> {
        be_u16(self.es_id) + seq![0u8] + self.decoder_config.spec_bytes() + spec_descriptor(
            6,
            seq![2u8],
        )
    }

    pub open spec fn spec_bytes(&self) -> Seq<u8> {
        spec_descriptor(3, self.spec_payload())
    }

    /// The serialized descriptor.
    pub fn to_bytes(&self) -> (r: Vec<u8>)
        ensures
            r@ == self.spec_bytes(),
    {
        let mut dcd: Vec<u8> = Vec::new();
        dcd.push(self.decoder_config.object_type_indication);
        dcd.push(0x15);
        push_u24(&mut dcd, 0);
        push_u32(&mut dcd, 0);
        push_u32(&mut dcd, 0);
        match &self.decoder_config.decoder_specific_info {
            Some(d) => push_descriptor(&mut dcd, 5, &d.data),
            None => {},
        }
        assert(dcd@ =~= self.decoder_config.spec_payload());
        let mut es: Vec<u8> = Vec::new();
        push_u16(&mut es, self.es_id);
        es.push(0);
        push_descriptor(&mut es, 4, &dcd);
        let sl: Vec<u8> = vec![2u8];
        assert(sl@ =~= seq![2u8]);
        push_descriptor(&mut es, 6, &sl);
        assert(es@ =~= self.spec_payload());
        let mut r: Vec<u8> = Vec::new();
        push_descriptor(&mut r, 3, &es);
        assert(r@ =~= self.spec_bytes());
        r
    }
}

/// The length of an elementary stream descriptor: 32 bytes, and the
/// decoder-specific information's with its 5-byte descriptor header.
pub proof fn lemma_es_descriptor_len(es: EsDescriptor)
    ensures
        es.spec_bytes().len() == 32 + match es.decoder_config.decoder_specific_info {
            Some(d) => 5 + d.data@.len(),
            None => 0,
        },
{
}

/// A descriptor length below 2^28 reads back from its four bytes: seven
/// bits from each, most significant first, the continuation bit set on
/// the first three bytes and clear on the last.
pub proof fn lemma_desc_len_reads_back(n: u32)
    requires
        n < 0x1000_0000,
    ensures
        spec_desc_len(n).len() == 4,
        spec_desc_len(n)[0] & 0x80u8 == 0x80u8,
        spec_desc_len(n)[1] & 0x80u8 == 0x80u8,
        spec_desc_len(n)[2] & 0x80u8 == 0x80u8,
        spec_desc_len(n)[3] & 0x80u8 == 0u8,
        (((spec_desc_len(n)[0] & 0x7fu8) as u32) << 21u32) | (((spec_desc_len(n)[1] & 0x7fu8) as u32)
            << 14u32) | (((spec_desc_len(n)[2] & 0x7fu8) as u32) << 7u32) | ((spec_desc_len(n)[3]
            & 0x7fu8) as u32) == n,
{
    let b0 = (0x80u32 | ((n >> 21u32) & 0x7fu32)) as u8;
    let b1 = (0x80u32 | ((n >> 14u32) & 0x7fu32)) as u8;
    let b2 = (0x80u32 | ((n >> 7u32) & 0x7fu32)) as u8;
    let b3 = (n & 0x7fu32) as u8;
    assert(b0 & 0x80u8 == 0x80u8 && b1 & 0x80u8 == 0x80u8 && b2 & 0x80u8 == 0x80u8 && b3 & 0x80u8
        == 0u8 && (((b0 & 0x7fu8) as u32) << 21u32) | (((b1 & 0x7fu8) as u32) << 14u32) | (((b2
        & 0x7fu8) as u32) << 7u32) | ((b3 & 0x7fu8) as u32) == n) by (bit_vector)
        requires
            n < 0x1000_0000,
            b0 == (0x80u32 | ((n >> 21u32) & 0x7fu32)) as u8,
            b1 == (0x80u32 | ((n >> 14u32) & 0x7fu32)) as u8,
            b2 == (0x80u32 | ((n >> 7u32) & 0x7fu32)) as u8,
            b3 == (n & 0x7fu32) as u8,
    ;
}

/// An elementary stream descriptor (ISO/IEC 14496-1) is tag 3 and its
/// length, then the ES ID in two bytes at offset 5 and a zero flags byte;
/// at offset 8 the decoder configuration descriptor (tag 4) with the
/// object type at offset 13 and the stream type byte 0x15 at offset 14
/// followed by eleven zero bytes; after it, when present, the
/// decoder-specific information (tag 5) with its data; and last the
/// sync-layer descriptor: tag 6, length 1, predefined 2.
pub proof fn lemma_es_descriptor_layout(es: EsDescriptor)
    ensures
        es.spec_bytes()[0] == 3u8,
        es.spec_bytes().subrange(1, 5) == spec_desc_len(es.spec_payload().len() as u32),
        es.spec_bytes().subrange(5, 7) == be_u16(es.es_id),
        es.spec_bytes()[7] == 0u8,
        es.spec_bytes()[8] == 4u8,
        es.spec_bytes()[13] == es.decoder_config.object_type_indication,
        es.spec_bytes()[14] == 0x15u8,
        es.spec_bytes().subrange(15, 26) == zeros(11),
        es.decoder_config.decoder_specific_info matches Some(d) ==> {
            &&& es.spec_bytes()[26] == 5u8
            &&& es.spec_bytes().subrange(27, 31) == spec_desc_len(d.data@.len() as u32)
            &&& es.spec_bytes().subrange(31, 31 + d.data@.len() as int) == d.data@
        },
        es.spec_bytes().subrange(es.spec_bytes().len() - 6, es.spec_bytes().len() as int) == seq![
            6u8,
            0x80u8,
            0x80u8,
            0x80u8,
            1u8,
            2u8,
        ],
{
    let s = es.spec_bytes();
    lemma_es_descriptor_len(es);
    assert((0u32 >> 16u32) as u8 == 0u8 && (0u32 >> 8u32) as u8 == 0u8 && (0u32 >> 24u32) as u8
        == 0u8 && 0u32 as u8 == 0u8) by (bit_vector);
    assert(s.subrange(15, 26) =~= zeros(11));
    assert(s.subrange(1, 5) =~= spec_desc_len(es.spec_payload().len() as u32));
    assert(s.subrange(5, 7) =~= be_u16(es.es_id));
    match es.decoder_config.decoder_specific_info {
        Some(d) => {
            assert(s.subrange(27, 31) =~= spec_desc_len(d.data@.len() as u32));
            assert(s.subrange(31, 31 + d.data@.len() as int) =~= d.data@);
        },
        None => {},
    }
    let one: u32 = 1;
    assert((0x80u32 | ((one >> 21u32) & 0x7fu32)) as u8 == 0x80u8 && (0x80u32 | ((one >> 14u32)
        & 0x7fu32)) as u8 == 0x80u8 && (0x80u32 | ((one >> 7u32) & 0x7fu32)) as u8 == 0x80u8 && (one
        & 0x7fu32) as u8 == 1u8) by (bit_vector)
        requires
            one == 1,
    ;
    assert(spec_desc_len(1) =~= seq![0x80u8, 0x80u8, 0x80u8, 1u8]);
    assert(s.subrange(s.len() - 6, s.len() as int) =~= seq![6u8, 0x80u8, 0x80u8, 0x80u8, 1u8, 2u8]);
}

/// Elementary stream descriptor box (`esds`, version 0): the stream's
/// descriptor.
pub struct EsdBox {
    pub descriptor: EsDescriptor,
}

impl Mp4Box for EsdBox {
    open spec fn spec_name() -> Seq<u8> {
        spec_fourcc(0x65, 0x73, 0x64, 0x73) // "esds"
    }

    open spec fn spec_full_header(&self) -> Option<FullBoxHeader> {
        Some(FullBoxHeader::spec_new(0, 0))
    }

    open spec fn spec_contents(&self) -> Seq<u8> {
        self.descriptor.spec_bytes()
    }

    open spec fn spec_content_size(&self) -> nat {
        self.spec_contents().len()
    }

    open spec fn spec_well_formed(&self) -> bool {
        true
    }

    open spec fn spec_sizes_agree(&self) -> bool {
        true
    }

    proof fn lemma_sizes_agree(&self) {
    }

    proof fn lemma_name_len() {
    }

    proof fn lemma_contents_len_bound(&self) {
    }

    fn name() -> (r: [u8; 4]) {
        fourcc(0x65, 0x73, 0x64, 0x73)
    }

    fn get_full_box_header(&self) -> (r: Option<FullBoxHeader>) {
        Some(FullBoxHeader::new(0, 0))
    }

    fn content_size(&self) -> (r: u64) {
        self.descriptor.to_bytes().len() as u64
    }

    fn write_box_contents(&self, writer: &mut BytesMut) -> (r: Result<(), Mp4BoxError>) {
        let bytes = self.descriptor.to_bytes();
        bytes_mut_extend(writer, bytes.as_slice());
        Ok(())
    }
}

/// MPEG-4 audio sample entry (`mp4a`): reserved bytes, data reference
/// index 1, the channel count, the sample size, the sample rate as 16.16
/// fixed point, and the `esds` box.
pub struct Mpeg4AudioSampleEntryBox {
    pub channel_count: u16,
    pub sample_size: u16,
    pub sample_rate: u32,
    pub esds: EsdBox,
}

impl Mpeg4AudioSampleEntryBox {
    /// The audio sample entry fields before the `esds` box.
    pub open spec fn spec_fields(&self) -> Seq<u8> {
        zeros(6) + be_u16(1) + zeros(8) + be_u16(self.channel_count) + be_u16(self.sample_size)
            + zeros(4) + be_u32(self.sample_rate << 16u32)
    }

    /// The audio sample entry fields (ISO/IEC 14496-12) are 28 bytes: data
    /// reference index 1 at offset 6, the channel count at offset 16 and
    /// the sample size at offset 18 in two bytes each, and the sample rate
    /// as 16.16 fixed point at offset 24: its low sixteen bits, then two
    /// zero bytes; most significant byte first. The `esds` box follows.
    pub proof fn lemma_fields_layout(&self)
        ensures
            self.spec_fields().len() == 28,
            self.spec_fields().subrange(0, 6) == zeros(6),
            self.spec_fields().subrange(6, 8) == be_u16(1),
            self.spec_fields().subrange(8, 16) == zeros(8),
            self.spec_fields().subrange(16, 18) == be_u16(self.channel_count),
            self.spec_fields().subrange(18, 20) == be_u16(self.sample_size),
            self.spec_fields().subrange(20, 24) == zeros(4),
            self.spec_fields().subrange(24, 26) == be_u16(self.sample_rate as u16),
            self.spec_fields().subrange(26, 28) == zeros(2),
    {
        let f = self.spec_fields();
        let r = self.sample_rate;
        let x = r << 16u32;
        assert((x >> 24u32) as u8 == ((r as u16) >> 8u16) as u8 && (x >> 16u32) as u8 == (r as u16) as u8
            && (x >> 8u32) as u8 == 0u8 && x as u8 == 0u8) by (bit_vector)
            requires
                x == r << 16u32,
        ;
        assert(f.subrange(0, 6) =~= zeros(6));
        assert(f.subrange(6, 8) =~= be_u16(1));
        assert(f.subrange(8, 16) =~= zeros(8));
        assert(f.subrange(16, 18) =~= be_u16(self.channel_count));
        assert(f.subrange(18, 20) =~= be_u16(self.sample_size));
        assert(f.subrange(20, 24) =~= zeros(4));
        assert(f.subrange(24, 26) =~= be_u16(r as u16));
        assert(f.subrange(26, 28) =~= zeros(2));
    }

    /// What the box's contents, reported size and conditions are made of.
    pub proof fn lemma_unfold(&self)
        ensures
            self.spec_contents() == self.spec_fields() + spec_box_bytes(&self.esds),
            self.spec_content_size() == 28 + spec_box_size(&self.esds),
            self.spec_well_formed() == box_fits(&self.esds),
            self.spec_sizes_agree() == box_size_agrees(&self.esds),
    {
    }
}

impl Mp4Box for Mpeg4AudioSampleEntryBox {
    open spec fn spec_name() -> Seq<u8> {
        spec_fourcc(0x6d, 0x70, 0x34, 0x61) // "mp4a"
    }

    open spec fn spec_full_header(&self) -> Option<FullBoxHeader> {
        None
    }

    closed spec fn spec_contents(&self) -> Seq<u8> {
        self.spec_fields() + spec_box_bytes(&self.esds)
    }

    closed spec fn spec_content_size(&self) -> nat {
        28 + spec_box_size(&self.esds)
    }

    closed spec fn spec_well_formed(&self) -> bool {
        box_fits(&self.esds)
    }

    closed spec fn spec_sizes_agree(&self) -> bool {
        box_size_agrees(&self.esds)
    }

    proof fn lemma_sizes_agree(&self) {
        lemma_box_bytes_len(&self.esds);
    }

    proof fn lemma_name_len() {
    }

    proof fn lemma_contents_len_bound(&self) {
        lemma_box_bytes_bound(&self.esds);
    }

    fn name() -> (r: [u8; 4]) {
        fourcc(0x6d, 0x70, 0x34, 0x61)
    }

    fn get_full_box_header(&self) -> (r: Option<FullBoxHeader>) {
        None
    }

    fn content_size(&self) -> (r: u64) {
        28 + self.esds.size()
    }

    fn write_box_contents(&self, writer: &mut BytesMut) -> (r: Result<(), Mp4BoxError>) {
        let mut v: Vec<u8> = Vec::new();
        push_zeros(&mut v, 6);
        push_u16(&mut v, 1);
        push_zeros(&mut v, 8);
        push_u16(&mut v, self.channel_count);
        push_u16(&mut v, self.sample_size);
        push_zeros(&mut v, 4);
        push_u32(&mut v, self.sample_rate << 16u32);
        assert(v@ =~= self.spec_fields());
        bytes_mut_extend(writer, v.as_slice());
        self.esds.write(writer)?;
        assert(bytes_mut_view(*writer) =~= bytes_mut_view(*old(writer)) + self.spec_contents());
        Ok(())
    }
}

} // verus!
