//! Framing of H.26x NAL units: length-prefixed (AVC, as in MP4 files) and
//! start-code-prefixed (Annex B).

use crate::buf::{
    bytes_copy_from_slice, bytes_get_u16, bytes_get_u32, bytes_len, bytes_mut_extend, bytes_mut_freeze, bytes_mut_new, bytes_mut_view,
    bytes_seq_view, bytes_split_to, bytes_view,
};
use crate::endian::{be_u16, be_u32, spec_from_be_u16, spec_from_be_u32};
use crate::media::BitstreamFraming;
use crate::mp4::encode::{concat_bytes, lemma_concat_bytes_push, lemma_concat_bytes_split};
use bytes::{Bytes, BytesMut};
use h264_reader::nal::NalHeader;
use vstd::prelude::*;

verus! {

/// The Annex B start code put before each NAL unit.
pub open spec fn spec_four_byte_start_code() -> Seq<u8> {
    seq![0u8, 0, 0, 1]
}

/// The length prefix of a NAL unit of `len` bytes: big-endian, two or four
/// bytes, truncated to that width.
pub open spec fn spec_length_prefix(len: nat, length_size: nat) -> Seq<u8> {
    if length_size == 2 {
        be_u16(len as u16)
    } else {
        be_u32(len as u32)
    }
}

/// NAL units, each after a length prefix of `length_size` bytes.
pub open spec fn spec_frame_with_length(units: Seq<Seq<u8>>, length_size: nat) -> Seq<u8> {
    concat_bytes(units, |u: Seq<u8>| spec_length_prefix(u.len(), length_size) + u)
}

/// NAL units, each after the four-byte start code.
pub open spec fn spec_frame_with_start_codes(units: Seq<Seq<u8>>) -> Seq<u8> {
    concat_bytes(units, |u: Seq<u8>| spec_four_byte_start_code() + u)
}

/// NAL units framed as `target` says.
pub open spec fn spec_frame_nal_units(units: Seq<Seq<u8>>, target: BitstreamFraming) -> Seq<u8> {
    match target {
        BitstreamFraming::TwoByteLength => spec_frame_with_length(units, 2),
        BitstreamFraming::FourByteLength => spec_frame_with_length(units, 4),
        BitstreamFraming::FourByteStartCode => spec_frame_with_start_codes(units),
    }
}

/// The NAL units of a length-prefixed bitstream `s`. While more than
/// `length_size` bytes are left, a unit is the prefix's value in bytes after
/// the prefix; what is left at the end, no longer than a prefix, is dropped.
/// `None` when a prefix promises more bytes than are left.
pub open spec fn spec_parse_length_field(s: Seq<u8>, length_size: nat) -> Option<Seq<Seq<u8>>>
    recommends
        length_size == 2 || length_size == 4,
    decreases s.len(),
{
    if s.len() <= length_size || length_size == 0 {
        Some(Seq::empty())
    } else {
        let len = (if length_size == 2 {
            spec_from_be_u16(s) as nat
        } else {
            spec_from_be_u32(s) as nat
        });
        if s.len() < length_size + len {
            None
        } else {
            match spec_parse_length_field(s.skip(length_size + len as int), length_size) {
                Some(rest) => Some(seq![s.subrange(length_size as int, length_size + len as int)] + rest),
                None => None,
            }
        }
    }
}

/// Splits a length-prefixed bitstream into its NAL units.
fn parse_bitstream_length_field(bitstream: Bytes, length_size: usize) -> (r: Vec<Bytes>)
    requires
        length_size == 2 || length_size == 4,
        spec_parse_length_field(bytes_view(bitstream), length_size as nat) is Some,
    ensures
        bytes_seq_view(r@) == spec_parse_length_field(bytes_view(bitstream), length_size as nat)->0,
{
    let mut bitstream = bitstream;
    let mut nal_units: Vec<Bytes> = Vec::new();
    let ghost s0 = bytes_view(bitstream);
    while bytes_len(&bitstream) > length_size
        invariant
            length_size == 2 || length_size == 4,
            spec_parse_length_field(bytes_view(bitstream), length_size as nat) is Some,
            spec_parse_length_field(s0, length_size as nat)->0 == bytes_seq_view(nal_units@)
                + spec_parse_length_field(bytes_view(bitstream), length_size as nat)->0,
        decreases bytes_view(bitstream).len(),
    {
        let ghost s = bytes_view(bitstream);
        let nal_unit_len: usize = if length_size == 2 {
            bytes_get_u16(&mut bitstream) as usize
        } else {
            bytes_get_u32(&mut bitstream) as usize
        };
        let nal_unit = bytes_split_to(&mut bitstream, nal_unit_len);
        proof {
            assert(bytes_view(nal_unit) =~= s.subrange(
                length_size as int,
                length_size + nal_unit_len,
            ));
            assert(bytes_view(bitstream) =~= s.skip(length_size + nal_unit_len));
            assert(bytes_seq_view(nal_units@.push(nal_unit)) =~= bytes_seq_view(nal_units@).push(
                bytes_view(nal_unit),
            ));
        }
        nal_units.push(nal_unit);
        proof {
            let rest = spec_parse_length_field(bytes_view(bitstream), length_size as nat)->0;
            assert(bytes_seq_view(nal_units@) + rest =~= bytes_seq_view(nal_units@).drop_last()
                + (seq![bytes_view(nal_unit)] + rest));
        }
    }
    assert(bytes_seq_view(nal_units@) + Seq::<Seq<u8>>::empty() =~= bytes_seq_view(nal_units@));
    nal_units
}

/// Appends, for each NAL unit, the four-byte start code and the unit.
fn frame_nal_units_with_start_codes(nal_units: &[Bytes]) -> (r: BytesMut)
    requires
        spec_frame_with_start_codes(bytes_seq_view(nal_units@)).len() <= isize::MAX,
    ensures
        bytes_mut_view(r) == spec_frame_with_start_codes(bytes_seq_view(nal_units@)),
{
    let mut bitstream = bytes_mut_new();
    let codes: [u8; 4] = [0, 0, 0, 1];
    assert(codes@ =~= spec_four_byte_start_code());
    let ghost units = bytes_seq_view(nal_units@);
    let mut i: usize = 0;
    while i < nal_units.len()
        invariant
            i <= nal_units@.len(),
            units == bytes_seq_view(nal_units@),
            codes@ == spec_four_byte_start_code(),
            concat_bytes(units, |u: Seq<u8>| spec_four_byte_start_code() + u).len() <= isize::MAX,
            bytes_mut_view(bitstream) == concat_bytes(units.take(i as int), |u: Seq<u8>| spec_four_byte_start_code() + u),
        decreases nal_units@.len() - i,
    {
        proof {
            lemma_concat_bytes_push(units, i as int, |u: Seq<u8>| spec_four_byte_start_code() + u);
            lemma_concat_bytes_split(units, i + 1, |u: Seq<u8>| spec_four_byte_start_code() + u);
            assert(units[i as int] == bytes_view(nal_units@[i as int]));
        }
        let nut = &nal_units[i];
        bytes_mut_extend(&mut bitstream, codes.as_slice());
        let slice = crate::buf::bytes_to_vec(nut);
        bytes_mut_extend(&mut bitstream, slice.as_slice());
        i = i + 1;
    }
    assert(units.take(i as int) =~= units);
    bitstream
}

/// Appends, for each NAL unit, a length prefix of `length_size` bytes and the
/// unit.
fn frame_nal_units_with_length(nal_units: &[Bytes], length_size: usize) -> (r: BytesMut)
    requires
        length_size == 2 || length_size == 4,
        spec_frame_with_length(bytes_seq_view(nal_units@), length_size as nat).len() <= isize::MAX,
    ensures
        bytes_mut_view(r) == spec_frame_with_length(bytes_seq_view(nal_units@), length_size as nat),
{
    let mut bitstream = bytes_mut_new();
    let ghost units = bytes_seq_view(nal_units@);
    let mut i: usize = 0;
    while i < nal_units.len()
        invariant
            i <= nal_units@.len(),
            length_size == 2 || length_size == 4,
            units == bytes_seq_view(nal_units@),
            concat_bytes(units, |u: Seq<u8>| spec_length_prefix(u.len(), length_size as nat) + u).len() <= isize::MAX,
            bytes_mut_view(bitstream) == concat_bytes(units.take(i as int), |u: Seq<u8>| spec_length_prefix(u.len(), length_size as nat) + u),
        decreases nal_units@.len() - i,
    {
        proof {
            lemma_concat_bytes_push(units, i as int, |u: Seq<u8>| spec_length_prefix(u.len(), length_size as nat) + u);
            lemma_concat_bytes_split(units, i + 1, |u: Seq<u8>| spec_length_prefix(u.len(), length_size as nat) + u);
            assert(units[i as int] == bytes_view(nal_units@[i as int]));
        }
        let nut = &nal_units[i];
        let slice = crate::buf::bytes_to_vec(nut);
        let len = slice.len();
        let mut prefix: Vec<u8> = Vec::new();
        if length_size == 2 {
            crate::endian::push_u16(&mut prefix, len as u16);
        } else {
            crate::endian::push_u32(&mut prefix, len as u32);
        }
        assert(prefix@ =~= spec_length_prefix(len as nat, length_size as nat));
        bytes_mut_extend(&mut bitstream, prefix.as_slice());
        bytes_mut_extend(&mut bitstream, slice.as_slice());
        i = i + 1;
    }
    assert(units.take(i as int) =~= units);
    bitstream
}

/// Frames NAL units with the given framing: each after a length prefix, or
/// each after a start code.
pub fn frame_nal_units(nal_units: &[Bytes], target: BitstreamFraming) -> (r: BytesMut)
    requires
        spec_frame_nal_units(bytes_seq_view(nal_units@), target).len() <= isize::MAX,
    ensures
        bytes_mut_view(r) == spec_frame_nal_units(bytes_seq_view(nal_units@), target),
{
    match target {
        BitstreamFraming::TwoByteLength => frame_nal_units_with_length(nal_units, 2),
        BitstreamFraming::FourByteLength => frame_nal_units_with_length(nal_units, 4),
        BitstreamFraming::FourByteStartCode => frame_nal_units_with_start_codes(nal_units),
    }
}

/// Whether splitting a length-prefixed bitstream succeeds: no prefix
/// promises more bytes than are left. A start-code bitstream has no
/// prefixes.
pub fn length_fields_fit(bitstream: &Bytes, source: BitstreamFraming) -> (r: bool)
    ensures
        r == (match source {
            BitstreamFraming::TwoByteLength => spec_parse_length_field(bytes_view(*bitstream), 2) is Some,
            BitstreamFraming::FourByteLength => spec_parse_length_field(bytes_view(*bitstream), 4) is Some,
            BitstreamFraming::FourByteStartCode => true,
        }),
{
    let length_size: usize = match source {
        BitstreamFraming::TwoByteLength => 2,
        BitstreamFraming::FourByteLength => 4,
        BitstreamFraming::FourByteStartCode => {
            return true;
        },
    };
    let v = crate::buf::bytes_to_vec(bitstream);
    let ghost s = v@;
    let mut pos: usize = 0;
    assert(s.skip(0) =~= s);
    while v.len() - pos > length_size
        invariant
            pos <= v@.len(),
            v@ == s,
            s == bytes_view(*bitstream),
            source is TwoByteLength ==> length_size == 2,
            source is FourByteLength ==> length_size == 4,
            !(source is FourByteStartCode),
            length_size == 2 || length_size == 4,
            spec_parse_length_field(s, length_size as nat) is Some == spec_parse_length_field(
                s.skip(pos as int),
                length_size as nat,
            ) is Some,
        decreases v@.len() - pos,
    {
        let ghost t = s.skip(pos as int);
        let len: usize = if length_size == 2 {
            let x: u16 = ((v[pos] as u16) << 8u16) | (v[pos + 1] as u16);
            x as usize
        } else {
            let x: u32 = ((v[pos] as u32) << 24u32) | ((v[pos + 1] as u32) << 16u32) | ((v[pos + 2] as u32)
                << 8u32) | (v[pos + 3] as u32);
            x as usize
        };
        proof {
            assert(t[0] == v[pos as int] && t[1] == v[pos + 1]);
            if length_size == 4 {
                assert(t[2] == v[pos + 2] && t[3] == v[pos + 3]);
                assert(len == spec_from_be_u32(t));
            } else {
                assert(len == spec_from_be_u16(t));
            }
        }
        if v.len() - pos - length_size < len {
            proof {
                assert(t.len() == v@.len() - pos);
                assert(spec_parse_length_field(t, length_size as nat) is None);
            }
            return false;
        }
        proof {
            assert(s.skip(pos as int).skip(length_size + len) =~= s.skip(pos + length_size + len));
        }
        pos = pos + length_size + len;
    }
    true
}

/// Splits a length-prefixed bitstream into its NAL units. Start-code framing
/// is not length-prefixed; for it the result is `None`.
pub fn parse_length_prefixed_bitstream(bitstream: Bytes, source: BitstreamFraming) -> (r: Option<
    Vec<Bytes>,
>)
    requires
        source is TwoByteLength ==> spec_parse_length_field(bytes_view(bitstream), 2) is Some,
        source is FourByteLength ==> spec_parse_length_field(bytes_view(bitstream), 4) is Some,
    ensures
        match source {
            BitstreamFraming::TwoByteLength => r matches Some(units) && bytes_seq_view(units@)
                == spec_parse_length_field(bytes_view(bitstream), 2)->0,
            BitstreamFraming::FourByteLength => r matches Some(units) && bytes_seq_view(units@)
                == spec_parse_length_field(bytes_view(bitstream), 4)->0,
            BitstreamFraming::FourByteStartCode => r is None,
        },
{
    match source {
        BitstreamFraming::TwoByteLength => Some(parse_bitstream_length_field(bitstream, 2)),
        BitstreamFraming::FourByteLength => Some(parse_bitstream_length_field(bitstream, 4)),
        BitstreamFraming::FourByteStartCode => None,
    }
}

/// Each NAL unit of a length-prefixed bitstream took its length and at
/// least two bytes of prefix, so framing the units again with prefixes or
/// start codes of at most four bytes takes at most twice the bytes.
proof fn lemma_reframed_len(s: Seq<u8>, length_size: nat, f: spec_fn(Seq<u8>) -> Seq<u8>)
    requires
        length_size == 2 || length_size == 4,
        spec_parse_length_field(s, length_size) is Some,
        forall|u: Seq<u8>| #[trigger] f(u).len() <= u.len() + 4,
    ensures
        concat_bytes(spec_parse_length_field(s, length_size)->0, f).len() <= 2 * s.len(),
    decreases s.len(),
{
    if s.len() > length_size {
        let len = (if length_size == 2 {
            spec_from_be_u16(s) as nat
        } else {
            spec_from_be_u32(s) as nat
        });
        let rest_s = s.skip(length_size + len as int);
        lemma_reframed_len(rest_s, length_size, f);
        let u = s.subrange(length_size as int, length_size + len as int);
        let rest = spec_parse_length_field(rest_s, length_size)->0;
        let units = seq![u] + rest;
        lemma_concat_bytes_split(units, 1, f);
        assert(units.take(1) =~= seq![u]);
        assert(units.skip(1) =~= rest);
        assert(seq![u].drop_last() =~= Seq::<Seq<u8>>::empty());
        assert(spec_parse_length_field(s, length_size)->0 == units);
        assert(seq![u].last() == u);
        assert(concat_bytes(Seq::<Seq<u8>>::empty(), f) == Seq::<u8>::empty());
        assert(concat_bytes(seq![u], f) =~= Seq::<u8>::empty() + f(u));
        assert(concat_bytes(units, f).len() == f(u).len() + concat_bytes(rest, f).len());
    } else {
        assert(spec_parse_length_field(s, length_size)->0 =~= Seq::<Seq<u8>>::empty());
    }
}

/// Converts a bitstream from framing `source` to framing `target`. The same
/// framing gives the bitstream back. A length-prefixed bitstream is split
/// into its NAL units and framed again. The NAL units of an Annex B
/// bitstream are what `h264_reader`'s reader finds, which the caller runs:
/// for such a source the result is `None`.
pub fn convert_bitstream(bitstream: Bytes, source: BitstreamFraming, target: BitstreamFraming) -> (r:
    Option<Bytes>)
    requires
        source != target && source is TwoByteLength ==> spec_parse_length_field(
            bytes_view(bitstream),
            2,
        ) is Some,
        source != target && source is FourByteLength ==> spec_parse_length_field(
            bytes_view(bitstream),
            4,
        ) is Some,
        source != target ==> 2 * bytes_view(bitstream).len() <= isize::MAX,
    ensures
        source == target ==> (r matches Some(b) && bytes_view(b) == bytes_view(bitstream)),
        source != target ==> match source {
            BitstreamFraming::TwoByteLength => r matches Some(b) && bytes_view(b)
                == spec_frame_nal_units(spec_parse_length_field(bytes_view(bitstream), 2)->0, target),
            BitstreamFraming::FourByteLength => r matches Some(b) && bytes_view(b)
                == spec_frame_nal_units(spec_parse_length_field(bytes_view(bitstream), 4)->0, target),
            BitstreamFraming::FourByteStartCode => r is None,
        },
{
    if source == target {
        return Some(bitstream);
    }
    let ghost s = bytes_view(bitstream);
    let length_size: usize = match source {
        BitstreamFraming::TwoByteLength => 2,
        BitstreamFraming::FourByteLength => 4,
        BitstreamFraming::FourByteStartCode => {
            return None;
        },
    };
    let nal_units = parse_bitstream_length_field(bitstream, length_size);
    proof {
        let units = spec_parse_length_field(s, length_size as nat)->0;
        match target {
            BitstreamFraming::TwoByteLength => lemma_reframed_len(
                s,
                length_size as nat,
                |u: Seq<u8>| spec_length_prefix(u.len(), 2) + u,
            ),
            BitstreamFraming::FourByteLength => lemma_reframed_len(
                s,
                length_size as nat,
                |u: Seq<u8>| spec_length_prefix(u.len(), 4) + u,
            ),
            BitstreamFraming::FourByteStartCode => lemma_reframed_len(
                s,
                length_size as nat,
                |u: Seq<u8>| spec_four_byte_start_code() + u,
            ),
        }
        assert(bytes_seq_view(nal_units@) == units);
    }
    let framed = frame_nal_units(nal_units.as_slice(), target);
    Some(bytes_mut_freeze(framed))
}

/// The NAL unit type that `h264_reader` reads from a header byte: `None`
/// when the forbidden zero bit is set, else the low five bits.
pub open spec fn spec_nal_unit_type(header: u8) -> Option<u8> {
    if header & 0x80u8 != 0 {
        None
    } else {
        Some(header & 0x1fu8)
    }
}

/// `NalHeader::new(header).map(|h| h.nal_unit_type().id())`: fails when the
/// forbidden zero bit (0x80) is set; otherwise the unit type is the low five
/// bits of the header.
#[verifier::external_body]
fn h264_nal_unit_type(header: u8) -> (r: Option<u8>)
    ensures
        r == spec_nal_unit_type(header),
{
    NalHeader::new(header).map(|h| h.nal_unit_type().id()).ok()
}

/// The NAL unit type of a NAL unit, from its first (header) byte.
pub fn nut_header(nal: &Bytes) -> (r: Option<u8>)
    requires
        bytes_view(*nal).len() > 0,
    ensures
        r == spec_nal_unit_type(bytes_view(*nal)[0]),
{
    let v = crate::buf::bytes_to_vec(nal);
    h264_nal_unit_type(v[0])
}

/// Whether a NAL unit is a sequence or picture parameter set or a slice
/// without partitioning (IDR or not).
pub fn is_video_nal_unit(nal: &Bytes) -> (r: bool)
    requires
        bytes_view(*nal).len() > 0,
    ensures
        r == (match spec_nal_unit_type(bytes_view(*nal)[0]) {
            Some(t) => t == 7 || t == 8 || t == 1 || t == 5,
            None => false,
        }),
{
    match nut_header(nal) {
        Some(t) => t == 7 || t == 8 || t == 1 || t == 5,
        None => false,
    }
}

/// Collects NAL units as an Annex B reader hands them over, from the start
/// of the stream.
pub struct NalFramer {
    nal_start: usize,
}

impl NalFramer {
    /// The position where the current NAL unit starts.
    pub closed spec fn spec_nal_start(&self) -> usize {
        self.nal_start
    }

    /// A framer at the start of the stream.
    pub fn new() -> (r: Self)
        ensures
            r.spec_nal_start() == 0,
    {
        Self { nal_start: 0 }
    }
}

/// The views of byte vectors.
pub open spec fn vec_seq_view(s: Seq<Vec<u8>>) -> Seq<Seq<u8>> {
    s.map_values(|v: Vec<u8>| v@)
}

/// The NAL units an Annex B reader found between start codes, each with
/// its header byte, in order, as buffers.
pub fn select_annexb_nal_units(units: &Vec<Vec<u8>>) -> (r: Vec<Bytes>)
    ensures
        bytes_seq_view(r@) == vec_seq_view(units@),
{
    let mut r: Vec<Bytes> = Vec::new();
    let mut i: usize = 0;
    while i < units.len()
        invariant
            i <= units@.len(),
            bytes_seq_view(r@) == vec_seq_view(units@.take(i as int)),
        decreases units@.len() - i,
    {
        let unit = bytes_copy_from_slice(units[i].as_slice());
        proof {
            assert(bytes_seq_view(r@.push(unit)) =~= bytes_seq_view(r@).push(bytes_view(unit)));
            assert(vec_seq_view(units@.take(i + 1)) =~= vec_seq_view(units@.take(i as int)).push(
                units@[i as int]@,
            ));
        }
        r.push(unit);
        i = i + 1;
    }
    assert(units@.take(i as int) =~= units@);
    r
}

} // verus!

verus! {

/// Framing puts each unit, in order, after its own prefix: the framing of
/// two lists of units is the framing of the first followed by that of the
/// second. A unit alone is framed as its prefix and then its bytes: the
/// start code 00 00 00 01, or its length as a big-endian number of two or
/// four bytes, most significant byte first.
pub proof fn lemma_framing_layout(a: Seq<Seq<u8>>, b: Seq<Seq<u8>>, u: Seq<u8>, target: BitstreamFraming)
    ensures
        spec_frame_nal_units(a + b, target) == spec_frame_nal_units(a, target) + spec_frame_nal_units(
            b,
            target,
        ),
        target == BitstreamFraming::FourByteStartCode ==> spec_frame_nal_units(seq![u], target)
            == seq![0u8, 0u8, 0u8, 1u8] + u,
        target == BitstreamFraming::FourByteLength && u.len() <= 0xffff_ffff ==> {
            let f = spec_frame_nal_units(seq![u], target);
            &&& f.len() == 4 + u.len()
            &&& f[0] == u.len() / 0x100_0000
            &&& f[1] == (u.len() / 0x1_0000) % 0x100
            &&& f[2] == (u.len() / 0x100) % 0x100
            &&& f[3] == u.len() % 0x100
            &&& f.skip(4) == u
        },
        target == BitstreamFraming::TwoByteLength && u.len() <= 0xffff ==> {
            let f = spec_frame_nal_units(seq![u], target);
            &&& f.len() == 2 + u.len()
            &&& f[0] == u.len() / 0x100
            &&& f[1] == u.len() % 0x100
            &&& f.skip(2) == u
        },
{
    let g = |x: Seq<u8>| spec_four_byte_start_code() + x;
    let g2 = |x: Seq<u8>| spec_length_prefix(x.len(), 2) + x;
    let g4 = |x: Seq<u8>| spec_length_prefix(x.len(), 4) + x;
    let ab = a + b;
    assert(ab.take(a.len() as int) =~= a);
    assert(ab.skip(a.len() as int) =~= b);
    lemma_concat_bytes_split(ab, a.len() as int, g);
    lemma_concat_bytes_split(ab, a.len() as int, g2);
    lemma_concat_bytes_split(ab, a.len() as int, g4);
    let one = seq![u];
    assert(one.drop_last() =~= Seq::<Seq<u8>>::empty());
    assert(one.last() == u);
    assert(concat_bytes(one.drop_last(), g) == Seq::<u8>::empty());
    assert(concat_bytes(one.drop_last(), g2) == Seq::<u8>::empty());
    assert(concat_bytes(one.drop_last(), g4) == Seq::<u8>::empty());
    assert(concat_bytes(one, g) == concat_bytes(one.drop_last(), g) + g(one.last()));
    assert(concat_bytes(one, g2) == concat_bytes(one.drop_last(), g2) + g2(one.last()));
    assert(concat_bytes(one, g4) == concat_bytes(one.drop_last(), g4) + g4(one.last()));
    assert(concat_bytes(one, g) =~= g(u));
    assert(concat_bytes(one, g2) =~= g2(u));
    assert(concat_bytes(one, g4) =~= g4(u));
    crate::endian::lemma_be_digits(#[verifier::truncate] (u.len() as u16), 0, #[verifier::truncate] (u.len() as u32), 0);
    assert(g4(u).skip(4) =~= u);
    assert(g2(u).skip(2) =~= u);
}

/// Splitting a bitstream framed with length prefixes gives back the NAL
/// units, when each unit's length fits the prefix and the last unit is not
/// empty (a trailing empty unit leaves only a prefix, which is dropped).
pub proof fn lemma_length_framing_roundtrip(units: Seq<Seq<u8>>, length_size: nat)
    requires
        length_size == 2 || length_size == 4,
        forall|i: int|
            0 <= i < units.len() ==> (if length_size == 2 {
                #[trigger] units[i].len() <= 0xffff
            } else {
                units[i].len() <= 0xffff_ffff
            }),
        units.len() > 0 ==> units.last().len() > 0,
    ensures
        spec_parse_length_field(spec_frame_with_length(units, length_size), length_size) == Some(
            units,
        ),
    decreases units.len(),
{
    let f = |u: Seq<u8>| spec_length_prefix(u.len(), length_size) + u;
    let s = spec_frame_with_length(units, length_size);
    if units.len() == 0 {
        assert(s.len() == 0);
    } else {
        let u0 = units[0];
        let rest = units.skip(1);
        lemma_concat_bytes_split(units, 1, f);
        assert(units.take(1).drop_last() =~= Seq::<Seq<u8>>::empty());
        assert(units.take(1).last() == u0);
        assert(concat_bytes(units.take(1), f) =~= f(u0)) by {
            reveal_with_fuel(concat_bytes, 2);
        }
        let p = spec_length_prefix(u0.len(), length_size);
        assert(s =~= p + u0 + spec_frame_with_length(rest, length_size));
        assert forall|i: int|
            0 <= i < rest.len() implies (if length_size == 2 {
            #[trigger] rest[i].len() <= 0xffff
        } else {
            rest[i].len() <= 0xffff_ffff
        }) by {
            assert(rest[i] == units[i + 1]);
        }
        if rest.len() > 0 {
            assert(rest.last() == units.last());
        }
        lemma_length_framing_roundtrip(rest, length_size);
        let tail = spec_frame_with_length(rest, length_size);
        if length_size == 2 {
            crate::endian::lemma_be_u16_roundtrip(u0.len() as u16);
            assert(s.subrange(0, 2) =~= p);
            assert(spec_from_be_u16(s) == spec_from_be_u16(p));
        } else {
            crate::endian::lemma_be_u32_roundtrip(u0.len() as u32);
            assert(s.subrange(0, 4) =~= p);
            assert(spec_from_be_u32(s) == spec_from_be_u32(p));
        }
        if rest.len() == 0 {
            assert(units.len() == 1);
            assert(u0.len() > 0);
        } else {
            assert(tail.len() > 0) by {
                lemma_concat_bytes_split(rest, rest.len() - 1, f);
                assert(rest.skip(rest.len() - 1).drop_last() =~= Seq::<Seq<u8>>::empty());
                assert(rest.skip(rest.len() - 1).last() == rest.last());
                reveal_with_fuel(concat_bytes, 2);
            }
        }
        assert(s.skip(length_size + u0.len() as int) =~= tail);
        assert(s.subrange(length_size as int, length_size + u0.len() as int) =~= u0);
        assert(seq![u0] + rest =~= units);
    }
}

/// Framing NAL units with a length-prefixed framing (`frame_nal_units`)
/// and splitting the result (`parse_length_prefixed_bitstream`) gives the
/// same units back, when each unit's length fits the prefix and the last
/// unit is not empty.
pub proof fn lemma_frame_then_parse(units: Seq<Seq<u8>>, source: BitstreamFraming)
    requires
        !(source is FourByteStartCode),
        forall|i: int|
            0 <= i < units.len() ==> (if source is TwoByteLength {
                #[trigger] units[i].len() <= 0xffff
            } else {
                units[i].len() <= 0xffff_ffff
            }),
        units.len() > 0 ==> units.last().len() > 0,
    ensures
        source is TwoByteLength ==> spec_parse_length_field(spec_frame_nal_units(units, source), 2)
            == Some(units),
        source is FourByteLength ==> spec_parse_length_field(spec_frame_nal_units(units, source), 4)
            == Some(units),
{
    let ls: nat = if source is TwoByteLength { 2 } else { 4 };
    assert forall|i: int|
        0 <= i < units.len() implies (if ls == 2 {
        #[trigger] units[i].len() <= 0xffff
    } else {
        units[i].len() <= 0xffff_ffff
    }) by {
        assert(if source is TwoByteLength {
            units[i].len() <= 0xffff
        } else {
            units[i].len() <= 0xffff_ffff
        });
    }
    lemma_length_framing_roundtrip(units, ls);
}

} // verus!
