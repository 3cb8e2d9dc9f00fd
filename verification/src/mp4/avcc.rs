//! AVC configuration box (`avcC`) and the AVC decoder configuration record
//! it holds: the H.264 profile, level and parameter sets of a video track.

use crate::buf::{bytes_mut_extend, bytes_mut_view};
use crate::endian::{be_u16, lemma_be_u16_roundtrip, push_slice, push_u16, spec_from_be_u16};
use crate::mp4::encode::{fourcc, spec_fourcc};
use crate::mp4::{spec_is_unexpected_eof, unexpected_eof_error, FullBoxHeader, Mp4Box, Mp4BoxError};
use bytes::BytesMut;
use vstd::prelude::*;

verus! {

pub struct AvcDecoderConfigurationRecord {
    pub profile_indication: u8,
    pub profile_compatibility: u8,
    pub level_indication: u8,
    pub sequence_parameter_set: Vec<u8>,
    pub picture_parameter_set: Vec<u8>,
}

/// The parameter sets read by `spec_read_sets`, with the number of bytes they
/// took: `count` entries, each a big-endian 16-bit length and that many
/// bytes. `None` when the input ends first.
pub open spec fn spec_read_sets(s: Seq<u8>, count: nat) -> Option<(Seq<Seq<u8>>, nat)>
    decreases count,
{
    if count == 0 {
        Some((Seq::empty(), 0))
    } else {
        match spec_read_sets(s, (count - 1) as nat) {
            Some((sets, k)) => {
                if k + 2 <= s.len() {
                    let len = spec_from_be_u16(s.skip(k as int)) as nat;
                    if k + 2 + len <= s.len() {
                        Some((sets.push(s.subrange(k + 2 as int, k + 2 + len as int)), k + 2 + len))
                    } else {
                        None
                    }
                } else {
                    None
                }
            },
            None => None,
        }
    }
}

/// What a decoder configuration record in `s` holds: profile, compatibility
/// and level, all sequence parameter sets and all picture parameter sets.
/// The record is six header bytes (the low five bits of the last give the
/// number of sequence parameter sets), the sequence parameter sets, a count
/// byte and the picture parameter sets. `None` when `s` ends first.
pub open spec fn spec_read_record(s: Seq<u8>) -> Option<(u8, u8, u8, Seq<Seq<u8>>, Seq<Seq<u8>>)> {
    if s.len() < 6 {
        None
    } else {
        let sps_count = (s[5] & 0x1fu8) as nat;
        match spec_read_sets(s.skip(6), sps_count) {
            Some((sps, k)) => {
                let rest = s.skip(6 + k as int);
                if rest.len() < 1 {
                    None
                } else {
                    match spec_read_sets(rest.skip(1), rest[0] as nat) {
                        Some((pps, _)) => Some((s[1], s[2], s[3], sps, pps)),
                        None => None,
                    }
                }
            },
            None => None,
        }
    }
}

/// The record that `read` builds from `s`: the first parameter set of each
/// kind.
pub open spec fn spec_record_fields(s: Seq<u8>) -> (u8, u8, u8, Seq<u8>, Seq<u8>) {
    let r = spec_read_record(s).unwrap();
    (r.0, r.1, r.2, r.3[0], r.4[0])
}

/// The input on which `read` would take the first parameter set of an empty
/// list: a complete record without a sequence or without a picture
/// parameter set.
pub open spec fn spec_record_lacks_sets(s: Seq<u8>) -> bool {
    match spec_read_record(s) {
        Some(r) => r.3.len() == 0 || r.4.len() == 0,
        None => false,
    }
}

/// Reads one length-prefixed parameter set at `pos`.
fn read_set(buf: &[u8], pos: usize) -> (r: Option<(Vec<u8>, usize)>)
    requires
        pos <= buf@.len(),
    ensures
        match r {
            Some((set, next)) => {
                &&& pos + 2 <= buf@.len()
                &&& set@ == buf@.subrange(
                    pos + 2,
                    pos + 2 + spec_from_be_u16(buf@.skip(pos as int)),
                )
                &&& next == pos + 2 + spec_from_be_u16(buf@.skip(pos as int))
                &&& next <= buf@.len()
            },
            None => {
                ||| pos + 2 > buf@.len()
                ||| pos + 2 + spec_from_be_u16(buf@.skip(pos as int)) > buf@.len()
            },
        },
{
    if buf.len() - pos < 2 {
        return None;
    }
    let len = ((buf[pos] as u16) << 8u16) | (buf[pos + 1] as u16);
    assert(len == spec_from_be_u16(buf@.skip(pos as int)));
    if buf.len() - pos - 2 < len as usize {
        return None;
    }
    let mut set: Vec<u8> = Vec::new();
    let start = pos + 2;
    let end = start + len as usize;
    let mut i = start;
    while i < end
        invariant
            start <= i <= end,
            end <= buf@.len(),
            set@ == buf@.subrange(start as int, i as int),
        decreases end - i,
    {
        set.push(buf[i]);
        i = i + 1;
        assert(set@ =~= buf@.subrange(start as int, i as int));
    }
    Some((set, end))
}

/// Reads `count` length-prefixed parameter sets starting at `pos`; returns
/// the first of them, if any, and the position after the last.
fn read_sets(buf: &[u8], pos: usize, count: u8) -> (r: Option<(Option<Vec<u8>>, usize)>)
    requires
        pos <= buf@.len(),
    ensures
        match spec_read_sets(buf@.skip(pos as int), count as nat) {
            Some((sets, k)) => r matches Some((first, next)) && next == pos + k && next
                <= buf@.len() && (match first {
                Some(f) => sets.len() > 0 && f@ == sets[0],
                None => sets.len() == 0,
            }),
            None => r is None,
        },
{
    let ghost s = buf@.skip(pos as int);
    let mut first: Option<Vec<u8>> = None;
    let mut p = pos;
    let mut i: u8 = 0;
    while i < count
        invariant
            i <= count,
            pos <= p <= buf@.len(),
            s == buf@.skip(pos as int),
            spec_read_sets(s, i as nat) matches Some((sets, k)) && p == pos + k && (match first {
                Some(f) => sets.len() > 0 && f@ == sets[0],
                None => sets.len() == 0,
            }),
        decreases count - i,
    {
        let ghost prev = spec_read_sets(s, i as nat);
        assert(buf@.skip(p as int) =~= s.skip((p - pos) as int));
        match read_set(buf, p) {
            Some((set, next)) => {
                assert(set@ =~= s.subrange((p - pos) + 2, (next - pos) as int));
                if first.is_none() {
                    first = Some(set);
                }
                p = next;
            },
            None => {
                proof {
                    lemma_read_sets_none_after(s, (i + 1) as nat, count as nat);
                }
                return None;
            },
        }
        i = i + 1;
    }
    Some((first, p))
}

/// Once the input runs out, reading more sets cannot succeed.
proof fn lemma_read_sets_none_after(s: Seq<u8>, n: nat, m: nat)
    requires
        spec_read_sets(s, n) is None,
        n <= m,
    ensures
        spec_read_sets(s, m) is None,
    decreases m - n,
{
    if n < m {
        lemma_read_sets_none_after(s, n, (m - 1) as nat);
    }
}

/// Whether `buf` starts with a complete record that lacks a sequence or a
/// picture parameter set.
pub fn record_lacks_sets(buf: &[u8]) -> (r: bool)
    ensures
        r == spec_record_lacks_sets(buf@),
{
    if buf.len() < 6 {
        return false;
    }
    let sps_count = buf[5] & 0b0001_1111u8;
    let (first_sps, p) = match read_sets(buf, 6, sps_count) {
        Some(x) => x,
        None => {
            return false;
        },
    };
    if p >= buf.len() {
        return false;
    }
    let pps_count = buf[p];
    assert(buf@.skip(6).skip(p - 6) =~= buf@.skip(p as int));
    assert(buf@.skip(p as int).skip(1) =~= buf@.skip(p + 1));
    let (first_pps, _) = match read_sets(buf, p + 1, pps_count) {
        Some(x) => x,
        None => {
            return false;
        },
    };
    first_sps.is_none() || first_pps.is_none()
}

impl AvcDecoderConfigurationRecord {
    /// Reads a decoder configuration record from the front of `buf`, keeping
    /// the first sequence and the first picture parameter set. Fails with
    /// an unexpected-end-of-input I/O error when `buf` ends before the
    /// record does.
    pub fn read(buf: &[u8]) -> (r: Result<Self, Mp4BoxError>)
        requires
            !spec_record_lacks_sets(buf@),
        ensures
            r is Ok <==> spec_read_record(buf@) is Some,
            r matches Err(Mp4BoxError::IoError(e)) ==> spec_is_unexpected_eof(e),
            r matches Ok(rec) ==> (rec.profile_indication, rec.profile_compatibility,
                rec.level_indication, rec.sequence_parameter_set@, rec.picture_parameter_set@)
                == spec_record_fields(buf@),
    {
        if buf.len() < 6 {
            return Err(Mp4BoxError::IoError(unexpected_eof_error()));
        }
        let sps_count = buf[5] & 0b0001_1111u8;
        let (first_sps, p) = match read_sets(buf, 6, sps_count) {
            Some(x) => x,
            None => {
                return Err(Mp4BoxError::IoError(unexpected_eof_error()));
            },
        };
        if p >= buf.len() {
            return Err(Mp4BoxError::IoError(unexpected_eof_error()));
        }
        let pps_count = buf[p];
        assert(buf@.skip(6).skip(p - 6) =~= buf@.skip(p as int));
        assert(buf@.skip(p as int).skip(1) =~= buf@.skip(p + 1));
        let (first_pps, _) = match read_sets(buf, p + 1, pps_count) {
            Some(x) => x,
            None => {
                return Err(Mp4BoxError::IoError(unexpected_eof_error()));
            },
        };
        match (first_sps, first_pps) {
            (Some(sps), Some(pps)) => Ok(AvcDecoderConfigurationRecord {
                profile_indication: buf[1],
                profile_compatibility: buf[2],
                level_indication: buf[3],
                sequence_parameter_set: sps,
                picture_parameter_set: pps,
            }),
            _ => {
                assert(false);
                Err(Mp4BoxError::IoError(unexpected_eof_error()))
            },
        }
    }

    /// The serialized record: version 1, profile, compatibility, level, a
    /// 4-byte NAL length size, one sequence parameter set and one picture
    /// parameter set, each after its 16-bit length. A set longer than 65535
    /// bytes has its length truncated to 16 bits.
    pub open spec fn spec_bytes(&self) -> Seq<u8> {
        seq![
            1u8,
            self.profile_indication,
            self.profile_compatibility,
            self.level_indication,
            0xffu8,
            0xe1u8,
        ] + be_u16(self.sequence_parameter_set@.len() as u16) + self.sequence_parameter_set@
            + seq![1u8] + be_u16(self.picture_parameter_set@.len() as u16)
            + self.picture_parameter_set@
    }

    /// The number of bytes `write` appends.
    pub fn size(&self) -> (r: u64)
        requires
            self.spec_bytes().len() <= u64::MAX,
        ensures
            r == self.spec_bytes().len(),
    {
        1 + 1 + 1 + 1 + 1 + 1 + 2 + self.sequence_parameter_set.len() as u64 + 1 + 2
            + self.picture_parameter_set.len() as u64
    }

    /// Appends the serialized record to `writer`.
    pub fn write(&self, writer: &mut BytesMut) -> (r: Result<(), Mp4BoxError>)
        requires
            self.spec_bytes().len() <= u64::MAX,
            bytes_mut_view(*old(writer)).len() + self.spec_bytes().len() <= isize::MAX,
        ensures
            r is Ok,
            bytes_mut_view(*final(writer)) == bytes_mut_view(*old(writer)) + self.spec_bytes(),
    {
        let mut v: Vec<u8> = Vec::new();
        v.push(1u8);
        v.push(self.profile_indication);
        v.push(self.profile_compatibility);
        v.push(self.level_indication);
        v.push(0b1111_1100u8 | 3u8);
        v.push(0b1110_0000u8 | 1u8);
        push_u16(&mut v, self.sequence_parameter_set.len() as u16);
        push_slice(&mut v, self.sequence_parameter_set.as_slice());
        v.push(1u8);
        push_u16(&mut v, self.picture_parameter_set.len() as u16);
        push_slice(&mut v, self.picture_parameter_set.as_slice());
        assert(0b1111_1100u8 | 3u8 == 0xffu8) by (bit_vector);
        assert(0b1110_0000u8 | 1u8 == 0xe1u8) by (bit_vector);
        assert(v@ =~= self.spec_bytes());
        bytes_mut_extend(writer, v.as_slice());
        Ok(())
    }
}

/// The NAL unit length size that an AVC decoder configuration record
/// announces (ISO/IEC 14496-15): `lengthSizeMinusOne`, the low two bits of
/// its fifth byte, plus one.
pub open spec fn spec_announced_length_size(record: Seq<u8>) -> nat {
    ((record[4] & 3u8) + 1) as nat
}

/// A written record is configuration version 1 with the record's profile,
/// compatibility and level; it announces NAL length fields of four bytes,
/// those of the four-byte length framing, with the six reserved bits above
/// them set; and it holds one sequence parameter set (the count's three
/// reserved bits set) and, after it, one picture parameter set.
pub proof fn lemma_record_header(rec: AvcDecoderConfigurationRecord)
    ensures
        rec.spec_bytes()[0] == 1u8,
        rec.spec_bytes()[1] == rec.profile_indication,
        rec.spec_bytes()[2] == rec.profile_compatibility,
        rec.spec_bytes()[3] == rec.level_indication,
        spec_announced_length_size(rec.spec_bytes()) == 4,
        rec.spec_bytes()[4] >> 2u8 == 0x3fu8,
        rec.spec_bytes()[5] & 0x1fu8 == 1u8,
        rec.spec_bytes()[5] >> 5u8 == 7u8,
        rec.spec_bytes().subrange(8, 8 + rec.sequence_parameter_set@.len() as int) == rec.sequence_parameter_set@,
        rec.spec_bytes()[8 + rec.sequence_parameter_set@.len() as int] == 1u8,
{
    let s = rec.spec_bytes();
    let b4 = s[4];
    let b5 = s[5];
    assert(b4 == 0xffu8);
    assert(b5 == 0xe1u8);
    assert(b4 == 0xffu8 ==> b4 & 3u8 == 3u8 && b4 >> 2u8 == 0x3fu8) by (bit_vector);
    assert(b5 == 0xe1u8 ==> b5 & 0x1fu8 == 1u8 && b5 >> 5u8 == 7u8) by (bit_vector);
    assert(s.subrange(8, 8 + rec.sequence_parameter_set@.len() as int) =~= rec.sequence_parameter_set@);
}

/// Reading a written record gives back its fields, when each parameter set
/// is at most 65535 bytes long.
pub proof fn lemma_record_roundtrip(rec: AvcDecoderConfigurationRecord)
    requires
        rec.sequence_parameter_set@.len() <= 0xffff,
        rec.picture_parameter_set@.len() <= 0xffff,
    ensures
        spec_read_record(rec.spec_bytes()) == Some(
            (
                rec.profile_indication,
                rec.profile_compatibility,
                rec.level_indication,
                seq![rec.sequence_parameter_set@],
                seq![rec.picture_parameter_set@],
            ),
        ),
        !spec_record_lacks_sets(rec.spec_bytes()),
        spec_record_fields(rec.spec_bytes()) == (
            rec.profile_indication,
            rec.profile_compatibility,
            rec.level_indication,
            rec.sequence_parameter_set@,
            rec.picture_parameter_set@,
        ),
{
    let s = rec.spec_bytes();
    let sps = rec.sequence_parameter_set@;
    let pps = rec.picture_parameter_set@;
    let a = sps.len() as u16;
    let b = pps.len() as u16;
    lemma_be_u16_roundtrip(a);
    lemma_be_u16_roundtrip(b);
    assert(0xe1u8 & 0x1fu8 == 1u8) by (bit_vector);
    let t = s.skip(6);
    assert(t.skip(0).subrange(0, 2) =~= be_u16(a));
    assert(spec_from_be_u16(t.skip(0)) == spec_from_be_u16(be_u16(a)));
    assert(t.subrange(2, 2 + sps.len() as int) =~= sps);
    assert(spec_read_sets(t, 0) == Some((Seq::<Seq<u8>>::empty(), 0nat)));
    assert(Seq::<Seq<u8>>::empty().push(sps) =~= seq![sps]);
    assert(spec_read_sets(t, 1) == Some((seq![sps], (2 + sps.len()) as nat)));
    let rest = s.skip(6 + 2 + sps.len() as int);
    assert(rest[0] == 1u8);
    let u = rest.skip(1);
    assert(spec_from_be_u16(u.skip(0)) == spec_from_be_u16(be_u16(b)));
    assert(u.subrange(2, 2 + pps.len() as int) =~= pps);
    assert(spec_read_sets(u, 0) == Some((Seq::<Seq<u8>>::empty(), 0nat)));
    assert(Seq::<Seq<u8>>::empty().push(pps) =~= seq![pps]);
    assert(spec_read_sets(u, 1) == Some((seq![pps], (2 + pps.len()) as nat)));
}

pub struct AvcConfigurationBox {
    pub config: AvcDecoderConfigurationRecord,
}

impl Mp4Box for AvcConfigurationBox {
    open spec fn spec_name() -> Seq<u8> {
        spec_fourcc(0x61, 0x76, 0x63, 0x43) // "avcC"
    }

    open spec fn spec_full_header(&self) -> Option<FullBoxHeader> {
        None
    }

    open spec fn spec_contents(&self) -> Seq<u8> {
        self.config.spec_bytes()
    }

    open spec fn spec_content_size(&self) -> nat {
        self.spec_contents().len()
    }

    open spec fn spec_well_formed(&self) -> bool {
        true
    }

    open spec fn spec_sizes_agree(&self) -> bool {
        true
    }

    proof fn lemma_sizes_agree(&self) {
    }

    proof fn lemma_name_len() {
    }

    proof fn lemma_contents_len_bound(&self) {
    }

    fn name() -> (r: [u8; 4]) {
        fourcc(0x61, 0x76, 0x63, 0x43)
    }

    fn get_full_box_header(&self) -> (r: Option<FullBoxHeader>) {
        None
    }

    fn content_size(&self) -> (r: u64) {
        self.config.size()
    }

    fn write_box_contents(&self, writer: &mut BytesMut) -> (r: Result<(), Mp4BoxError>) {
        self.config.write(writer)
    }
}

} // verus!
