//! Track fragment run box (`trun`): the samples of one run of a fragment,
//! with the per-sample fields that the run's flags announce.

use crate::buf::{bytes_mut_extend, bytes_mut_view};
use crate::endian::{be_u32, push_u32};
use crate::mp4::encode::{
    concat_bytes, fourcc, lemma_concat_bytes_len_uniform_in, lemma_concat_bytes_push, spec_fourcc,
};
use crate::mp4::{FullBoxHeader, Mp4Box, Mp4BoxError};
use bytes::BytesMut;
use vstd::prelude::*;

verus! {

pub const DATA_OFFSET_PRESENT: u32 = 0x00000001;
pub const FIRST_SAMPLE_FLAGS_PRESENT: u32 = 0x00000004;
pub const SAMPLE_DURATION_PRESENT: u32 = 0x00000100;
pub const SAMPLE_SIZE_PRESENT: u32 = 0x00000200;
pub const SAMPLE_FLAGS_PRESENT: u32 = 0x00000400;
pub const SAMPLE_COMPOSITION_TIME_OFFSET_PRESENT: u32 = 0x00000800;

pub struct TrackFragmentSample {
    pub duration: Option<u32>,
    pub size: Option<u32>,
    pub flags: Option<u32>,
    pub composition_time_offset: Option<i32>,
}

pub struct TrackFragmentRunBox {
    pub data_offset: Option<i32>,
    pub first_sample_flags: Option<u32>,
    pub samples: Vec<TrackFragmentSample>,
}

/// Whether all bits of `bit` are set in `flags`.
pub open spec fn spec_contains(flags: u32, bit: u32) -> bool {
    flags & bit == bit
}

/// The run flags made of six presence bits.
pub open spec fn spec_run_flags(
    data_offset: bool,
    first_sample_flags: bool,
    duration: bool,
    size: bool,
    flags: bool,
    composition_time_offset: bool,
) -> u32 {
    (if data_offset { 0x1u32 } else { 0u32 }) | (if first_sample_flags { 0x4u32 } else { 0u32 }) | (
    if duration {
        0x100u32
    } else {
        0u32
    }) | (if size { 0x200u32 } else { 0u32 }) | (if flags { 0x400u32 } else { 0u32 }) | (
    if composition_time_offset {
        0x800u32
    } else {
        0u32
    })
}

/// Each presence bit can be read back from the flags, and the flags fit the
/// 24 bits of a full-box header.
pub proof fn lemma_run_flags_bits(a: bool, b: bool, c: bool, d: bool, e: bool, f: bool)
    ensures
        spec_contains(spec_run_flags(a, b, c, d, e, f), DATA_OFFSET_PRESENT) == a,
        spec_contains(spec_run_flags(a, b, c, d, e, f), FIRST_SAMPLE_FLAGS_PRESENT) == b,
        spec_contains(spec_run_flags(a, b, c, d, e, f), SAMPLE_DURATION_PRESENT) == c,
        spec_contains(spec_run_flags(a, b, c, d, e, f), SAMPLE_SIZE_PRESENT) == d,
        spec_contains(spec_run_flags(a, b, c, d, e, f), SAMPLE_FLAGS_PRESENT) == e,
        spec_contains(spec_run_flags(a, b, c, d, e, f), SAMPLE_COMPOSITION_TIME_OFFSET_PRESENT)
            == f,
        spec_run_flags(a, b, c, d, e, f) < 0x100_0000,
{
    assert(spec_contains(spec_run_flags(a, b, c, d, e, f), 0x1u32) == a) by (bit_vector);
    assert(spec_contains(spec_run_flags(a, b, c, d, e, f), 0x4u32) == b) by (bit_vector);
    assert(spec_contains(spec_run_flags(a, b, c, d, e, f), 0x100u32) == c) by (bit_vector);
    assert(spec_contains(spec_run_flags(a, b, c, d, e, f), 0x200u32) == d) by (bit_vector);
    assert(spec_contains(spec_run_flags(a, b, c, d, e, f), 0x400u32) == e) by (bit_vector);
    assert(spec_contains(spec_run_flags(a, b, c, d, e, f), 0x800u32) == f) by (bit_vector);
    assert(spec_run_flags(a, b, c, d, e, f) < 0x100_0000u32) by (bit_vector);
}

impl TrackFragmentSample {
    /// The fields present, in order, each big-endian.
    pub open spec fn spec_bytes(self) -> Seq<u8> {
        (match self.duration {
            Some(x) => be_u32(x),
            None => Seq::empty(),
        }) + (match self.size {
            Some(x) => be_u32(x),
            None => Seq::empty(),
        }) + (match self.flags {
            Some(x) => be_u32(x),
            None => Seq::empty(),
        }) + (match self.composition_time_offset {
            Some(x) => be_u32(x as u32),
            None => Seq::empty(),
        })
    }

    /// The fields this sample has, as the presence bits of run flags.
    pub open spec fn spec_has(self, flags: u32) -> bool {
        &&& spec_contains(flags, SAMPLE_DURATION_PRESENT) == self.duration is Some
        &&& spec_contains(flags, SAMPLE_SIZE_PRESENT) == self.size is Some
        &&& spec_contains(flags, SAMPLE_FLAGS_PRESENT) == self.flags is Some
        &&& spec_contains(flags, SAMPLE_COMPOSITION_TIME_OFFSET_PRESENT)
            == self.composition_time_offset is Some
    }

    fn write(&self, v: &mut Vec<u8>)
        ensures
            final(v)@ == old(v)@ + self.spec_bytes(),
    {
        match self.duration {
            Some(x) => push_u32(v, x),
            None => {},
        }
        match self.size {
            Some(x) => push_u32(v, x),
            None => {},
        }
        match self.flags {
            Some(x) => push_u32(v, x),
            None => {},
        }
        match self.composition_time_offset {
            Some(x) => push_u32(v, x as u32),
            None => {},
        }
        assert(v@ =~= old(v)@ + self.spec_bytes());
    }
}

/// The number of bytes each sample takes under the given run flags: four
/// for each per-sample field present.
pub open spec fn spec_sample_size(flags: u32) -> nat {
    (if spec_contains(flags, SAMPLE_DURATION_PRESENT) { 4nat } else { 0nat }) + (if spec_contains(
        flags,
        SAMPLE_SIZE_PRESENT,
    ) {
        4nat
    } else {
        0nat
    }) + (if spec_contains(flags, SAMPLE_FLAGS_PRESENT) { 4nat } else { 0nat }) + (
    if spec_contains(flags, SAMPLE_COMPOSITION_TIME_OFFSET_PRESENT) {
        4nat
    } else {
        0nat
    })
}

/// Panics unless the sample has exactly the per-sample fields that `flags`
/// announce; `requires` leaves that input out.
fn ensure_sample_fields_present(sample: &TrackFragmentSample, flags: u32)
    requires
        sample.spec_has(flags),
{
    let duration_should_be_present = flags & SAMPLE_DURATION_PRESENT == SAMPLE_DURATION_PRESENT;
    let size_should_be_present = flags & SAMPLE_SIZE_PRESENT == SAMPLE_SIZE_PRESENT;
    let flags_should_be_present = flags & SAMPLE_FLAGS_PRESENT == SAMPLE_FLAGS_PRESENT;
    let composition_time_offset_should_be_present = flags & SAMPLE_COMPOSITION_TIME_OFFSET_PRESENT
        == SAMPLE_COMPOSITION_TIME_OFFSET_PRESENT;

    let duration_is_present = sample.duration.is_some();
    let size_is_present = sample.size.is_some();
    let flags_is_present = sample.flags.is_some();
    let composition_time_offset_is_present = sample.composition_time_offset.is_some();

    assert(duration_should_be_present == duration_is_present);
    assert(size_should_be_present == size_is_present);
    assert(flags_should_be_present == flags_is_present);
    assert(composition_time_offset_should_be_present == composition_time_offset_is_present);
}

impl TrackFragmentRunBox {
    /// The run flags: data offset and first-sample flags present, and the
    /// per-sample fields of the first sample.
    pub open spec fn spec_flags(&self) -> u32 {
        if self.samples@.len() > 0 {
            let s = self.samples@[0];
            spec_run_flags(
                self.data_offset is Some,
                self.first_sample_flags is Some,
                s.duration is Some,
                s.size is Some,
                s.flags is Some,
                s.composition_time_offset is Some,
            )
        } else {
            spec_run_flags(
                self.data_offset is Some,
                self.first_sample_flags is Some,
                false,
                false,
                false,
                false,
            )
        }
    }

    /// The flags announce the fields present and fit 24 bits.
    pub proof fn lemma_flags(&self)
        ensures
            spec_contains(self.spec_flags(), DATA_OFFSET_PRESENT) == self.data_offset is Some,
            spec_contains(self.spec_flags(), FIRST_SAMPLE_FLAGS_PRESENT)
                == self.first_sample_flags is Some,
            self.spec_flags() < 0x100_0000,
            self.samples@.len() > 0 ==> self.samples@[0].spec_has(self.spec_flags()),
    {
        if self.samples@.len() > 0 {
            let s = self.samples@[0];
            lemma_run_flags_bits(
                self.data_offset is Some,
                self.first_sample_flags is Some,
                s.duration is Some,
                s.size is Some,
                s.flags is Some,
                s.composition_time_offset is Some,
            );
        } else {
            lemma_run_flags_bits(
                self.data_offset is Some,
                self.first_sample_flags is Some,
                false,
                false,
                false,
                false,
            );
        }
    }

    fn sample_size(&self, flags: u32) -> (r: u64)
        ensures
            r == spec_sample_size(flags),
    {
        let mut sample_size: u64 = 0;
        if flags & SAMPLE_DURATION_PRESENT == SAMPLE_DURATION_PRESENT {
            sample_size = sample_size + 4; // sample_duration
        }
        if flags & SAMPLE_SIZE_PRESENT == SAMPLE_SIZE_PRESENT {
            sample_size = sample_size + 4; // sample_size
        }
        if flags & SAMPLE_FLAGS_PRESENT == SAMPLE_FLAGS_PRESENT {
            sample_size = sample_size + 4; // sample_flags
        }
        if flags & SAMPLE_COMPOSITION_TIME_OFFSET_PRESENT == SAMPLE_COMPOSITION_TIME_OFFSET_PRESENT {
            sample_size = sample_size + 4; // sample_composition_time_offset
        }
        sample_size
    }

    fn flags_from_fields(&self) -> (r: u32)
        ensures
            r == self.spec_flags(),
    {
        let has_offset = self.data_offset.is_some();
        let has_first = self.first_sample_flags.is_some();
        if self.samples.len() > 0 {
            let sample = &self.samples[0];
            run_flags(
                has_offset,
                has_first,
                sample.duration.is_some(),
                sample.size.is_some(),
                sample.flags.is_some(),
                sample.composition_time_offset.is_some(),
            )
        } else {
            run_flags(has_offset, has_first, false, false, false, false)
        }
    }
}

/// The run flags made of six presence bits.
fn run_flags(a: bool, b: bool, c: bool, d: bool, e: bool, f: bool) -> (r: u32)
    ensures
        r == spec_run_flags(a, b, c, d, e, f),
{
    (if a { DATA_OFFSET_PRESENT } else { 0 }) | (if b { FIRST_SAMPLE_FLAGS_PRESENT } else { 0 }) | (
    if c {
        SAMPLE_DURATION_PRESENT
    } else {
        0
    }) | (if d { SAMPLE_SIZE_PRESENT } else { 0 }) | (if e { SAMPLE_FLAGS_PRESENT } else { 0 }) | (
    if f {
        SAMPLE_COMPOSITION_TIME_OFFSET_PRESENT
    } else {
        0
    })
}

/// The fields of a sample of a run (ISO/IEC 14496-12), in this order and
/// four bytes each when present: the duration, the size, the flags and the
/// composition time offset; most significant byte first.
pub proof fn lemma_sample_layout(s: TrackFragmentSample)
    ensures
        ({
            let d: int = if s.duration is Some { 4 } else { 0 };
            let z: int = if s.size is Some { 4 } else { 0 };
            let f: int = if s.flags is Some { 4 } else { 0 };
            let c: int = if s.composition_time_offset is Some { 4 } else { 0 };
            &&& s.spec_bytes().len() == d + z + f + c
            &&& s.duration matches Some(x) ==> s.spec_bytes().subrange(0, 4) == be_u32(x)
            &&& s.size matches Some(x) ==> s.spec_bytes().subrange(d, d + 4) == be_u32(x)
            &&& s.flags matches Some(x) ==> s.spec_bytes().subrange(d + z, d + z + 4) == be_u32(x)
            &&& s.composition_time_offset matches Some(x) ==> s.spec_bytes().subrange(
                d + z + f,
                d + z + f + 4,
            ) == be_u32(x as u32)
        }),
{
    let b = s.spec_bytes();
    let d: int = if s.duration is Some { 4 } else { 0 };
    let z: int = if s.size is Some { 4 } else { 0 };
    let f: int = if s.flags is Some { 4 } else { 0 };
    match s.duration {
        Some(x) => assert(b.subrange(0, 4) =~= be_u32(x)),
        None => {},
    }
    match s.size {
        Some(x) => assert(b.subrange(d, d + 4) =~= be_u32(x)),
        None => {},
    }
    match s.flags {
        Some(x) => assert(b.subrange(d + z, d + z + 4) =~= be_u32(x)),
        None => {},
    }
    match s.composition_time_offset {
        Some(x) => assert(b.subrange(d + z + f, d + z + f + 4) =~= be_u32(x as u32)),
        None => {},
    }
}

impl TrackFragmentRunBox {
    /// The run's flags (ISO/IEC 14496-12) have bit 0x1 when the data offset
    /// is present, 0x4 when the first sample's flags are, and, after the
    /// first sample, 0x100, 0x200, 0x400 and 0x800 for its duration, size,
    /// flags and composition time offset; no other bit. The contents are
    /// the sample count in four bytes, the data offset and the first
    /// sample's flags when present, then each sample's fields, every
    /// sample taking the same number of bytes when the run is well formed.
    pub proof fn lemma_run_layout(&self, i: int)
        requires
            0 <= i < self.samples@.len(),
            self.spec_well_formed(),
        ensures
            (self.spec_flags() & 0x1 != 0) == self.data_offset is Some,
            (self.spec_flags() & 0x4 != 0) == self.first_sample_flags is Some,
            (self.spec_flags() & 0x100 != 0) == self.samples@[0].duration is Some,
            (self.spec_flags() & 0x200 != 0) == self.samples@[0].size is Some,
            (self.spec_flags() & 0x400 != 0) == self.samples@[0].flags is Some,
            (self.spec_flags() & 0x800 != 0) == self.samples@[0].composition_time_offset is Some,
            self.spec_flags() & 0xffff_f0fa == 0,
            self.spec_contents().subrange(0, 4) == be_u32(self.samples@.len() as u32),
            self.data_offset matches Some(x) ==> self.spec_contents().subrange(4, 8) == be_u32(
                x as u32,
            ),
            ({
                let h: int = 4 + (if self.data_offset is Some { 4int } else { 0 }) + (
                if self.first_sample_flags is Some {
                    4int
                } else {
                    0
                });
                let k: int = self.samples@[0].spec_bytes().len() as int;
                &&& self.first_sample_flags matches Some(x) ==> self.spec_contents().subrange(
                    h - 4,
                    h,
                ) == be_u32(x)
                &&& self.spec_contents().subrange(h + i * k, h + (i + 1) * k)
                    == self.samples@[i].spec_bytes()
                &&& self.spec_contents().len() == h + k * self.samples@.len()
            }),
    {
        self.lemma_literal_flags();
        self.lemma_body_layout(i);
    }

    proof fn lemma_literal_flags(&self)
        requires
            self.samples@.len() > 0,
        ensures
            (self.spec_flags() & 0x1 != 0) == self.data_offset is Some,
            (self.spec_flags() & 0x4 != 0) == self.first_sample_flags is Some,
            (self.spec_flags() & 0x100 != 0) == self.samples@[0].duration is Some,
            (self.spec_flags() & 0x200 != 0) == self.samples@[0].size is Some,
            (self.spec_flags() & 0x400 != 0) == self.samples@[0].flags is Some,
            (self.spec_flags() & 0x800 != 0) == self.samples@[0].composition_time_offset is Some,
            self.spec_flags() & 0xffff_f0fa == 0,
    {
        let s0 = self.samples@[0];
        let a = self.data_offset is Some;
        let b = self.first_sample_flags is Some;
        let c = s0.duration is Some;
        let d = s0.size is Some;
        let e = s0.flags is Some;
        let f = s0.composition_time_offset is Some;
        let x = spec_run_flags(a, b, c, d, e, f);
        assert((x & 0x1 != 0) == a && (x & 0x4 != 0) == b && (x & 0x100 != 0) == c && (x & 0x200
            != 0) == d && (x & 0x400 != 0) == e && (x & 0x800 != 0) == f && x & 0xffff_f0fa == 0)
            by (bit_vector)
            requires
                x == spec_run_flags(a, b, c, d, e, f),
        ;
    }

    proof fn lemma_body_layout(&self, i: int)
        requires
            0 <= i < self.samples@.len(),
            self.spec_well_formed(),
        ensures
            self.spec_contents().subrange(0, 4) == be_u32(self.samples@.len() as u32),
            self.data_offset matches Some(x) ==> self.spec_contents().subrange(4, 8) == be_u32(
                x as u32,
            ),
            ({
                let h: int = 4 + (if self.data_offset is Some { 4int } else { 0 }) + (
                if self.first_sample_flags is Some {
                    4int
                } else {
                    0
                });
                let k: int = self.samples@[0].spec_bytes().len() as int;
                &&& self.first_sample_flags matches Some(x) ==> self.spec_contents().subrange(
                    h - 4,
                    h,
                ) == be_u32(x)
                &&& self.spec_contents().subrange(h + i * k, h + (i + 1) * k)
                    == self.samples@[i].spec_bytes()
                &&& self.spec_contents().len() == h + k * self.samples@.len()
            }),
    {
        let flags = self.spec_flags();
        let g = |t: TrackFragmentSample| t.spec_bytes();
        let ss = self.samples@;
        let k: int = ss[0].spec_bytes().len() as int;
        let body = concat_bytes(ss, g);
        assert(body.len() == k * ss.len() && body.subrange(i * k, (i + 1) * k) == ss[i].spec_bytes()
            && 0 <= i * k <= (i + 1) * k <= body.len()) by {
            self.lemma_flags();
            assert forall|j: int| 0 <= j < ss.len() implies #[trigger] g(ss[j]).len() == k by {
                assert(ss[j].spec_has(flags));
                assert(ss[0].spec_has(flags));
            }
            assert forall|j: int| 0 <= j < ss.take(i).len() implies #[trigger] g(ss.take(i)[j]).len()
                == k by {
                assert(ss.take(i)[j] == ss[j]);
                assert(g(ss[j]).len() == k);
            }
            lemma_concat_bytes_len_uniform_in(ss, g, k as nat);
            lemma_concat_bytes_len_uniform_in(ss.take(i), g, k as nat);
            crate::mp4::encode::lemma_concat_bytes_split(ss, i + 1, g);
            lemma_concat_bytes_push(ss, i, g);
            assert(k * i + k == k * (i + 1)) by (nonlinear_arith);
            assert(i * k == k * i) by (nonlinear_arith);
            assert((i + 1) * k == k * (i + 1)) by (nonlinear_arith);
            assert(k * (i + 1) <= k * ss.len()) by (nonlinear_arith)
                requires
                    i + 1 <= ss.len(),
                    k >= 0,
            ;
            assert(0 <= i * k) by (nonlinear_arith)
                requires
                    i >= 0,
                    k >= 0,
            ;
            assert(body.subrange(i * k, (i + 1) * k) =~= ss[i].spec_bytes());
        }
        let h: int = 4 + (if self.data_offset is Some { 4int } else { 0 }) + (
        if self.first_sample_flags is Some {
            4int
        } else {
            0
        });
        let head = be_u32(ss.len() as u32) + (match self.data_offset {
            Some(x) => be_u32(x as u32),
            None => Seq::empty(),
        }) + (match self.first_sample_flags {
            Some(x) => be_u32(x),
            None => Seq::empty(),
        });
        let c = self.spec_contents();
        assert(c == head + body);
        assert(head.len() == h);
        assert(c.subrange(h + i * k, h + (i + 1) * k) =~= body.subrange(i * k, (i + 1) * k));
        assert(c.subrange(0, 4) =~= be_u32(ss.len() as u32));
        match self.data_offset {
            Some(x) => assert(c.subrange(4, 8) =~= be_u32(x as u32)),
            None => {},
        }
        match self.first_sample_flags {
            Some(x) => assert(c.subrange(h - 4, h) =~= be_u32(x)),
            None => {},
        }
    }
}

impl Mp4Box for TrackFragmentRunBox {
    open spec fn spec_name() -> Seq<u8> {
        spec_fourcc(0x74, 0x72, 0x75, 0x6e) // "trun"
    }

    open spec fn spec_full_header(&self) -> Option<FullBoxHeader> {
        Some(FullBoxHeader::spec_new(0, self.spec_flags()))
    }

    open spec fn spec_contents(&self) -> Seq<u8> {
        be_u32(self.samples@.len() as u32) + (match self.data_offset {
            Some(x) => be_u32(x as u32),
            None => Seq::empty(),
        }) + (match self.first_sample_flags {
            Some(x) => be_u32(x),
            None => Seq::empty(),
        }) + concat_bytes(self.samples@, |s: TrackFragmentSample| s.spec_bytes())
    }

    /// The sample count, the data offset and first-sample flags when
    /// present, and for each sample the fields the flags announce.
    open spec fn spec_content_size(&self) -> nat {
        4 + (if self.data_offset is Some { 4nat } else { 0nat }) + (if self.first_sample_flags is Some {
            4nat
        } else {
            0nat
        }) + spec_sample_size(self.spec_flags()) * self.samples@.len()
    }

    /// Every sample has the per-sample fields of the first.
    open spec fn spec_well_formed(&self) -> bool {
        forall|i: int|
            0 <= i < self.samples@.len() ==> #[trigger] self.samples@[i].spec_has(
                self.spec_flags(),
            )
    }

    open spec fn spec_sizes_agree(&self) -> bool {
        true
    }

    proof fn lemma_sizes_agree(&self) {
        let flags = self.spec_flags();
        self.lemma_flags();
        assert forall|i: int| 0 <= i < self.samples@.len() implies #[trigger] self.samples@[
            i
        ].spec_bytes().len() == spec_sample_size(flags) by {
            assert(self.samples@[i].spec_has(flags));
        }
        lemma_concat_bytes_len_uniform_in(
            self.samples@,
            |s: TrackFragmentSample| s.spec_bytes(),
            spec_sample_size(flags),
        );
    }

    proof fn lemma_name_len() {
    }

    proof fn lemma_contents_len_bound(&self) {
        self.lemma_sizes_agree();
    }

    fn name() -> (r: [u8; 4]) {
        fourcc(0x74, 0x72, 0x75, 0x6e)
    }

    fn get_full_box_header(&self) -> (r: Option<FullBoxHeader>) {
        Some(FullBoxHeader::new(0, self.flags_from_fields()))
    }

    fn content_size(&self) -> (r: u64) {
        let flags = self.flags_from_fields();
        proof {
            self.lemma_flags();
        }
        let mut size: u64 = 0;
        size = size + 4; // sample_count
        if flags & DATA_OFFSET_PRESENT == DATA_OFFSET_PRESENT {
            size = size + 4; // data_offset
        }
        if flags & FIRST_SAMPLE_FLAGS_PRESENT == FIRST_SAMPLE_FLAGS_PRESENT {
            size = size + 4; // first_sample_flags
        }
        let per_sample = self.sample_size(flags);
        assert(per_sample * self.samples@.len() == spec_sample_size(flags) * self.samples@.len())
            by (nonlinear_arith)
            requires
                per_sample == spec_sample_size(flags),
        ;
        size = size + per_sample * self.samples.len() as u64;
        size
    }

    fn write_box_contents(&self, writer: &mut BytesMut) -> (r: Result<(), Mp4BoxError>) {
        let mut v: Vec<u8> = Vec::new();
        push_u32(&mut v, self.samples.len() as u32);
        match self.data_offset {
            Some(data_offset) => push_u32(&mut v, data_offset as u32),
            None => {},
        }
        match self.first_sample_flags {
            Some(first_sample_flags) => push_u32(&mut v, first_sample_flags),
            None => {},
        }
        let flags = self.flags_from_fields();
        let ghost head = v@;
        let mut i: usize = 0;
        while i < self.samples.len()
            invariant
                i <= self.samples@.len(),
                flags == self.spec_flags(),
                self.spec_well_formed(),
                v@ == head + concat_bytes(
                    self.samples@.take(i as int),
                    |s: TrackFragmentSample| s.spec_bytes(),
                ),
            decreases self.samples@.len() - i,
        {
            proof {
                lemma_concat_bytes_push(
                    self.samples@,
                    i as int,
                    |s: TrackFragmentSample| s.spec_bytes(),
                );
                assert(self.samples@[i as int].spec_has(flags));
            }
            let sample = &self.samples[i];
            ensure_sample_fields_present(sample, flags);
            sample.write(&mut v);
            i = i + 1;
        }
        assert(self.samples@.take(i as int) =~= self.samples@);
        assert(v@ =~= self.spec_contents());
        bytes_mut_extend(writer, v.as_slice());
        Ok(())
    }
}

} // verus!
