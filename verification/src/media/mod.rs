//! Media streams, codecs and timing.

use crate::buf::{bytes_copy_from_slice, bytes_mut_to_vec, bytes_seq_view, bytes_view};
use bytes::Bytes;
use gcd::Gcd;
use std::sync::Arc;
use vstd::prelude::*;

pub mod filters;
pub mod framer;

use framer::{frame_nal_units, spec_frame_with_length};

verus! {

/// The greatest common divisor, by Euclid's algorithm; `gcd(a, 0) == a`.
pub open spec fn spec_gcd(a: nat, b: nat) -> nat
    decreases b,
{
    if b == 0 {
        a
    } else {
        spec_gcd(b, a % b)
    }
}

/// `Gcd::gcd` for `u32`: the greatest common divisor of `a` and `b`, with
/// `gcd(a, 0) == a` and `gcd(0, b) == b`.
#[verifier::external_body]
fn gcd_u32(a: u32, b: u32) -> (r: u32)
    ensures
        r == spec_gcd(a as nat, b as nat),
{
    a.gcd(b)
}

/// The greatest common divisor divides both numbers.
pub proof fn lemma_gcd_divides(a: nat, b: nat)
    ensures
        spec_gcd(a, b) == 0 ==> a == 0 && b == 0,
        spec_gcd(a, b) > 0 ==> a % spec_gcd(a, b) == 0 && b % spec_gcd(a, b) == 0,
    decreases b,
{
    if b > 0 {
        lemma_gcd_divides(b, a % b);
        let g = spec_gcd(b, a % b);
        let q = a / b;
        let r = a % b;
        assert(a == q * b + r) by (nonlinear_arith)
            requires
                q == a / b,
                r == a % b,
                b > 0,
        ;
        assert(a % g == 0) by (nonlinear_arith)
            requires
                g > 0,
                b % g == 0,
                r % g == 0,
                a == q * b + r,
                q >= 0,
                r >= 0,
        {
            let k1 = b / g;
            let k2 = r / g;
            assert(b == k1 * g);
            assert(r == k2 * g);
            assert(a == (q * k1 + k2) * g);
        }
    }
}

/// Every common divisor of two numbers divides their greatest common
/// divisor.
pub proof fn lemma_gcd_greatest(a: nat, b: nat, c: nat)
    requires
        c > 0,
        a % c == 0,
        b % c == 0,
    ensures
        spec_gcd(a, b) % c == 0,
    decreases b,
{
    if b > 0 {
        let q = a / b;
        let r = a % b;
        assert(r % c == 0) by (nonlinear_arith)
            requires
                c > 0,
                a % c == 0,
                b % c == 0,
                b > 0,
                q == a / b,
                r == a % b,
        {
            assert(a == q * b + r);
            let x = a / c;
            let y = b / c;
            assert(a == x * c);
            assert(b == y * c);
            assert(r == (x - q * y) * c);
        }
        lemma_gcd_greatest(b, r, c);
    }
}

/// A rational number, such as a timebase (seconds per tick).
#[derive(Copy, Clone)]
pub struct Fraction {
    pub numerator: u32,
    pub denominator: u32,
}

impl Fraction {
    pub fn new(numerator: u32, denominator: u32) -> (r: Self)
        ensures
            r == (Fraction { numerator, denominator }),
    {
        Fraction { numerator, denominator }
    }

    /// The fraction with numerator and denominator divided by their greatest
    /// common divisor. The divisor is zero, and the division panics, when
    /// both are zero; `requires` leaves that out.
    pub fn simplify(&self) -> (r: Fraction)
        requires
            self.numerator != 0 || self.denominator != 0,
        ensures
            r.numerator == self.numerator as nat / spec_gcd(
                self.numerator as nat,
                self.denominator as nat,
            ),
            r.denominator == self.denominator as nat / spec_gcd(
                self.numerator as nat,
                self.denominator as nat,
            ),
    {
        let divisor = gcd_u32(self.numerator, self.denominator);
        proof {
            lemma_gcd_divides(self.numerator as nat, self.denominator as nat);
        }
        Fraction::new(self.numerator / divisor, self.denominator / divisor)
    }
}

/// Simplifying keeps the value of a fraction: the simplified numerator and
/// denominator are in the same ratio, and the divisor divides both.
pub proof fn lemma_simplify_keeps_value(n: u32, d: u32)
    requires
        n != 0 || d != 0,
    ensures
        ({
            let g = spec_gcd(n as nat, d as nat);
            &&& g > 0
            &&& (n as nat) % g == 0
            &&& (d as nat) % g == 0
            &&& ((n as nat) / g) * (d as nat) == ((d as nat) / g) * (n as nat)
        }),
{
    let g = spec_gcd(n as nat, d as nat);
    let nn = n as nat;
    let dd = d as nat;
    lemma_gcd_divides(nn, dd);
    assert((nn / g) * dd == (dd / g) * nn) by (nonlinear_arith)
        requires
            g > 0,
            nn % g == 0,
            dd % g == 0,
    {
        let x = nn / g;
        let y = dd / g;
        assert(nn == x * g);
        assert(dd == y * g);
        assert(x * (y * g) == y * (x * g));
    }
}

/// A simplified fraction is in lowest terms: the only common divisor of
/// its numerator and denominator is 1.
pub proof fn lemma_simplify_lowest_terms(n: u32, d: u32, c: nat)
    requires
        n != 0 || d != 0,
        c > 0,
        ((n as nat) / spec_gcd(n as nat, d as nat)) % c == 0,
        ((d as nat) / spec_gcd(n as nat, d as nat)) % c == 0,
    ensures
        c == 1,
{
    let g = spec_gcd(n as nat, d as nat);
    let nn = n as nat;
    let dd = d as nat;
    lemma_gcd_divides(nn, dd);
    assert(nn % (c * g) == 0 && dd % (c * g) == 0 && c * g > 0) by (nonlinear_arith)
        requires
            g > 0,
            c > 0,
            nn % g == 0,
            dd % g == 0,
            (nn / g) % c == 0,
            (dd / g) % c == 0,
    {
        let x = (nn / g) / c;
        let y = (dd / g) / c;
        assert(nn / g == x * c);
        assert(dd / g == y * c);
        assert(nn == (nn / g) * g);
        assert(dd == (dd / g) * g);
        assert(nn == x * (c * g));
        assert(dd == y * (c * g));
    }
    lemma_gcd_greatest(nn, dd, c * g);
    assert(c == 1) by (nonlinear_arith)
        requires
            g > 0,
            c > 0,
            g % (c * g) == 0,
    {
        let k = g / (c * g);
        assert(g == k * (c * g));
        assert(k >= 1);
    }
}

/// Describes how H.26x NAL units are framed.
#[derive(Debug, Copy, Clone, PartialEq, Eq, Structural)]
pub enum BitstreamFraming {
    /// NAL units are prefixed with a 4 byte length integer. Used by
    /// the 'AVC1' fourcc, mainly for storage in MP4 files.
    FourByteLength,
    TwoByteLength,
    /// NAL units are prefixed with a 4 byte start code '00 00 00 01'.
    FourByteStartCode,
}

impl BitstreamFraming {
    pub fn is_start_code(&self) -> (r: bool)
        ensures
            r == (*self is FourByteStartCode),
    {
        matches!(self, BitstreamFraming::FourByteStartCode)
    }
}

#[derive(Clone)]
pub enum VideoCodecSpecificInfo {
    H264 {
        bitstream_format: BitstreamFraming,
        profile_indication: u8,
        profile_compatibility: u8,
        level_indication: u8,
        sps: Arc<Vec<u8>>,
        pps: Arc<Vec<u8>>,
    },
}

#[derive(Clone)]
pub struct VideoCodecInfo {
    pub width: u32,
    pub height: u32,
    pub extra: VideoCodecSpecificInfo,
}

/// `Arc::clone`: another pointer to the same value.
#[verifier::external_body]
fn arc_clone<T>(a: &Arc<T>) -> (r: Arc<T>)
    ensures
        *r == **a,
{
    Arc::clone(a)
}

/// `Vec::clone` of bytes: a vector with the same bytes.
pub(crate) fn clone_bytes(v: &Vec<u8>) -> (r: Vec<u8>)
    ensures
        r@ == v@,
{
    let r = v.clone();
    assert(r@ =~= v@);
    r
}

impl VideoCodecInfo {
    /// The display aspect ratio: width to height, in lowest terms. A size
    /// of zero by zero has none, and the reduction divides by zero;
    /// `requires` leaves that out.
    pub fn display_aspect_ratio(&self) -> (r: Fraction)
        requires
            self.width != 0 || self.height != 0,
        ensures
            r.numerator == self.width as nat / spec_gcd(self.width as nat, self.height as nat),
            r.denominator == self.height as nat / spec_gcd(self.width as nat, self.height as nat),
    {
        Fraction::new(self.width, self.height).simplify()
    }

    /// The sequence and picture parameter sets, each after a 4-byte length.
    pub open spec fn spec_parameter_sets(&self) -> Seq<u8> {
        match self.extra {
            VideoCodecSpecificInfo::H264 { sps, pps, .. } => spec_frame_with_length(
                seq![sps@, pps@],
                4,
            ),
        }
    }

    /// The parameter sets, framed with 4-byte length prefixes.
    pub fn parameter_sets(&self) -> (r: Option<Vec<u8>>)
        requires
            self.spec_parameter_sets().len() <= isize::MAX,
        ensures
            r matches Some(p) && p@ == self.spec_parameter_sets(),
    {
        match &self.extra {
            VideoCodecSpecificInfo::H264 { sps, pps, .. } => {
                let nuts = [bytes_copy_from_slice(sps.as_slice()), bytes_copy_from_slice(pps.as_slice())];
                assert(bytes_seq_view(nuts@) =~= seq![sps@, pps@]);
                let framed = frame_nal_units(nuts.as_slice(), BitstreamFraming::FourByteLength);
                Some(bytes_mut_to_vec(&framed))
            },
        }
    }
}

#[derive(Debug, Clone)]
pub enum AudioCodecSpecificInfo {
    Aac { extra: Vec<u8> },
}

impl AudioCodecSpecificInfo {
    pub fn decoder_specific_data(&self) -> (r: Option<Vec<u8>>)
        ensures
            match self {
                AudioCodecSpecificInfo::Aac { extra } => r matches Some(d) && d@ == extra@,
            },
    {
        match self {
            AudioCodecSpecificInfo::Aac { extra } => Some(clone_bytes(extra)),
        }
    }
}

#[derive(Clone, Debug)]
pub enum SoundType {
    Mono,
    Stereo,
}

#[derive(Clone, Debug)]
pub struct AudioCodecInfo {
    pub sample_rate: u32,
    pub sample_bpp: u32,
    pub sound_type: SoundType,
    pub extra: AudioCodecSpecificInfo,
}

#[derive(Clone)]
pub enum CodecTypeInfo {
    Video(VideoCodecInfo),
    Audio(AudioCodecInfo),
}

#[derive(Clone)]
pub struct CodecInfo {
    pub name: &'static str,
    pub properties: CodecTypeInfo,
}

impl CodecInfo {
    pub fn video(&self) -> (r: Option<&VideoCodecInfo>)
        ensures
            match self.properties {
                CodecTypeInfo::Video(v) => r == Some(&v),
                CodecTypeInfo::Audio(_) => r is None,
            },
    {
        if let CodecTypeInfo::Video(video) = &self.properties {
            Some(video)
        } else {
            None
        }
    }

    pub fn audio(&self) -> (r: Option<&AudioCodecInfo>)
        ensures
            match self.properties {
                CodecTypeInfo::Audio(a) => r == Some(&a),
                CodecTypeInfo::Video(_) => r is None,
            },
    {
        if let CodecTypeInfo::Audio(audio) = &self.properties {
            Some(audio)
        } else {
            None
        }
    }
}

/// The codec with its video bitstream framing set to `format`; an audio
/// codec is unchanged.
pub open spec fn spec_with_bitstream_format(c: CodecInfo, format: BitstreamFraming) -> CodecInfo {
    match c.properties {
        CodecTypeInfo::Video(v) => match v.extra {
            VideoCodecSpecificInfo::H264 {
                profile_indication,
                profile_compatibility,
                level_indication,
                sps,
                pps,
                ..
            } => CodecInfo {
                name: c.name,
                properties: CodecTypeInfo::Video(
                    VideoCodecInfo {
                        width: v.width,
                        height: v.height,
                        extra: VideoCodecSpecificInfo::H264 {
                            bitstream_format: format,
                            profile_indication,
                            profile_compatibility,
                            level_indication,
                            sps,
                            pps,
                        },
                    },
                ),
            },
        },
        CodecTypeInfo::Audio(_) => c,
    }
}

#[derive(Clone)]
pub struct Stream {
    pub id: u32,
    pub codec: Arc<CodecInfo>,
    pub timebase: Fraction,
}

impl Stream {
    /// The video bitstream framing of the stream's codec; `None` for audio.
    pub open spec fn spec_bitstream_format(&self) -> Option<BitstreamFraming> {
        match self.codec.properties {
            CodecTypeInfo::Video(v) => match v.extra {
                VideoCodecSpecificInfo::H264 { bitstream_format, .. } => Some(bitstream_format),
            },
            CodecTypeInfo::Audio(_) => None,
        }
    }

    pub fn parameter_sets(&self) -> (r: Option<Vec<u8>>)
        requires
            self.codec.properties matches CodecTypeInfo::Video(v)
                ==> v.spec_parameter_sets().len() <= isize::MAX,
        ensures
            match self.codec.properties {
                CodecTypeInfo::Video(v) => r matches Some(p) && p@ == v.spec_parameter_sets(),
                CodecTypeInfo::Audio(_) => r is None,
            },
    {
        if let CodecTypeInfo::Video(info) = &self.codec.properties {
            info.parameter_sets()
        } else {
            None
        }
    }

    /// Sets the bitstream framing of a video stream's codec; the stream is
    /// otherwise unchanged, and an audio stream is unchanged.
    pub fn set_bitstream_format(&mut self, format: BitstreamFraming)
        ensures
            final(self).id == old(self).id,
            final(self).timebase == old(self).timebase,
            *final(self).codec == spec_with_bitstream_format(*old(self).codec, format),
    {
        let new_codec = match &self.codec.properties {
            CodecTypeInfo::Video(video) => match &video.extra {
                VideoCodecSpecificInfo::H264 {
                    profile_indication,
                    profile_compatibility,
                    level_indication,
                    sps,
                    pps,
                    ..
                } => Some(
                    CodecInfo {
                        name: self.codec.name,
                        properties: CodecTypeInfo::Video(
                            VideoCodecInfo {
                                width: video.width,
                                height: video.height,
                                extra: VideoCodecSpecificInfo::H264 {
                                    bitstream_format: format,
                                    profile_indication: *profile_indication,
                                    profile_compatibility: *profile_compatibility,
                                    level_indication: *level_indication,
                                    sps: arc_clone(sps),
                                    pps: arc_clone(pps),
                                },
                            },
                        ),
                    },
                ),
            },
            CodecTypeInfo::Audio(_) => None,
        };
        match new_codec {
            Some(codec) => {
                self.codec = Arc::new(codec);
            },
            None => {},
        }
    }

    /// Another handle to the same stream.
    pub(crate) fn copied(&self) -> (r: Stream)
        ensures
            r == *self,
    {
        Stream { id: self.id, codec: arc_clone(&self.codec), timebase: self.timebase }
    }

    pub fn bitstream_format(&self) -> (r: Option<BitstreamFraming>)
        ensures
            r == self.spec_bitstream_format(),
    {
        if let CodecTypeInfo::Video(
            VideoCodecInfo { extra: VideoCodecSpecificInfo::H264 { bitstream_format, .. }, .. },
        ) = &self.codec.properties {
            Some(*bitstream_format)
        } else {
            None
        }
    }

    pub fn is_video(&self) -> (r: bool)
        ensures
            r == (self.codec.properties is Video),
    {
        matches!(self.codec.properties, CodecTypeInfo::Video(_))
    }

    pub fn is_audio(&self) -> (r: bool)
        ensures
            r == (self.codec.properties is Audio),
    {
        matches!(self.codec.properties, CodecTypeInfo::Audio(_))
    }
}

/// Setting a video stream's framing and reading it back gives the framing
/// set; the stream stays a video stream.
pub proof fn lemma_set_then_get_bitstream_format(s: Stream, t: Stream, format: BitstreamFraming)
    requires
        s.codec.properties is Video,
        t.id == s.id,
        t.timebase == s.timebase,
        *t.codec == spec_with_bitstream_format(*s.codec, format),
    ensures
        t.spec_bitstream_format() == Some(format),
        t.codec.properties is Video,
{
}

#[derive(Debug, Clone, PartialEq, Eq, Structural)]
pub enum FrameDependency {
    /// The frame depends on no other frame (a sync frame).
    Independent,
    Backwards,
    BiDirectional,
}

#[verifier::external_type_specification]
#[verifier::external_body]
pub struct ExInstant(std::time::Instant);

/// `Instant::clone`: `Instant` is `Copy`, and a clone is the same instant.
pub assume_specification[ <std::time::Instant as Clone>::clone ](i: &std::time::Instant) -> (r:
    std::time::Instant)
    ensures
        r == *i,
;

/// A coded frame of one stream, with its presentation time and the moment
/// it was received.
#[derive(Clone)]
pub struct Frame {
    pub time: MediaTime,
    pub dependency: FrameDependency,
    pub buffer: Bytes,
    pub stream: Stream,
    pub received: std::time::Instant,
}

impl Frame {
    /// Another handle to the same frame: the same time, dependency, stream
    /// and moment, and a buffer with the same bytes.
    pub(crate) fn copied(&self) -> (r: Frame)
        ensures
            r.time == self.time,
            r.dependency == self.dependency,
            r.stream == self.stream,
            r.received == self.received,
            crate::buf::bytes_view(r.buffer) == crate::buf::bytes_view(self.buffer),
    {
        let dependency = match self.dependency {
            FrameDependency::Independent => FrameDependency::Independent,
            FrameDependency::Backwards => FrameDependency::Backwards,
            FrameDependency::BiDirectional => FrameDependency::BiDirectional,
        };
        Frame {
            time: self.time.copied(),
            dependency,
            buffer: self.buffer.clone(),
            stream: self.stream.copied(),
            received: self.received.clone(),
        }
    }

    /// A keyframe depends on no other frame.
    pub fn is_keyframe(&self) -> (r: bool)
        ensures
            r == (self.dependency is Independent),
    {
        matches!(self.dependency, FrameDependency::Independent)
    }
}

#[derive(Clone)]
pub struct MediaDuration {
    pub duration: i64,
    pub timebase: Fraction,
}

#[derive(Clone)]
pub struct MediaTime {
    pub pts: u64,
    pub dts: Option<u64>,
    pub timebase: Fraction,
}

/// `x` read as a two's complement 64-bit integer, as `x as i64` does.
pub open spec fn spec_as_i64(x: u64) -> int {
    if x <= i64::MAX {
        x as int
    } else {
        x - 0x1_0000_0000_0000_0000
    }
}

/// The difference of two presentation timestamps, both read as `i64`.
pub open spec fn spec_pts_diff(a: u64, b: u64) -> int {
    spec_as_i64(a) - spec_as_i64(b)
}

pub(crate) fn u64_as_i64(x: u64) -> (r: i64)
    ensures
        r == spec_as_i64(x),
{
    let r = x as i64;
    assert(r == spec_as_i64(x)) by (bit_vector)
        requires
            r == x as i64,
    ;
    r
}

impl MediaTime {
    /// A copy of this time.
    pub(crate) fn copied(&self) -> (r: MediaTime)
        ensures
            r == *self,
    {
        MediaTime { pts: self.pts, dts: self.dts, timebase: self.timebase }
    }

    /// The time from `rhs` to `self`, in `self`'s timebase. The subtraction
    /// overflows when the difference does not fit an `i64`; `requires`
    /// leaves that out.
    pub fn since(&self, rhs: &MediaTime) -> (r: MediaDuration)
        requires
            i64::MIN <= spec_pts_diff(self.pts, rhs.pts) <= i64::MAX,
        ensures
            r.duration == spec_pts_diff(self.pts, rhs.pts),
            r.timebase == self.timebase,
    {
        MediaDuration {
            duration: u64_as_i64(self.pts) - u64_as_i64(rhs.pts),
            timebase: self.timebase,
        }
    }

    /// `self - rhs`: the same as `since`.
    pub fn sub(self, rhs: MediaTime) -> (r: MediaDuration)
        requires
            i64::MIN <= spec_pts_diff(self.pts, rhs.pts) <= i64::MAX,
        ensures
            r.duration == spec_pts_diff(self.pts, rhs.pts),
            r.timebase == self.timebase,
    {
        self.since(&rhs)
    }

    /// The time converted to `new_timebase`: timestamps scaled by the ratio
    /// of the denominators, rounding down.
    pub fn in_base(&self, new_timebase: Fraction) -> (r: MediaTime)
        requires
            self.timebase.denominator != 0,
            self.pts * new_timebase.denominator <= u64::MAX,
            self.dts matches Some(d) ==> d * new_timebase.denominator <= u64::MAX,
        ensures
            r.pts == spec_convert_timebase(self.pts, self.timebase, new_timebase),
            r.dts == (match self.dts {
                Some(d) => Some(spec_convert_timebase(d, self.timebase, new_timebase) as u64),
                None => None,
            }),
            r.timebase == new_timebase,
    {
        let pts = convert_timebase(self.pts, self.timebase, new_timebase);
        let dts = match self.dts {
            Some(ts) => Some(convert_timebase(ts, self.timebase, new_timebase)),
            None => None,
        };
        MediaTime { pts, dts, timebase: new_timebase }
    }
}

/// A timestamp converted between timebases: `time * new.denominator /
/// original.denominator`, rounding down.
pub open spec fn spec_convert_timebase(time: u64, original: Fraction, new: Fraction) -> nat {
    (time * new.denominator) as nat / original.denominator as nat
}

/// Converts a timestamp between timebases. The product overflows when it
/// does not fit 64 bits, and the division panics for a zero original
/// denominator; `requires` leaves both out.
pub fn convert_timebase(time: u64, original: Fraction, new: Fraction) -> (r: u64)
    requires
        original.denominator != 0,
        time * new.denominator <= u64::MAX,
    ensures
        r == spec_convert_timebase(time, original, new),
{
    time * new.denominator as u64 / original.denominator as u64
}

/// Converting to a timebase with a multiple of the denominator and back
/// gives the original timestamp.
pub proof fn lemma_convert_timebase_roundtrip(time: u64, a: Fraction, b: Fraction)
    requires
        a.denominator != 0,
        b.denominator != 0,
        b.denominator % a.denominator == 0,
        time * b.denominator <= u64::MAX,
    ensures
        spec_convert_timebase(spec_convert_timebase(time, a, b) as u64, b, a) == time,
{
    let k = b.denominator / a.denominator;
    let t = time as int;
    let da = a.denominator as int;
    let db = b.denominator as int;
    assert(db == k * da) by (nonlinear_arith)
        requires
            da > 0,
            db % da == 0,
            k == db / da,
    ;
    assert((t * db) / da == t * k) by (nonlinear_arith)
        requires
            da > 0,
            db == k * da,
            t >= 0,
    ;
    assert(t * k <= t * db) by (nonlinear_arith)
        requires
            db == k * da,
            da >= 1,
            k >= 0,
            t >= 0,
    ;
    assert((t * k * da) / db == t) by (nonlinear_arith)
        requires
            db == k * da,
            db > 0,
            t >= 0,
    ;
}

} // verus!
