//! RTMP ingest: the FLV audio and video tags that RTMP carries, the codecs
//! they announce, and the timing of the frames they hold.

use crate::buf::{bytes_copy_from_slice, bytes_view};
use crate::media::{
    spec_convert_timebase, AudioCodecInfo, AudioCodecSpecificInfo, BitstreamFraming, CodecInfo,
    CodecTypeInfo, Fraction, Frame, FrameDependency, MediaTime, SoundType, Stream,
    VideoCodecInfo, VideoCodecSpecificInfo,
};
use crate::mp4::{
    record_lacks_sets, spec_read_record, spec_record_fields, spec_record_lacks_sets,
    AvcDecoderConfigurationRecord,
};
use std::sync::Arc;
use vstd::prelude::*;

verus! {

/// Errors of reading an RTMP stream's tags.
#[derive(Debug)]
pub enum RtmpError {
    ParseVideoTag,
    ParseAudioTag,
    ParseAvcPacket,
    /// The audio codec is not AAC.
    UnsupportedAudioCodec,
    /// An AVC packet of a type that cannot start a stream.
    UnsupportedAvcPacketType,
    /// The AVC decoder configuration record could not be read.
    ParseAvcConfiguration,
    /// The sequence parameter set could not be read.
    ParseSequenceParameterSet,
}

/// The kind of an FLV video frame, the high nibble of the tag's first byte.
#[derive(Debug, Copy, Clone, PartialEq, Eq, Structural)]
pub enum FrameType {
    Key,
    Inter,
    DisposableInter,
    Generated,
    Command,
    Unknown,
}

/// The kind of an AVC video packet, the first byte of the tag body.
#[derive(Debug, Copy, Clone, PartialEq, Eq, Structural)]
pub enum AvcPacketType {
    SequenceHeader,
    NALU,
    EndOfSequence,
    Unknown,
}

/// The audio format of an FLV audio tag, the high nibble of its first byte.
#[derive(Debug, Copy, Clone, PartialEq, Eq, Structural)]
pub enum SoundFormat {
    PcmPlatformEndian,
    ADPCM,
    MP3,
    PcmLittleEndian,
    Nellymoser16kHzMono,
    Nellymoser8kHzMono,
    Nellymoser,
    PcmALaw,
    PcmMuLaw,
    Reserved,
    AAC,
    Speex,
    MP3_8kHz,
    DeviceSpecific,
}

/// The sample rate of an FLV audio tag, two bits.
#[derive(Debug, Copy, Clone, PartialEq, Eq, Structural)]
pub enum SoundRate {
    _5_5KHZ,
    _11KHZ,
    _22KHZ,
    _44KHZ,
}

/// The sample size of an FLV audio tag, one bit.
#[derive(Debug, Copy, Clone, PartialEq, Eq, Structural)]
pub enum SoundSize {
    _8Bit,
    _16Bit,
}

/// The channels of an FLV audio tag, one bit.
#[derive(Debug, Copy, Clone, PartialEq, Eq, Structural)]
pub enum FlvSoundType {
    Mono,
    Stereo,
}

/// The header of an FLV audio tag.
#[derive(Debug, Copy, Clone, PartialEq, Eq, Structural)]
pub struct AudioTagHeader {
    pub sound_format: SoundFormat,
    pub sound_rate: SoundRate,
    pub sound_size: SoundSize,
    pub sound_type: FlvSoundType,
}

/// An FLV audio tag: its header and its body.
pub struct AudioTag {
    pub header: AudioTagHeader,
    pub data: Vec<u8>,
}

/// An FLV video tag holding an AVC packet: the frame type, the packet type
/// and the packet's data.
pub struct AvcVideoTag {
    pub frame_type: FrameType,
    pub packet_type: AvcPacketType,
    pub avc_data: Vec<u8>,
}

/// The frame type of a 4-bit code.
pub open spec fn spec_frame_type(code: u8) -> FrameType {
    if code == 1 {
        FrameType::Key
    } else if code == 2 {
        FrameType::Inter
    } else if code == 3 {
        FrameType::DisposableInter
    } else if code == 4 {
        FrameType::Generated
    } else if code == 5 {
        FrameType::Command
    } else {
        FrameType::Unknown
    }
}

/// The packet type of a byte.
pub open spec fn spec_packet_type(code: u8) -> AvcPacketType {
    if code == 0 {
        AvcPacketType::SequenceHeader
    } else if code == 1 {
        AvcPacketType::NALU
    } else if code == 2 {
        AvcPacketType::EndOfSequence
    } else {
        AvcPacketType::Unknown
    }
}

/// The sound format of a 4-bit code; codes 12 and 13 have none.
pub open spec fn spec_sound_format(code: u8) -> Option<SoundFormat> {
    if code == 0 {
        Some(SoundFormat::PcmPlatformEndian)
    } else if code == 1 {
        Some(SoundFormat::ADPCM)
    } else if code == 2 {
        Some(SoundFormat::MP3)
    } else if code == 3 {
        Some(SoundFormat::PcmLittleEndian)
    } else if code == 4 {
        Some(SoundFormat::Nellymoser16kHzMono)
    } else if code == 5 {
        Some(SoundFormat::Nellymoser8kHzMono)
    } else if code == 6 {
        Some(SoundFormat::Nellymoser)
    } else if code == 7 {
        Some(SoundFormat::PcmALaw)
    } else if code == 8 {
        Some(SoundFormat::PcmMuLaw)
    } else if code == 9 {
        Some(SoundFormat::Reserved)
    } else if code == 10 {
        Some(SoundFormat::AAC)
    } else if code == 11 {
        Some(SoundFormat::Speex)
    } else if code == 14 {
        Some(SoundFormat::MP3_8kHz)
    } else if code == 15 {
        Some(SoundFormat::DeviceSpecific)
    } else {
        None
    }
}

/// The header of an audio tag whose first byte is `b`: the format in the
/// high nibble, then two bits of rate, one of size, one of channels.
pub open spec fn spec_audio_header(b: u8) -> Option<AudioTagHeader> {
    match spec_sound_format(b >> 4u8) {
        Some(sound_format) => Some(
            AudioTagHeader {
                sound_format,
                sound_rate: if (b >> 2u8) & 3 == 0 {
                    SoundRate::_5_5KHZ
                } else if (b >> 2u8) & 3 == 1 {
                    SoundRate::_11KHZ
                } else if (b >> 2u8) & 3 == 2 {
                    SoundRate::_22KHZ
                } else {
                    SoundRate::_44KHZ
                },
                sound_size: if (b >> 1u8) & 1 == 0 {
                    SoundSize::_8Bit
                } else {
                    SoundSize::_16Bit
                },
                sound_type: if b & 1 == 0 {
                    FlvSoundType::Mono
                } else {
                    FlvSoundType::Stereo
                },
            },
        ),
        None => None,
    }
}

/// The code of a sound format in the FLV specification.
pub open spec fn spec_sound_format_code(f: SoundFormat) -> u8 {
    match f {
        SoundFormat::PcmPlatformEndian => 0,
        SoundFormat::ADPCM => 1,
        SoundFormat::MP3 => 2,
        SoundFormat::PcmLittleEndian => 3,
        SoundFormat::Nellymoser16kHzMono => 4,
        SoundFormat::Nellymoser8kHzMono => 5,
        SoundFormat::Nellymoser => 6,
        SoundFormat::PcmALaw => 7,
        SoundFormat::PcmMuLaw => 8,
        SoundFormat::Reserved => 9,
        SoundFormat::AAC => 10,
        SoundFormat::Speex => 11,
        SoundFormat::MP3_8kHz => 14,
        SoundFormat::DeviceSpecific => 15,
    }
}

/// The code of a sound rate in the FLV specification.
pub open spec fn spec_sound_rate_code(r: SoundRate) -> u8 {
    match r {
        SoundRate::_5_5KHZ => 0,
        SoundRate::_11KHZ => 1,
        SoundRate::_22KHZ => 2,
        SoundRate::_44KHZ => 3,
    }
}

/// The first byte of an FLV audio tag with the given header: the format
/// code times 16, the rate code times 4, 2 for 16-bit samples and 1 for
/// stereo.
pub open spec fn spec_audio_header_byte(h: AudioTagHeader) -> int {
    spec_sound_format_code(h.sound_format) * 16 + spec_sound_rate_code(h.sound_rate) * 4 + (
    if h.sound_size is _16Bit {
        2int
    } else {
        0
    }) + (if h.sound_type is Stereo {
        1int
    } else {
        0
    })
}

/// Reading an audio tag's header undoes writing it: a byte whose format
/// code (its high four bits) is not 12 or 13 reads as a header whose byte
/// is the byte itself, and every header reads back from its byte. The
/// sample rate of the header of byte `b` is 5500 Hz times two to the power
/// of the rate code, bits 2 and 3 of `b`.
pub proof fn lemma_audio_header_byte(b: u8, h: AudioTagHeader)
    ensures
        (b / 16 == 12 || b / 16 == 13) <==> spec_audio_header(b) is None,
        spec_audio_header(b) matches Some(g) ==> spec_audio_header_byte(g) == b,
        spec_audio_header(b) matches Some(g) ==> spec_sample_rate(g.sound_rate) == 5500 * (if (b
            / 4) % 4 == 0 {
            1int
        } else if (b / 4) % 4 == 1 {
            2
        } else if (b / 4) % 4 == 2 {
            4
        } else {
            8
        }),
        spec_audio_header(spec_audio_header_byte(h) as u8) == Some(h),
{
    assert(b >> 4u8 == b / 16 && (b >> 2u8) & 3 == (b / 4) % 4 && (b >> 1u8) & 1 == (b / 2) % 2 && b
        & 1 == b % 2) by (bit_vector);
    assert(b == (b / 16) * 16 + ((b / 4) % 4) * 4 + ((b / 2) % 2) * 2 + b % 2);
    let x = spec_audio_header_byte(h);
    assert(0 <= x < 256);
    let y = x as u8;
    assert(y >> 4u8 == y / 16 && (y >> 2u8) & 3 == (y / 4) % 4 && (y >> 1u8) & 1 == (y / 2) % 2 && y
        & 1 == y % 2) by (bit_vector);
}

/// The code of a video frame type in the FLV specification.
pub open spec fn spec_frame_type_code(t: FrameType) -> Option<u8> {
    match t {
        FrameType::Key => Some(1),
        FrameType::Inter => Some(2),
        FrameType::DisposableInter => Some(3),
        FrameType::Generated => Some(4),
        FrameType::Command => Some(5),
        FrameType::Unknown => None,
    }
}

/// The code of an AVC packet type in the FLV specification.
pub open spec fn spec_packet_type_code(t: AvcPacketType) -> Option<u8> {
    match t {
        AvcPacketType::SequenceHeader => Some(0),
        AvcPacketType::NALU => Some(1),
        AvcPacketType::EndOfSequence => Some(2),
        AvcPacketType::Unknown => None,
    }
}

/// Reading a frame type or a packet type undoes the codes: a known code
/// reads as the type whose code it is, and any other as unknown.
pub proof fn lemma_video_codes(code: u8)
    ensures
        1 <= code <= 5 ==> spec_frame_type_code(spec_frame_type(code)) == Some(code),
        !(1 <= code <= 5) ==> spec_frame_type(code) is Unknown,
        code <= 2 ==> spec_packet_type_code(spec_packet_type(code)) == Some(code),
        code > 2 ==> spec_packet_type(code) is Unknown,
{
}

fn copy_tail(data: &[u8], from: usize) -> (r: Vec<u8>)
    requires
        from <= data@.len(),
    ensures
        r@ == data@.skip(from as int),
{
    let mut r: Vec<u8> = Vec::new();
    let mut i = from;
    while i < data.len()
        invariant
            from <= i <= data@.len(),
            r@ == data@.subrange(from as int, i as int),
        decreases data@.len() - i,
    {
        r.push(data[i]);
        i = i + 1;
    }
    r
}

/// Reads an FLV video tag holding an AVC packet: the frame type from the
/// high nibble of the first byte, then, from the rest, the packet type
/// (one byte), a 3-byte composition time, and the data. The tag needs a
/// byte, the packet four.
pub fn parse_video_tag(data: &[u8]) -> (r: Result<AvcVideoTag, RtmpError>)
    ensures
        data@.len() < 1 <==> r matches Err(RtmpError::ParseVideoTag),
        1 <= data@.len() < 5 <==> r matches Err(RtmpError::ParseAvcPacket),
        r matches Ok(t) ==> {
            &&& t.frame_type == spec_frame_type(data@[0] >> 4u8)
            &&& t.packet_type == spec_packet_type(data@[1])
            &&& t.avc_data@ == data@.skip(5)
        },
        r is Ok || r matches Err(RtmpError::ParseVideoTag) || r matches Err(
            RtmpError::ParseAvcPacket,
        ),
{
    if data.len() < 1 {
        return Err(RtmpError::ParseVideoTag);
    }
    if data.len() < 5 {
        return Err(RtmpError::ParseAvcPacket);
    }
    let code = data[0] >> 4u8;
    let frame_type = if code == 1 {
        FrameType::Key
    } else if code == 2 {
        FrameType::Inter
    } else if code == 3 {
        FrameType::DisposableInter
    } else if code == 4 {
        FrameType::Generated
    } else if code == 5 {
        FrameType::Command
    } else {
        FrameType::Unknown
    };
    let p = data[1];
    let packet_type = if p == 0 {
        AvcPacketType::SequenceHeader
    } else if p == 1 {
        AvcPacketType::NALU
    } else if p == 2 {
        AvcPacketType::EndOfSequence
    } else {
        AvcPacketType::Unknown
    };
    Ok(AvcVideoTag { frame_type, packet_type, avc_data: copy_tail(data, 5) })
}

/// Reads an FLV audio tag: the header from the first byte, then the body.
/// The tag needs a byte, and a format code other than 12 and 13.
pub fn parse_audio_tag(data: &[u8]) -> (r: Result<AudioTag, RtmpError>)
    ensures
        match r {
            Ok(t) => data@.len() >= 1 && spec_audio_header(data@[0]) == Some(t.header)
                && t.data@ == data@.skip(1),
            Err(e) => e is ParseAudioTag && (data@.len() < 1 || spec_audio_header(data@[0]) is None),
        },
{
    if data.len() < 1 {
        return Err(RtmpError::ParseAudioTag);
    }
    let b = data[0];
    let code = b >> 4u8;
    let sound_format = if code == 0 {
        SoundFormat::PcmPlatformEndian
    } else if code == 1 {
        SoundFormat::ADPCM
    } else if code == 2 {
        SoundFormat::MP3
    } else if code == 3 {
        SoundFormat::PcmLittleEndian
    } else if code == 4 {
        SoundFormat::Nellymoser16kHzMono
    } else if code == 5 {
        SoundFormat::Nellymoser8kHzMono
    } else if code == 6 {
        SoundFormat::Nellymoser
    } else if code == 7 {
        SoundFormat::PcmALaw
    } else if code == 8 {
        SoundFormat::PcmMuLaw
    } else if code == 9 {
        SoundFormat::Reserved
    } else if code == 10 {
        SoundFormat::AAC
    } else if code == 11 {
        SoundFormat::Speex
    } else if code == 14 {
        SoundFormat::MP3_8kHz
    } else if code == 15 {
        SoundFormat::DeviceSpecific
    } else {
        return Err(RtmpError::ParseAudioTag);
    };
    let rate = (b >> 2u8) & 3;
    let sound_rate = if rate == 0 {
        SoundRate::_5_5KHZ
    } else if rate == 1 {
        SoundRate::_11KHZ
    } else if rate == 2 {
        SoundRate::_22KHZ
    } else {
        SoundRate::_44KHZ
    };
    let sound_size = if (b >> 1u8) & 1 == 0 {
        SoundSize::_8Bit
    } else {
        SoundSize::_16Bit
    };
    let sound_type = if b & 1 == 0 {
        FlvSoundType::Mono
    } else {
        FlvSoundType::Stereo
    };
    let header = AudioTagHeader { sound_format, sound_rate, sound_size, sound_type };
    Ok(AudioTag { header, data: copy_tail(data, 1) })
}

/// The sample rate of an FLV rate code, in hertz.
pub open spec fn spec_sample_rate(r: SoundRate) -> u32 {
    match r {
        SoundRate::_5_5KHZ => 5500,
        SoundRate::_11KHZ => 11000,
        SoundRate::_22KHZ => 22000,
        SoundRate::_44KHZ => 44000,
    }
}

/// The codec of an audio stream, from its first tag: AAC only, with the
/// tag's sample rate, sample size and channels, and the AudioSpecificConfig
/// that follows the AAC packet type. A first AAC tag must be a sequence
/// header (packet type 0); `requires` leaves out the others, on which
/// reading panics.
pub fn get_audio_codec_info(tag: &AudioTag) -> (r: Result<CodecInfo, RtmpError>)
    requires
        tag.header.sound_format is AAC ==> tag.data@.len() >= 1 && tag.data@[0] == 0,
    ensures
        !(tag.header.sound_format is AAC) <==> r matches Err(RtmpError::UnsupportedAudioCodec),
        r is Ok || r matches Err(RtmpError::UnsupportedAudioCodec),
        r matches Ok(c) ==> {
            &&& c.name@ == "AAC"@
            &&& c.properties matches CodecTypeInfo::Audio(a)
            &&& a.sample_rate == spec_sample_rate(tag.header.sound_rate)
            &&& a.sample_bpp == (if tag.header.sound_size is _8Bit {
                8u32
            } else {
                16u32
            })
            &&& (a.sound_type is Mono <==> tag.header.sound_type is Mono)
            &&& a.extra matches AudioCodecSpecificInfo::Aac { extra } && extra@ == tag.data@.skip(1)
        },
{
    let name = match tag.header.sound_format {
        SoundFormat::AAC => "AAC",
        _ => {
            return Err(RtmpError::UnsupportedAudioCodec);
        },
    };
    let sample_rate: u32 = match tag.header.sound_rate {
        SoundRate::_5_5KHZ => 5500,
        SoundRate::_11KHZ => 11000,
        SoundRate::_22KHZ => 22000,
        SoundRate::_44KHZ => 44000,
    };
    let sample_bpp: u32 = match tag.header.sound_size {
        SoundSize::_8Bit => 8,
        SoundSize::_16Bit => 16,
    };
    let sound_type = match tag.header.sound_type {
        FlvSoundType::Mono => SoundType::Mono,
        FlvSoundType::Stereo => SoundType::Stereo,
    };
    // packet type 0: the AudioSpecificConfig follows
    let extra = copy_tail(tag.data.as_slice(), 1);
    Ok(
        CodecInfo {
            name,
            properties: CodecTypeInfo::Audio(
                AudioCodecInfo {
                    sample_rate,
                    sample_bpp,
                    sound_type,
                    extra: AudioCodecSpecificInfo::Aac { extra },
                },
            ),
        },
    )
}

/// `c` is an H.264 codec of the given coded size, profile, compatibility
/// flags and level, with its parameter sets, framed with 4-byte lengths.
pub open spec fn spec_h264_codec(
    c: CodecInfo,
    width: u32,
    height: u32,
    profile: u8,
    compatibility: u8,
    level: u8,
    sps: Seq<u8>,
    pps: Seq<u8>,
) -> bool {
    &&& c.name@ == "h264"@
    &&& c.properties matches CodecTypeInfo::Video(v)
    &&& v.width == width
    &&& v.height == height
    &&& v.extra matches VideoCodecSpecificInfo::H264 {
        bitstream_format,
        profile_indication,
        profile_compatibility,
        level_indication,
        sps: s,
        pps: p,
    }
    &&& bitstream_format is FourByteLength
    &&& profile_indication == profile
    &&& profile_compatibility == compatibility
    &&& level_indication == level
    &&& s@ == sps
    &&& p@ == pps
}

fn h264_codec(
    width: u32,
    height: u32,
    profile: u8,
    compatibility: u8,
    level: u8,
    sps: Vec<u8>,
    pps: Vec<u8>,
) -> (r: CodecInfo)
    ensures
        spec_h264_codec(r, width, height, profile, compatibility, level, sps@, pps@),
{
    CodecInfo {
        name: "h264",
        properties: CodecTypeInfo::Video(
            VideoCodecInfo {
                width,
                height,
                extra: VideoCodecSpecificInfo::H264 {
                    bitstream_format: BitstreamFraming::FourByteLength,
                    profile_indication: profile,
                    profile_compatibility: compatibility,
                    level_indication: level,
                    sps: Arc::new(sps),
                    pps: Arc::new(pps),
                },
            },
        ),
    }
}

/// What is read of a sequence parameter set: profile, constraint flags,
/// level, and the coded size when it does not overflow.
#[derive(Copy, Clone, Debug)]
pub struct SpsInfo {
    pub profile_idc: u8,
    pub constraint_flags: u8,
    pub level_idc: u8,
    pub pixel_dimensions: Option<(u32, u32)>,
}

/// The parameter sets found in a stream's first NAL units: the sequence
/// parameter set's bytes with what was read of it (`None` when it could
/// not be read), and the picture parameter set's bytes.
pub struct ParameterSetContext {
    pub sps: Option<(Vec<u8>, Option<SpsInfo>)>,
    pub pps: Option<Vec<u8>>,
}

/// The codec of a video stream from its parameter sets. Both sets must be
/// there, the sequence parameter set read and its coded size known;
/// `requires` leaves out the rest, on which it panics.
pub fn get_video_codec_info(parameter_sets: ParameterSetContext) -> (r: CodecInfo)
    requires
        parameter_sets.sps matches Some((_, Some(info))) && info.pixel_dimensions is Some,
        parameter_sets.pps is Some,
    ensures
        ({
            let (sps_bytes, info) = parameter_sets.sps->0;
            let (width, height) = info->0.pixel_dimensions->0;
            spec_h264_codec(
                r,
                width,
                height,
                info->0.profile_idc,
                info->0.constraint_flags,
                info->0.level_idc,
                sps_bytes@,
                parameter_sets.pps->0@,
            )
        }),
{
    let ParameterSetContext { sps, pps } = parameter_sets;
    match (sps, pps) {
        (Some((sps_bytes, Some(info))), Some(pps_bytes)) => match info.pixel_dimensions {
            Some((width, height)) => h264_codec(
                width,
                height,
                info.profile_idc,
                info.constraint_flags,
                info.level_idc,
                sps_bytes,
                pps_bytes,
            ),
            None => {
                assert(false);
                h264_codec(0, 0, 0, 0, 0, Vec::new(), Vec::new())
            },
        },
        _ => {
            assert(false);
            h264_codec(0, 0, 0, 0, 0, Vec::new(), Vec::new())
        },
    }
}

/// The bytes of a NAL unit with the emulation prevention bytes removed, as
/// `h264_reader::rbsp::decode_nal` gives them.
pub uninterp spec fn spec_decode_nal(nal: Seq<u8>) -> Seq<u8>;

/// `h264_reader::rbsp::decode_nal`: the bytes of a NAL unit without its
/// emulation prevention bytes. The contract names the result.
#[verifier::external_body]
fn decode_nal(nal: &[u8]) -> (r: Vec<u8>)
    ensures
        r@ == spec_decode_nal(nal@),
{
    h264_reader::rbsp::decode_nal(nal).into_owned()
}

/// What `SeqParameterSet::from_bytes` and then `pixel_dimensions` give for
/// a decoded sequence parameter set: `None` when it cannot be read,
/// `Some(None)` when its coded size overflows.
pub uninterp spec fn spec_sps_pixel_dimensions(rbsp: Seq<u8>) -> Option<Option<(u32, u32)>>;

/// `SeqParameterSet::from_bytes` and `pixel_dimensions` (h264_reader): the
/// coded size of a sequence parameter set. The contract names the result.
#[verifier::external_body]
fn sps_pixel_dimensions(rbsp: &[u8]) -> (r: Option<Option<(u32, u32)>>)
    ensures
        r == spec_sps_pixel_dimensions(rbsp@),
{
    match h264_reader::nal::sps::SeqParameterSet::from_bytes(rbsp) {
        Ok(sps) => Some(sps.pixel_dimensions().ok()),
        Err(_) => None,
    }
}

/// The coded size the first sequence parameter set of an AVC decoder
/// configuration record gives, after its one-byte NAL header.
pub open spec fn spec_record_dimensions(avc_data: Seq<u8>) -> Option<Option<(u32, u32)>> {
    spec_sps_pixel_dimensions(spec_decode_nal(spec_record_fields(avc_data).3.skip(1)))
}

/// The codec of a video stream from an AVC sequence header: the decoder
/// configuration record's profile, compatibility, level and first
/// parameter sets, and the coded size read from the sequence parameter
/// set. `requires` leaves out the records on which reading panics: one
/// without parameter sets, an empty sequence parameter set, or one whose
/// coded size overflows.
pub fn get_codec_from_mp4(avc_data: &[u8]) -> (r: Result<CodecInfo, RtmpError>)
    requires
        !spec_record_lacks_sets(avc_data@),
        spec_read_record(avc_data@) is Some ==> spec_record_fields(avc_data@).3.len() >= 1,
        spec_read_record(avc_data@) is Some ==> (spec_record_dimensions(avc_data@) matches Some(d)
            ==> d is Some),
    ensures
        spec_read_record(avc_data@) is None <==> r matches Err(RtmpError::ParseAvcConfiguration),
        spec_read_record(avc_data@) is Some && spec_record_dimensions(avc_data@) is None <==> r matches Err(
            RtmpError::ParseSequenceParameterSet,
        ),
        r matches Ok(c) ==> ({
            let (profile, compatibility, level, sps, pps) = spec_record_fields(avc_data@);
            let (width, height) = spec_record_dimensions(avc_data@)->0->0;
            spec_h264_codec(c, width, height, profile, compatibility, level, sps, pps)
        }),
        r is Ok || r matches Err(RtmpError::ParseAvcConfiguration) || r matches Err(
            RtmpError::ParseSequenceParameterSet,
        ),
{
    let record = match AvcDecoderConfigurationRecord::read(avc_data) {
        Ok(record) => record,
        Err(_) => {
            return Err(RtmpError::ParseAvcConfiguration);
        },
    };
    let AvcDecoderConfigurationRecord {
        profile_indication,
        profile_compatibility,
        level_indication,
        sequence_parameter_set,
        picture_parameter_set,
    } = record;
    let sps_payload = copy_tail(sequence_parameter_set.as_slice(), 1);
    let rbsp = decode_nal(sps_payload.as_slice());
    match sps_pixel_dimensions(rbsp.as_slice()) {
        Some(Some((width, height))) => Ok(
            h264_codec(
                width,
                height,
                profile_indication,
                profile_compatibility,
                level_indication,
                sequence_parameter_set,
                picture_parameter_set,
            ),
        ),
        Some(None) => {
            assert(false);
            Err(RtmpError::ParseSequenceParameterSet)
        },
        None => Err(RtmpError::ParseSequenceParameterSet),
    }
}

/// `get_codec_from_mp4` on the records it takes, else `None`: a record
/// without parameter sets, with an empty sequence parameter set, or whose
/// coded size overflows.
pub fn try_get_codec_from_mp4(avc_data: &[u8]) -> (r: Option<Result<CodecInfo, RtmpError>>)
    ensures
        r is None <==> (spec_record_lacks_sets(avc_data@) || (spec_read_record(avc_data@) is Some
            && (spec_record_fields(avc_data@).3.len() < 1 || spec_record_dimensions(avc_data@)
            == Some(None::<(u32, u32)>)))),
        r matches Some(Err(e)) ==> (e is ParseAvcConfiguration <==> spec_read_record(avc_data@) is None),
        r matches Some(Ok(c)) ==> ({
            let (profile, compatibility, level, sps, pps) = spec_record_fields(avc_data@);
            let (width, height) = spec_record_dimensions(avc_data@)->0->0;
            spec_h264_codec(c, width, height, profile, compatibility, level, sps, pps)
        }),
{
    if record_lacks_sets(avc_data) {
        return None;
    }
    match AvcDecoderConfigurationRecord::read(avc_data) {
        Ok(record) => {
            if record.sequence_parameter_set.len() < 1 {
                return None;
            }
            let sps_payload = copy_tail(record.sequence_parameter_set.as_slice(), 1);
            let rbsp = decode_nal(sps_payload.as_slice());
            match sps_pixel_dimensions(rbsp.as_slice()) {
                Some(None) => {
                    return None;
                },
                _ => {},
            }
        },
        Err(_) => {},
    }
    Some(get_codec_from_mp4(avc_data))
}

/// `RtmpTimestamp - RtmpTimestamp` (rml_rtmp): the difference of two
/// 32-bit timestamps, wrapping around.
#[verifier::external_body]
fn rtmp_timestamp_diff(later: u32, earlier: u32) -> (r: u32)
    ensures
        r == (later - earlier) as u32,
{
    (rml_rtmp::time::RtmpTimestamp::new(later) - rml_rtmp::time::RtmpTimestamp::new(earlier)).value
}

/// The running time of a track, from its 32-bit RTMP timestamps: the first
/// timestamp starts it at zero, each next one adds its difference to the
/// previous, wrapping around 32 bits.
pub struct RtmpClock {
    time: u64,
    prev: Option<u32>,
}

impl RtmpClock {
    pub closed spec fn spec_time(&self) -> u64 {
        self.time
    }

    pub closed spec fn spec_prev(&self) -> Option<u32> {
        self.prev
    }

    pub fn new() -> (r: Self)
        ensures
            r.spec_time() == 0,
            r.spec_prev() is None,
    {
        RtmpClock { time: 0, prev: None }
    }

    /// What `timestamp` adds to the running time.
    pub fn tick(&self, timestamp: u32) -> (r: u64)
        ensures
            r == spec_tick(self.spec_prev(), timestamp),
    {
        match self.prev {
            Some(p) => rtmp_timestamp_diff(timestamp, p) as u64,
            None => 0,
        }
    }

    /// Advances to `timestamp`, returning the running time. The running time
    /// overflows past `u64::MAX`; `requires` leaves that out.
    pub fn advance(&mut self, timestamp: u32) -> (r: u64)
        requires
            old(self).spec_time() + spec_tick(old(self).spec_prev(), timestamp) <= u64::MAX,
        ensures
            r == final(self).spec_time(),
            final(self).spec_time() == old(self).spec_time() + spec_tick(
                old(self).spec_prev(),
                timestamp,
            ),
            final(self).spec_prev() == Some(timestamp),
    {
        let prev = match self.prev {
            Some(p) => p,
            None => timestamp,
        };
        let diff = rtmp_timestamp_diff(timestamp, prev);
        self.time = self.time + diff as u64;
        self.prev = Some(timestamp);
        self.time
    }
}

/// What a timestamp adds to the running time after `prev`: its difference,
/// wrapping around 32 bits; nothing for the first timestamp.
pub open spec fn spec_tick(prev: Option<u32>, timestamp: u32) -> nat {
    match prev {
        Some(p) => ((timestamp - p) as u32) as nat,
        None => 0,
    }
}

/// Timestamps that do not wrap add up: from `a` through `b` to `c` the
/// running time grows by `c - a`.
pub proof fn lemma_ticks_add_up(a: u32, b: u32, c: u32)
    requires
        a <= b <= c,
    ensures
        spec_tick(Some(a), b) + spec_tick(Some(b), c) == c - a,
{
}

/// The timebase of RTMP timestamps: milliseconds.
pub fn rtmp_timebase() -> (r: Fraction)
    ensures
        r == (Fraction { numerator: 1, denominator: 1000 }),
{
    Fraction::new(1, 1000)
}

/// The timebase of AAC audio: 48 kHz.
pub fn rtmp_aac_timebase() -> (r: Fraction)
    ensures
        r == (Fraction { numerator: 1, denominator: 48000 }),
{
    Fraction::new(1, 48000)
}

/// Where the codec of a video stream comes from.
#[derive(Debug, Copy, Clone, PartialEq, Eq, Structural)]
pub enum CodecSource {
    /// An AVC decoder configuration record (`get_codec_from_mp4`).
    SequenceHeader,
    /// The parameter sets among the NAL units (`get_video_codec_info`).
    Nalu,
}

/// The source of the codec of a video stream whose first tag is `tag`:
/// only sequence headers and NAL units announce one.
pub fn codec_source(tag: &AvcVideoTag) -> (r: Result<CodecSource, RtmpError>)
    ensures
        tag.packet_type is SequenceHeader ==> r == Ok::<CodecSource, RtmpError>(
            CodecSource::SequenceHeader,
        ),
        tag.packet_type is NALU ==> r == Ok::<CodecSource, RtmpError>(CodecSource::Nalu),
        !(tag.packet_type is SequenceHeader || tag.packet_type is NALU) ==> r matches Err(
            RtmpError::UnsupportedAvcPacketType,
        ),
{
    match tag.packet_type {
        AvcPacketType::SequenceHeader => Ok(CodecSource::SequenceHeader),
        AvcPacketType::NALU => Ok(CodecSource::Nalu),
        _ => Err(RtmpError::UnsupportedAvcPacketType),
    }
}

/// What a video tag gives.
pub enum VideoStep {
    /// The stream has no codec yet: it comes from this first tag
    /// (`codec_source`), then `assign_video_stream`.
    NeedsCodec(AvcVideoTag),
    Frame(Frame),
}

/// What an audio tag gives.
pub enum AudioStep {
    /// The stream has no codec yet: it comes from this first tag
    /// (`get_audio_codec_info`), then `assign_audio_stream`.
    NeedsCodec(AudioTag),
    Frame(Frame),
}

/// The streams of an RTMP session and the running times of their tracks.
pub struct RtmpReadState {
    video_stream: Option<Stream>,
    video_clock: RtmpClock,
    audio_stream: Option<Stream>,
    audio_clock: RtmpClock,
}

impl RtmpReadState {
    pub closed spec fn spec_video_stream(&self) -> Option<Stream> {
        self.video_stream
    }

    pub closed spec fn spec_audio_stream(&self) -> Option<Stream> {
        self.audio_stream
    }

    pub closed spec fn spec_video_clock(&self) -> RtmpClock {
        self.video_clock
    }

    pub closed spec fn spec_audio_clock(&self) -> RtmpClock {
        self.audio_clock
    }

    pub fn new() -> (r: Self)
        ensures
            r.spec_video_stream() is None,
            r.spec_audio_stream() is None,
            r.spec_video_clock() == RtmpClock::new_spec(),
            r.spec_audio_clock() == RtmpClock::new_spec(),
    {
        RtmpReadState {
            video_stream: None,
            video_clock: RtmpClock::new(),
            audio_stream: None,
            audio_clock: RtmpClock::new(),
        }
    }

    /// The video stream, stream 0 in milliseconds, with `codec`.
    pub fn assign_video_stream(&mut self, codec: CodecInfo)
        ensures
            final(self).spec_video_stream() matches Some(s) && s.id == 0 && *s.codec == codec
                && s.timebase == (Fraction { numerator: 1, denominator: 1000 }),
            final(self).spec_audio_stream() == old(self).spec_audio_stream(),
            final(self).spec_video_clock() == old(self).spec_video_clock(),
            final(self).spec_audio_clock() == old(self).spec_audio_clock(),
    {
        self.video_stream = Some(Stream { id: 0, codec: Arc::new(codec), timebase: rtmp_timebase() });
    }

    /// The audio stream, stream 1 in 48 kHz ticks, with `codec`.
    pub fn assign_audio_stream(&mut self, codec: CodecInfo)
        ensures
            final(self).spec_audio_stream() matches Some(s) && s.id == 1 && *s.codec == codec
                && s.timebase == (Fraction { numerator: 1, denominator: 48000 }),
            final(self).spec_video_stream() == old(self).spec_video_stream(),
            final(self).spec_video_clock() == old(self).spec_video_clock(),
            final(self).spec_audio_clock() == old(self).spec_audio_clock(),
    {
        self.audio_stream = Some(
            Stream { id: 1, codec: Arc::new(codec), timebase: rtmp_aac_timebase() },
        );
    }

    /// Whether `add_video_frame` can take a tag with `timestamp` without
    /// the video running time overflowing.
    pub fn can_add_video(&self, timestamp: u32) -> (r: bool)
        ensures
            r == (self.spec_video_clock().spec_time() + spec_tick(
                self.spec_video_clock().spec_prev(),
                timestamp,
            ) <= u64::MAX),
    {
        let tick = self.video_clock.tick(timestamp);
        tick <= u64::MAX - self.video_clock.time
    }

    /// Whether `add_audio_frame` can take `data` with `timestamp`: a tag
    /// of an audio stream with a codec has its packet type, and the running
    /// time in 48 kHz ticks fits 64 bits.
    pub fn can_add_audio(&self, data: &[u8], timestamp: u32) -> (r: bool)
        ensures
            r == ((self.spec_audio_stream() is Some ==> data@.len() != 1) && (
            self.spec_audio_clock().spec_time() + spec_tick(
                self.spec_audio_clock().spec_prev(),
                timestamp,
            )) * 48000 <= u64::MAX),
    {
        let tick = self.audio_clock.tick(timestamp) as u128;
        let total = self.audio_clock.time as u128 + tick;
        (self.audio_stream.is_none() || data.len() != 1) && total * 48000 <= u64::MAX as u128
    }

    /// The streams found, the video stream first.
    pub fn streams(&self) -> (r: Vec<Stream>)
        ensures
            r@ == (match self.spec_video_stream() {
                Some(v) => seq![v],
                None => Seq::empty(),
            }) + (match self.spec_audio_stream() {
                Some(a) => seq![a],
                None => Seq::empty(),
            }),
    {
        let mut r: Vec<Stream> = Vec::new();
        match &self.video_stream {
            Some(v) => r.push(v.copied()),
            None => {},
        }
        match &self.audio_stream {
            Some(a) => r.push(a.copied()),
            None => {},
        }
        assert(r@ =~= (match self.spec_video_stream() {
            Some(v) => seq![v],
            None => Seq::empty(),
        }) + (match self.spec_audio_stream() {
            Some(a) => seq![a],
            None => Seq::empty(),
        }));
        r
    }

    /// Whether the streams the metadata announces have all been found: a
    /// video stream when it announces video, an audio stream when it
    /// announces audio.
    pub fn streams_ready(&self, expecting_video: bool, expecting_audio: bool) -> (r: bool)
        ensures
            r == !((expecting_video && self.spec_video_stream() is None) || (expecting_audio
                && self.spec_audio_stream() is None)),
    {
        !((expecting_video && self.video_stream.is_none()) || (expecting_audio
            && self.audio_stream.is_none()))
    }

    /// A video tag received at `received` with RTMP timestamp `timestamp`.
    /// Before the stream has a codec, the tag is handed back for it; after,
    /// it is a frame at the track's running time in milliseconds, a
    /// keyframe when the tag says so, else depending on earlier frames,
    /// holding the AVC packet's data.
    pub fn add_video_frame(&mut self, data: &[u8], timestamp: u32, received: std::time::Instant) -> (r:
        Result<VideoStep, RtmpError>)
        requires
            old(self).spec_video_clock().spec_time() + spec_tick(
                old(self).spec_video_clock().spec_prev(),
                timestamp,
            ) <= u64::MAX,
        ensures
            final(self).spec_video_stream() == old(self).spec_video_stream(),
            final(self).spec_audio_stream() == old(self).spec_audio_stream(),
            final(self).spec_audio_clock() == old(self).spec_audio_clock(),
            data@.len() < 5 ==> (r is Err && final(self).spec_video_clock() == old(
                self,
            ).spec_video_clock()),
            data@.len() >= 5 ==> match old(self).spec_video_stream() {
                None => {
                    &&& r matches Ok(VideoStep::NeedsCodec(t))
                    &&& t.frame_type == spec_frame_type(data@[0] >> 4u8)
                    &&& t.packet_type == spec_packet_type(data@[1])
                    &&& t.avc_data@ == data@.skip(5)
                    &&& final(self).spec_video_clock() == old(self).spec_video_clock()
                },
                Some(s) => {
                    &&& final(self).spec_video_clock().spec_prev() == Some(timestamp)
                    &&& final(self).spec_video_clock().spec_time() == old(
                        self,
                    ).spec_video_clock().spec_time() + spec_tick(
                        old(self).spec_video_clock().spec_prev(),
                        timestamp,
                    )
                    &&& r matches Ok(VideoStep::Frame(f))
                    &&& f.time == (MediaTime {
                        pts: final(self).spec_video_clock().spec_time(),
                        dts: None,
                        timebase: Fraction { numerator: 1, denominator: 1000 },
                    })
                    &&& (f.dependency is Independent <==> spec_frame_type(data@[0] >> 4u8) is Key)
                    &&& (f.dependency is Independent || f.dependency is Backwards)
                    &&& bytes_view(f.buffer) == data@.skip(5)
                    &&& f.stream == s
                    &&& f.received == received
                },
            },
    {
        let tag = parse_video_tag(data)?;
        match &self.video_stream {
            None => Ok(VideoStep::NeedsCodec(tag)),
            Some(stream) => {
                let stream = stream.copied();
                let pts = self.video_clock.advance(timestamp);
                let dependency = match tag.frame_type {
                    FrameType::Key => FrameDependency::Independent,
                    _ => FrameDependency::Backwards,
                };
                Ok(
                    VideoStep::Frame(
                        Frame {
                            time: MediaTime { pts, dts: None, timebase: rtmp_timebase() },
                            dependency,
                            buffer: bytes_copy_from_slice(tag.avc_data.as_slice()),
                            stream,
                            received,
                        },
                    ),
                )
            },
        }
    }

    /// An audio tag received at `received` with RTMP timestamp `timestamp`.
    /// Before the stream has a codec, the tag is handed back for it; after,
    /// it is a frame at the track's running time converted from
    /// milliseconds to 48 kHz ticks, holding the AAC data after the packet
    /// type. A tag of one byte, with no packet type, panics on reading, and
    /// a running time past `u64::MAX / 48000` overflows; `requires` leaves
    /// both out.
    pub fn add_audio_frame(&mut self, data: &[u8], timestamp: u32, received: std::time::Instant) -> (r:
        Result<AudioStep, RtmpError>)
        requires
            old(self).spec_audio_stream() is Some ==> data@.len() != 1,
            (old(self).spec_audio_clock().spec_time() + spec_tick(
                old(self).spec_audio_clock().spec_prev(),
                timestamp,
            )) * 48000 <= u64::MAX,
        ensures
            final(self).spec_video_stream() == old(self).spec_video_stream(),
            final(self).spec_audio_stream() == old(self).spec_audio_stream(),
            final(self).spec_video_clock() == old(self).spec_video_clock(),
            (data@.len() < 1 || spec_audio_header(data@[0]) is None) ==> (r matches Err(
                RtmpError::ParseAudioTag,
            ) && final(self).spec_audio_clock() == old(self).spec_audio_clock()),
            (data@.len() >= 1 && spec_audio_header(data@[0]) is Some) ==> match old(
                self,
            ).spec_audio_stream() {
                None => {
                    &&& r matches Ok(AudioStep::NeedsCodec(t))
                    &&& Some(t.header) == spec_audio_header(data@[0])
                    &&& t.data@ == data@.skip(1)
                    &&& final(self).spec_audio_clock() == old(self).spec_audio_clock()
                },
                Some(s) => {
                    &&& final(self).spec_audio_clock().spec_prev() == Some(timestamp)
                    &&& final(self).spec_audio_clock().spec_time() == old(
                        self,
                    ).spec_audio_clock().spec_time() + spec_tick(
                        old(self).spec_audio_clock().spec_prev(),
                        timestamp,
                    )
                    &&& r matches Ok(AudioStep::Frame(f))
                    &&& f.time == (MediaTime {
                        pts: spec_convert_timebase(
                            final(self).spec_audio_clock().spec_time(),
                            Fraction { numerator: 1, denominator: 1000 },
                            Fraction { numerator: 1, denominator: 48000 },
                        ) as u64,
                        dts: None,
                        timebase: Fraction { numerator: 1, denominator: 48000 },
                    })
                    &&& f.dependency is Independent
                    &&& bytes_view(f.buffer) == data@.skip(2)
                    &&& f.stream == s
                    &&& f.received == received
                },
            },
    {
        let tag = parse_audio_tag(data)?;
        match &self.audio_stream {
            None => Ok(AudioStep::NeedsCodec(tag)),
            Some(stream) => {
                let stream = stream.copied();
                let pts = self.audio_clock.advance(timestamp);
                let time = MediaTime { pts, dts: None, timebase: rtmp_timebase() };
                let time = time.in_base(rtmp_aac_timebase());
                let payload = copy_tail(tag.data.as_slice(), 1);
                assert(payload@ =~= data@.skip(2));
                Ok(
                    AudioStep::Frame(
                        Frame {
                            time,
                            dependency: FrameDependency::Independent,
                            buffer: bytes_copy_from_slice(payload.as_slice()),
                            stream,
                            received,
                        },
                    ),
                )
            },
        }
    }
}

impl RtmpClock {
    /// A clock that has seen no timestamp.
    pub closed spec fn new_spec() -> RtmpClock {
        RtmpClock { time: 0, prev: None }
    }
}

/// A result of the RTMP server session, as the publish handshake reads it.
pub enum ServerSessionResult {
    /// Bytes to send to the client.
    OutboundResponse,
    ConnectionRequested { request_id: u32 },
    PublishStreamRequested { request_id: u32, app_name: String, stream_key: String },
    /// Anything else the session raised or could not handle.
    Other,
}

/// What to do with a session result while waiting for a publish request.
#[derive(Debug, Copy, Clone, PartialEq, Eq, Structural)]
pub enum HandshakeAction {
    /// Send the response to the client.
    Send,
    /// Accept the connection request, and handle what accepting gives.
    Accept { request_id: u32 },
    Ignore,
}

/// Waits, after the RTMP handshake, for the client to ask to publish: it
/// accepts connection requests and keeps the last publish request seen.
pub struct PublishWait {
    stream_info: Option<(u32, String, String)>,
}

impl PublishWait {
    pub closed spec fn spec_stream_info(&self) -> Option<(u32, Seq<char>, Seq<char>)> {
        match self.stream_info {
            Some((id, app, key)) => Some((id, app@, key@)),
            None => None,
        }
    }

    pub fn new() -> (r: Self)
        ensures
            r.spec_stream_info() is None,
    {
        PublishWait { stream_info: None }
    }

    /// Handles one session result: responses are sent, connection requests
    /// accepted, a publish request kept, anything else ignored.
    pub fn handle(&mut self, result: ServerSessionResult) -> (r: HandshakeAction)
        ensures
            match result {
                ServerSessionResult::OutboundResponse => r == HandshakeAction::Send
                    && final(self).spec_stream_info() == old(self).spec_stream_info(),
                ServerSessionResult::ConnectionRequested { request_id } => r
                    == (HandshakeAction::Accept { request_id }) && final(self).spec_stream_info()
                    == old(self).spec_stream_info(),
                ServerSessionResult::PublishStreamRequested { request_id, app_name, stream_key } => r
                    == HandshakeAction::Ignore && final(self).spec_stream_info() == Some(
                    (request_id, app_name@, stream_key@),
                ),
                ServerSessionResult::Other => r == HandshakeAction::Ignore
                    && final(self).spec_stream_info() == old(self).spec_stream_info(),
            },
    {
        match result {
            ServerSessionResult::OutboundResponse => HandshakeAction::Send,
            ServerSessionResult::ConnectionRequested { request_id } => HandshakeAction::Accept {
                request_id,
            },
            ServerSessionResult::PublishStreamRequested { request_id, app_name, stream_key } => {
                self.stream_info = Some((request_id, app_name, stream_key));
                HandshakeAction::Ignore
            },
            ServerSessionResult::Other => HandshakeAction::Ignore,
        }
    }

    /// Once the pending results are handled: the publish request, if one
    /// came (the session is then ready to be authenticated), else `None`
    /// and more input is to be read.
    pub fn take_publish_request(&mut self) -> (r: Option<(u32, String, String)>)
        ensures
            match r {
                Some((id, app, key)) => old(self).spec_stream_info() == Some((id, app@, key@)),
                None => old(self).spec_stream_info() is None,
            },
            final(self).spec_stream_info() is None,
    {
        let r = self.stream_info.take();
        r
    }
}

} // verus!
