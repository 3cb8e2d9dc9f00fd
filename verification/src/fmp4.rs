//! Fragmented MP4 output of a stream of frames: an initialization segment
//! (`ftyp` and `moov`) describing the streams, then one `moof` and `mdat`
//! per frame.

use crate::buf::{bytes_len, bytes_as_slice, bytes_mut_extend, bytes_mut_as_slice, bytes_mut_new, bytes_mut_to_vec, bytes_mut_view, bytes_view};
use crate::media::{
    clone_bytes, spec_pts_diff, u64_as_i64, AudioCodecInfo, AudioCodecSpecificInfo, CodecTypeInfo,
    Frame, FrameDependency, MediaTime, Stream, VideoCodecInfo,
    VideoCodecSpecificInfo,
};
use crate::mp4::{
    box_fits, spec_serialized, lemma_box_bytes_bound, lemma_box_bytes_len, spec_box_bytes, spec_box_size,
    FullBoxHeader, AvcConfigurationBox, AvcDecoderConfigurationRecord, MovieBox, MovieExtendsBox,
    MovieExtendsHeaderBox, MovieHeaderBox, TrackExtendsBox, MovieFragmentBox,
    MovieFragmentHeaderBox, TrackFragmentBox, TrackFragmentHeaderBox, TrackFragmentRunBox,
    TrackFragmentSample, TrackFragmentBaseMediaDecodeTimeBox, box_size_agrees, MediaDataBox, AvcSampleEntryBox, ChunkLargeOffsetBox,
    DataEntryUrlBox, DataInformationBox, DataReferenceBox, FileTypeBox, HandlerBox, MediaBox,
    MediaHeader, MediaHeaderBox, MediaInformationBox, Mp4Box, SampleDescriptionBox, SampleEntry,
    SampleSizeBox, SampleTableBox, SampleToChunkBox, SoundMediaHeaderBox, TimeToSampleBox,
    TrackBox, TrackHeaderBox, VideoMediaHeaderBox, DecoderConfigDescriptor, DecoderSpecificInfo,
    EsDescriptor, EsdBox, Mpeg4AudioSampleEntryBox, lemma_es_descriptor_len,
};
use crate::mp4::encode::lemma_concat_bytes_len_uniform;
use bytes::BytesMut;
use std::collections::HashMap;
use vstd::prelude::*;
use vstd::string::StringSliceAdditionalSpecFns;

verus! {

/// The handler type of a video track, `vide`.
pub const HANDLER_VIDEO: u32 = 0x7669_6465;

/// The handler type of an audio track, `soun`.
pub const HANDLER_SOUND: u32 = 0x736f_756e;

/// The number of configuration bytes a codec carries: those of the H.264
/// sequence and picture parameter sets of a video codec, those of the AAC
/// decoder configuration of an audio codec.
pub open spec fn spec_param_len(c: CodecTypeInfo) -> nat {
    match c {
        CodecTypeInfo::Video(v) => match v.extra {
            VideoCodecSpecificInfo::H264 { sps, pps, .. } => sps@.len() + pps@.len(),
        },
        CodecTypeInfo::Audio(a) => match a.extra {
            AudioCodecSpecificInfo::Aac { extra } => extra@.len(),
        },
    }
}

/// `e` is the MPEG-4 audio sample entry of the audio codec `a`: two
/// channels of 16-bit samples at 48000 Hz, and an `esds` box describing
/// elementary stream 2 of object type 0x40 (MPEG-4 audio) with the codec's
/// AAC configuration as its decoder-specific information.
pub open spec fn spec_mp4a_entry_for(e: Mpeg4AudioSampleEntryBox, a: AudioCodecInfo) -> bool {
    match a.extra {
        AudioCodecSpecificInfo::Aac { extra } => {
            &&& e.channel_count == 2
            &&& e.sample_size == 16
            &&& e.sample_rate == 48000
            &&& e.esds.descriptor.es_id == 2
            &&& e.esds.descriptor.decoder_config.object_type_indication == 0x40
            &&& e.esds.descriptor.decoder_config.decoder_specific_info matches Some(d)
            &&& d.data@ == extra@
        },
    }
}

/// `e` is the AVC sample entry of the video codec `v`: its coded size
/// (each dimension truncated to 16 bits) and a decoder configuration with
/// the codec's profile, level and parameter sets.
pub open spec fn spec_avc_entry_for(e: AvcSampleEntryBox, v: VideoCodecInfo) -> bool {
    match v.extra {
        VideoCodecSpecificInfo::H264 {
            profile_indication,
            profile_compatibility,
            level_indication,
            sps,
            pps,
            ..
        } => {
            &&& e.width == v.width as u16
            &&& e.height == v.height as u16
            &&& e.avcc.config.profile_indication == profile_indication
            &&& e.avcc.config.profile_compatibility == profile_compatibility
            &&& e.avcc.config.level_indication == level_indication
            &&& e.avcc.config.sequence_parameter_set@ == sps@
            &&& e.avcc.config.picture_parameter_set@ == pps@
        },
    }
}

/// The handler types are the four characters `vide` and `soun`.
pub proof fn lemma_handler_types()
    ensures
        crate::endian::be_u32(HANDLER_VIDEO) == seq![0x76u8, 0x69u8, 0x64u8, 0x65u8],
        crate::endian::be_u32(HANDLER_SOUND) == seq![0x73u8, 0x6fu8, 0x75u8, 0x6eu8],
{
    crate::endian::lemma_be_digits(0, 0, HANDLER_VIDEO, 0);
    assert(crate::endian::be_u32(HANDLER_VIDEO) =~= seq![0x76u8, 0x69u8, 0x64u8, 0x65u8]);
    crate::endian::lemma_be_digits(0, 0, HANDLER_SOUND, 0);
    assert(crate::endian::be_u32(HANDLER_SOUND) =~= seq![0x73u8, 0x6fu8, 0x75u8, 0x6eu8]);
}

/// The sample entry of a video stream shows the stream's coded width and
/// height, each in two bytes at offsets 24 and 26 of the entry's fields
/// (the low sixteen bits, most significant byte first), and its decoder
/// configuration has the codec's profile, compatibility and level and
/// announces the four-byte NAL lengths that the fragments' samples use.
pub proof fn lemma_avc_entry_bytes(e: AvcSampleEntryBox, v: VideoCodecInfo)
    requires
        spec_avc_entry_for(e, v),
    ensures
        e.spec_fields()[24] == (v.width % 0x1_0000) / 0x100,
        e.spec_fields()[25] == v.width % 0x100,
        e.spec_fields()[26] == (v.height % 0x1_0000) / 0x100,
        e.spec_fields()[27] == v.height % 0x100,
        crate::mp4::spec_announced_length_size(e.avcc.config.spec_bytes()) == 4,
        v.extra matches VideoCodecSpecificInfo::H264 { profile_indication, profile_compatibility, level_indication, .. }
            ==> e.avcc.config.spec_bytes()[1] == profile_indication && e.avcc.config.spec_bytes()[2]
            == profile_compatibility && e.avcc.config.spec_bytes()[3] == level_indication,
{
    e.lemma_fields_layout();
    crate::mp4::lemma_record_header(e.avcc.config);
    let w = v.width;
    let h = v.height;
    assert((w as u16) as int == w % 0x1_0000 && (h as u16) as int == h % 0x1_0000) by (bit_vector);
    crate::endian::lemma_be_digits(e.width, 0, 0, 0);
    assert(e.spec_fields()[24] == e.spec_fields().subrange(24, 26)[0]);
    assert(e.spec_fields()[25] == e.spec_fields().subrange(24, 26)[1]);
    crate::endian::lemma_be_digits(e.height, 0, 0, 0);
    assert(e.spec_fields()[26] == e.spec_fields().subrange(26, 28)[0]);
    assert(e.spec_fields()[27] == e.spec_fields().subrange(26, 28)[1]);
    assert((w % 0x1_0000) % 0x100 == w % 0x100) by (nonlinear_arith);
    assert((h % 0x1_0000) % 0x100 == h % 0x100) by (nonlinear_arith);
}

/// The sample entry of an audio stream shows two channels of 16-bit
/// samples at 48000 Hz, and its elementary stream descriptor is stream 2
/// of object type 0x40 (MPEG-4 audio) whose decoder-specific information
/// is the codec's AAC configuration.
pub proof fn lemma_mp4a_entry_bytes(e: Mpeg4AudioSampleEntryBox, a: AudioCodecInfo)
    requires
        spec_mp4a_entry_for(e, a),
    ensures
        e.spec_fields().subrange(16, 18) == seq![0u8, 2u8],
        e.spec_fields().subrange(18, 20) == seq![0u8, 16u8],
        e.spec_fields().subrange(24, 26) == seq![0xbbu8, 0x80u8],
        e.esds.descriptor.spec_bytes().subrange(5, 7) == seq![0u8, 2u8],
        e.esds.descriptor.spec_bytes()[13] == 0x40u8,
        a.extra matches AudioCodecSpecificInfo::Aac { extra } ==> e.esds.descriptor.spec_bytes().subrange(
            31,
            31 + extra@.len() as int,
        ) == extra@,
{
    e.lemma_fields_layout();
    crate::mp4::lemma_es_descriptor_layout(e.esds.descriptor);
    crate::endian::lemma_be_digits(2, 0, 0, 0);
    crate::endian::lemma_be_digits(16, 0, 0, 0);
    crate::endian::lemma_be_digits(48000u32 as u16, 0, 0, 0);
    assert(crate::endian::be_u16(2) =~= seq![0u8, 2u8]);
    assert(crate::endian::be_u16(16) =~= seq![0u8, 16u8]);
    assert(crate::endian::be_u16(48000u32 as u16) =~= seq![0xbbu8, 0x80u8]);
    crate::endian::lemma_be_digits(e.esds.descriptor.es_id, 0, 0, 0);
    assert(crate::endian::be_u16(e.esds.descriptor.es_id) =~= seq![0u8, 2u8]);
}

/// The sample entry describing a codec: an AVC entry for a video codec,
/// an MPEG-4 audio entry for an audio codec.
pub open spec fn spec_sample_entry_for(e: SampleEntry, c: CodecTypeInfo) -> bool {
    match c {
        CodecTypeInfo::Video(v) => e matches SampleEntry::Avc(avc) && spec_avc_entry_for(avc, v),
        CodecTypeInfo::Audio(a) => e matches SampleEntry::Mp4a(mp4a) && spec_mp4a_entry_for(
            mp4a,
            a,
        ),
    }
}

/// The sample entries a track of a stream with codec `c` describes: the
/// one entry of the codec.
pub open spec fn spec_sample_entries_for(s: Seq<SampleEntry>, c: CodecTypeInfo) -> bool {
    s.len() == 1 && spec_sample_entry_for(s[0], c)
}

/// The sample entry describing a codec: an AVC entry for H.264 video, an
/// MPEG-4 audio entry for AAC.
pub fn get_sample_entry_for_codec_type(codec: &CodecTypeInfo) -> (r: SampleEntry)
    ensures
        spec_sample_entry_for(r, *codec),
{
    match codec {
        CodecTypeInfo::Video(video) => {
            let VideoCodecSpecificInfo::H264 {
                profile_indication,
                profile_compatibility,
                level_indication,
                sps,
                pps,
                ..
            } = &video.extra;
            let sps_bytes = clone_bytes(sps);
            let pps_bytes = clone_bytes(pps);
            SampleEntry::Avc(
                AvcSampleEntryBox {
                    width: video.width as u16,
                    height: video.height as u16,
                    avcc: AvcConfigurationBox {
                        config: AvcDecoderConfigurationRecord {
                            profile_indication: *profile_indication,
                            profile_compatibility: *profile_compatibility,
                            level_indication: *level_indication,
                            sequence_parameter_set: sps_bytes,
                            picture_parameter_set: pps_bytes,
                        },
                    },
                },
            )
        },
        CodecTypeInfo::Audio(audio) => {
            let extra = match audio.extra.decoder_specific_data() {
                Some(data) => Some(DecoderSpecificInfo { data }),
                None => None,
            };
            SampleEntry::Mp4a(
                Mpeg4AudioSampleEntryBox {
                    channel_count: 2,
                    sample_size: 16,
                    sample_rate: 48000,
                    esds: EsdBox {
                        descriptor: EsDescriptor {
                            es_id: 2,
                            decoder_config: DecoderConfigDescriptor {
                                object_type_indication: 0x40,
                                decoder_specific_info: extra,
                            },
                        },
                    },
                },
            )
        },
    }
}

/// `t` is the track describing `stream`: track `track_id`, the stream's
/// timebase as the media timescale, a handler of the given type and name,
/// a video or sound media header, one self-contained data reference, the
/// sample entries of the stream's codec, and empty sample tables (the
/// samples come in fragments). Creation and modification times and
/// durations are zero.
pub open spec fn spec_track_for(
    t: TrackBox,
    stream: Stream,
    track_id: u32,
    handler_type: u32,
    handler_name: Seq<char>,
    video: bool,
) -> bool {
    &&& t.tkhd == (TrackHeaderBox {
        creation_time: 0,
        modification_time: 0,
        track_id,
        duration: 0,
    })
    &&& t.mdia.mdhd == (MediaHeaderBox {
        creation_time: 0,
        modification_time: 0,
        timescale: stream.timebase.denominator,
        duration: 0,
    })
    &&& t.mdia.hdlr.handler_type == handler_type
    &&& t.mdia.hdlr.name@ == handler_name
    &&& (if video {
        t.mdia.minf.media_header is Video
    } else {
        t.mdia.minf.media_header is Sound
    })
    &&& t.mdia.minf.dinf.dref.entries@.len() == 1
    &&& t.mdia.minf.dinf.dref.entries@[0].location@ == Seq::<char>::empty()
    &&& spec_sample_entries_for(t.mdia.minf.stbl.stsd.entries@, stream.codec.properties)
    &&& t.mdia.minf.stbl.stts.entries@.len() == 0
    &&& t.mdia.minf.stbl.stsc.entries@.len() == 0
    &&& t.mdia.minf.stbl.stsz.sample_sizes@.len() == 0
    &&& t.mdia.minf.stbl.co64.chunk_offsets@.len() == 0
}

fn track_for_stream(
    stream: &Stream,
    track_id: u32,
    handler_type: u32,
    handler_name: String,
    media_header: MediaHeader,
) -> (r: TrackBox)
    ensures
        spec_track_for(
            r,
            *stream,
            track_id,
            handler_type,
            handler_name@,
            media_header is Video,
        ),
{
    let entries: Vec<SampleEntry> = vec![get_sample_entry_for_codec_type(&stream.codec.properties)];
    let mut urls: Vec<DataEntryUrlBox> = Vec::new();
    urls.push(DataEntryUrlBox { location: String::new() });
    TrackBox {
        tkhd: TrackHeaderBox { creation_time: 0, modification_time: 0, track_id, duration: 0 },
        mdia: MediaBox {
            mdhd: MediaHeaderBox {
                creation_time: 0,
                modification_time: 0,
                timescale: stream.timebase.denominator,
                duration: 0,
            },
            hdlr: HandlerBox { handler_type, name: handler_name },
            minf: MediaInformationBox {
                media_header,
                dinf: DataInformationBox { dref: DataReferenceBox { entries: urls } },
                stbl: SampleTableBox {
                    stsd: SampleDescriptionBox { entries },
                    stts: TimeToSampleBox { entries: Vec::new() },
                    stsc: SampleToChunkBox { entries: Vec::new() },
                    stsz: SampleSizeBox { sample_sizes: Vec::new() },
                    co64: ChunkLargeOffsetBox { chunk_offsets: Vec::new() },
                },
            },
        },
    }
}

/// The track of a video stream: track 1, handler `vide` named "Video
/// Handler", a video media header.
pub fn get_track_for_video_stream(stream: &Stream) -> (r: TrackBox)
    ensures
        spec_track_for(r, *stream, 1, HANDLER_VIDEO, "Video Handler"@, true),
{
    track_for_stream(
        stream,
        1,
        HANDLER_VIDEO,
        "Video Handler".to_owned(),
        MediaHeader::Video(VideoMediaHeaderBox {  }),
    )
}

/// The track of an audio stream: track 2, handler `soun` named "Audio
/// Handler", a sound media header.
pub fn get_track_for_audio_stream(stream: &Stream) -> (r: TrackBox)
    ensures
        spec_track_for(r, *stream, 2, HANDLER_SOUND, "Audio Handler"@, false),
{
    track_for_stream(
        stream,
        2,
        HANDLER_SOUND,
        "Audio Handler".to_owned(),
        MediaHeader::Sound(SoundMediaHeaderBox {  }),
    )
}

proof fn lemma_stbl_fits(stbl: SampleTableBox, stream: Stream)
    requires
        spec_sample_entries_for(stbl.stsd.entries@, stream.codec.properties),
        stbl.stts.entries@.len() == 0,
        stbl.stsc.entries@.len() == 0,
        stbl.stsz.sample_sizes@.len() == 0,
        stbl.co64.chunk_offsets@.len() == 0,
        spec_param_len(stream.codec.properties) + 4096 <= u64::MAX,
    ensures
        box_fits(&stbl),
        spec_box_size(&stbl) <= 512 + spec_param_len(stream.codec.properties),
{
    let stsd = stbl.stsd;
    stsd.lemma_unfold();
    reveal_with_fuel(crate::mp4::entries_size, 2);
    match stsd.entries@[0] {
        SampleEntry::Avc(e) => {
            e.lemma_unfold();
            assert(box_fits(&e.avcc));
            assert(box_fits(&e));
            assert(spec_box_size(&e) <= 200 + spec_param_len(stream.codec.properties));
        },
        SampleEntry::Mp4a(e) => {
            e.lemma_unfold();
            lemma_es_descriptor_len(e.esds.descriptor);
            FullBoxHeader::lemma_new(0, 0);
            assert(box_fits(&e.esds));
            assert(box_fits(&e));
            assert(spec_box_size(&e) <= 200 + spec_param_len(stream.codec.properties));
        },
    }
    assert(stsd.entries@[0].spec_fits());
    FullBoxHeader::lemma_new(0, 0);
    assert(box_fits(&stsd));
    assert(spec_box_size(&stsd) <= 256 + spec_param_len(stream.codec.properties));
    stbl.lemma_unfold();
}

proof fn lemma_dinf_fits(dinf: DataInformationBox)
    requires
        dinf.dref.entries@.len() == 1,
        dinf.dref.entries@[0].location@ == Seq::<char>::empty(),
    ensures
        box_fits(&dinf),
        spec_box_size(&dinf) <= 64,
{
    let dref = dinf.dref;
    dref.lemma_unfold();
    reveal_with_fuel(crate::mp4::nested::boxes_size, 2);
    FullBoxHeader::lemma_new(0, 0);
    FullBoxHeader::lemma_new(0, 1);
    assert(box_fits(&dref.entries@[0]));
    assert(box_fits(&dref));
    dinf.lemma_unfold();
}

proof fn lemma_minf_fits(minf: MediaInformationBox, stream: Stream)
    requires
        minf.dinf.dref.entries@.len() == 1,
        minf.dinf.dref.entries@[0].location@ == Seq::<char>::empty(),
        spec_sample_entries_for(minf.stbl.stsd.entries@, stream.codec.properties),
        minf.stbl.stts.entries@.len() == 0,
        minf.stbl.stsc.entries@.len() == 0,
        minf.stbl.stsz.sample_sizes@.len() == 0,
        minf.stbl.co64.chunk_offsets@.len() == 0,
        spec_param_len(stream.codec.properties) + 4096 <= u64::MAX,
    ensures
        box_fits(&minf),
        spec_box_size(&minf) <= 640 + spec_param_len(stream.codec.properties),
{
    lemma_stbl_fits(minf.stbl, stream);
    lemma_dinf_fits(minf.dinf);
    FullBoxHeader::lemma_new(0, 0);
    FullBoxHeader::lemma_new(0, 1);
    assert(minf.media_header.spec_fits());
    minf.lemma_unfold();
}

/// A track built for a stream can be written: it fits, and it reports at
/// most 1024 bytes beyond the parameter sets of the stream's codec.
proof fn lemma_track_fits(
    t: TrackBox,
    stream: Stream,
    track_id: u32,
    handler_type: u32,
    handler_name: Seq<char>,
    video: bool,
)
    requires
        spec_track_for(t, stream, track_id, handler_type, handler_name, video),
        vstd::utf8::encode_utf8(handler_name).len() <= 64,
        spec_param_len(stream.codec.properties) + 4096 <= u64::MAX,
    ensures
        box_fits(&t),
        spec_box_size(&t) <= 1024 + spec_param_len(stream.codec.properties),
{
    lemma_minf_fits(t.mdia.minf, stream);
    FullBoxHeader::lemma_new(0, 0);
    FullBoxHeader::lemma_new(1, 3);
    FullBoxHeader::lemma_new(1, 0);
    assert(box_fits(&t.mdia.hdlr));
    assert(box_fits(&t.mdia.mdhd));
    t.mdia.lemma_unfold();
    assert(box_fits(&t.mdia));
    t.lemma_unfold();
}

/// `f` is the file type box of the preamble: major brand `isom`, minor
/// version 0, compatible brands `isom`, `iso5` and `dash`.
pub open spec fn spec_preamble_ftyp(f: FileTypeBox) -> bool {
    &&& f.spec_major_brand() == seq![0x69u8, 0x73, 0x6f, 0x6d]
    &&& f.spec_minor_version() == 0
    &&& f.spec_compatible_brands().len() == 3
    &&& f.spec_compatible_brands()[0]@ == seq![0x69u8, 0x73, 0x6f, 0x6d]
    &&& f.spec_compatible_brands()[1]@ == seq![0x69u8, 0x73, 0x6f, 0x35]
    &&& f.spec_compatible_brands()[2]@ == seq![0x64u8, 0x61, 0x73, 0x68]
}

/// The next free track ID after the video track (1) and the audio track (2).
pub const NEXT_TRACK_ID: u32 = 3;

/// The sample defaults announced for a track: the first sample
/// description and nothing else.
pub open spec fn spec_default_trex(track_id: u32) -> TrackExtendsBox {
    TrackExtendsBox {
        track_id,
        default_sample_description_index: 1,
        default_sample_duration: 0,
        default_sample_size: 0,
        default_sample_flags: 0,
    }
}

fn default_trex(track_id: u32) -> (r: TrackExtendsBox)
    ensures
        r == spec_default_trex(track_id),
{
    TrackExtendsBox {
        track_id,
        default_sample_description_index: 1,
        default_sample_duration: 0,
        default_sample_size: 0,
        default_sample_flags: 0,
    }
}

/// `m` is the movie box of the preamble: the video stream's timebase as
/// the movie timescale, fragments announced with defaults for track 1 and
/// track 2, then the video track and, when there is an audio stream, the audio
/// track.
pub open spec fn spec_preamble_moov(m: MovieBox, video: Stream, audio: Option<Stream>) -> bool {
    &&& m.mvhd == (MovieHeaderBox {
        creation_time: 0,
        modification_time: 0,
        timescale: video.timebase.denominator,
        duration: 0,
        next_track_id: NEXT_TRACK_ID,
    })
    &&& m.mvex matches Some(x) && x.mehd == (MovieExtendsHeaderBox { fragment_duration: 0 })
        && x.trex@ == seq![spec_default_trex(1), spec_default_trex(2)]
    &&& m.tracks@.len() == (if audio is Some {
        2int
    } else {
        1int
    })
    &&& spec_track_for(m.tracks@[0], video, 1, HANDLER_VIDEO, "Video Handler"@, true)
    &&& (audio matches Some(a) ==> spec_track_for(
        m.tracks@[1],
        a,
        2,
        HANDLER_SOUND,
        "Audio Handler"@,
        false,
    ))
}

/// The parameter-set bytes of an optional stream.
pub open spec fn spec_opt_param_len(s: Option<Stream>) -> nat {
    match s {
        Some(a) => spec_param_len(a.codec.properties),
        None => 0,
    }
}

/// The stream an optional reference points to.
pub open spec fn spec_opt_stream(s: Option<&Stream>) -> Option<Stream> {
    match s {
        Some(a) => Some(*a),
        None => None,
    }
}

proof fn lemma_handler_names()
    ensures
        vstd::utf8::encode_utf8("Video Handler"@).len() == 13,
        vstd::utf8::encode_utf8("Audio Handler"@).len() == 13,
{
    broadcast use vstd::string::is_ascii_spec_bytes;

    reveal_strlit("Video Handler");
    reveal_strlit("Audio Handler");
    assert(vstd::string::is_ascii("Video Handler"));
    assert(vstd::string::is_ascii("Audio Handler"));
    assert("Video Handler".spec_bytes().len() == 13);
    assert("Audio Handler".spec_bytes().len() == 13);
}

/// Appends the initialization segment for a video stream and an optional
/// audio stream to `dest`: the file type box, then the movie box.
pub fn write_preamble(video: &Stream, audio: Option<&Stream>, dest: &mut BytesMut)
    requires
        bytes_mut_view(*old(dest)).len() + 2 * (4096 + spec_param_len(video.codec.properties)
            + spec_opt_param_len(spec_opt_stream(audio))) <= isize::MAX,
    ensures
        exists|f: FileTypeBox, m: MovieBox|
            {
                &&& spec_preamble_ftyp(f)
                &&& spec_preamble_moov(m, *video, spec_opt_stream(audio))
                &&& bytes_mut_view(*final(dest)) == bytes_mut_view(*old(dest)) + spec_box_bytes(
                    &f,
                ) + spec_box_bytes(&m)
            },
        bytes_mut_view(*final(dest)).len() <= bytes_mut_view(*old(dest)).len() + 2 * (4096
            + spec_param_len(video.codec.properties) + spec_opt_param_len(spec_opt_stream(audio))),
{
    let ftyp = FileTypeBox::new(
        [0x69, 0x73, 0x6f, 0x6d],
        0,
        vec![[0x69, 0x73, 0x6f, 0x6d], [0x69, 0x73, 0x6f, 0x35], [0x64, 0x61, 0x73, 0x68]],
    );
    let mut tracks: Vec<TrackBox> = Vec::new();
    tracks.push(get_track_for_video_stream(video));
    match audio {
        Some(a) => {
            tracks.push(get_track_for_audio_stream(a));
        },
        None => {},
    }
    let moov = MovieBox {
        mvhd: MovieHeaderBox {
            creation_time: 0,
            modification_time: 0,
            timescale: video.timebase.denominator,
            duration: 0,
            next_track_id: NEXT_TRACK_ID,
        },
        mvex: Some(
            MovieExtendsBox {
                mehd: MovieExtendsHeaderBox { fragment_duration: 0 },
                trex: vec![default_trex(1), default_trex(2)],
            },
        ),
        tracks,
    };
    proof {
        lemma_preamble_fits(ftyp, moov, *video, spec_opt_stream(audio));
        lemma_box_bytes_bound(&ftyp);
        lemma_box_bytes_bound(&moov);
    }
    let _ = ftyp.write(dest);
    let _ = moov.write(dest);
}

proof fn lemma_preamble_fits(f: FileTypeBox, m: MovieBox, video: Stream, audio: Option<Stream>)
    requires
        spec_preamble_ftyp(f),
        spec_preamble_moov(m, video, audio),
        spec_param_len(video.codec.properties) + spec_opt_param_len(audio) + 8192 <= u64::MAX,
    ensures
        box_fits(&f),
        spec_box_size(&f) <= 64,
        box_fits(&m),
        spec_box_size(&m) <= 4000 + spec_param_len(video.codec.properties) + spec_opt_param_len(
            audio,
        ),
{
    lemma_handler_names();
    lemma_concat_bytes_len_uniform(f.spec_compatible_brands(), |b: [u8; 4]| b@, 4);
    lemma_track_fits(m.tracks@[0], video, 1, HANDLER_VIDEO, "Video Handler"@, true);
    match audio {
        Some(a) => lemma_track_fits(m.tracks@[1], a, 2, HANDLER_SOUND, "Audio Handler"@, false),
        None => {},
    }
    FullBoxHeader::lemma_new(1, 0);
    FullBoxHeader::lemma_new(0, 0);
    let mvex = m.mvex->0;
    mvex.lemma_unfold();
    reveal_with_fuel(crate::mp4::nested::boxes_size, 3);
    assert(box_fits(&mvex.trex@[0]));
    assert(box_fits(&mvex.trex@[1]));
    assert(box_fits(&mvex));
    assert(box_fits(&m.tracks@[0]));
    m.lemma_unfold();
}

/// `m` is the movie fragment box of a fragment holding one sample: the
/// fragment's sequence number, a track fragment header for `track_id`
/// whose base is the start of the `moof`, the decode time of the sample,
/// and one run of one sample with its duration and size, optional flags
/// for the first sample, and the offset of the sample data.
pub open spec fn spec_fragment_moof(
    m: MovieFragmentBox,
    sequence: u32,
    track_id: u32,
    first_sample_flags: Option<u32>,
    duration: u32,
    size: u32,
    base_time: u64,
    data_offset: i32,
) -> bool {
    &&& m.mfhd == (MovieFragmentHeaderBox { sequence_number: sequence })
    &&& m.traf.tfhd == (TrackFragmentHeaderBox {
        track_id,
        base_data_offset: None,
        sample_description_index: None,
        default_sample_duration: None,
        default_sample_size: None,
        default_sample_flags: None,
        duration_is_empty: false,
        default_base_is_moof: true,
    })
    &&& m.traf.base_media_decode_time == Some(
        TrackFragmentBaseMediaDecodeTimeBox { base_media_decode_time: base_time },
    )
    &&& m.traf.track_runs@.len() == 1
    &&& m.traf.track_runs@[0].data_offset == Some(data_offset)
    &&& m.traf.track_runs@[0].first_sample_flags == first_sample_flags
    &&& m.traf.track_runs@[0].samples@ == seq![
        TrackFragmentSample {
            duration: Some(duration),
            size: Some(size),
            flags: None,
            composition_time_offset: None,
        },
    ]
}

/// The size of the `moof` of a one-sample fragment: 96 bytes, and four more
/// when the first sample has flags of its own.
pub open spec fn spec_fragment_moof_size(has_first_sample_flags: bool) -> nat {
    if has_first_sample_flags {
        100
    } else {
        96
    }
}

/// A one-sample fragment's `moof` fits, its size is
/// `spec_fragment_moof_size`, and it takes exactly that many bytes.
pub proof fn lemma_fragment_moof_size(
    m: MovieFragmentBox,
    sequence: u32,
    track_id: u32,
    first_sample_flags: Option<u32>,
    duration: u32,
    size: u32,
    base_time: u64,
    data_offset: i32,
)
    requires
        spec_fragment_moof(
            m,
            sequence,
            track_id,
            first_sample_flags,
            duration,
            size,
            base_time,
            data_offset,
        ),
    ensures
        box_fits(&m),
        box_size_agrees(&m),
        spec_box_size(&m) == spec_fragment_moof_size(first_sample_flags is Some),
        spec_box_bytes(&m).len() == spec_box_size(&m),
{
    let traf = m.traf;
    let run = traf.track_runs@[0];
    FullBoxHeader::lemma_new(0, 0);
    FullBoxHeader::lemma_new(1, 0);
    FullBoxHeader::lemma_new(0, traf.tfhd.spec_flags());
    FullBoxHeader::lemma_new(0, run.spec_flags());
    reveal_with_fuel(crate::mp4::nested::boxes_size, 2);
    reveal_with_fuel(crate::mp4::encode::concat_bytes, 2);
    run.lemma_flags();
    assert(run.samples@[0].spec_has(run.spec_flags()));
    assert(box_fits(&run));
    assert(box_fits(&traf.tfhd));
    assert(box_fits(&traf.track_runs@[0]));
    assert(box_size_agrees(&traf.track_runs@[0]));
    traf.lemma_unfold();
    assert(box_fits(&traf));
    assert(box_size_agrees(&traf));
    m.lemma_unfold();
    lemma_box_bytes_len(&m);
}

/// The `moof` of a one-sample fragment.
fn fragment_moof(
    sequence: u32,
    track_id: u32,
    first_sample_flags: Option<u32>,
    duration: u32,
    size: u32,
    base_time: u64,
    data_offset: i32,
) -> (r: MovieFragmentBox)
    ensures
        spec_fragment_moof(
            r,
            sequence,
            track_id,
            first_sample_flags,
            duration,
            size,
            base_time,
            data_offset,
        ),
{
    let mut samples: Vec<TrackFragmentSample> = Vec::new();
    samples.push(
        TrackFragmentSample {
            duration: Some(duration),
            size: Some(size),
            flags: None,
            composition_time_offset: None,
        },
    );
    let mut runs: Vec<TrackFragmentRunBox> = Vec::new();
    runs.push(
        TrackFragmentRunBox { data_offset: Some(data_offset), first_sample_flags, samples },
    );
    let r = MovieFragmentBox {
        mfhd: MovieFragmentHeaderBox { sequence_number: sequence },
        traf: TrackFragmentBox {
            tfhd: TrackFragmentHeaderBox {
                track_id,
                base_data_offset: None,
                sample_description_index: None,
                default_sample_duration: None,
                default_sample_size: None,
                default_sample_flags: None,
                duration_is_empty: false,
                default_base_is_moof: true,
            },
            track_runs: runs,
            base_media_decode_time: Some(
                TrackFragmentBaseMediaDecodeTimeBox { base_media_decode_time: base_time },
            ),
        },
    };
    assert(r.traf.track_runs@[0].samples@ =~= seq![
        TrackFragmentSample {
            duration: Some(duration),
            size: Some(size),
            flags: None,
            composition_time_offset: None,
        },
    ]);
    r
}

/// The offset of a one-sample fragment's data from the start of its
/// `moof`: the size of the `moof` and the 12-byte header of the `mdat`
/// (a full box).
pub open spec fn spec_fragment_data_offset(has_first_sample_flags: bool) -> int {
    spec_fragment_moof_size(has_first_sample_flags) + 12int
}

/// The serialized `mdat` box holding `data`.
pub open spec fn spec_mdat_bytes(data: Seq<u8>) -> Seq<u8> {
    spec_serialized(
        seq![0x6du8, 0x64, 0x61, 0x74],
        Some(FullBoxHeader::spec_new(0, 0)),
        data.len(),
        data,
    )
}

/// The bytes of a one-sample fragment: its `moof`, then an `mdat` holding
/// `data`. The run's data offset is patched to point at the contents of
/// the `mdat`: for data that fits a 32-bit box size, the data stands at
/// that offset, and the fragment ends with it.
fn write_fragment(
    sequence: u32,
    track_id: u32,
    first_sample_flags: Option<u32>,
    duration: u32,
    base_time: u64,
    data: &[u8],
) -> (r: BytesMut)
    requires
        data@.len() + 1024 <= isize::MAX,
    ensures
        exists|m: MovieFragmentBox|
            {
                &&& spec_fragment_moof(
                    m,
                    sequence,
                    track_id,
                    first_sample_flags,
                    duration,
                    data@.len() as u32,
                    base_time,
                    spec_fragment_data_offset(first_sample_flags is Some) as i32,
                )
                &&& bytes_mut_view(r) == spec_box_bytes(&m) + spec_mdat_bytes(data@)
            },
        bytes_mut_view(r).len() <= 2 * (112 + data@.len()),
        data@.len() + 12 <= u32::MAX ==> {
            let off = spec_fragment_data_offset(first_sample_flags is Some);
            &&& bytes_mut_view(r).len() == off + data@.len()
            &&& bytes_mut_view(r).subrange(off, off + data@.len()) == data@
        },
{
    let size = data.len() as u32;
    let probe = fragment_moof(sequence, track_id, first_sample_flags, duration, size, base_time, 0);
    proof {
        lemma_fragment_moof_size(
            probe,
            sequence,
            track_id,
            first_sample_flags,
            duration,
            size,
            base_time,
            0,
        );
    }
    let moof_size = probe.size();
    let mdat = MediaDataBox { data };
    proof {
        FullBoxHeader::lemma_new(0, 0);
    }
    let mdat_header = mdat.size() - mdat.content_size();
    // point the run at the contents of the `mdat`
    let data_offset = moof_size as i32 + mdat_header as i32;
    let moof = fragment_moof(
        sequence,
        track_id,
        first_sample_flags,
        duration,
        size,
        base_time,
        data_offset,
    );
    proof {
        lemma_fragment_moof_size(
            moof,
            sequence,
            track_id,
            first_sample_flags,
            duration,
            size,
            base_time,
            data_offset,
        );
        lemma_box_bytes_len(&mdat);
        lemma_box_bytes_bound(&mdat);
    }
    let mut out = bytes_mut_new();
    let _ = moof.write(&mut out);
    let _ = mdat.write(&mut out);
    proof {
        let b = bytes_mut_view(out);
        let off = spec_fragment_data_offset(first_sample_flags is Some);
        if data@.len() + 12 <= u32::MAX {
            assert(b.subrange(off, off + data@.len()) =~= data@);
        }
    }
    out
}

/// The file of one frame fits in memory: twice the frame's bytes, its
/// codec's configuration bytes and 8192 more stay within `isize::MAX`.
pub open spec fn spec_single_frame_fits(frame: Frame) -> bool {
    2 * (8192 + spec_param_len(frame.stream.codec.properties) + bytes_view(frame.buffer).len())
        <= isize::MAX
}

/// `file` is the complete fragmented MP4 file of one frame: the preamble
/// for the frame's stream alone, then one fragment holding the frame, with
/// sequence number 1, track 1, duration 1800 and decode time 0.
pub open spec fn spec_single_frame_file(file: Seq<u8>, frame: Frame) -> bool {
    exists|f: FileTypeBox, m: MovieBox, moof: MovieFragmentBox|
        {
            &&& spec_preamble_ftyp(f)
            &&& spec_preamble_moov(m, frame.stream, None)
            &&& spec_fragment_moof(
                moof,
                1,
                1,
                None,
                1800,
                bytes_view(frame.buffer).len() as u32,
                0,
                spec_fragment_data_offset(false) as i32,
            )
            &&& file == spec_box_bytes(&f) + spec_box_bytes(&m) + spec_box_bytes(&moof)
                + spec_mdat_bytes(bytes_view(frame.buffer))
        }
}

/// The configuration bytes of a codec, as `spec_param_len` counts them,
/// when their sum fits a `usize`.
fn param_len(c: &CodecTypeInfo) -> (r: Option<usize>)
    ensures
        r matches Some(n) ==> n == spec_param_len(*c),
        r is None ==> spec_param_len(*c) > usize::MAX,
{
    match c {
        CodecTypeInfo::Video(v) => {
            let VideoCodecSpecificInfo::H264 { sps, pps, .. } = &v.extra;
            sps.len().checked_add(pps.len())
        },
        CodecTypeInfo::Audio(a) => {
            let AudioCodecSpecificInfo::Aac { extra } = &a.extra;
            Some(extra.len())
        },
    }
}

/// `single_frame_fmp4` for a frame whose file fits in memory, else `None`.
pub fn try_single_frame_fmp4(frame: Frame) -> (r: Option<Vec<u8>>)
    ensures
        r is Some <==> spec_single_frame_fits(frame),
        r matches Some(file) ==> spec_single_frame_file(file@, frame),
{
    let params = match param_len(&frame.stream.codec.properties) {
        Some(n) => n,
        None => {
            return None;
        },
    };
    let len = bytes_len(&frame.buffer);
    let limit = (isize::MAX as usize) / 2;
    if params > limit || len > limit - params || 8192 > limit - params - len {
        return None;
    }
    Some(single_frame_fmp4(frame))
}

/// A single frame as a complete fragmented MP4 file: the preamble for the
/// frame's stream alone, then one fragment holding the frame, with
/// sequence number 1, track 1, duration 1800 and decode time 0.
pub fn single_frame_fmp4(frame: Frame) -> (r: Vec<u8>)
    requires
        spec_single_frame_fits(frame),
    ensures
        spec_single_frame_file(r@, frame),
{
    let mut buffer = bytes_mut_new();
    write_preamble(&frame.stream, None, &mut buffer);
    let ghost preamble = bytes_mut_view(buffer);
    let fragment = write_fragment(1, 1, None, 1800, 0, bytes_as_slice(&frame.buffer));
    bytes_mut_extend(&mut buffer, bytes_mut_as_slice(&fragment));
    proof {
        let (f, m) = choose|f: FileTypeBox, m: MovieBox|
            {
                &&& spec_preamble_ftyp(f)
                &&& spec_preamble_moov(m, frame.stream, None)
                &&& preamble == Seq::<u8>::empty() + spec_box_bytes(&f) + spec_box_bytes(&m)
            };
        let moof = choose|moof: MovieFragmentBox|
            {
                &&& spec_fragment_moof(
                    moof,
                    1,
                    1,
                    None,
                    1800,
                    bytes_view(frame.buffer).len() as u32,
                    0,
                    spec_fragment_data_offset(false) as i32,
                )
                &&& bytes_mut_view(fragment) == spec_box_bytes(&moof) + spec_mdat_bytes(
                    bytes_view(frame.buffer),
                )
            };
        assert(bytes_mut_view(buffer) =~= spec_box_bytes(&f) + spec_box_bytes(&m) + spec_box_bytes(
            &moof,
        ) + spec_mdat_bytes(bytes_view(frame.buffer)));
    }
    bytes_mut_to_vec(&buffer)
}

/// The first stream of `s` that is a video stream (`video`) or an audio
/// stream (`!video`).
pub open spec fn spec_first_stream(s: Seq<Stream>, video: bool) -> Option<Stream>
    decreases s.len(),
{
    if s.len() == 0 {
        None
    } else if (s[0].codec.properties is Video) == video {
        Some(s[0])
    } else {
        spec_first_stream(s.drop_first(), video)
    }
}

fn find_first_stream(streams: &Vec<Stream>, video: bool) -> (r: Option<&Stream>)
    ensures
        spec_opt_stream(r) == spec_first_stream(streams@, video),
{
    let mut i: usize = 0;
    assert(streams@.skip(0) =~= streams@);
    while i < streams.len()
        invariant
            i <= streams@.len(),
            spec_first_stream(streams@, video) == spec_first_stream(streams@.skip(i as int), video),
        decreases streams@.len() - i,
    {
        let s = &streams[i];
        assert(streams@.skip(i as int).drop_first() =~= streams@.skip(i + 1));
        if s.is_video() == video {
            return Some(s);
        }
        i = i + 1;
    }
    None
}

/// The time recorded for stream `id`, or `t` when none is.
pub open spec fn spec_time_or(m: Map<u32, MediaTime>, id: u32, t: MediaTime) -> MediaTime {
    if m.contains_key(id) {
        m[id]
    } else {
        t
    }
}

/// The duration of a sample at `pts` after a previous one at `prev`: the
/// difference, or 1800 when it is zero, truncated to 32 bits.
pub open spec fn spec_sample_duration(pts: u64, prev: u64) -> u32 {
    let d = spec_pts_diff(pts, prev);
    (if d == 0 {
        1800
    } else {
        d
    }) as u32
}

/// The flags of a fragment's first sample: none for a frame that depends on
/// no other, else 0x10000 (a sample that is not a sync sample).
pub open spec fn spec_first_sample_flags(dependency: FrameDependency) -> Option<u32> {
    if dependency is Independent {
        None
    } else {
        Some(0x10000)
    }
}

/// The track of a stream: 1 for video, 2 for audio.
pub open spec fn spec_track_id(s: Stream) -> u32 {
    if s.codec.properties is Video {
        1
    } else {
        2
    }
}

/// What a fragment says of its frame: a frame of a video stream goes to
/// track 1 and one of an audio stream to track 2; a sync frame carries no
/// flags of its own, any other frame the flag 0x10000
/// (`sample_is_non_sync_sample`, ISO/IEC 14496-12) and nothing else; a
/// sample lasts from the previous frame's time to its own, or 1800 ticks
/// when the two are equal.
pub proof fn lemma_fragment_sample_fields(s: Stream, dependency: FrameDependency, pts: u64, prev: u64)
    ensures
        s.codec.properties is Video ==> spec_track_id(s) == 1,
        !(s.codec.properties is Video) ==> spec_track_id(s) == 2,
        dependency is Independent <==> spec_first_sample_flags(dependency) is None,
        spec_first_sample_flags(dependency) matches Some(f) ==> f == 0x10000u32,
        pts == prev ==> spec_sample_duration(pts, prev) == 1800,
        spec_pts_diff(pts, prev) != 0 && 0 <= spec_pts_diff(pts, prev) <= u32::MAX ==> spec_sample_duration(
            pts,
            prev,
        ) == spec_pts_diff(pts, prev),
{
}

/// The flags of a one-sample fragment's boxes: the track fragment header
/// has only default-base-is-moof (0x20000); the run has the data offset
/// (0x1), the first sample's flags when it has them (0x4), and the
/// sample's duration (0x100) and size (0x200).
pub proof fn lemma_fragment_flags(
    m: MovieFragmentBox,
    sequence: u32,
    track_id: u32,
    first_sample_flags: Option<u32>,
    duration: u32,
    size: u32,
    base_time: u64,
    data_offset: i32,
)
    requires
        spec_fragment_moof(
            m,
            sequence,
            track_id,
            first_sample_flags,
            duration,
            size,
            base_time,
            data_offset,
        ),
    ensures
        m.traf.tfhd.spec_flags() == 0x020000,
        m.traf.track_runs@[0].spec_flags() == (if first_sample_flags is Some {
            0x305u32
        } else {
            0x301u32
        }),
{
    crate::mp4::lemma_tfhd_moof_base_flags(m.traf.tfhd);
    let run = m.traf.track_runs@[0];
    let b = first_sample_flags is Some;
    assert(run.samples@[0] == TrackFragmentSample {
        duration: Some(duration),
        size: Some(size),
        flags: None,
        composition_time_offset: None,
    });
    let x = crate::mp4::spec_run_flags(true, b, true, true, false, false);
    assert(x == (if b { 0x305u32 } else { 0x301u32 })) by (bit_vector)
        requires
            x == crate::mp4::spec_run_flags(true, b, true, true, false, false),
    ;
}

/// Writes each frame as one fragment. It keeps, for each stream, the time
/// of its first frame and of its previous frame, and the sequence number
/// of the next fragment.
pub struct FragmentedMp4WriteFilter {
    start_times: HashMap<u32, MediaTime>,
    prev_times: HashMap<u32, MediaTime>,
    sequence_id: u32,
}

impl FragmentedMp4WriteFilter {
    /// The time of the first frame of each stream seen.
    pub closed spec fn spec_start_times(&self) -> Map<u32, MediaTime> {
        self.start_times@
    }

    /// The time of the previous frame of each stream seen.
    pub closed spec fn spec_prev_times(&self) -> Map<u32, MediaTime> {
        self.prev_times@
    }

    /// The sequence number of the next fragment.
    pub closed spec fn spec_sequence_id(&self) -> u32 {
        self.sequence_id
    }

    /// A writer that has seen no frame; the first fragment has sequence
    /// number 0.
    pub fn new() -> (r: Self)
        ensures
            r.spec_start_times() == Map::<u32, MediaTime>::empty(),
            r.spec_prev_times() == Map::<u32, MediaTime>::empty(),
            r.spec_sequence_id() == 0,
    {
        FragmentedMp4WriteFilter {
            start_times: HashMap::new(),
            prev_times: HashMap::new(),
            sequence_id: 0,
        }
    }

    /// The preamble for the first video stream and the first audio stream,
    /// if any, of `streams`. There must be a video stream.
    pub fn start(&self, streams: &Vec<Stream>) -> (r: BytesMut)
        requires
            spec_first_stream(streams@, true) is Some,
            2 * (4096 + spec_param_len(spec_first_stream(streams@, true)->0.codec.properties)
                + spec_opt_param_len(spec_first_stream(streams@, false))) <= isize::MAX,
        ensures
            exists|f: FileTypeBox, m: MovieBox|
                {
                    &&& spec_preamble_ftyp(f)
                    &&& spec_preamble_moov(
                        m,
                        spec_first_stream(streams@, true)->0,
                        spec_first_stream(streams@, false),
                    )
                    &&& bytes_mut_view(r) == spec_box_bytes(&f) + spec_box_bytes(&m)
                },
    {
        let video = find_first_stream(streams, true);
        let audio = find_first_stream(streams, false);
        let mut out = bytes_mut_new();
        match video {
            Some(v) => {
                write_preamble(v, audio, &mut out);
                assert(Seq::<u8>::empty() + bytes_mut_view(out) =~= bytes_mut_view(out));
            },
            None => {},
        }
        out
    }

    /// The fragment for `frame`: the frame's stream's first and previous
    /// times are recorded where missing (as the frame's time), the sample
    /// lasts from the previous frame to this one, and the fragment's decode
    /// time is the previous frame's time after the stream's first.
    fn write_fragment_for_frame(&mut self, frame: &Frame) -> (r: BytesMut)
        requires
            old(self).spec_sequence_id() < u32::MAX,
            i64::MIN <= spec_pts_diff(
                frame.time.pts,
                spec_time_or(old(self).spec_prev_times(), frame.stream.id, frame.time).pts,
            ) <= i64::MAX,
            i64::MIN <= spec_pts_diff(
                spec_time_or(old(self).spec_prev_times(), frame.stream.id, frame.time).pts,
                spec_time_or(old(self).spec_start_times(), frame.stream.id, frame.time).pts,
            ) <= i64::MAX,
            bytes_view(frame.buffer).len() + 1024 <= isize::MAX,
        ensures
            ({
                let id = frame.stream.id;
                let prev = spec_time_or(old(self).spec_prev_times(), id, frame.time);
                let start = spec_time_or(old(self).spec_start_times(), id, frame.time);
                &&& final(self).spec_prev_times() == old(self).spec_prev_times().insert(id, prev)
                &&& final(self).spec_start_times() == old(self).spec_start_times().insert(id, start)
                &&& final(self).spec_sequence_id() == old(self).spec_sequence_id() + 1
                &&& exists|m: MovieFragmentBox|
                    {
                        &&& spec_fragment_moof(
                            m,
                            old(self).spec_sequence_id(),
                            spec_track_id(frame.stream),
                            spec_first_sample_flags(frame.dependency),
                            spec_sample_duration(frame.time.pts, prev.pts),
                            bytes_view(frame.buffer).len() as u32,
                            spec_pts_diff(prev.pts, start.pts) as u64,
                            spec_fragment_data_offset(
                                spec_first_sample_flags(frame.dependency) is Some,
                            ) as i32,
                        )
                        &&& bytes_mut_view(r) == spec_box_bytes(&m) + spec_mdat_bytes(
                            bytes_view(frame.buffer),
                        )
                    }
            }),
            bytes_mut_view(r).len() <= 2 * (112 + bytes_view(frame.buffer).len()),
            bytes_view(frame.buffer).len() + 12 <= u32::MAX ==> {
                let off = spec_fragment_data_offset(
                    spec_first_sample_flags(frame.dependency) is Some,
                );
                &&& bytes_mut_view(r).len() == off + bytes_view(frame.buffer).len()
                &&& bytes_mut_view(r).subrange(off, off + bytes_view(frame.buffer).len())
                    == bytes_view(frame.buffer)
            },
    {
        broadcast use vstd::std_specs::hash::group_hash_axioms;

        let id = frame.stream.id;
        let prev_time = match self.prev_times.get(&id) {
            Some(t) => t.copied(),
            None => {
                let t = frame.time.copied();
                self.prev_times.insert(id, t.copied());
                t
            },
        };
        let start_time = match self.start_times.get(&id) {
            Some(t) => t.copied(),
            None => {
                let t = frame.time.copied();
                self.start_times.insert(id, t.copied());
                t
            },
        };
        proof {
            assert(self.prev_times@ =~= old(self).spec_prev_times().insert(id, prev_time));
            assert(self.start_times@ =~= old(self).spec_start_times().insert(id, start_time));
        }
        let media_duration = frame.time.since(&prev_time);
        let base_offset = prev_time.since(&start_time);
        let track_id: u32 = if frame.stream.is_video() {
            1
        } else {
            2
        };
        let duration: i64 = if media_duration.duration == 0 {
            1800
        } else {
            media_duration.duration
        };
        let first_sample_flags: Option<u32> = if frame.dependency != FrameDependency::Independent {
            Some(0x10000)
        } else {
            None
        };
        let bytes = write_fragment(
            self.sequence_id,
            track_id,
            first_sample_flags,
            duration as u32,
            base_offset.duration as u64,
            bytes_as_slice(&frame.buffer),
        );
        self.sequence_id = self.sequence_id + 1;
        bytes
    }

    /// Whether `write` can take `frame`: the sequence number has not run
    /// out, the sample's duration and decode time fit an `i64`, and the
    /// fragment fits in memory.
    pub fn can_write(&self, frame: &Frame) -> (r: bool)
        ensures
            r == ({
                let id = frame.stream.id;
                let prev = spec_time_or(self.spec_prev_times(), id, frame.time);
                let start = spec_time_or(self.spec_start_times(), id, frame.time);
                &&& self.spec_sequence_id() < u32::MAX
                &&& i64::MIN <= spec_pts_diff(frame.time.pts, prev.pts) <= i64::MAX
                &&& i64::MIN <= spec_pts_diff(prev.pts, start.pts) <= i64::MAX
                &&& bytes_view(frame.buffer).len() + 1024 <= isize::MAX
            }),
    {
        broadcast use vstd::std_specs::hash::group_hash_axioms;

        let id = frame.stream.id;
        let prev = match self.prev_times.get(&id) {
            Some(t) => t.pts,
            None => frame.time.pts,
        };
        let start = match self.start_times.get(&id) {
            Some(t) => t.pts,
            None => frame.time.pts,
        };
        let a = u64_as_i64(frame.time.pts) as i128;
        let b = u64_as_i64(prev) as i128;
        let c = u64_as_i64(start) as i128;
        let d1 = a - b;
        let d2 = b - c;
        let len = bytes_len(&frame.buffer);
        self.sequence_id < u32::MAX && i64::MIN as i128 <= d1 && d1 <= i64::MAX as i128
            && i64::MIN as i128 <= d2 && d2 <= i64::MAX as i128 && len <= isize::MAX as usize - 1024
    }

    /// Writes `frame` as one fragment: records the stream's first time when
    /// it has none, makes the fragment, then records the frame's time as
    /// the stream's previous time.
    pub fn write(&mut self, frame: &Frame) -> (r: BytesMut)
        requires
            old(self).spec_sequence_id() < u32::MAX,
            i64::MIN <= spec_pts_diff(
                frame.time.pts,
                spec_time_or(old(self).spec_prev_times(), frame.stream.id, frame.time).pts,
            ) <= i64::MAX,
            i64::MIN <= spec_pts_diff(
                spec_time_or(old(self).spec_prev_times(), frame.stream.id, frame.time).pts,
                spec_time_or(old(self).spec_start_times(), frame.stream.id, frame.time).pts,
            ) <= i64::MAX,
            bytes_view(frame.buffer).len() + 1024 <= isize::MAX,
        ensures
            ({
                let id = frame.stream.id;
                let prev = spec_time_or(old(self).spec_prev_times(), id, frame.time);
                let start = spec_time_or(old(self).spec_start_times(), id, frame.time);
                &&& final(self).spec_prev_times() == old(self).spec_prev_times().insert(
                    id,
                    frame.time,
                )
                &&& final(self).spec_start_times() == old(self).spec_start_times().insert(id, start)
                &&& final(self).spec_sequence_id() == old(self).spec_sequence_id() + 1
                &&& exists|m: MovieFragmentBox|
                    {
                        &&& spec_fragment_moof(
                            m,
                            old(self).spec_sequence_id(),
                            spec_track_id(frame.stream),
                            spec_first_sample_flags(frame.dependency),
                            spec_sample_duration(frame.time.pts, prev.pts),
                            bytes_view(frame.buffer).len() as u32,
                            spec_pts_diff(prev.pts, start.pts) as u64,
                            spec_fragment_data_offset(
                                spec_first_sample_flags(frame.dependency) is Some,
                            ) as i32,
                        )
                        &&& bytes_mut_view(r) == spec_box_bytes(&m) + spec_mdat_bytes(
                            bytes_view(frame.buffer),
                        )
                    }
            }),
            bytes_view(frame.buffer).len() + 12 <= u32::MAX ==> {
                let off = spec_fragment_data_offset(
                    spec_first_sample_flags(frame.dependency) is Some,
                );
                &&& bytes_mut_view(r).len() == off + bytes_view(frame.buffer).len()
                &&& bytes_mut_view(r).subrange(off, off + bytes_view(frame.buffer).len())
                    == bytes_view(frame.buffer)
            },
    {
        broadcast use vstd::std_specs::hash::group_hash_axioms;

        let id = frame.stream.id;
        if !self.start_times.contains_key(&id) {
            self.start_times.insert(id, frame.time.copied());
        }
        proof {
            assert(self.start_times@ =~= old(self).spec_start_times().insert(
                id,
                spec_time_or(old(self).spec_start_times(), id, frame.time),
            ));
        }
        let r = self.write_fragment_for_frame(frame);
        self.prev_times.insert(id, frame.time.copied());
        proof {
            assert(self.start_times@ =~= old(self).spec_start_times().insert(
                id,
                spec_time_or(old(self).spec_start_times(), id, frame.time),
            ));
            assert(self.prev_times@ =~= old(self).spec_prev_times().insert(id, frame.time));
        }
        r
    }
}

/// The profile, constraint flags and level of a video stream, which a
/// viewer needs before the first fragment. Only a video stream has them;
/// `requires` leaves out an audio stream, on which this panics.
pub fn get_codec_from_stream(stream: &Stream) -> (r: (u8, u8, u8))
    requires
        stream.codec.properties is Video,
    ensures
        stream.codec.properties matches CodecTypeInfo::Video(v) && (v.extra matches VideoCodecSpecificInfo::H264 {
            profile_indication,
            profile_compatibility,
            level_indication,
            ..
        } && r == (profile_indication, profile_compatibility, level_indication)),
{
    match &stream.codec.properties {
        CodecTypeInfo::Video(v) => {
            let VideoCodecSpecificInfo::H264 {
                profile_indication,
                profile_compatibility,
                level_indication,
                ..
            } = &v.extra;
            (*profile_indication, *profile_compatibility, *level_indication)
        },
        CodecTypeInfo::Audio(_) => {
            assert(false);
            (0, 0, 0)
        },
    }
}

/// The first message to a viewer: the profile, constraint flags and level
/// of the first video stream, one byte each. There must be a video stream.
pub fn codec_message(streams: &Vec<Stream>) -> (r: Vec<u8>)
    requires
        spec_first_stream(streams@, true) is Some,
    ensures
        spec_first_stream(streams@, true)->0.codec.properties matches CodecTypeInfo::Video(v) && (
        v.extra matches VideoCodecSpecificInfo::H264 {
            profile_indication,
            profile_compatibility,
            level_indication,
            ..
        } && r@ == seq![profile_indication, profile_compatibility, level_indication]),
{
    let video = find_first_stream(streams, true);
    match video {
        Some(v) => {
            proof {
                lemma_first_stream_kind(streams@, true);
            }
            let (profile, constraints, level) = get_codec_from_stream(v);
            let mut framed: Vec<u8> = Vec::new();
            framed.push(profile);
            framed.push(constraints);
            framed.push(level);
            framed
        },
        None => Vec::new(),
    }
}

/// The first stream of a kind is of that kind.
pub proof fn lemma_first_stream_kind(s: Seq<Stream>, video: bool)
    ensures
        spec_first_stream(s, video) matches Some(f) ==> (f.codec.properties is Video) == video,
    decreases s.len(),
{
    if s.len() > 0 {
        lemma_first_stream_kind(s.drop_first(), video);
    }
}

} // verus!
