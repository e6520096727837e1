//! The fragmented MP4 muxer.
//!
//! A muxer is made together with the initialization segment of its stream.
//! From then on every frame handed to `write_track` comes back as one media
//! segment: a `moof` that describes a single sample, and the `mdat` that
//! holds it. The muxer keeps the fragment counter and one running time per
//! track.
use crate::aac::{AacProfile, ChannelConfiguration, SamplingFrequency, ADTS_HEADER_LEN};
use crate::buf::{bytes_from_vec, bytes_len, bytes_to_vec, bytes_view, tail_from};
use crate::fmp4::init::{
    avc1_box, avcc_box, ftyp_encoding, hdlr_box, mdia_box, minf_box, moov_box, mvex_box, stbl_box,
    stsd_box, trak_box, trak_enc, trex_enc, entry_enc, AacSampleEntry, AvcConfigurationBox,
    AvcSampleEntry, HandlerReferenceBox, InitializationSegment, MediaBox, MediaHeaderBox,
    MediaInformationBox, MovieBox, MovieExtendsBox, MovieHeaderBox, Mpeg4EsDescriptorBox,
    SampleDescriptionBox, SampleEntry, SampleTableBox, SoundMediaHeaderBox, TrackBox,
    TrackExtendsBox, TrackHeaderBox, VideoMediaHeaderBox, MAX_DCR_LEN, SOUN, VIDE,
};
use crate::fmp4::media::{
    lemma_moof_box_len, lemma_sample_len, lemma_traf_box_len, lemma_trun_box_len, mdat_enc,
    moof_box, sample_enc, traf_box, traf_enc, trun_box, trun_flags, MediaDataBox,
    MediaSegment, MovieFragmentBox, MovieFragmentHeaderBox, Sample, SampleFlags,
    TrackFragmentBaseMediaDecodeTimeBox, TrackFragmentBox, TrackFragmentHeaderBox, TrackRunBox,
    MDAT,
};
use crate::fmp4::wire::{
    be32, lemma_concat_all_one, lemma_concat_all_two, plain_box, BOX_HEADER_SIZE,
};
use crate::time::{
    lemma_le_transitive, lemma_raw, lemma_sum_not_earlier, lemma_sum_ticks,
    lemma_sum_ticks_bounds, lemma_zero, MediaDuration, MediaTime,
};
use bytes::Bytes;
use vstd::prelude::*;

verus! {

/// The track id of the audio track.
pub const AUDIO_TRACK: u32 = 1;

/// The track id of the video track.
pub const VIDEO_TRACK: u32 = 2;

/// The duration of a track whose length is not known: all ones.
pub const UNKNOWN_DURATION: u32 = 0xffff_ffff;

/// Full volume in 8.8 fixed point.
pub const FULL_VOLUME: i16 = 0x0100;

/// What an initialization segment needs to know of the stream.
#[derive(Clone, Debug)]
pub struct Mp4Params {
    pub timescale: u32,
    pub width: u32,
    pub height: u32,
    pub dcr: Vec<u8>,
}

impl Mp4Params {
    /// The decoder configuration record is short enough for its box.
    pub open spec fn wf(&self) -> bool {
        self.dcr@.len() <= MAX_DCR_LEN
    }

    /// Whether the parameters are well formed.
    pub fn is_wf(&self) -> (r: bool)
        ensures
            r == self.wf(),
    {
        self.dcr.len() <= MAX_DCR_LEN
    }
}

/// The handler name of the audio track: `Mixlab Audio`.
pub open spec fn audio_handler_name() -> Seq<u8> {
    seq![0x4du8, 0x69u8, 0x78u8, 0x6cu8, 0x61u8, 0x62u8, 0x20u8, 0x41u8, 0x75u8, 0x64u8, 0x69u8, 0x6fu8]
}

/// The handler name of the video track: `Mixlab Video`.
pub open spec fn video_handler_name() -> Seq<u8> {
    seq![0x4du8, 0x69u8, 0x78u8, 0x6cu8, 0x61u8, 0x62u8, 0x20u8, 0x56u8, 0x69u8, 0x64u8, 0x65u8, 0x6fu8]
}

/// The header of the audio track: id 1, unknown duration, full volume, no
/// picture.
pub open spec fn audio_track_header() -> TrackHeaderBox {
    TrackHeaderBox {
        track_id: AUDIO_TRACK,
        duration: UNKNOWN_DURATION,
        volume: FULL_VOLUME,
        width: 0,
        height: 0,
    }
}

/// The header of the video track: id 2, unknown duration, full volume, the
/// picture's size.
pub open spec fn video_track_header(width: u32, height: u32) -> TrackHeaderBox {
    TrackHeaderBox {
        track_id: VIDEO_TRACK,
        duration: UNKNOWN_DURATION,
        volume: FULL_VOLUME,
        width,
        height,
    }
}

/// The sample entry of the audio track: AAC LC, 44.1 kHz, two channels.
pub open spec fn audio_sample_entry() -> AacSampleEntry {
    AacSampleEntry {
        esds_box: Mpeg4EsDescriptorBox {
            profile: AacProfile::Lc,
            frequency: SamplingFrequency::Hz44100,
            channel_configuration: ChannelConfiguration::TwoChannels,
        },
    }
}

/// The defaults of a track's fragments: the first sample description, and
/// nothing else.
pub open spec fn track_defaults(track_id: u32) -> TrackExtendsBox {
    TrackExtendsBox {
        track_id,
        default_sample_description_index: 1,
        default_sample_duration: 0,
        default_sample_size: 0,
        default_sample_flags: 0,
    }
}

/// The `trak` box of the audio track.
pub open spec fn audio_track_bytes(timescale: u32) -> Seq<u8> {
    trak_box(
        audio_track_header(),
        None,
        mdia_box(
            MediaHeaderBox { timescale, duration: 0 },
            hdlr_box(SOUN, audio_handler_name()),
            minf_box(
                None,
                Some(SoundMediaHeaderBox),
                stbl_box(stsd_box(1, audio_sample_entry().encoding())),
            ),
        ),
    )
}

/// The `trak` box of the video track.
pub open spec fn video_track_bytes(timescale: u32, width: u32, height: u32, dcr: Seq<u8>) -> Seq<
    u8,
> {
    trak_box(
        video_track_header(width, height),
        None,
        mdia_box(
            MediaHeaderBox { timescale, duration: 0 },
            hdlr_box(VIDE, video_handler_name()),
            minf_box(
                Some(VideoMediaHeaderBox),
                None,
                stbl_box(stsd_box(1, avc1_box(width as u16, height as u16, avcc_box(dcr)))),
            ),
        ),
    )
}

/// The initialization segment of a stream: `ftyp`, then a `moov` with a
/// movie header of no duration, the audio track, the video track, and the
/// fragment defaults of both.
pub open spec fn init_segment_bytes(timescale: u32, width: u32, height: u32, dcr: Seq<u8>) -> Seq<
    u8,
> {
    ftyp_encoding() + moov_box(
        MovieHeaderBox { timescale, duration: 0 },
        audio_track_bytes(timescale) + video_track_bytes(timescale, width, height, dcr),
        mvex_box(
            None,
            track_defaults(AUDIO_TRACK).encoding() + track_defaults(VIDEO_TRACK).encoding(),
        ),
    )
}

fn audio_name_bytes() -> (r: Vec<u8>)
    ensures
        r@ == audio_handler_name(),
{
    let r: Vec<u8> = vec![
        0x4du8,
        0x69u8,
        0x78u8,
        0x6cu8,
        0x61u8,
        0x62u8,
        0x20u8,
        0x41u8,
        0x75u8,
        0x64u8,
        0x69u8,
        0x6fu8,
    ];
    assert(r@ =~= audio_handler_name());
    r
}

fn video_name_bytes() -> (r: Vec<u8>)
    ensures
        r@ == video_handler_name(),
{
    let r: Vec<u8> = vec![
        0x4du8,
        0x69u8,
        0x78u8,
        0x6cu8,
        0x61u8,
        0x62u8,
        0x20u8,
        0x56u8,
        0x69u8,
        0x64u8,
        0x65u8,
        0x6fu8,
    ];
    assert(r@ =~= video_handler_name());
    r
}

/// The media box of a track, around its sample entry.
fn make_media_box(
    timescale: u32,
    handler_type: u32,
    name: Vec<u8>,
    is_video: bool,
    entry: SampleEntry,
) -> (r: MediaBox)
    requires
        name@ == audio_handler_name() || name@ == video_handler_name(),
        entry.wf(),
        entry.encoding().len() <= MAX_DCR_LEN + 0x1000,
    ensures
        r.wf(),
        r.encoding() == mdia_box(
            MediaHeaderBox { timescale, duration: 0 },
            hdlr_box(handler_type, name@),
            minf_box(
                if is_video {
                    Some(VideoMediaHeaderBox)
                } else {
                    None
                },
                if is_video {
                    None
                } else {
                    Some(SoundMediaHeaderBox)
                },
                stbl_box(stsd_box(1, entry.encoding())),
            ),
        ),
        r.encoding().len() <= entry.encoding().len() + 0x1000,
{
    let stsd = SampleDescriptionBox { sample_entries: vec![entry] };
    proof {
        reveal(SampleDescriptionBox::encoding);
        reveal(stsd_box);
        lemma_concat_all_one(stsd.sample_entries@, entry_enc());
    }
    let stbl = SampleTableBox { stsd_box: stsd };
    proof {
        reveal(SampleTableBox::encoding);
        reveal(stbl_box);
    }
    let minf = MediaInformationBox {
        vmhd_box: if is_video {
            Some(VideoMediaHeaderBox)
        } else {
            None
        },
        smhd_box: if is_video {
            None
        } else {
            Some(SoundMediaHeaderBox)
        },
        stbl_box: stbl,
    };
    proof {
        reveal(MediaInformationBox::encoding);
        reveal(minf_box);
    }
    let r = MediaBox {
        mdhd_box: MediaHeaderBox { timescale, duration: 0 },
        hdlr_box: HandlerReferenceBox { handler_type, name },
        minf_box: minf,
    };
    proof {
        reveal(MediaBox::encoding);
        reveal(mdia_box);
    }
    r
}

/// The muxer of one output stream.
#[derive(Debug)]
pub struct Mp4Mux {
    sequence: u32,
    timescale: u32,
    audio_time: MediaTime,
    video_time: MediaTime,
}

impl Mp4Mux {
    /// The number of fragments written so far.
    pub closed spec fn spec_sequence(&self) -> u32 {
        self.sequence
    }

    /// Ticks per second of every time in the stream.
    pub closed spec fn spec_timescale(&self) -> u32 {
        self.timescale
    }

    /// The media time at which the next audio fragment starts.
    pub closed spec fn spec_audio_time(&self) -> MediaTime {
        self.audio_time
    }

    /// The media time at which the next video fragment starts.
    pub closed spec fn spec_video_time(&self) -> MediaTime {
        self.video_time
    }

    /// Both running times are well formed.
    pub open spec fn wf(&self) -> bool {
        self.spec_audio_time().wf() && self.spec_video_time().wf()
    }

    pub fn sequence(&self) -> (r: u32)
        ensures
            r == self.spec_sequence(),
    {
        self.sequence
    }

    pub fn timescale(&self) -> (r: u32)
        ensures
            r == self.spec_timescale(),
    {
        self.timescale
    }

    pub fn audio_time(&self) -> (r: MediaTime)
        ensures
            r == self.spec_audio_time(),
    {
        self.audio_time
    }

    pub fn video_time(&self) -> (r: MediaTime)
        ensures
            r == self.spec_video_time(),
    {
        self.video_time
    }

    /// A muxer at fragment zero and time zero on both tracks, and the
    /// initialization segment of its stream.
    pub fn new(params: Mp4Params) -> (r: (Mp4Mux, Bytes))
        requires
            params.wf(),
        ensures
            r.0.wf(),
            r.0.spec_sequence() == 0,
            r.0.spec_timescale() == params.timescale,
            r.0.spec_audio_time() == MediaTime::raw(0, 1),
            r.0.spec_video_time() == MediaTime::raw(0, 1),
            bytes_view(&r.1) == init_segment_bytes(
                params.timescale,
                params.width,
                params.height,
                params.dcr@,
            ),
    {
        let mux = Mp4Mux {
            sequence: 0,
            timescale: params.timescale,
            audio_time: MediaTime::new(0, 1),
            video_time: MediaTime::new(0, 1),
        };
        proof {
            lemma_zero(mux.audio_time);
            lemma_zero(mux.video_time);
        }
        let init = make_init_segment(&mux, params);
        (mux, to_bytes(init.encode()))
    }
}

/// Hands encoded bytes out as a shared buffer.
fn to_bytes(encoded: Vec<u8>) -> (r: Bytes)
    ensures
        bytes_view(&r) == encoded@,
{
    bytes_from_vec(encoded)
}

/// The sample entry of the audio track.
fn make_audio_entry() -> (r: SampleEntry)
    ensures
        r.wf(),
        r.encoding() == audio_sample_entry().encoding(),
        r.encoding().len() <= 0x100,
{
    proof {
        reveal(AacSampleEntry::encoding);
    }
    SampleEntry::Aac(
        AacSampleEntry {
            esds_box: Mpeg4EsDescriptorBox {
                profile: AacProfile::Lc,
                frequency: SamplingFrequency::Hz44100,
                channel_configuration: ChannelConfiguration::TwoChannels,
            },
        },
    )
}

/// The sample entry of the video track, around the decoder configuration
/// record.
fn make_video_entry(width: u16, height: u16, dcr: Vec<u8>) -> (r: SampleEntry)
    requires
        dcr@.len() <= MAX_DCR_LEN,
    ensures
        r.wf(),
        r.encoding() == avc1_box(width, height, avcc_box(dcr@)),
        r.encoding().len() <= dcr@.len() + 0x100,
{
    proof {
        reveal(AvcSampleEntry::encoding);
        reveal(avc1_box);
    }
    SampleEntry::Avc(AvcSampleEntry { width, height, avcc_box: AvcConfigurationBox::Raw(dcr) })
}

/// A track without an edit list.
fn make_track(tkhd_box: TrackHeaderBox, mdia_box: MediaBox) -> (r: TrackBox)
    requires
        mdia_box.wf(),
        mdia_box.encoding().len() <= MAX_DCR_LEN + 0x2000,
    ensures
        r.wf(),
        r.tkhd_box == tkhd_box,
        r.encoding() == trak_box(tkhd_box, None, mdia_box.encoding()),
        r.encoding().len() <= mdia_box.encoding().len() + 0x100,
{
    proof {
        reveal(TrackBox::encoding);
        reveal(trak_box);
    }
    TrackBox { tkhd_box, edts_box: None, mdia_box }
}

/// The fragment defaults of both tracks.
fn make_movie_extends() -> (r: MovieExtendsBox)
    ensures
        r.wf(),
        r.mehd_box is None,
        r.trex_boxes@ == seq![track_defaults(AUDIO_TRACK), track_defaults(VIDEO_TRACK)],
        r.encoding() == mvex_box(
            None,
            track_defaults(AUDIO_TRACK).encoding() + track_defaults(VIDEO_TRACK).encoding(),
        ),
        r.encoding().len() <= 0x100,
{
    let r = MovieExtendsBox {
        mehd_box: None,
        trex_boxes: vec![
            TrackExtendsBox {
                track_id: AUDIO_TRACK,
                default_sample_description_index: 1,
                default_sample_duration: 0,
                default_sample_size: 0,
                default_sample_flags: 0,
            },
            TrackExtendsBox {
                track_id: VIDEO_TRACK,
                default_sample_description_index: 1,
                default_sample_duration: 0,
                default_sample_size: 0,
                default_sample_flags: 0,
            },
        ],
    };
    proof {
        reveal(MovieExtendsBox::encoding);
        reveal(mvex_box);
        lemma_concat_all_two(r.trex_boxes@, trex_enc());
        assert(r.trex_boxes@ =~= seq![track_defaults(AUDIO_TRACK), track_defaults(VIDEO_TRACK)]);
    }
    r
}

/// The initialization segment that announces the muxer's stream: an audio
/// track with id 1 and a video track with id 2, both of unknown duration and
/// at full volume, in the muxer's timescale.
pub fn make_init_segment(mux: &Mp4Mux, params: Mp4Params) -> (r: InitializationSegment)
    requires
        params.wf(),
    ensures
        r.wf(),
        r.encoding() == init_segment_bytes(
            mux.spec_timescale(),
            params.width,
            params.height,
            params.dcr@,
        ),
        r.moov_box.mvhd_box == (MovieHeaderBox { timescale: mux.spec_timescale(), duration: 0 }),
        r.moov_box.trak_boxes@.len() == 2,
        r.moov_box.trak_boxes@[0].tkhd_box == audio_track_header(),
        r.moov_box.trak_boxes@[1].tkhd_box == video_track_header(params.width, params.height),
        r.moov_box.mvex_box.mehd_box is None,
        r.moov_box.mvex_box.trex_boxes@ == seq![
            track_defaults(AUDIO_TRACK),
            track_defaults(VIDEO_TRACK),
        ],
{
    let timescale = mux.timescale;
    let audio_track = make_track(
        TrackHeaderBox {
            track_id: AUDIO_TRACK,
            duration: UNKNOWN_DURATION,
            volume: FULL_VOLUME,
            width: 0,
            height: 0,
        },
        make_media_box(timescale, SOUN, audio_name_bytes(), false, make_audio_entry()),
    );
    let video_track = make_track(
        TrackHeaderBox {
            track_id: VIDEO_TRACK,
            duration: UNKNOWN_DURATION,
            volume: FULL_VOLUME,
            width: params.width,
            height: params.height,
        },
        make_media_box(
            timescale,
            VIDE,
            video_name_bytes(),
            true,
            make_video_entry(params.width as u16, params.height as u16, params.dcr),
        ),
    );
    let moov = MovieBox {
        mvhd_box: MovieHeaderBox { timescale, duration: 0 },
        trak_boxes: vec![audio_track, video_track],
        mvex_box: make_movie_extends(),
    };
    proof {
        reveal(MovieBox::encoding);
        reveal(moov_box);
        lemma_concat_all_two(moov.trak_boxes@, trak_enc());
    }
    InitializationSegment { moov_box: moov }
}

/// The longest sample that a media data box takes.
pub const MAX_SAMPLE_LEN: usize = 0xffff_fff7;

/// One AAC frame with its ADTS header.
#[derive(Clone, Debug)]
pub struct AdtsFrame(pub Bytes);

/// One AVC access unit, ready to be stored.
#[derive(Clone, Debug)]
pub struct AvcFrame {
    pub is_key_frame: bool,
    pub composition_time: MediaDuration,
    pub data: Bytes,
}

/// What one call of `write_track` packages.
#[derive(Clone, Debug)]
pub enum TrackData {
    Audio(AdtsFrame),
    Video(AvcFrame),
}

/// The header of every track fragment: the track's id, offsets relative to
/// the `moof`, no defaults.
pub open spec fn fragment_header(track_id: u32) -> TrackFragmentHeaderBox {
    TrackFragmentHeaderBox {
        track_id,
        duration_is_empty: false,
        default_base_is_moof: true,
        base_data_offset: None,
        sample_description_index: None,
        default_sample_duration: None,
        default_sample_size: None,
        default_sample_flags: None,
    }
}

/// The sample of an audio fragment: duration and size, nothing else.
pub open spec fn audio_sample(duration: int, size: int) -> Sample {
    Sample {
        duration: Some(duration as u32),
        size: Some(size as u32),
        flags: None,
        composition_time_offset: None,
    }
}

/// The flags of a video sample: other samples depend on it, and it is a
/// sync sample exactly if it is a key frame.
pub open spec fn video_sample_flags(is_key_frame: bool) -> SampleFlags {
    SampleFlags {
        is_leading: 0,
        sample_depends_on: 1,
        sample_is_non_sync_sample: !is_key_frame,
        sample_is_depended_on: 0,
        sample_has_redundancy: 0,
        sample_padding_value: 0,
        sample_degradation_priority: 0,
    }
}

/// The sample of a video fragment: duration, size, flags and composition
/// time offset.
pub open spec fn video_sample(duration: int, size: int, is_key_frame: bool, offset: int) -> Sample {
    Sample {
        duration: Some(duration as u32),
        size: Some(size as u32),
        flags: Some(video_sample_flags(is_key_frame)),
        composition_time_offset: Some(offset as i32),
    }
}

/// The `moof` of a fragment that holds one sample of one track.
pub open spec fn fragment_moof(
    sequence: u32,
    track_id: u32,
    base_time: u32,
    sample: Sample,
    data_offset: i32,
) -> Seq<u8> {
    moof_box(
        (MovieFragmentHeaderBox { sequence_number: sequence }).encoding(),
        traf_box(
            fragment_header(track_id).encoding(),
            (TrackFragmentBaseMediaDecodeTimeBox { base_media_decode_time: base_time }).encoding(),
            trun_box(
                trun_flags(Some(data_offset), None, sample.box_flags()),
                1,
                Some(data_offset),
                None,
                sample.encoding(),
            ),
        ),
    )
}

/// Where a fragment's sample starts, counted from the start of its `moof`:
/// behind the `moof` and the header of the `mdat`.
pub open spec fn fragment_data_offset(sample: Sample) -> int {
    fragment_moof(0, 0, 0, sample, 0).len() + BOX_HEADER_SIZE
}

/// A media segment that holds one sample of one track.
pub open spec fn fragment_bytes(
    sequence: u32,
    track_id: u32,
    base_time: u32,
    sample: Sample,
    data: Seq<u8>,
) -> Seq<u8> {
    fragment_moof(sequence, track_id, base_time, sample, fragment_data_offset(sample) as i32)
        + plain_box(MDAT, data)
}

/// The length of a fragment's `moof`: 84 bytes and what its sample takes.
pub proof fn lemma_fragment_moof_len(
    sequence: u32,
    track_id: u32,
    base_time: u32,
    sample: Sample,
    data_offset: i32,
)
    ensures
        fragment_moof(sequence, track_id, base_time, sample, data_offset).len() == 84
            + sample.encoding().len(),
        sample.encoding().len() <= 16,
{
    let mfhd = (MovieFragmentHeaderBox { sequence_number: sequence }).encoding();
    let tfhd = fragment_header(track_id).encoding();
    let tfdt = (TrackFragmentBaseMediaDecodeTimeBox { base_media_decode_time: base_time }).encoding();
    let flags = trun_flags(Some(data_offset), None, sample.box_flags());
    let trun = trun_box(flags, 1, Some(data_offset), None, sample.encoding());
    lemma_sample_len(sample);
    lemma_trun_box_len(flags, 1, Some(data_offset), None, sample.encoding());
    lemma_traf_box_len(tfhd, tfdt, trun);
    lemma_moof_box_len(mfhd, traf_box(tfhd, tfdt, trun));
    assert(mfhd.len() == 16);
    assert(tfhd.len() == 16);
    assert(tfdt.len() == 16);
}

/// The size of a fragment's `moof` depends on the fields that its sample
/// has and on nothing else: the data offset of every fragment is the size
/// of its own `moof` plus the eight bytes of the `mdat` header, and is
/// never zero.
pub proof fn lemma_fragment_data_offset(
    sequence: u32,
    track_id: u32,
    base_time: u32,
    sample: Sample,
    data_offset: i32,
)
    ensures
        fragment_moof(sequence, track_id, base_time, sample, data_offset).len() + BOX_HEADER_SIZE
            == fragment_data_offset(sample),
        92 <= fragment_data_offset(sample) <= 0x100,
{
    lemma_fragment_moof_len(sequence, track_id, base_time, sample, data_offset);
    lemma_fragment_moof_len(0, 0, 0, sample, 0);
}

/// Where a fragment holds its numbers, counted from the start of its
/// `moof`: the sequence number in bytes 20 to 23, the track's id in bytes 44
/// to 47, the base decode time in bytes 60 to 63, and the data offset in
/// bytes 80 to 83.
pub proof fn lemma_fragment_fields(
    sequence: u32,
    track_id: u32,
    base_time: u32,
    sample: Sample,
    data_offset: i32,
)
    ensures
        fragment_moof(sequence, track_id, base_time, sample, data_offset).subrange(20, 24) == be32(
            sequence,
        ),
        fragment_moof(sequence, track_id, base_time, sample, data_offset).subrange(44, 48) == be32(
            track_id,
        ),
        fragment_moof(sequence, track_id, base_time, sample, data_offset).subrange(60, 64) == be32(
            base_time,
        ),
        fragment_moof(sequence, track_id, base_time, sample, data_offset).subrange(80, 84) == be32(
            data_offset as u32,
        ),
{
    let mfhd = (MovieFragmentHeaderBox { sequence_number: sequence }).encoding();
    let tfhd = fragment_header(track_id).encoding();
    let tfdt = (TrackFragmentBaseMediaDecodeTimeBox { base_media_decode_time: base_time }).encoding();
    let flags = trun_flags(Some(data_offset), None, sample.box_flags());
    let trun = trun_box(flags, 1, Some(data_offset), None, sample.encoding());
    let traf = traf_box(tfhd, tfdt, trun);
    let moof = moof_box(mfhd, traf);
    lemma_fragment_moof_len(sequence, track_id, base_time, sample, data_offset);
    lemma_trun_box_len(flags, 1, Some(data_offset), None, sample.encoding());
    lemma_traf_box_len(tfhd, tfdt, trun);
    reveal(moof_box);
    reveal(traf_box);
    reveal(trun_box);
    assert(mfhd.len() == 16);
    assert(tfhd.len() == 16);
    assert(tfdt.len() == 16);
    assert(mfhd.subrange(12, 16) =~= be32(sequence));
    assert(tfhd.subrange(12, 16) =~= be32(track_id));
    assert(tfdt.subrange(12, 16) =~= be32(base_time));
    assert(trun.subrange(16, 20) =~= be32(data_offset as u32));
    assert(traf.subrange(8, 24) =~= tfhd);
    assert(traf.subrange(24, 40) =~= tfdt);
    assert(traf.subrange(40, traf.len() as int) =~= trun);
    assert(moof.subrange(8, 24) =~= mfhd);
    assert(moof.subrange(24, moof.len() as int) =~= traf);
    assert(moof.subrange(20, 24) =~= mfhd.subrange(12, 16));
    assert(moof.subrange(44, 48) =~= tfhd.subrange(12, 16));
    assert(moof.subrange(60, 64) =~= tfdt.subrange(12, 16));
    assert(moof.subrange(80, 84) =~= trun.subrange(16, 20));
}

/// The fragment box around one sample.
fn make_fragment(
    sequence: u32,
    track_id: u32,
    base_time: u32,
    sample: Sample,
    data_offset: i32,
) -> (r: MovieFragmentBox)
    requires
        sample.wf(),
    ensures
        r.wf(),
        r.encoding() == fragment_moof(sequence, track_id, base_time, sample, data_offset),
        r.mfhd_box.sequence_number == sequence,
        r.traf_boxes@.len() == 1,
        r.traf_boxes@[0].tfhd_box == fragment_header(track_id),
        r.traf_boxes@[0].tfdt_box == Some(
            TrackFragmentBaseMediaDecodeTimeBox { base_media_decode_time: base_time },
        ),
        r.traf_boxes@[0].trun_box.data_offset == Some(data_offset),
        r.traf_boxes@[0].trun_box.first_sample_flags is None,
        r.traf_boxes@[0].trun_box.samples@ == seq![sample],
{
    let trun = TrackRunBox {
        data_offset: Some(data_offset),
        first_sample_flags: None,
        samples: vec![sample],
    };
    proof {
        reveal(TrackRunBox::encoding);
        reveal(trun_box);
        lemma_concat_all_one(trun.samples@, sample_enc());
        assert(trun.samples@ =~= seq![sample]);
    }
    let traf = TrackFragmentBox {
        tfhd_box: TrackFragmentHeaderBox {
            track_id,
            duration_is_empty: false,
            default_base_is_moof: true,
            base_data_offset: None,
            sample_description_index: None,
            default_sample_duration: None,
            default_sample_size: None,
            default_sample_flags: None,
        },
        tfdt_box: Some(TrackFragmentBaseMediaDecodeTimeBox { base_media_decode_time: base_time }),
        trun_box: trun,
    };
    proof {
        reveal(TrackFragmentBox::encoding);
        reveal(traf_box);
    }
    let r = MovieFragmentBox {
        mfhd_box: MovieFragmentHeaderBox { sequence_number: sequence },
        traf_boxes: vec![traf],
    };
    proof {
        reveal(MovieFragmentBox::encoding);
        reveal(moof_box);
        lemma_concat_all_one(r.traf_boxes@, traf_enc());
    }
    r
}

/// Whether a track at `time` can take a frame of `duration`: the sum and
/// both roundings into the timescale fit 64 bits.
pub open spec fn time_accepts(time: MediaTime, duration: MediaTime, timescale: int) -> bool {
    &&& time.add_fits(&duration)
    &&& time.rounds_in(timescale)
    &&& i64::MIN <= time.sum_ticks(&duration, timescale) <= i64::MAX
}

/// Rounds a track's time before and after a frame, and gives the time after
/// it.
fn advance(time: &MediaTime, duration: &MediaTime, timescale: u32) -> (r: (i64, i64, MediaTime))
    requires
        time.wf(),
        duration.wf(),
        time_accepts(*time, *duration, timescale as int),
    ensures
        r.0 == time.ticks(timescale as int),
        r.1 == time.sum_ticks(duration, timescale as int),
        r.2.wf(),
        r.2.reduced(),
        r.2.is_sum_of(time, duration),
{
    let start = time.round_to_base(timescale as i64);
    let end_time = time.add(duration);
    proof {
        lemma_sum_ticks(end_time, *time, *duration, timescale as int);
    }
    let end = end_time.round_to_base(timescale as i64);
    (start, end, end_time)
}

/// Whether `advance` can be called.
fn can_advance(time: &MediaTime, duration: &MediaTime, timescale: u32) -> (r: bool)
    requires
        time.wf(),
        duration.wf(),
    ensures
        r == time_accepts(*time, *duration, timescale as int),
{
    match time.checked_add(duration) {
        Some(end_time) => {
            proof {
                lemma_sum_ticks(end_time, *time, *duration, timescale as int);
            }
            time.checked_round_to_base(timescale as i64).is_some()
                && end_time.checked_round_to_base(timescale as i64).is_some()
        },
        None => false,
    }
}

impl Mp4Mux {
    /// Whether the muxer can package `data` as a frame of `duration`: the
    /// duration is not negative, so that the track's time does not go back;
    /// the counter and the track's time have room; an audio frame has its
    /// ADTS header; and the sample fits a media data box.
    pub open spec fn accepts(&self, duration: &MediaDuration, data: &TrackData) -> bool {
        let timescale = self.spec_timescale() as int;
        &&& self.spec_sequence() < u32::MAX
        &&& duration.wf()
        &&& duration.non_negative()
        &&& match data {
            TrackData::Audio(frame) => {
                &&& time_accepts(self.spec_audio_time(), *duration, timescale)
                &&& ADTS_HEADER_LEN <= bytes_view(&frame.0).len() <= MAX_SAMPLE_LEN
            },
            TrackData::Video(frame) => {
                &&& time_accepts(self.spec_video_time(), *duration, timescale)
                &&& frame.composition_time.wf()
                &&& frame.composition_time.rounds_in(timescale)
                &&& bytes_view(&frame.data).len() <= MAX_SAMPLE_LEN
            },
        }
    }

    /// The time of the track that `data` belongs to.
    pub open spec fn track_time(&self, data: &TrackData) -> MediaTime {
        match data {
            TrackData::Audio(_) => self.spec_audio_time(),
            TrackData::Video(_) => self.spec_video_time(),
        }
    }

    /// The fragment's base decode time, before it is cut to 32 bits: the
    /// track's time rounded down into the timescale.
    pub open spec fn base_ticks(&self, data: &TrackData) -> int {
        self.track_time(data).ticks(self.spec_timescale() as int)
    }

    /// The sample's duration, before it is cut to 32 bits: the time behind
    /// the frame, rounded down into the timescale, less the base decode
    /// time. Rounding the two ends, and not the duration, keeps the error
    /// from adding up.
    pub open spec fn frame_ticks(&self, duration: &MediaDuration, data: &TrackData) -> int {
        self.track_time(data).sum_ticks(duration, self.spec_timescale() as int) - self.base_ticks(
            data,
        )
    }

    /// The media segment that `write_track` gives for `data`: a fragment
    /// with the next sequence number, and the sample. Of an audio frame the
    /// sample is what follows the ADTS header; its fragment has neither
    /// flags nor a composition time offset.
    pub open spec fn segment_bytes(&self, duration: &MediaDuration, data: &TrackData) -> Seq<u8> {
        let sequence = (self.spec_sequence() + 1) as u32;
        match data {
            TrackData::Audio(frame) => {
                let raw = bytes_view(&frame.0).skip(ADTS_HEADER_LEN as int);
                fragment_bytes(
                    sequence,
                    AUDIO_TRACK,
                    self.base_ticks(data) as u32,
                    audio_sample(self.frame_ticks(duration, data), raw.len() as int),
                    raw,
                )
            },
            TrackData::Video(frame) => {
                let raw = bytes_view(&frame.data);
                fragment_bytes(
                    sequence,
                    VIDEO_TRACK,
                    self.base_ticks(data) as u32,
                    video_sample(
                        self.frame_ticks(duration, data),
                        raw.len() as int,
                        frame.is_key_frame,
                        frame.composition_time.ticks(self.spec_timescale() as int),
                    ),
                    raw,
                )
            },
        }
    }

    /// How a frame moves the muxer: the counter goes up by one, the time of
    /// the frame's track goes on by the frame's duration and is held in
    /// lowest terms, and nothing else changes.
    pub open spec fn steps_to(&self, next: &Mp4Mux, duration: &MediaDuration, data: &TrackData) -> bool {
        &&& next.wf()
        &&& next.spec_sequence() == self.spec_sequence() + 1
        &&& next.spec_timescale() == self.spec_timescale()
        &&& match data {
            TrackData::Audio(_) => {
                &&& next.spec_audio_time().is_sum_of(&self.spec_audio_time(), duration)
                &&& next.spec_audio_time().reduced()
                &&& next.spec_video_time() == self.spec_video_time()
            },
            TrackData::Video(_) => {
                &&& next.spec_video_time().is_sum_of(&self.spec_video_time(), duration)
                &&& next.spec_video_time().reduced()
                &&& next.spec_audio_time() == self.spec_audio_time()
            },
        }
    }

    /// Whether `write_track` can be called with these arguments.
    pub fn can_write(&self, duration: &MediaDuration, data: &TrackData) -> (r: bool)
        requires
            self.wf(),
        ensures
            r == (duration.wf() && self.accepts(duration, data)),
    {
        if self.sequence == u32::MAX || duration.denom() <= 0 || duration.numer() < 0 {
            return false;
        }
        match data {
            TrackData::Audio(frame) => {
                let len = bytes_len(&frame.0);
                can_advance(&self.audio_time, duration, self.timescale) && ADTS_HEADER_LEN <= len
                    && len <= MAX_SAMPLE_LEN
            },
            TrackData::Video(frame) => {
                can_advance(&self.video_time, duration, self.timescale)
                    && frame.composition_time.denom() > 0
                    && frame.composition_time.checked_round_to_base(self.timescale as i64).is_some()
                    && bytes_len(&frame.data) <= MAX_SAMPLE_LEN
            },
        }
    }

    /// Packages one frame as a media segment and moves the muxer on.
    pub fn write_track(&mut self, duration: MediaDuration, data: &TrackData) -> (r: Bytes)
        requires
            old(self).wf(),
            old(self).accepts(&duration, data),
        ensures
            old(self).steps_to(final(self), &duration, data),
            old(self).spec_audio_time().le(&final(self).spec_audio_time()),
            old(self).spec_video_time().le(&final(self).spec_video_time()),
            bytes_view(&r) == old(self).segment_bytes(&duration, data),
    {
        let media = make_media_segment(self, duration, data);
        to_bytes(media.encode())
    }
}

/// The media segment for one frame: a fragment with the next sequence
/// number and one sample, and the sample's bytes. The muxer moves on by the
/// frame.
pub fn make_media_segment(mux: &mut Mp4Mux, duration: MediaDuration, track_data: &TrackData) -> (r:
    MediaSegment)
    requires
        old(mux).wf(),
        old(mux).accepts(&duration, track_data),
    ensures
        old(mux).steps_to(final(mux), &duration, track_data),
        old(mux).spec_audio_time().le(&final(mux).spec_audio_time()),
        old(mux).spec_video_time().le(&final(mux).spec_video_time()),
        r.wf(),
        r.encoding() == old(mux).segment_bytes(&duration, track_data),
        r.moof_box.mfhd_box.sequence_number == final(mux).spec_sequence(),
        r.moof_box.traf_boxes@.len() == 1,
        r.mdat_boxes@.len() == 1,
        r.moof_box.traf_boxes@[0].trun_box.data_offset == Some(
            (r.moof_box.encoding().len() + BOX_HEADER_SIZE) as i32,
        ),
{
    let timescale = mux.timescale;
    let (track_id, base_time, sample, data) = match track_data {
        TrackData::Audio(adts_frame) => {
            let frame = bytes_to_vec(&adts_frame.0);
            let raw_aac = tail_from(&frame, ADTS_HEADER_LEN);
            let (start, end, time_end) = advance(&mux.audio_time, &duration, timescale);
            mux.audio_time = time_end;
            let sample = Sample {
                duration: Some((end as i128 - start as i128) as u32),
                size: Some(raw_aac.len() as u32),
                flags: None,
                composition_time_offset: None,
            };
            (AUDIO_TRACK, start as u32, sample, raw_aac)
        },
        TrackData::Video(avc_frame) => {
            let sample_flags = SampleFlags {
                is_leading: 0,
                sample_depends_on: 1,
                sample_is_non_sync_sample: !avc_frame.is_key_frame,
                sample_is_depended_on: 0,
                sample_has_redundancy: 0,
                sample_padding_value: 0,
                sample_degradation_priority: 0,
            };
            let raw = bytes_to_vec(&avc_frame.data);
            let (start, end, time_end) = advance(&mux.video_time, &duration, timescale);
            mux.video_time = time_end;
            let offset = avc_frame.composition_time.round_to_base(timescale as i64);
            let sample = Sample {
                duration: Some((end as i128 - start as i128) as u32),
                size: Some(raw.len() as u32),
                flags: Some(sample_flags),
                composition_time_offset: Some(offset as i32),
            };
            (VIDEO_TRACK, start as u32, sample, raw)
        },
    };
    mux.sequence = mux.sequence + 1;
    // The first pass measures the fragment with a data offset of zero.
    let moof_size = make_fragment(mux.sequence, track_id, base_time, sample, 0).box_size();
    proof {
        lemma_fragment_data_offset(mux.sequence, track_id, base_time, sample, 0);
    }
    let data_offset = moof_size as i32 + BOX_HEADER_SIZE as i32;
    let moof = make_fragment(mux.sequence, track_id, base_time, sample, data_offset);
    proof {
        lemma_fragment_data_offset(mux.sequence, track_id, base_time, sample, data_offset);
    }
    let r = MediaSegment { moof_box: moof, mdat_boxes: vec![MediaDataBox { data }] };
    proof {
        lemma_concat_all_one(r.mdat_boxes@, mdat_enc());
        lemma_step_never_goes_back(*old(mux), *mux, duration, *track_data);
    }
    r
}

/// A frame of a duration that is not negative leaves neither track's time
/// earlier than it was.
pub proof fn lemma_step_never_goes_back(
    prev: Mp4Mux,
    next: Mp4Mux,
    duration: MediaDuration,
    data: TrackData,
)
    requires
        prev.wf(),
        duration.wf(),
        duration.non_negative(),
        prev.steps_to(&next, &duration, &data),
    ensures
        prev.spec_audio_time().le(&next.spec_audio_time()),
        prev.spec_video_time().le(&next.spec_video_time()),
{
    match data {
        TrackData::Audio(_) => {
            lemma_sum_not_earlier(next.spec_audio_time(), prev.spec_audio_time(), duration);
        },
        TrackData::Video(_) => {
            lemma_sum_not_earlier(next.spec_video_time(), prev.spec_video_time(), duration);
        },
    }
}

/// The fragments of one track tile its timeline: after a frame the track's
/// rounded time, which is the base decode time of the track's next
/// fragment, is the base decode time of this fragment plus its sample
/// duration. The other track's rounded time stays.
pub proof fn lemma_fragments_tile(
    prev: Mp4Mux,
    next: Mp4Mux,
    duration: MediaDuration,
    data: TrackData,
)
    requires
        prev.wf(),
        duration.wf(),
        prev.steps_to(&next, &duration, &data),
    ensures
        track_ticks(next, data is Audio) == prev.base_ticks(&data) + prev.frame_ticks(
            &duration,
            &data,
        ),
        track_ticks(next, !(data is Audio)) == track_ticks(prev, !(data is Audio)),
{
    match data {
        TrackData::Audio(_) => {
            lemma_sum_ticks(
                next.spec_audio_time(),
                prev.spec_audio_time(),
                duration,
                prev.spec_timescale() as int,
            );
        },
        TrackData::Video(_) => {
            lemma_sum_ticks(
                next.spec_video_time(),
                prev.spec_video_time(),
                duration,
                prev.spec_timescale() as int,
            );
        },
    }
}

/// The bytes of a frame that its media segment holds as the sample: of an
/// audio frame what follows the ADTS header, of a video frame all.
pub open spec fn sample_bytes(data: &TrackData) -> Seq<u8> {
    match data {
        TrackData::Audio(frame) => bytes_view(&frame.0).skip(ADTS_HEADER_LEN as int),
        TrackData::Video(frame) => bytes_view(&frame.data),
    }
}

/// What the media segment of a frame holds, whichever track the frame
/// belongs to: in its header the number that the counter holds after the
/// frame; as base decode time the track's rounded time before the frame;
/// at its end the sample; and as data offset the place where the sample
/// starts, which is the size of the `moof` and the eight bytes of the
/// `mdat` header, and so never zero.
pub proof fn lemma_segment_fields(
    prev: Mp4Mux,
    next: Mp4Mux,
    duration: MediaDuration,
    data: TrackData,
)
    requires
        prev.steps_to(&next, &duration, &data),
    ensures
        ({
            let segment = prev.segment_bytes(&duration, &data);
            let sample = sample_bytes(&data);
            &&& segment.len() >= 92 + sample.len()
            &&& segment.subrange(20, 24) == be32(next.spec_sequence())
            &&& segment.subrange(60, 64) == be32(prev.base_ticks(&data) as u32)
            &&& segment.subrange(80, 84) == be32((segment.len() - sample.len()) as u32)
            &&& segment.subrange(segment.len() - sample.len(), segment.len() as int) == sample
        }),
{
    let sequence = next.spec_sequence();
    let base_time = prev.base_ticks(&data) as u32;
    let raw = sample_bytes(&data);
    let timescale = prev.spec_timescale() as int;
    let (track_id, sample) = match data {
        TrackData::Audio(_) => (
            AUDIO_TRACK,
            audio_sample(prev.frame_ticks(&duration, &data), raw.len() as int),
        ),
        TrackData::Video(frame) => (
            VIDEO_TRACK,
            video_sample(
                prev.frame_ticks(&duration, &data),
                raw.len() as int,
                frame.is_key_frame,
                frame.composition_time.ticks(timescale),
            ),
        ),
    };
    let data_offset = fragment_data_offset(sample) as i32;
    let moof = fragment_moof(sequence, track_id, base_time, sample, data_offset);
    let segment = prev.segment_bytes(&duration, &data);
    lemma_fragment_data_offset(sequence, track_id, base_time, sample, data_offset);
    lemma_fragment_fields(sequence, track_id, base_time, sample, data_offset);
    assert(segment == moof + plain_box(MDAT, raw));
    assert(segment.len() == moof.len() + 8 + raw.len());
    assert(segment.subrange(20, 24) =~= moof.subrange(20, 24));
    assert(segment.subrange(60, 64) =~= moof.subrange(60, 64));
    assert(segment.subrange(80, 84) =~= moof.subrange(80, 84));
    assert(segment.subrange(segment.len() - raw.len(), segment.len() as int) =~= raw);
}

/// The first fragment of each track of a fresh muxer starts at zero.
pub proof fn lemma_fresh_muxer_starts_at_zero(mux: Mp4Mux, data: TrackData)
    requires
        mux.spec_audio_time() == MediaTime::raw(0, 1),
        mux.spec_video_time() == MediaTime::raw(0, 1),
    ensures
        mux.base_ticks(&data) == 0,
{
    lemma_raw(0, 1);
}

/// The states of a muxer over a run of `write_track` calls: each state is
/// what the call before it left. As in every call that `write_track` takes,
/// no duration is negative.
pub open spec fn is_run(
    states: Seq<Mp4Mux>,
    durations: Seq<MediaDuration>,
    frames: Seq<TrackData>,
) -> bool {
    &&& states.len() == durations.len() + 1
    &&& frames.len() == durations.len()
    &&& states[0].wf()
    &&& forall|i: int|
        0 <= i < durations.len() ==> (#[trigger] durations[i]).wf() && durations[i].non_negative()
            && states[i].steps_to(&states[i + 1], &durations[i], &frames[i])
}

/// Over any run of `write_track` calls the fragment counter goes up by one
/// with each call, whichever track the frame belongs to, and the timescale
/// stays.
pub proof fn lemma_run_counts(
    states: Seq<Mp4Mux>,
    durations: Seq<MediaDuration>,
    frames: Seq<TrackData>,
    from: int,
    to: int,
)
    requires
        is_run(states, durations, frames),
        0 <= from <= to < states.len(),
    ensures
        states[to].wf(),
        states[to].spec_sequence() == states[from].spec_sequence() + (to - from),
        states[to].spec_timescale() == states[from].spec_timescale(),
    decreases to,
{
    if to > 0 {
        if from < to {
            lemma_run_counts(states, durations, frames, from, to - 1);
        } else {
            lemma_run_counts(states, durations, frames, 0, to - 1);
        }
        assert(durations[to - 1].wf());
    }
}

/// Over any run of `write_track` calls neither track's time ever goes back.
pub proof fn lemma_run_never_goes_back(
    states: Seq<Mp4Mux>,
    durations: Seq<MediaDuration>,
    frames: Seq<TrackData>,
    from: int,
    to: int,
)
    requires
        is_run(states, durations, frames),
        0 <= from <= to < states.len(),
    ensures
        states[from].spec_audio_time().le(&states[to].spec_audio_time()),
        states[from].spec_video_time().le(&states[to].spec_video_time()),
    decreases to - from,
{
    if from < to {
        lemma_run_never_goes_back(states, durations, frames, from, to - 1);
        lemma_run_counts(states, durations, frames, from, from);
        lemma_run_counts(states, durations, frames, from, to - 1);
        lemma_run_counts(states, durations, frames, from, to);
        let prev = states[to - 1];
        let next = states[to];
        let d = durations[to - 1];
        assert(d.wf() && d.non_negative() && prev.steps_to(&next, &d, &frames[to - 1]));
        match frames[to - 1] {
            TrackData::Audio(_) => {
                lemma_sum_not_earlier(next.spec_audio_time(), prev.spec_audio_time(), d);
            },
            TrackData::Video(_) => {
                lemma_sum_not_earlier(next.spec_video_time(), prev.spec_video_time(), d);
            },
        }
        lemma_le_transitive(
            states[from].spec_audio_time(),
            prev.spec_audio_time(),
            next.spec_audio_time(),
        );
        lemma_le_transitive(
            states[from].spec_video_time(),
            prev.spec_video_time(),
            next.spec_video_time(),
        );
    }
}

/// The sample durations that a run of `write_track` calls gives the frames
/// `from .. to`, as far as they are audio frames (`audio`) or video frames,
/// added up.
pub open spec fn run_ticks(
    states: Seq<Mp4Mux>,
    durations: Seq<MediaDuration>,
    frames: Seq<TrackData>,
    audio: bool,
    from: int,
    to: int,
) -> int
    decreases to - from,
{
    if from >= to {
        0
    } else {
        run_ticks(states, durations, frames, audio, from, to - 1) + if (frames[to - 1] is Audio)
            == audio {
            states[to - 1].frame_ticks(&durations[to - 1], &frames[to - 1])
        } else {
            0
        }
    }
}

/// The time of the audio track (`audio`) or of the video track of a muxer,
/// rounded down into its timescale.
pub open spec fn track_ticks(mux: Mp4Mux, audio: bool) -> int {
    if audio {
        mux.spec_audio_time().ticks(mux.spec_timescale() as int)
    } else {
        mux.spec_video_time().ticks(mux.spec_timescale() as int)
    }
}

/// Rounding does not drift: over any run of `write_track` calls, however
/// the tracks take turns, the sample durations given to the frames of one
/// track add up to the track's rounded time behind the run less its rounded
/// time before the run.
pub proof fn lemma_run_does_not_drift(
    states: Seq<Mp4Mux>,
    durations: Seq<MediaDuration>,
    frames: Seq<TrackData>,
    audio: bool,
    from: int,
    to: int,
)
    requires
        is_run(states, durations, frames),
        0 <= from <= to <= durations.len(),
    ensures
        run_ticks(states, durations, frames, audio, from, to) == track_ticks(states[to], audio)
            - track_ticks(states[from], audio),
    decreases to - from,
{
    if from < to {
        lemma_run_does_not_drift(states, durations, frames, audio, from, to - 1);
        lemma_run_counts(states, durations, frames, 0, to - 1);
        lemma_run_counts(states, durations, frames, 0, to);
        let prev = states[to - 1];
        let next = states[to];
        let d = durations[to - 1];
        assert(d.wf() && prev.steps_to(&next, &d, &frames[to - 1]));
        match frames[to - 1] {
            TrackData::Audio(_) => {
                lemma_sum_ticks(
                    next.spec_audio_time(),
                    prev.spec_audio_time(),
                    d,
                    prev.spec_timescale() as int,
                );
            },
            TrackData::Video(_) => {
                lemma_sum_ticks(
                    next.spec_video_time(),
                    prev.spec_video_time(),
                    d,
                    prev.spec_timescale() as int,
                );
            },
        }
    }
}

/// A run of frames of one track is given what one frame of the summed
/// duration would be given: the summed duration rounded down into the
/// timescale, or one tick more. `total` is the summed duration, the one
/// that leads from the track's time before the run to its time behind it.
pub proof fn lemma_run_is_within_one_tick(
    states: Seq<Mp4Mux>,
    durations: Seq<MediaDuration>,
    frames: Seq<TrackData>,
    audio: bool,
    total: MediaDuration,
    from: int,
    to: int,
)
    requires
        is_run(states, durations, frames),
        0 <= from <= to <= durations.len(),
        total.wf(),
        audio ==> states[to].spec_audio_time().is_sum_of(&states[from].spec_audio_time(), &total),
        !audio ==> states[to].spec_video_time().is_sum_of(&states[from].spec_video_time(), &total),
    ensures
        total.ticks(states[0].spec_timescale() as int) <= run_ticks(
            states,
            durations,
            frames,
            audio,
            from,
            to,
        ) <= total.ticks(states[0].spec_timescale() as int) + 1,
{
    let base = states[0].spec_timescale() as int;
    lemma_run_does_not_drift(states, durations, frames, audio, from, to);
    lemma_run_counts(states, durations, frames, 0, from);
    lemma_run_counts(states, durations, frames, 0, to);
    if audio {
        lemma_sum_ticks(states[to].spec_audio_time(), states[from].spec_audio_time(), total, base);
        lemma_sum_ticks_bounds(states[from].spec_audio_time(), total, base);
    } else {
        lemma_sum_ticks(states[to].spec_video_time(), states[from].spec_video_time(), total, base);
        lemma_sum_ticks_bounds(states[from].spec_video_time(), total, base);
    }
}

} // verus!
