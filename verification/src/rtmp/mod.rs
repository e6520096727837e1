//! The RTMP session of one publisher.
pub mod codec;
pub mod packet;

use crate::aac::{
    parse_config, AacError, AudioDataTransportStream, AudioSpecificConfiguration, MAX_ADTS_PAYLOAD,
};
use crate::avc::{
    packet_header, parse_record, AvcFrame, AvcPacket, AvcPacketType, Bitstream,
    DecoderConfigurationRecord, FrameType, Millis, RecordView, PACKET_HEADER_LEN,
};
use crate::buf::{bytes_from_vec, bytes_len, bytes_to_vec, bytes_view, tail_from};
use crate::rtmp::codec::{
    decoder_decode_frame, decoder_decoded_frame_size, decoder_fill, decoder_new,
    decoder_sample_rate, decoder_set_max_output_channels, decoder_set_min_output_channels,
};
use crate::rtmp::packet::{audio_packet_kind, audio_packet_payload, AudioPacket, AudioPacketKind};
use crate::source::{
    AudioWrite, ConnectError, ListenError, Registry, SourceRecv, SourceSend, Timestamp, VideoWrite,
};
use crate::time::{abs, gcd, lemma_raw, lemma_zero, MediaTime};
use crate::video::{Frame, FrameArena, FrameId};
use bytes::Bytes;
use fdk_aac::dec::{Decoder, DecoderError};
use vstd::prelude::*;

verus! {

/// Samples per channel of one AAC frame.
pub const SAMPLES_PER_FRAME: usize = 1024;

/// Channels of the decoded audio.
pub const OUTPUT_CHANNELS: usize = 2;

/// The only sample rate that a session takes.
pub const SAMPLE_RATE: i32 = 44100;

/// Ticks per second of RTMP timestamps.
pub const RTMP_TIMESCALE: i64 = 1000;

/// Registers the mountpoint `mountpoint` and gives its receiving end.
pub fn listen(registry: &mut Registry, mountpoint: &str) -> (r: Result<SourceRecv, ListenError>)
    requires
        old(registry).wf(),
    ensures
        final(registry).wf(),
        r is Ok <==> !old(registry).is_registered(mountpoint@),
        r matches Ok(recv) ==> recv.spec_name() == mountpoint@,
        r is Err ==> *final(registry) == *old(registry),
        forall|other: Seq<char>|
            final(registry).is_registered(other) <==> old(registry).is_registered(other) || other
                == mountpoint@,
        forall|other: Seq<char>|
            final(registry).is_claimed(other) <==> old(registry).is_claimed(other),
{
    registry.listen(mountpoint)
}

/// Why a session ended, as far as the session itself can tell: failures of
/// the connection and of the session protocol are known to whoever runs
/// them.
#[derive(Debug)]
pub enum RtmpError {
    /// The mountpoint could not be had.
    SourceConnect(ConnectError),
    /// A video packet came before the stream's metadata.
    MetadataNotYetSent,
    /// The stream is one that a session cannot time or decode.
    UnsupportedStream,
    /// The sending end rejected a write.
    SourceSend,
    /// The audio sequence header was refused.
    Aac(AacError),
    /// The audio decoder could not be set up.
    AacCodec(DecoderError),
}

/// What a session knows of its stream from the metadata.
#[derive(Clone, Copy, Debug)]
pub struct StreamMeta {
    /// The length of one video frame in seconds.
    pub video_frame_duration: MediaTime,
}

/// The timestamp of an RTMP message in milliseconds, from an epoch that
/// the publisher chose.
#[derive(Clone, Copy, Debug, PartialEq, Eq, Structural)]
pub struct RtmpTimestamp {
    pub value: u32,
}

/// What the session protocol reports.
#[derive(Clone, Debug)]
pub enum SessionEvent {
    AudioDataReceived { data: Bytes, timestamp: RtmpTimestamp },
    VideoDataReceived { data: Bytes, timestamp: RtmpTimestamp },
    /// The stream's metadata, of which only the video frame rate is read:
    /// frames per second times one hundred, cut to an integer.
    StreamMetadataChanged { video_frame_rate: Option<i64> },
    /// Any other event.
    Other,
}

/// What the session protocol gives for the bytes that were read.
#[derive(Clone, Debug)]
pub enum SessionResult {
    /// Bytes to write back to the peer.
    OutboundResponse(Bytes),
    RaisedEvent(SessionEvent),
    UnhandleableMessageReceived,
}

/// What is handed to the video decoder for one packet.
#[derive(Clone, Debug)]
pub struct DecodePacket {
    /// Decode time in milliseconds.
    pub dts: i64,
    /// Presentation time in milliseconds: decode time plus composition time.
    pub pts: i64,
    pub data: Bytes,
    /// The decoder configuration record of the stream, as it came.
    pub dcr: Option<Bytes>,
    pub is_key_frame: bool,
}

/// What remains to be done outside the session for one result of the
/// session protocol.
#[derive(Clone, Debug)]
pub enum Action {
    /// Write the bytes to the peer.
    Send(Bytes),
    /// Hand the packet to the video decoder.
    Decode(DecodePacket),
}

/// What to do after a read from the connection.
#[derive(Clone, Copy, Debug, PartialEq, Eq, Structural)]
pub enum ReadOutcome {
    /// The peer closed the connection: the session ends without error.
    Finished,
    /// So many bytes are to be fed to the session protocol.
    Feed(usize),
}

/// A read of no bytes ends the session; any other read is fed on.
pub fn read_outcome(bytes_read: usize) -> (r: ReadOutcome)
    ensures
        r == if bytes_read == 0 {
            ReadOutcome::Finished
        } else {
            ReadOutcome::Feed(bytes_read)
        },
{
    if bytes_read == 0 {
        ReadOutcome::Finished
    } else {
        ReadOutcome::Feed(bytes_read)
    }
}

/// The length of one decoded audio frame: 1024 samples at 44.1 kHz, in
/// lowest terms.
pub open spec fn audio_frame_time() -> MediaTime {
    MediaTime::raw(256, 11025)
}

/// The state of one publishing session.
pub struct ReceiveContext {
    source: SourceSend,
    meta: Option<StreamMeta>,
    audio_codec: Decoder,
    audio_asc: Option<AudioSpecificConfiguration>,
    audio_timestamp: Timestamp,
    video_dcr: Option<DecoderConfigurationRecord>,
    video_dcr_bytes: Option<Bytes>,
    video_key_frame: Option<FrameId>,
    frames: FrameArena,
}

/// What a session holds, but for the state of its audio decoder.
#[verifier::ext_equal]
pub struct SessionView {
    pub meta: Option<StreamMeta>,
    pub audio_asc: Option<AudioSpecificConfiguration>,
    /// The time of the next block of audio.
    pub audio_timestamp: Timestamp,
    pub video_dcr: Option<RecordView>,
    pub video_dcr_bytes: Option<Seq<u8>>,
    /// The key frame that was written last.
    pub video_key_frame: Option<FrameId>,
    /// The frames of the arena, oldest first.
    pub frames: Seq<Frame>,
    /// The serial number of the next frame.
    pub next_serial: u64,
    pub audio_queue: Seq<AudioWrite>,
    pub video_queue: Seq<VideoWrite>,
    /// Whether the sending end takes writes.
    pub open: bool,
}

impl View for ReceiveContext {
    type V = SessionView;

    closed spec fn view(&self) -> SessionView {
        SessionView {
            meta: self.meta,
            audio_asc: self.audio_asc,
            audio_timestamp: self.audio_timestamp,
            video_dcr: match self.video_dcr {
                Some(record) => Some(record@),
                None => None,
            },
            video_dcr_bytes: match self.video_dcr_bytes {
                Some(bytes) => Some(bytes_view(&bytes)),
                None => None,
            },
            video_key_frame: self.video_key_frame,
            frames: self.frames.frames(),
            next_serial: self.frames.next_serial(),
            audio_queue: self.source.audio_queue(),
            video_queue: self.source.video_queue(),
            open: self.source.is_open(),
        }
    }
}

impl SessionView {
    /// Whether the frame `id` is among the frames and is a key frame.
    pub open spec fn has_key_frame(&self, id: FrameId) -> bool {
        exists|i: int|
            0 <= i < self.frames.len() && #[trigger] self.frames[i].spec_id() == id
                && self.frames[i].key()
    }

    /// The key frame that was written last is among the frames, and no key
    /// frame among them is newer.
    pub open spec fn key_frame_is_newest(&self) -> bool {
        match self.video_key_frame {
            Some(k) => self.has_key_frame(k) && forall|i: int|
                0 <= i < self.frames.len() && (#[trigger] self.frames[i]).key()
                    ==> self.frames[i].spec_id().serial() <= k.serial(),
            None => forall|i: int| 0 <= i < self.frames.len() ==> !(#[trigger] self.frames[i]).key(),
        }
    }
}

/// An audio decoder for ADTS input that mixes down to two channels
/// whatever the stream holds.
fn audio_decoder() -> Result<Decoder, DecoderError> {
    let mut audio_codec = decoder_new(codec::Framing::Adts);
    match decoder_set_min_output_channels(&mut audio_codec, OUTPUT_CHANNELS) {
        Ok(()) => {},
        Err(e) => {
            return Err(e);
        },
    }
    match decoder_set_max_output_channels(&mut audio_codec, OUTPUT_CHANNELS) {
        Ok(()) => {},
        Err(e) => {
            return Err(e);
        },
    }
    Ok(audio_codec)
}

impl ReceiveContext {
    /// The arena that holds the session's frames.
    pub closed spec fn arena(&self) -> FrameArena {
        self.frames
    }

    /// The arena and the times are well formed, the length field of the
    /// configuration record has one to four bytes, and the key frame that
    /// was written last is the newest of the arena.
    pub open spec fn wf(&self) -> bool {
        &&& self.arena().wf()
        &&& self.arena().frames() == self@.frames
        &&& self.arena().next_serial() == self@.next_serial
        &&& self@.audio_timestamp.wf()
        &&& (self@.meta matches Some(m) ==> m.video_frame_duration.wf())
        &&& (self@.video_dcr matches Some(record) ==> 1 <= record.nalu_size <= 4)
        &&& self@.key_frame_is_newest()
    }

    /// A session at time zero that has seen nothing, with an audio decoder
    /// for ADTS input that mixes down to two channels.
    pub fn new(source: SourceSend) -> (r: Result<ReceiveContext, RtmpError>)
        ensures
            r matches Ok(ctx) ==> ctx.is_fresh(&source),
            r matches Err(e) ==> e is AacCodec,
    {
        ReceiveContext::from_decoder(source, audio_decoder())
    }

    /// The session that comes of setting up its audio decoder: a session at
    /// time zero that has seen nothing and holds the decoder, if the decoder
    /// could be set up; else the error that the decoder gave.
    pub fn from_decoder(source: SourceSend, made: Result<Decoder, DecoderError>) -> (r: Result<
        ReceiveContext,
        RtmpError,
    >)
        ensures
            made matches Ok(decoder) ==> (r matches Ok(ctx) && ctx.is_fresh(&source) && ctx.codec()
                == decoder),
            made matches Err(e) ==> (r matches Err(RtmpError::AacCodec(f)) && f == e),
    {
        match made {
            Ok(audio_codec) => Ok(ReceiveContext::with_decoder(source, audio_codec)),
            Err(e) => Err(RtmpError::AacCodec(e)),
        }
    }

    /// The audio decoder that the session holds.
    pub closed spec fn codec(&self) -> Decoder {
        self.audio_codec
    }

    /// Whether the session has seen nothing yet and writes to `source`.
    pub open spec fn is_fresh(&self, source: &SourceSend) -> bool {
        &&& self.wf()
        &&& self@.meta is None
        &&& self@.audio_asc is None
        &&& self@.audio_timestamp == MediaTime::raw(0, 1)
        &&& self@.video_dcr is None
        &&& self@.video_dcr_bytes is None
        &&& self@.video_key_frame is None
        &&& self@.frames.len() == 0
        &&& self@.next_serial == 0
        &&& self@.audio_queue == source.audio_queue()
        &&& self@.video_queue == source.video_queue()
        &&& self@.open == source.is_open()
        &&& self.sink() == *source
    }

    /// The sending end that the session writes to.
    pub closed spec fn sink(&self) -> SourceSend {
        self.source
    }

    fn with_decoder(source: SourceSend, audio_codec: Decoder) -> (r: ReceiveContext)
        ensures
            r.is_fresh(&source),
            r.codec() == audio_codec,
    {
        let start = MediaTime::new(0, 1);
        proof {
            lemma_zero(start);
        }
        ReceiveContext {
            source,
            meta: None,
            audio_codec,
            audio_asc: None,
            audio_timestamp: start,
            video_dcr: None,
            video_dcr_bytes: None,
            video_key_frame: None,
            frames: FrameArena::new(),
        }
    }

    /// Ends the session and gives its sending end back.
    pub fn finish(self) -> (r: SourceSend)
        ensures
            r == self.sink(),
            r.audio_queue() == self@.audio_queue,
            r.video_queue() == self@.video_queue,
            r.is_open() == self@.open,
    {
        self.source
    }

    /// The sending end that the session writes to.
    pub fn source(&self) -> (r: &SourceSend)
        ensures
            *r == self.sink(),
            r.audio_queue() == self@.audio_queue,
            r.video_queue() == self@.video_queue,
            r.is_open() == self@.open,
    {
        &self.source
    }

    /// Takes the audio writes that wait in the sending end.
    pub fn take_audio(&mut self) -> (r: Vec<AudioWrite>)
        ensures
            r@ == old(self)@.audio_queue,
            final(self)@ == (SessionView { audio_queue: Seq::empty(), ..old(self)@ }),
            final(self).arena() == old(self).arena(),
    {
        let taken = self.source.take_audio();
        assert(self@.audio_queue =~= Seq::<AudioWrite>::empty());
        taken
    }

    /// Takes the video writes that wait in the sending end.
    pub fn take_video(&mut self) -> (r: Vec<VideoWrite>)
        ensures
            r@ == old(self)@.video_queue,
            final(self)@ == (SessionView { video_queue: Seq::empty(), ..old(self)@ }),
            final(self).arena() == old(self).arena(),
    {
        let taken = self.source.take_video();
        assert(self@.video_queue =~= Seq::<VideoWrite>::empty());
        taken
    }

    /// Closes the sending end: the transport is gone.
    pub fn close_source(&mut self)
        ensures
            final(self)@ == (SessionView { open: false, ..old(self)@ }),
            final(self).arena() == old(self).arena(),
    {
        self.source.close();
    }

    /// The frames that the session holds.
    pub fn frames(&self) -> (r: &FrameArena)
        ensures
            *r == self.arena(),
    {
        &self.frames
    }

    pub fn meta(&self) -> (r: Option<StreamMeta>)
        ensures
            r == self@.meta,
    {
        self.meta
    }

    pub fn audio_asc(&self) -> (r: Option<AudioSpecificConfiguration>)
        ensures
            r == self@.audio_asc,
    {
        self.audio_asc
    }

    pub fn audio_timestamp(&self) -> (r: Timestamp)
        ensures
            r == self@.audio_timestamp,
    {
        self.audio_timestamp
    }

    pub fn video_key_frame(&self) -> (r: Option<FrameId>)
        ensures
            r == self@.video_key_frame,
    {
        self.video_key_frame
    }

    pub fn has_video_dcr(&self) -> (r: bool)
        ensures
            r == self@.video_dcr is Some,
    {
        self.video_dcr.is_some()
    }
}

/// What one decoded audio frame does to a session.
///
/// A frame of another sample rate than 44.1 kHz ends the session as
/// unsupported, and a closed sending end ends it too; neither changes the
/// session. Otherwise the samples, cut to the size that the decoder
/// reported, are written at the session's audio time, and the audio time
/// goes on by the length of one frame.
pub open spec fn audio_frame_outcome(
    before: SessionView,
    pcm: Seq<i16>,
    sample_rate: i32,
    decoded_size: usize,
    r: Result<(), RtmpError>,
    after: SessionView,
) -> bool {
    if sample_rate != SAMPLE_RATE {
        r matches Err(RtmpError::UnsupportedStream) && after == before
    } else if !before.open {
        r matches Err(RtmpError::SourceSend) && after == before
    } else {
        &&& r is Ok
        &&& after.audio_queue.len() == before.audio_queue.len() + 1
        &&& after.audio_queue.drop_last() == before.audio_queue
        &&& after.audio_queue.last().timestamp == before.audio_timestamp
        &&& after.audio_queue.last().samples@ == if decoded_size <= pcm.len() {
            pcm.take(decoded_size as int)
        } else {
            pcm
        }
        &&& after.audio_timestamp.wf()
        &&& after.audio_timestamp.reduced()
        &&& after.audio_timestamp.is_sum_of(&before.audio_timestamp, &audio_frame_time())
        &&& after == (SessionView {
            audio_timestamp: after.audio_timestamp,
            audio_queue: after.audio_queue,
            ..before
        })
    }
}

/// What one audio packet does to a session.
///
/// A sequence header sets the audio configuration, or ends the session if
/// it is refused. Raw data without a configuration, raw data too long for
/// an ADTS frame and unknown packets are dropped. Other raw data is handed
/// to the decoder, and either dropped or decoded into one frame.
pub open spec fn audio_packet_outcome(
    before: SessionView,
    bytes: Seq<u8>,
    r: Result<(), RtmpError>,
    after: SessionView,
) -> bool {
    let payload = audio_packet_payload(bytes);
    match audio_packet_kind(bytes) {
        AudioPacketKind::AacSequenceHeader => match parse_config(payload) {
            Ok(config) => r is Ok && after == (SessionView { audio_asc: Some(config), ..before }),
            Err(e) => r matches Err(RtmpError::Aac(f)) && f == e && after == before,
        },
        AudioPacketKind::Unknown => r is Ok && after == before,
        AudioPacketKind::AacRawData => if before.audio_asc is None || payload.len()
            > MAX_ADTS_PAYLOAD {
            r is Ok && after == before
        } else {
            ||| r is Ok && after == before
            ||| exists|pcm: Seq<i16>, sample_rate: i32, decoded_size: usize|
                pcm.len() == OUTPUT_CHANNELS * SAMPLES_PER_FRAME && #[trigger] audio_frame_outcome(
                    before,
                    pcm,
                    sample_rate,
                    decoded_size,
                    r,
                    after,
                )
        },
    }
}

/// The length of a frame of 1024 samples for each channel at 44.1 kHz.
fn frame_time_of(samples: usize, sample_rate: i32) -> (r: MediaTime)
    requires
        samples == SAMPLES_PER_FRAME,
        sample_rate == SAMPLE_RATE,
    ensures
        r == audio_frame_time(),
        r.wf(),
{
    let r = MediaTime::new(samples as i64, sample_rate as i64);
    proof {
        assert(gcd(1024, 44100) == 4) by {
            reveal_with_fuel(gcd, 6);
        }
        assert(abs(1024) == 1024 && abs(44100) == 44100);
        assert(r.spec_numer() * 4 == 1024);
        assert(r.spec_denom() * 4 == 44100);
        lemma_raw(256, 11025);
    }
    r
}

/// A buffer of `n` samples of silence.
fn silence(n: usize) -> (r: Vec<i16>)
    ensures
        r@.len() == n,
        forall|k: int| 0 <= k < n ==> r@[k] == 0,
{
    let mut r: Vec<i16> = Vec::new();
    let mut i: usize = 0;
    while i < n
        invariant
            i <= n,
            r@.len() == i,
            forall|k: int| 0 <= k < i ==> r@[k] == 0,
        decreases n - i,
    {
        r.push(0);
        i = i + 1;
    }
    r
}

/// Takes one decoded frame of audio: `pcm` as the decoder filled it, the
/// sample rate and the number of samples that the decoder reported.
pub fn finish_audio_frame(
    ctx: &mut ReceiveContext,
    pcm: Vec<i16>,
    sample_rate: i32,
    decoded_size: usize,
) -> (r: Result<(), RtmpError>)
    requires
        old(ctx).wf(),
        pcm@.len() == OUTPUT_CHANNELS * SAMPLES_PER_FRAME,
        old(ctx)@.audio_timestamp.add_fits(&audio_frame_time()),
    ensures
        final(ctx).wf(),
        audio_frame_outcome(old(ctx)@, pcm@, sample_rate, decoded_size, r, final(ctx)@),
{
    if sample_rate != SAMPLE_RATE {
        return Err(RtmpError::UnsupportedStream);
    }
    let frame_time = frame_time_of(pcm.len() / OUTPUT_CHANNELS, sample_rate);
    let mut samples = pcm;
    samples.truncate(decoded_size);
    match ctx.source.write_audio(ctx.audio_timestamp, samples) {
        Ok(()) => {},
        Err(()) => {
            assert(ctx@ =~= old(ctx)@);
            return Err(RtmpError::SourceSend);
        },
    }
    ctx.audio_timestamp = ctx.audio_timestamp.add(&frame_time);
    proof {
        assert(ctx@.audio_queue.drop_last() =~= old(ctx)@.audio_queue);
        assert(ctx@ =~= (SessionView {
            audio_timestamp: ctx@.audio_timestamp,
            audio_queue: ctx@.audio_queue,
            ..old(ctx)@
        }));
    }
    Ok(())
}

/// Whether decoding goes on after the decoder was handed a frame of
/// `frame_len` bytes: only if it took the whole frame. A frame that the
/// decoder refused or took in part is dropped.
pub fn after_fill(filled: Result<usize, DecoderError>, frame_len: usize) -> (go_on: bool)
    ensures
        go_on == (filled matches Ok(n) && n >= frame_len),
{
    match filled {
        Ok(n) => n >= frame_len,
        Err(_) => false,
    }
}

/// Takes what the decoder made of one frame: a frame that it could not
/// decode is dropped and the session stays as it was; one that it decoded
/// is taken as `finish_audio_frame` takes it.
pub fn after_decode(
    ctx: &mut ReceiveContext,
    decoded: Result<(), DecoderError>,
    pcm: Vec<i16>,
    sample_rate: i32,
    decoded_size: usize,
) -> (r: Result<(), RtmpError>)
    requires
        old(ctx).wf(),
        pcm@.len() == OUTPUT_CHANNELS * SAMPLES_PER_FRAME,
        old(ctx)@.audio_timestamp.add_fits(&audio_frame_time()),
    ensures
        final(ctx).wf(),
        decoded is Err ==> r is Ok && final(ctx)@ == old(ctx)@,
        decoded is Ok ==> audio_frame_outcome(
            old(ctx)@,
            pcm@,
            sample_rate,
            decoded_size,
            r,
            final(ctx)@,
        ),
{
    match decoded {
        Ok(()) => finish_audio_frame(ctx, pcm, sample_rate, decoded_size),
        Err(_) => Ok(()),
    }
}

/// Takes one audio packet.
pub fn receive_audio_packet(ctx: &mut ReceiveContext, data: Bytes, timestamp: RtmpTimestamp) -> (r:
    Result<(), RtmpError>)
    requires
        old(ctx).wf(),
        old(ctx)@.audio_timestamp.add_fits(&audio_frame_time()),
    ensures
        final(ctx).wf(),
        audio_packet_outcome(old(ctx)@, bytes_view(&data), r, final(ctx)@),
{
    let packet = AudioPacket::parse(data);
    match packet {
        AudioPacket::AacSequenceHeader(bytes) => {
            match AudioSpecificConfiguration::parse(bytes) {
                Ok(config) => {
                    ctx.audio_asc = Some(config);
                    assert(ctx@ =~= (SessionView { audio_asc: Some(config), ..old(ctx)@ }));
                    Ok(())
                },
                Err(e) => Err(RtmpError::Aac(e)),
            }
        },
        AudioPacket::AacRawData(bytes) => {
            let config = match ctx.audio_asc {
                Some(config) => config,
                None => {
                    // Raw data before the sequence header: dropped.
                    return Ok(());
                },
            };
            if bytes_len(&bytes) > MAX_ADTS_PAYLOAD {
                return Ok(());
            }
            // One frame is 1024 samples for each channel.
            let mut pcm = silence(OUTPUT_CHANNELS * SAMPLES_PER_FRAME);
            let adts = AudioDataTransportStream::new(bytes, &config).into_vec();
            let filled = decoder_fill(&mut ctx.audio_codec, &adts);
            if !after_fill(filled, adts.len()) {
                return Ok(());
            }
            let decoded = decoder_decode_frame(&mut ctx.audio_codec, &mut pcm);
            // The decoder is asked about a frame only when it has decoded one.
            let (sample_rate, decoded_size): (i32, usize) = if decoded.is_ok() {
                (decoder_sample_rate(&ctx.audio_codec), decoder_decoded_frame_size(&ctx.audio_codec))
            } else {
                (0, 0)
            };
            let ghost before = ctx@;
            let ghost samples = pcm@;
            let r = after_decode(ctx, decoded, pcm, sample_rate, decoded_size);
            assert(r is Ok && ctx@ == before || audio_frame_outcome(
                before,
                samples,
                sample_rate,
                decoded_size,
                r,
                ctx@,
            ));
            r
        },
        AudioPacket::Unknown(_) => Ok(()),
    }
}

/// What a sequence header does to the configuration that a session holds:
/// a record that can be read takes the place of the one before it, together
/// with the bytes it came in; one that cannot be read changes nothing.
pub open spec fn with_sequence_header(before: SessionView, payload: Seq<u8>) -> SessionView {
    match parse_record(payload) {
        Ok(parsed) => SessionView {
            video_dcr: Some(parsed.0),
            video_dcr_bytes: Some(payload),
            ..before
        },
        Err(_) => before,
    }
}

/// What of a packet's payload is its access unit: what follows the
/// configuration record of a sequence header that can be read, and all of
/// any other payload.
pub open spec fn access_unit(packet_type: AvcPacketType, payload: Seq<u8>) -> Seq<u8> {
    if packet_type == AvcPacketType::SequenceHeader {
        match parse_record(payload) {
            Ok(parsed) => parsed.1,
            Err(_) => payload,
        }
    } else {
        payload
    }
}

/// Whether `frame` is the frame that a session in state `before` makes of an
/// access unit: it gets the next serial number, the metadata's frame
/// duration, and, unless it is a key frame itself, the key frame that was
/// written last.
pub open spec fn is_frame_of(
    frame: Frame,
    before: SessionView,
    frame_type: FrameType,
    composition_time: u32,
    unit: Seq<u8>,
) -> bool {
    &&& frame.spec_id().serial() == before.next_serial
    &&& frame.specific.frame_type == frame_type
    &&& frame.specific.composition_time == Millis(composition_time as u64)
    &&& frame.specific.bitstream.spec_data() == unit
    &&& Some(frame.specific.bitstream.spec_dcr()@) == before.video_dcr
    &&& Some(frame.duration_hint) == match before.meta {
        Some(meta) => Some(meta.video_frame_duration),
        None => None,
    }
    &&& frame.key_frame == if frame_type.key() {
        None
    } else {
        before.video_key_frame
    }
}

/// Whether `decode` is what goes to the video decoder for an access unit:
/// nothing for an empty unit, else the unit with its times and the
/// stream's configuration record.
pub open spec fn is_decode_of(
    decode: Option<DecodePacket>,
    before: SessionView,
    frame_type: FrameType,
    composition_time: u32,
    unit: Seq<u8>,
    timestamp: RtmpTimestamp,
) -> bool {
    if unit.len() == 0 {
        decode is None
    } else {
        &&& decode matches Some(packet)
        &&& packet.dts == timestamp.value
        &&& packet.pts == timestamp.value + composition_time
        &&& bytes_view(&packet.data) == unit
        &&& packet.is_key_frame == frame_type.key()
        &&& match packet.dcr {
            Some(bytes) => Some(bytes_view(&bytes)) == before.video_dcr_bytes,
            None => before.video_dcr_bytes is None,
        }
    }
}

/// What an access unit does to a session that holds a configuration
/// record.
///
/// A closed sending end ends the session. Otherwise the unit becomes a
/// frame of the arena and is written at the packet's timestamp; a key frame
/// becomes the key frame that was written last.
pub open spec fn access_unit_outcome(
    before: SessionView,
    frame_type: FrameType,
    composition_time: u32,
    unit: Seq<u8>,
    timestamp: RtmpTimestamp,
    r: Result<Option<DecodePacket>, RtmpError>,
    after: SessionView,
) -> bool {
    if !before.open {
        r matches Err(RtmpError::SourceSend) && after == before
    } else {
        &&& r matches Ok(decode)
        &&& is_decode_of(decode, before, frame_type, composition_time, unit, timestamp)
        &&& after.frames.len() == before.frames.len() + 1
        &&& after.frames.drop_last() == before.frames
        &&& is_frame_of(after.frames.last(), before, frame_type, composition_time, unit)
        &&& after.next_serial == before.next_serial + 1
        &&& after.video_key_frame == if frame_type.key() {
            Some(after.frames.last().spec_id())
        } else {
            before.video_key_frame
        }
        &&& after.video_queue.len() == before.video_queue.len() + 1
        &&& after.video_queue.drop_last() == before.video_queue
        &&& after.video_queue.last().frame == after.frames.last().spec_id()
        &&& after.video_queue.last().timestamp.has_value(timestamp.value as int, RTMP_TIMESCALE as int)
        &&& after.video_queue.last().timestamp.reduced()
        &&& after == (SessionView {
            frames: after.frames,
            next_serial: after.next_serial,
            video_key_frame: after.video_key_frame,
            video_queue: after.video_queue,
            ..before
        })
    }
}

/// A frame that is no key frame names the newest key frame that the session
/// held when the frame came, and none if it held none: the name is never
/// that of an older key frame.
pub proof fn lemma_frame_names_newest_key_frame(
    before: SessionView,
    frame_type: FrameType,
    composition_time: u32,
    unit: Seq<u8>,
    timestamp: RtmpTimestamp,
    r: Result<Option<DecodePacket>, RtmpError>,
    after: SessionView,
)
    requires
        before.key_frame_is_newest(),
        before.open,
        access_unit_outcome(before, frame_type, composition_time, unit, timestamp, r, after),
    ensures
        frame_type.key() ==> after.frames.last().key_frame is None && after.video_key_frame == Some(
            after.frames.last().spec_id(),
        ),
        !frame_type.key() ==> after.video_key_frame == before.video_key_frame
            && match after.frames.last().key_frame {
            Some(k) => before.has_key_frame(k) && forall|i: int|
                0 <= i < before.frames.len() && (#[trigger] before.frames[i]).key()
                    ==> before.frames[i].spec_id().serial() <= k.serial(),
            None => forall|i: int| 0 <= i < before.frames.len() ==> !(#[trigger] before.frames[i]).key(),
        },
{
}

/// What one video packet does to a session.
///
/// Before the metadata every video packet ends the session. A packet whose
/// header is refused is dropped. A sequence header sets the configuration
/// record. Without a configuration record the packet is dropped; with one,
/// its access unit becomes a frame.
pub open spec fn video_packet_outcome(
    before: SessionView,
    bytes: Seq<u8>,
    timestamp: RtmpTimestamp,
    r: Result<Option<DecodePacket>, RtmpError>,
    after: SessionView,
) -> bool {
    if before.meta is None {
        r matches Err(RtmpError::MetadataNotYetSent) && after == before
    } else {
        match packet_header(bytes) {
            Err(_) => r matches Ok(None) && after == before,
            Ok(header) => {
                let payload = bytes.skip(PACKET_HEADER_LEN as int);
                let configured = if header.1 == AvcPacketType::SequenceHeader {
                    with_sequence_header(before, payload)
                } else {
                    before
                };
                if configured.video_dcr is None {
                    r matches Ok(None) && after == before
                } else {
                    access_unit_outcome(
                        configured,
                        header.0,
                        header.2,
                        access_unit(header.1, payload),
                        timestamp,
                        r,
                        after,
                    )
                }
            },
        }
    }
}

/// Takes one video packet. Gives what is to be handed to the video decoder,
/// if anything.
pub fn receive_video_packet(ctx: &mut ReceiveContext, data: Bytes, timestamp: RtmpTimestamp) -> (r:
    Result<Option<DecodePacket>, RtmpError>)
    requires
        old(ctx).wf(),
        old(ctx)@.next_serial < u64::MAX,
    ensures
        final(ctx).wf(),
        video_packet_outcome(old(ctx)@, bytes_view(&data), timestamp, r, final(ctx)@),
{
    let meta = match ctx.meta {
        Some(meta) => meta,
        None => {
            return Err(RtmpError::MetadataNotYetSent);
        },
    };
    let packet = match AvcPacket::parse(data) {
        Ok(packet) => packet,
        Err(_) => {
            return Ok(None);
        },
    };
    let ghost payload = bytes_view(&packet.data);
    let mut unit = packet.data;
    match packet.packet_type {
        AvcPacketType::SequenceHeader => {
            let raw = bytes_to_vec(&unit);
            match DecoderConfigurationRecord::parse(&raw) {
                Ok((record, end)) => {
                    ctx.video_dcr = Some(record);
                    ctx.video_dcr_bytes = Some(unit);
                    unit = bytes_from_vec(tail_from(&raw, end));
                    assert(ctx@ =~= with_sequence_header(old(ctx)@, payload));
                },
                Err(_) => {},
            }
        },
        _ => {},
    }
    let ghost configured = ctx@;
    let dcr = match &ctx.video_dcr {
        Some(record) => record.duplicate(),
        None => {
            return Ok(None);
        },
    };
    if !ctx.source.open() {
        return Err(RtmpError::SourceSend);
    }
    let is_key_frame = packet.frame_type.is_key_frame();
    let decode = if bytes_len(&unit) > 0 {
        Some(
            DecodePacket {
                dts: timestamp.value as i64,
                pts: timestamp.value as i64 + packet.composition_time as i64,
                data: unit.clone(),
                dcr: match &ctx.video_dcr_bytes {
                    Some(bytes) => Some(bytes.clone()),
                    None => None,
                },
                is_key_frame,
            },
        )
    } else {
        None
    };
    let bitstream = Bitstream::new(unit, dcr);
    let at = MediaTime::new(timestamp.value as i64, RTMP_TIMESCALE);
    let key_frame = if is_key_frame {
        None
    } else {
        ctx.video_key_frame
    };
    let id = ctx.frames.insert(
        AvcFrame {
            frame_type: packet.frame_type,
            composition_time: Millis(packet.composition_time as u64),
            bitstream,
        },
        meta.video_frame_duration,
        key_frame,
    );
    if is_key_frame {
        ctx.video_key_frame = Some(id);
    }
    let written = ctx.source.write_video(at, id);
    proof {
        let after = ctx@;
        assert(after.video_queue.drop_last() =~= configured.video_queue);
        assert(after =~= (SessionView {
            frames: after.frames,
            next_serial: after.next_serial,
            video_key_frame: after.video_key_frame,
            video_queue: after.video_queue,
            ..configured
        }));
        let last = after.frames.len() - 1;
        assert(after.frames[last].spec_id() == id);
        assert forall|i: int| 0 <= i < last implies after.frames[i] == configured.frames[i] by {
            assert(after.frames.drop_last()[i] == configured.frames[i]);
        }
        if let Some(k) = after.video_key_frame {
            if is_key_frame {
                assert(after.frames[last].key());
            } else {
                let i = choose|i: int|
                    0 <= i < configured.frames.len() && #[trigger] configured.frames[i].spec_id()
                        == k && configured.frames[i].key();
                assert(after.frames[i].spec_id() == k && after.frames[i].key());
            }
        }
        assert(after.key_frame_is_newest());
    }
    Ok(decode)
}

/// The outcome of an audio packet as the outcome of an event: nothing goes
/// to the video decoder.
pub open spec fn with_no_decode(r: Result<(), RtmpError>) -> Result<Option<DecodePacket>, RtmpError> {
    match r {
        Ok(_) => Ok(None),
        Err(e) => Err(e),
    }
}

/// What one event of the session protocol does to a session.
///
/// Audio and video data go to their pipelines. Metadata with a frame rate
/// sets the length of a video frame to the rate's reciprocal; metadata
/// without one, or with a rate of zero, ends the session as unsupported.
/// Other events change nothing.
pub open spec fn event_outcome(
    before: SessionView,
    event: SessionEvent,
    r: Result<Option<DecodePacket>, RtmpError>,
    after: SessionView,
) -> bool {
    match event {
        SessionEvent::AudioDataReceived { data, timestamp } => exists|taken: Result<(), RtmpError>|
            #[trigger] audio_packet_outcome(before, bytes_view(&data), taken, after) && r
                == with_no_decode(taken),
        SessionEvent::VideoDataReceived { data, timestamp } => video_packet_outcome(
            before,
            bytes_view(&data),
            timestamp,
            r,
            after,
        ),
        SessionEvent::StreamMetadataChanged { video_frame_rate } => match video_frame_rate {
            Some(rate) => if rate == 0 {
                r matches Err(RtmpError::UnsupportedStream) && after == before
            } else {
                &&& r matches Ok(None)
                &&& after.meta matches Some(meta)
                &&& meta.video_frame_duration.wf()
                &&& meta.video_frame_duration.reduced()
                &&& meta.video_frame_duration.has_value(100, rate as int)
                &&& after == (SessionView { meta: after.meta, ..before })
            },
            None => r matches Err(RtmpError::UnsupportedStream) && after == before,
        },
        SessionEvent::Other => r matches Ok(None) && after == before,
    }
}

impl ReceiveContext {
    /// Whether the session can take the event: the audio time has room for
    /// another frame, and there is a serial number left for another video
    /// frame. Every other event can be taken.
    pub open spec fn accepts(&self, event: &SessionEvent) -> bool {
        match event {
            SessionEvent::AudioDataReceived { .. } => self@.audio_timestamp.add_fits(
                &audio_frame_time(),
            ),
            SessionEvent::VideoDataReceived { .. } => self@.next_serial < u64::MAX,
            SessionEvent::StreamMetadataChanged { .. } => true,
            SessionEvent::Other => true,
        }
    }

    /// Whether `handle_event` can be called with the event.
    pub fn can_handle(&self, event: &SessionEvent) -> (r: bool)
        requires
            self.wf(),
        ensures
            r == self.accepts(event),
    {
        match event {
            SessionEvent::AudioDataReceived { .. } => {
                let frame_time = frame_time_of(SAMPLES_PER_FRAME, SAMPLE_RATE);
                self.audio_timestamp.checked_add(&frame_time).is_some()
            },
            SessionEvent::VideoDataReceived { .. } => self.frames.has_room(),
            SessionEvent::StreamMetadataChanged { .. } => true,
            SessionEvent::Other => true,
        }
    }

    /// Notes that the frame `id` has been delivered, and lets it leave the
    /// arena if no frame names it and it is not the key frame that was
    /// written last. Gives whether the frame left.
    pub fn release_frame(&mut self, id: FrameId) -> (r: bool)
        requires
            old(self).wf(),
        ensures
            final(self).wf(),
            r <==> old(self).arena().contains(id) && !old(self).arena().is_referenced(id) && old(
                self,
            )@.video_key_frame != Some(id),
            r ==> !final(self).arena().contains(id),
            !r ==> final(self)@.frames == old(self)@.frames,
            forall|other: FrameId|
                other != id ==> (final(self).arena().contains(other) <==> old(
                    self,
                ).arena().contains(other)),
            final(self)@ == (SessionView { frames: final(self)@.frames, ..old(self)@ }),
    {
        self.frames.mark_delivered(id);
        let ghost marked = self.frames;
        proof {
            if marked.contains(id) {
                let i = choose|i: int|
                    0 <= i < marked.frames().len() && #[trigger] marked.frames()[i].spec_id() == id;
                assert(marked.delivered_at(i));
            }
        }
        let left = self.frames.evict(id, self.video_key_frame);
        proof {
            let after = self@;
            assert(after =~= (SessionView { frames: after.frames, ..old(self)@ }));
            if left {
                match after.video_key_frame {
                    Some(k) => {
                        assert(k != id);
                        assert(marked.contains_key_frame(k));
                        assert(self.frames.contains_key_frame(k));
                        assert forall|i: int|
                            0 <= i < after.frames.len() && (#[trigger] after.frames[i]).key() implies after.frames[i].spec_id().serial()
                            <= k.serial() by {
                            let other = after.frames[i].spec_id();
                            assert(self.frames.contains_key_frame(other));
                            assert(other != id);
                            assert(marked.contains_key_frame(other));
                        }
                    },
                    None => {
                        assert forall|i: int| 0 <= i < after.frames.len() implies !(
                        #[trigger] after.frames[i]).key() by {
                            let other = after.frames[i].spec_id();
                            if after.frames[i].key() {
                                assert(self.frames.contains_key_frame(other));
                                assert(other != id);
                                assert(marked.contains_key_frame(other));
                            }
                        }
                    },
                }
            }
        }
        left
    }
}

/// Takes one event of the session protocol. Gives what is to be handed to
/// the video decoder, if anything.
pub fn handle_event(ctx: &mut ReceiveContext, event: SessionEvent) -> (r: Result<
    Option<DecodePacket>,
    RtmpError,
>)
    requires
        old(ctx).wf(),
        old(ctx).accepts(&event),
    ensures
        final(ctx).wf(),
        event_outcome(old(ctx)@, event, r, final(ctx)@),
{
    match event {
        SessionEvent::AudioDataReceived { data, timestamp } => {
            let taken = receive_audio_packet(ctx, data, timestamp);
            let r = match taken {
                Ok(()) => Ok(None),
                Err(e) => Err(e),
            };
            assert(r == with_no_decode(taken));
            r
        },
        SessionEvent::VideoDataReceived { data, timestamp } => receive_video_packet(
            ctx,
            data,
            timestamp,
        ),
        SessionEvent::StreamMetadataChanged { video_frame_rate } => {
            let rate = match video_frame_rate {
                Some(rate) => rate,
                None => {
                    return Err(RtmpError::UnsupportedStream);
                },
            };
            if rate == 0 {
                // No frame lasts the reciprocal of nothing.
                return Err(RtmpError::UnsupportedStream);
            }
            let frame_rate = MediaTime::new(rate, 100);
            proof {
                if rate == i64::MIN {
                    // The smallest integer and a hundred share a factor of
                    // four, so what is left of the rate is not the smallest.
                    assert(abs(rate as int) == 0x8000_0000_0000_0000 && abs(100) == 100);
                    assert(0x8000_0000_0000_0000nat % 100 == 8);
                    assert(gcd(8, 4) == 4) by {
                        reveal_with_fuel(gcd, 3);
                    }
                    assert(gcd(100, 8) == gcd(8, 4));
                    assert(gcd(0x8000_0000_0000_0000, 100) == gcd(100, 8));
                    assert(frame_rate.spec_numer() * 4 == rate);
                }
            }
            let video_frame_duration = frame_rate.recip();
            ctx.meta = Some(StreamMeta { video_frame_duration });
            proof {
                let a = frame_rate.spec_numer();
                let b = frame_rate.spec_denom();
                let n = video_frame_duration.spec_numer();
                let d = video_frame_duration.spec_denom();
                assert(n * rate == 100 * d) by (nonlinear_arith)
                    requires
                        a * 100 == rate * b,
                        n * a == b * d,
                        b > 0,
                {
                    assert((n * rate) * b == (100 * d) * b);
                }
                assert(ctx@ =~= (SessionView { meta: ctx@.meta, ..old(ctx)@ }));
            }
            Ok(None)
        },
        SessionEvent::Other => Ok(None),
    }
}

/// What one result of the session protocol does to a session, and what
/// remains to be done for it outside: a response is to be sent, an event is
/// handled, and a message that cannot be handled is passed over.
pub open spec fn session_result_outcome(
    before: SessionView,
    result: SessionResult,
    r: Result<Option<Action>, RtmpError>,
    after: SessionView,
) -> bool {
    match result {
        SessionResult::OutboundResponse(bytes) => {
            &&& r matches Ok(Some(Action::Send(sent)))
            &&& bytes_view(&sent) == bytes_view(&bytes)
            &&& after == before
        },
        SessionResult::RaisedEvent(event) => match r {
            Ok(Some(Action::Decode(packet))) => event_outcome(before, event, Ok(Some(packet)), after),
            Ok(Some(Action::Send(_))) => false,
            Ok(None) => event_outcome(before, event, Ok(None), after),
            Err(e) => event_outcome(before, event, Err(e), after),
        },
        SessionResult::UnhandleableMessageReceived => r matches Ok(None) && after == before,
    }
}

impl SessionResult {
    /// The event that the result raises, if it raises one.
    pub open spec fn event(&self) -> Option<SessionEvent> {
        match self {
            SessionResult::RaisedEvent(event) => Some(*event),
            _ => None,
        }
    }
}

/// Takes one result of the session protocol. Gives what remains to be done
/// for it outside the session, if anything.
pub fn handle_session_result(ctx: &mut ReceiveContext, result: SessionResult) -> (r: Result<
    Option<Action>,
    RtmpError,
>)
    requires
        old(ctx).wf(),
        result.event() matches Some(event) ==> old(ctx).accepts(&event),
    ensures
        final(ctx).wf(),
        session_result_outcome(old(ctx)@, result, r, final(ctx)@),
{
    match result {
        SessionResult::OutboundResponse(bytes) => Ok(Some(Action::Send(bytes))),
        SessionResult::RaisedEvent(event) => {
            match handle_event(ctx, event) {
                Ok(Some(packet)) => Ok(Some(Action::Decode(packet))),
                Ok(None) => Ok(None),
                Err(e) => Err(e),
            }
        },
        SessionResult::UnhandleableMessageReceived => Ok(None),
    }
}

/// Opens the session of a publisher on the mountpoint `app_name`: binds the
/// publisher to the mountpoint and sets up the audio decoder. If the
/// decoder cannot be set up, the mountpoint is free again.
pub fn accept_publish(registry: &mut Registry, app_name: &str) -> (r: Result<
    ReceiveContext,
    RtmpError,
>)
    requires
        old(registry).wf(),
    ensures
        final(registry).wf(),
        r is Ok ==> old(registry).is_registered(app_name@) && !old(registry).is_claimed(app_name@),
        r matches Ok(ctx) ==> ctx.wf() && ctx.sink().spec_name() == app_name@ && ctx@.open
            && ctx@.frames.len() == 0 && ctx@.next_serial == 0 && ctx@.audio_queue.len() == 0
            && ctx@.video_queue.len() == 0 && ctx@.meta is None && ctx@.audio_asc is None
            && ctx@.video_dcr is None && ctx@.video_dcr_bytes is None && ctx@.video_key_frame is None
            && ctx@.audio_timestamp == MediaTime::raw(0, 1),
        !old(registry).is_registered(app_name@) ==> r matches Err(
            RtmpError::SourceConnect(ConnectError::NoMountpoint),
        ),
        old(registry).is_registered(app_name@) && old(registry).is_claimed(app_name@)
            ==> r matches Err(RtmpError::SourceConnect(ConnectError::AlreadyConnected)),
        old(registry).is_registered(app_name@) && !old(registry).is_claimed(app_name@) ==> r is Ok
            || r matches Err(RtmpError::AacCodec(_)),
        forall|other: Seq<char>|
            final(registry).is_registered(other) <==> old(registry).is_registered(other),
        forall|other: Seq<char>|
            final(registry).is_claimed(other) <==> old(registry).is_claimed(other) || (r is Ok
                && other == app_name@),
{
    let source = match registry.connect(app_name) {
        Ok(source) => source,
        Err(e) => {
            return Err(RtmpError::SourceConnect(e));
        },
    };
    open_session(registry, source)
}

/// Opens the session of a publisher who holds the sending end `source`: sets
/// up the audio decoder and starts at time zero with nothing seen. If the
/// decoder cannot be set up the session ends with the decoder's error, and
/// the mountpoint of `source` is free again.
pub fn open_session(registry: &mut Registry, source: SourceSend) -> (r: Result<
    ReceiveContext,
    RtmpError,
>)
    requires
        old(registry).wf(),
    ensures
        final(registry).wf(),
        r matches Ok(ctx) ==> ctx.is_fresh(&source) && *final(registry) == *old(registry),
        r matches Err(e) ==> e is AacCodec,
        forall|other: Seq<char>|
            final(registry).is_registered(other) <==> old(registry).is_registered(other),
        forall|other: Seq<char>|
            final(registry).is_claimed(other) <==> old(registry).is_claimed(other) && (r is Ok
                || other != source.spec_name()),
{
    publish_on(registry, source, audio_decoder())
}

/// Opens the session of a publisher who holds the sending end `source`, once
/// it is known what came of setting up the audio decoder. With a decoder the
/// session starts at time zero, has seen nothing, and the registry stays as
/// it is. Without one the session ends with the decoder's error, and the
/// mountpoint of `source` is free again.
pub fn publish_on(
    registry: &mut Registry,
    source: SourceSend,
    made: Result<Decoder, DecoderError>,
) -> (r: Result<ReceiveContext, RtmpError>)
    requires
        old(registry).wf(),
    ensures
        final(registry).wf(),
        made matches Ok(decoder) ==> (r matches Ok(ctx) && ctx.is_fresh(&source) && ctx.codec()
            == decoder) && *final(registry) == *old(registry),
        made matches Err(e) ==> (r matches Err(RtmpError::AacCodec(f)) && f == e),
        forall|other: Seq<char>|
            final(registry).is_registered(other) <==> old(registry).is_registered(other),
        forall|other: Seq<char>|
            final(registry).is_claimed(other) <==> old(registry).is_claimed(other) && (made is Ok
                || other != source.spec_name()),
{
    match made {
        Ok(audio_codec) => Ok(ReceiveContext::with_decoder(source, audio_codec)),
        Err(e) => {
            registry.disconnect(source);
            Err(RtmpError::AacCodec(e))
        },
    }
}

/// Ends the session of a publisher: the mountpoint is free for another
/// publisher. What the session wrote and nobody took is given back.
pub fn finish_publish(registry: &mut Registry, ctx: ReceiveContext) -> (r: (
    Vec<AudioWrite>,
    Vec<VideoWrite>,
))
    requires
        old(registry).wf(),
    ensures
        final(registry).wf(),
        r.0@ == ctx@.audio_queue,
        r.1@ == ctx@.video_queue,
        forall|other: Seq<char>|
            final(registry).is_registered(other) <==> old(registry).is_registered(other),
        forall|other: Seq<char>|
            final(registry).is_claimed(other) <==> old(registry).is_claimed(other) && other
                != ctx.sink().spec_name(),
{
    registry.disconnect(ctx.finish())
}

} // verus!
