use bytes::Bytes;
use fdk_aac::dec::{Decoder, DecoderError, Transport};
use mixlab::aac::{AacError, AacProfile, ChannelConfiguration, SamplingFrequency};
use mixlab::rtmp::packet::AudioPacket;
use mixlab::rtmp::{
    accept_publish, after_decode, after_fill, finish_audio_frame, finish_publish, handle_event,
    handle_session_result, open_session, publish_on, read_outcome, receive_audio_packet,
    receive_video_packet, Action, ReadOutcome, ReceiveContext, RtmpError, RtmpTimestamp,
    SessionEvent, SessionResult,
};
use mixlab::source::{ConnectError, Registry, SourceSend};
use mixlab::time::MediaTime;

fn session() -> ReceiveContext {
    ReceiveContext::new(SourceSend::detached("test")).unwrap()
}

fn at(value: u32) -> RtmpTimestamp {
    RtmpTimestamp { value }
}

fn audio_header() -> Bytes {
    Bytes::from(vec![0xafu8, 0x00, 0x12, 0x10])
}

/// One frame of silence for two channels of AAC LC.
fn silent_frame() -> Bytes {
    Bytes::from(vec![0xafu8, 0x01, 0x21, 0x00, 0x49, 0x90, 0x02, 0x19, 0x00, 0x23, 0x80])
}

fn record_bytes() -> Vec<u8> {
    vec![1, 100, 0, 31, 0xff, 0xe1, 0, 2, 0x67, 0x64, 1, 0, 1, 0x68]
}

fn video_header() -> Bytes {
    let mut packet = vec![0x17u8, 0, 0, 0, 0];
    packet.extend(record_bytes());
    Bytes::from(packet)
}

fn video_packet(first: u8, composition_time: u8, unit: &[u8]) -> Bytes {
    let mut packet = vec![first, 1, 0, 0, composition_time];
    packet.extend_from_slice(unit);
    Bytes::from(packet)
}

fn with_metadata() -> ReceiveContext {
    let mut ctx = session();
    let r = handle_event(&mut ctx, SessionEvent::StreamMetadataChanged { video_frame_rate: Some(3000) });
    assert!(matches!(r, Ok(None)));
    ctx
}

#[test]
fn parse_audio_packets() {
    assert!(matches!(AudioPacket::parse(audio_header()), AudioPacket::AacSequenceHeader(b) if b.to_vec() == vec![0x12, 0x10]));
    assert!(matches!(AudioPacket::parse(silent_frame()), AudioPacket::AacRawData(b) if b.len() == 9));
    assert!(matches!(AudioPacket::parse(Bytes::from(vec![0xafu8, 1])), AudioPacket::AacRawData(b) if b.is_empty()));
    // The low bits of the first byte are not read.
    assert!(matches!(AudioPacket::parse(Bytes::from(vec![0xa0u8, 0, 7])), AudioPacket::AacSequenceHeader(b) if b.to_vec() == vec![7]));
    // MP3, an unknown packet type, and packets that are too short.
    assert!(matches!(AudioPacket::parse(Bytes::from(vec![0x2fu8, 0, 7])), AudioPacket::Unknown(b) if b.to_vec() == vec![0x2f, 0, 7]));
    assert!(matches!(AudioPacket::parse(Bytes::from(vec![0xafu8, 2, 7])), AudioPacket::Unknown(b) if b.len() == 3));
    assert!(matches!(AudioPacket::parse(Bytes::from(vec![0xafu8])), AudioPacket::Unknown(b) if b.len() == 1));
    assert!(matches!(AudioPacket::parse(Bytes::new()), AudioPacket::Unknown(b) if b.is_empty()));
}

#[test]
fn a_new_session_has_seen_nothing() {
    let ctx = session();
    assert!(ctx.meta().is_none());
    assert!(ctx.audio_asc().is_none());
    assert!(!ctx.has_video_dcr());
    assert!(ctx.video_key_frame().is_none());
    assert_eq!(ctx.audio_timestamp(), MediaTime::new(0, 1));
    assert_eq!(ctx.frames().len(), 0);
    assert!(ctx.source().open());
}

#[test]
fn raw_audio_before_the_sequence_header_is_dropped() {
    let mut ctx = session();
    for _ in 0..3 {
        assert!(matches!(receive_audio_packet(&mut ctx, silent_frame(), at(0)), Ok(())));
    }
    assert!(ctx.take_audio().is_empty());
    assert_eq!(ctx.audio_timestamp(), MediaTime::new(0, 1));
    // Once the sequence header is there, raw packets are decoded.
    assert!(matches!(receive_audio_packet(&mut ctx, audio_header(), at(0)), Ok(())));
    assert!(matches!(receive_audio_packet(&mut ctx, silent_frame(), at(0)), Ok(())));
    assert_eq!(ctx.take_audio().len(), 1);
}

#[test]
fn sequence_header_sets_the_configuration() {
    let mut ctx = session();
    assert!(matches!(receive_audio_packet(&mut ctx, audio_header(), at(0)), Ok(())));
    let config = ctx.audio_asc().unwrap();
    assert_eq!(config.profile, AacProfile::Lc);
    assert_eq!(config.frequency, SamplingFrequency::Hz44100);
    assert_eq!(config.channel_configuration, ChannelConfiguration::TwoChannels);
    assert!(ctx.take_audio().is_empty());
}

#[test]
fn a_refused_sequence_header_ends_the_session() {
    let mut ctx = session();
    let r = receive_audio_packet(&mut ctx, Bytes::from(vec![0xafu8, 0, 0x12]), at(0));
    assert!(matches!(r, Err(RtmpError::Aac(AacError::NotEnoughData))));
    let r = receive_audio_packet(&mut ctx, Bytes::from(vec![0xafu8, 0, 0x2a, 0x10]), at(0));
    assert!(matches!(r, Err(RtmpError::Aac(AacError::UnsupportedObjectType))));
    assert!(ctx.audio_asc().is_none());
}

#[test]
fn unknown_audio_is_dropped() {
    let mut ctx = session();
    assert!(matches!(receive_audio_packet(&mut ctx, Bytes::from(vec![0x2fu8, 1, 2, 3]), at(0)), Ok(())));
    assert!(matches!(receive_audio_packet(&mut ctx, Bytes::new(), at(0)), Ok(())));
    assert!(ctx.take_audio().is_empty());
    assert!(ctx.audio_asc().is_none());
}

#[test]
fn three_raw_packets_are_three_writes() {
    let mut ctx = session();
    assert!(matches!(receive_audio_packet(&mut ctx, audio_header(), at(0)), Ok(())));
    for i in 0..3 {
        assert!(matches!(receive_audio_packet(&mut ctx, silent_frame(), at(i * 23)), Ok(())));
    }
    let writes = ctx.take_audio();
    assert_eq!(writes.len(), 3);
    assert_eq!(writes[0].timestamp, MediaTime::new(0, 1));
    assert_eq!(writes[1].timestamp, MediaTime::new(1024, 44100));
    assert_eq!(writes[2].timestamp, MediaTime::new(2048, 44100));
    for write in &writes {
        // 1024 samples for each of two channels, all silent.
        assert_eq!(write.samples.len(), 2048);
        assert!(write.samples.iter().all(|s| *s == 0));
    }
    assert_eq!(ctx.audio_timestamp(), MediaTime::new(3072, 44100));
}

#[test]
fn audio_that_cannot_be_decoded_is_dropped() {
    let mut ctx = session();
    assert!(matches!(receive_audio_packet(&mut ctx, audio_header(), at(0)), Ok(())));
    // A payload that is no AAC frame.
    let garbage = Bytes::from(vec![0xafu8, 1, 0xff, 0xff, 0xff, 0xff, 0xff, 0xff, 0xff, 0xff]);
    assert!(matches!(receive_audio_packet(&mut ctx, garbage, at(0)), Ok(())));
    assert!(ctx.take_audio().is_empty());
    assert_eq!(ctx.audio_timestamp(), MediaTime::new(0, 1));
}

#[test]
fn audio_too_long_for_a_frame_is_dropped() {
    let mut ctx = session();
    assert!(matches!(receive_audio_packet(&mut ctx, audio_header(), at(0)), Ok(())));
    let mut long = vec![0xafu8, 1];
    long.extend(std::iter::repeat(0u8).take(8185));
    assert!(matches!(receive_audio_packet(&mut ctx, Bytes::from(long), at(0)), Ok(())));
    assert!(ctx.take_audio().is_empty());
}

#[test]
fn decoded_frames_advance_the_audio_time() {
    let mut ctx = session();
    for _ in 0..3 {
        assert!(matches!(finish_audio_frame(&mut ctx, vec![5; 2048], 44100, 2048), Ok(())));
    }
    let writes = ctx.take_audio();
    assert_eq!(writes.len(), 3);
    assert_eq!(writes[0].timestamp, MediaTime::new(0, 1));
    assert_eq!(writes[1].timestamp, MediaTime::new(1024, 44100));
    assert_eq!(writes[2].timestamp, MediaTime::new(2048, 44100));
    assert_eq!(writes[2].samples, vec![5; 2048]);
}

#[test]
fn decoded_frames_are_cut_to_the_decoded_size() {
    let mut ctx = session();
    let pcm: Vec<i16> = (0..2048).map(|i| i as i16).collect();
    assert!(matches!(finish_audio_frame(&mut ctx, pcm.clone(), 44100, 1024), Ok(())));
    assert!(matches!(finish_audio_frame(&mut ctx, pcm.clone(), 44100, 4096), Ok(())));
    assert!(matches!(finish_audio_frame(&mut ctx, pcm.clone(), 44100, 0), Ok(())));
    let writes = ctx.take_audio();
    assert_eq!(writes[0].samples, pcm[..1024].to_vec());
    assert_eq!(writes[1].samples, pcm);
    assert!(writes[2].samples.is_empty());
    // The audio time goes on by a whole frame whatever was decoded.
    assert_eq!(ctx.audio_timestamp(), MediaTime::new(3072, 44100));
}

#[test]
fn another_sample_rate_ends_the_session() {
    let mut ctx = session();
    let r = finish_audio_frame(&mut ctx, vec![0; 2048], 48000, 2048);
    assert!(matches!(r, Err(RtmpError::UnsupportedStream)));
    assert!(ctx.take_audio().is_empty());
    assert_eq!(ctx.audio_timestamp(), MediaTime::new(0, 1));
}

#[test]
fn a_rejected_audio_write_ends_the_session() {
    let mut ctx = session();
    ctx.close_source();
    let r = finish_audio_frame(&mut ctx, vec![0; 2048], 44100, 2048);
    assert!(matches!(r, Err(RtmpError::SourceSend)));
    assert_eq!(ctx.audio_timestamp(), MediaTime::new(0, 1));
    // Through the decoder too.
    assert!(matches!(receive_audio_packet(&mut ctx, audio_header(), at(0)), Ok(())));
    let r = receive_audio_packet(&mut ctx, silent_frame(), at(0));
    assert!(matches!(r, Err(RtmpError::SourceSend)));
}

#[test]
fn video_before_metadata_ends_the_session() {
    let mut ctx = session();
    let r = receive_video_packet(&mut ctx, video_header(), at(0));
    assert!(matches!(r, Err(RtmpError::MetadataNotYetSent)));
    assert!(!ctx.has_video_dcr());
    // Audio does not need the metadata.
    assert!(matches!(receive_audio_packet(&mut ctx, audio_header(), at(0)), Ok(())));
}

#[test]
fn metadata_gives_the_frame_duration() {
    let mut ctx = session();
    // 29.97 frames per second.
    let r = handle_event(&mut ctx, SessionEvent::StreamMetadataChanged { video_frame_rate: Some(2997) });
    assert!(matches!(r, Ok(None)));
    assert_eq!(ctx.meta().unwrap().video_frame_duration, MediaTime::new(100, 2997));
    let r = handle_event(&mut ctx, SessionEvent::StreamMetadataChanged { video_frame_rate: Some(2500) });
    assert!(matches!(r, Ok(None)));
    assert_eq!(ctx.meta().unwrap().video_frame_duration, MediaTime::new(1, 25));
}

#[test]
fn metadata_without_a_frame_rate_ends_the_session() {
    let mut ctx = session();
    let r = handle_event(&mut ctx, SessionEvent::StreamMetadataChanged { video_frame_rate: None });
    assert!(matches!(r, Err(RtmpError::UnsupportedStream)));
    assert!(ctx.meta().is_none());
}

#[test]
fn a_video_packet_that_cannot_be_read_is_dropped() {
    let mut ctx = with_metadata();
    assert!(matches!(receive_video_packet(&mut ctx, Bytes::from(vec![0x17u8, 1]), at(0)), Ok(None)));
    assert!(matches!(receive_video_packet(&mut ctx, Bytes::from(vec![0x12u8, 1, 0, 0, 0, 1]), at(0)), Ok(None)));
    assert_eq!(ctx.frames().len(), 0);
    assert!(ctx.take_video().is_empty());
}

#[test]
fn video_without_a_configuration_record_is_dropped() {
    let mut ctx = with_metadata();
    let r = receive_video_packet(&mut ctx, video_packet(0x17, 0, &[0, 0, 0, 1, 0x65]), at(0));
    assert!(matches!(r, Ok(None)));
    assert_eq!(ctx.frames().len(), 0);
    assert!(ctx.take_video().is_empty());
    assert!(ctx.video_key_frame().is_none());
    // A sequence header that cannot be read leaves the session without one.
    let r = receive_video_packet(&mut ctx, Bytes::from(vec![0x17u8, 0, 0, 0, 0, 1, 100]), at(0));
    assert!(matches!(r, Ok(None)));
    assert!(!ctx.has_video_dcr());
}

#[test]
fn inter_frames_name_the_key_frame() {
    let mut ctx = with_metadata();
    assert!(matches!(receive_video_packet(&mut ctx, video_header(), at(0)), Ok(None)));
    assert!(ctx.has_video_dcr());
    // The sequence header came as a key frame without an access unit.
    let header_frame = ctx.video_key_frame().unwrap();
    ctx.take_video();

    let r = receive_video_packet(&mut ctx, video_packet(0x17, 0, &[0, 0, 0, 1, 0x65]), at(40));
    assert!(matches!(r, Ok(Some(_))));
    let key = ctx.video_key_frame().unwrap();
    assert_ne!(key, header_frame);
    assert!(matches!(receive_video_packet(&mut ctx, video_packet(0x27, 0, &[0, 0, 0, 1, 0x41]), at(80)), Ok(Some(_))));
    assert!(matches!(receive_video_packet(&mut ctx, video_packet(0x27, 0, &[0, 0, 0, 1, 0x41]), at(120)), Ok(Some(_))));

    let writes = ctx.take_video();
    assert_eq!(writes.len(), 3);
    assert_eq!(writes[0].timestamp, MediaTime::new(40, 1000));
    assert_eq!(writes[1].timestamp, MediaTime::new(80, 1000));
    assert_eq!(writes[2].timestamp, MediaTime::new(120, 1000));
    assert_eq!(writes[0].frame, key);

    let key_frame = ctx.frames().get(writes[0].frame).unwrap();
    assert!(key_frame.is_key_frame());
    assert_eq!(key_frame.key_frame, None);
    assert_eq!(key_frame.duration_hint, MediaTime::new(1, 30));
    for write in &writes[1..] {
        let inter = ctx.frames().get(write.frame).unwrap();
        assert!(!inter.is_key_frame());
        assert_eq!(inter.key_frame, Some(key_frame.id()));
        assert_ne!(inter.id(), key_frame.id());
    }
    // Two inter frames of the same content are two frames.
    assert_ne!(writes[1].frame, writes[2].frame);
    assert_eq!(ctx.video_key_frame(), Some(key));
}

#[test]
fn a_newer_key_frame_takes_over() {
    let mut ctx = with_metadata();
    receive_video_packet(&mut ctx, video_header(), at(0)).unwrap();
    receive_video_packet(&mut ctx, video_packet(0x17, 0, &[1]), at(0)).unwrap();
    let first = ctx.video_key_frame().unwrap();
    receive_video_packet(&mut ctx, video_packet(0x27, 0, &[2]), at(40)).unwrap();
    receive_video_packet(&mut ctx, video_packet(0x47, 0, &[3]), at(80)).unwrap();
    let second = ctx.video_key_frame().unwrap();
    assert_ne!(first, second);
    receive_video_packet(&mut ctx, video_packet(0x37, 0, &[4]), at(120)).unwrap();
    let writes = ctx.take_video();
    assert_eq!(writes.len(), 5);
    assert_eq!(ctx.frames().get(writes[2].frame).unwrap().key_frame, Some(first));
    assert_eq!(ctx.frames().get(writes[3].frame).unwrap().key_frame, None);
    assert_eq!(ctx.frames().get(writes[4].frame).unwrap().key_frame, Some(second));
    assert_eq!(ctx.video_key_frame(), Some(second));
}

#[test]
fn an_inter_frame_before_any_key_frame_names_none() {
    let mut ctx = with_metadata();
    // A sequence header that comes as an inter frame.
    let mut header = video_header().to_vec();
    header[0] = 0x27;
    receive_video_packet(&mut ctx, Bytes::from(header), at(0)).unwrap();
    assert!(ctx.video_key_frame().is_none());
    receive_video_packet(&mut ctx, video_packet(0x27, 0, &[1]), at(0)).unwrap();
    let writes = ctx.take_video();
    assert_eq!(ctx.frames().get(writes[1].frame).unwrap().key_frame, None);
}

#[test]
fn the_decoder_gets_the_unit_with_its_times() {
    let mut ctx = with_metadata();
    assert!(matches!(receive_video_packet(&mut ctx, video_header(), at(1000)), Ok(None)));
    let r = receive_video_packet(&mut ctx, video_packet(0x27, 80, &[0, 0, 0, 1, 0x41]), at(5000));
    let packet = r.unwrap().unwrap();
    assert_eq!(packet.dts, 5000);
    assert_eq!(packet.pts, 5080);
    assert_eq!(packet.data.to_vec(), vec![0, 0, 0, 1, 0x41]);
    assert_eq!(packet.dcr.unwrap().to_vec(), record_bytes());
    assert!(!packet.is_key_frame);
    // An empty access unit is not handed to the decoder, but it is a frame.
    let r = receive_video_packet(&mut ctx, video_packet(0x17, 0, &[]), at(u32::MAX));
    assert!(matches!(r, Ok(None)));
    let writes = ctx.take_video();
    assert_eq!(writes.len(), 3);
    assert_eq!(writes[2].timestamp, MediaTime::new(u32::MAX as i64, 1000));
    let frame = ctx.frames().get(writes[1].frame).unwrap();
    assert_eq!(frame.specific.composition_time.0, 80);
    assert_eq!(frame.specific.bitstream.data().to_vec(), vec![0, 0, 0, 1, 0x41]);
    assert_eq!(frame.specific.bitstream.dcr().sps, vec![vec![0x67, 0x64]]);
}

#[test]
fn presentation_time_of_a_late_packet_does_not_wrap() {
    let mut ctx = with_metadata();
    receive_video_packet(&mut ctx, video_header(), at(0)).unwrap();
    let mut packet = vec![0x27u8, 1, 0xff, 0xff, 0xff, 1];
    packet.push(2);
    let decode = receive_video_packet(&mut ctx, Bytes::from(packet), at(u32::MAX)).unwrap().unwrap();
    assert_eq!(decode.dts, u32::MAX as i64);
    assert_eq!(decode.pts, u32::MAX as i64 + 0xffffff);
}

#[test]
fn a_second_sequence_header_replaces_the_record() {
    let mut ctx = with_metadata();
    receive_video_packet(&mut ctx, video_header(), at(0)).unwrap();
    let mut second = vec![0x17u8, 0, 0, 0, 0];
    second.extend_from_slice(&[1, 66, 0, 30, 0xfd, 0xe1, 0, 1, 0x27, 0, 0xaa]);
    let decode = receive_video_packet(&mut ctx, Bytes::from(second), at(40)).unwrap().unwrap();
    // What follows the record is the access unit.
    assert_eq!(decode.data.to_vec(), vec![0xaa]);
    assert_eq!(decode.dcr.unwrap().len(), 11);
    let writes = ctx.take_video();
    let frame = ctx.frames().get(writes[1].frame).unwrap();
    assert_eq!(frame.specific.bitstream.dcr().nalu_size, 2);
    assert_eq!(frame.specific.bitstream.dcr().profile_indication, 66);
    // The frame before it keeps the record that it came with.
    let frame = ctx.frames().get(writes[0].frame).unwrap();
    assert_eq!(frame.specific.bitstream.dcr().nalu_size, 4);
}

#[test]
fn a_rejected_video_write_ends_the_session() {
    let mut ctx = with_metadata();
    receive_video_packet(&mut ctx, video_header(), at(0)).unwrap();
    ctx.close_source();
    let r = receive_video_packet(&mut ctx, video_packet(0x17, 0, &[1]), at(40));
    assert!(matches!(r, Err(RtmpError::SourceSend)));
    assert_eq!(ctx.frames().len(), 1);
}

#[test]
fn delivered_frames_leave_the_session() {
    let mut ctx = with_metadata();
    receive_video_packet(&mut ctx, video_header(), at(0)).unwrap();
    receive_video_packet(&mut ctx, video_packet(0x17, 0, &[1]), at(0)).unwrap();
    receive_video_packet(&mut ctx, video_packet(0x27, 0, &[2]), at(40)).unwrap();
    let writes = ctx.take_video();
    let (header, key, inter) = (writes[0].frame, writes[1].frame, writes[2].frame);
    // The sequence header's frame is named by nobody and is not the last key frame.
    assert!(ctx.release_frame(header));
    // The key frame that was written last stays, delivered or not.
    assert!(!ctx.release_frame(key));
    assert!(ctx.release_frame(inter));
    assert!(!ctx.release_frame(key));
    assert_eq!(ctx.frames().len(), 1);
    // After a newer key frame the older one may leave.
    receive_video_packet(&mut ctx, video_packet(0x17, 0, &[3]), at(80)).unwrap();
    assert!(ctx.release_frame(key));
    assert_eq!(ctx.frames().len(), 1);
    assert!(ctx.frames().get(ctx.video_key_frame().unwrap()).is_some());
}

#[test]
fn events_go_to_their_pipelines() {
    let mut ctx = with_metadata();
    let r = handle_event(&mut ctx, SessionEvent::AudioDataReceived { data: audio_header(), timestamp: at(0) });
    assert!(matches!(r, Ok(None)));
    assert!(ctx.audio_asc().is_some());
    let r = handle_event(&mut ctx, SessionEvent::VideoDataReceived { data: video_header(), timestamp: at(0) });
    assert!(matches!(r, Ok(None)));
    assert!(ctx.has_video_dcr());
    let r = handle_event(&mut ctx, SessionEvent::VideoDataReceived { data: video_packet(0x17, 0, &[1]), timestamp: at(0) });
    assert!(matches!(r, Ok(Some(_))));
    let r = handle_event(&mut ctx, SessionEvent::Other);
    assert!(matches!(r, Ok(None)));
    let r = handle_event(&mut ctx, SessionEvent::AudioDataReceived { data: Bytes::from(vec![0xafu8, 0]), timestamp: at(0) });
    assert!(matches!(r, Err(RtmpError::Aac(AacError::NotEnoughData))));
}

#[test]
fn can_handle_tells_what_handle_event_takes() {
    let ctx = session();
    assert!(ctx.can_handle(&SessionEvent::Other));
    assert!(ctx.can_handle(&SessionEvent::AudioDataReceived { data: audio_header(), timestamp: at(0) }));
    assert!(ctx.can_handle(&SessionEvent::VideoDataReceived { data: video_header(), timestamp: at(0) }));
    assert!(ctx.can_handle(&SessionEvent::StreamMetadataChanged { video_frame_rate: None }));
    assert!(ctx.can_handle(&SessionEvent::StreamMetadataChanged { video_frame_rate: Some(-2500) }));
    assert!(ctx.can_handle(&SessionEvent::StreamMetadataChanged { video_frame_rate: Some(0) }));
    assert!(ctx.can_handle(&SessionEvent::StreamMetadataChanged { video_frame_rate: Some(i64::MIN) }));
    assert!(ctx.can_handle(&SessionEvent::StreamMetadataChanged { video_frame_rate: Some(i64::MAX) }));
}

#[test]
fn metadata_with_a_frame_rate_of_zero_ends_the_session() {
    let mut ctx = with_metadata();
    let before = ctx.meta().unwrap().video_frame_duration;
    let r = handle_event(&mut ctx, SessionEvent::StreamMetadataChanged { video_frame_rate: Some(0) });
    assert!(matches!(r, Err(RtmpError::UnsupportedStream)));
    // The session keeps the duration it had.
    assert_eq!(ctx.meta().unwrap().video_frame_duration, before);
    let mut fresh = session();
    let r = handle_event(&mut fresh, SessionEvent::StreamMetadataChanged { video_frame_rate: Some(0) });
    assert!(matches!(r, Err(RtmpError::UnsupportedStream)));
    assert!(fresh.meta().is_none());
}

#[test]
fn metadata_takes_the_frame_rates_at_the_ends_of_the_range() {
    let mut ctx = session();
    let r = handle_event(&mut ctx, SessionEvent::StreamMetadataChanged { video_frame_rate: Some(i64::MIN) });
    assert!(matches!(r, Ok(None)));
    // The smallest integer over a hundred is -2^61 / 25.
    let duration = ctx.meta().unwrap().video_frame_duration;
    assert_eq!(duration.numer(), -25);
    assert_eq!(duration.denom(), 1i64 << 61);
    let r = handle_event(&mut ctx, SessionEvent::StreamMetadataChanged { video_frame_rate: Some(i64::MAX) });
    assert!(matches!(r, Ok(None)));
    let duration = ctx.meta().unwrap().video_frame_duration;
    assert_eq!(duration.numer(), 100);
    assert_eq!(duration.denom(), i64::MAX);
    let r = handle_event(&mut ctx, SessionEvent::StreamMetadataChanged { video_frame_rate: Some(-2500) });
    assert!(matches!(r, Ok(None)));
    let duration = ctx.meta().unwrap().video_frame_duration;
    assert_eq!(duration.numer(), -1);
    assert_eq!(duration.denom(), 25);
}

#[test]
fn decoding_goes_on_only_after_a_whole_frame_was_taken() {
    assert!(after_fill(Ok(16), 16));
    assert!(after_fill(Ok(17), 16));
    assert!(after_fill(Ok(0), 0));
    assert!(!after_fill(Ok(15), 16));
    assert!(!after_fill(Ok(0), 1));
    assert!(!after_fill(Err(DecoderError::NOT_ENOUGH_BITS), 16));
    assert!(!after_fill(Err(DecoderError::UNKNOWN), 0));
}

#[test]
fn a_frame_that_was_not_decoded_leaves_the_session_as_it_was() {
    let mut ctx = session();
    let r = after_decode(&mut ctx, Err(DecoderError::TRANSPORT_SYNC_ERROR), vec![3; 2048], 44100, 2048);
    assert!(matches!(r, Ok(())));
    assert!(ctx.take_audio().is_empty());
    assert_eq!(ctx.audio_timestamp(), MediaTime::new(0, 1));
    // Not even a sample rate that would end the session is looked at.
    let r = after_decode(&mut ctx, Err(DecoderError::NOT_ENOUGH_BITS), vec![3; 2048], 48000, 0);
    assert!(matches!(r, Ok(())));
    ctx.close_source();
    let r = after_decode(&mut ctx, Err(DecoderError::NOT_ENOUGH_BITS), vec![3; 2048], 44100, 2048);
    assert!(matches!(r, Ok(())));
    assert_eq!(ctx.audio_timestamp(), MediaTime::new(0, 1));
}

#[test]
fn a_frame_that_was_decoded_is_written() {
    let mut ctx = session();
    let pcm: Vec<i16> = (0..2048).map(|i| i as i16).collect();
    assert!(matches!(after_decode(&mut ctx, Ok(()), pcm.clone(), 44100, 2048), Ok(())));
    assert!(matches!(after_decode(&mut ctx, Ok(()), pcm.clone(), 44100, 512), Ok(())));
    let writes = ctx.take_audio();
    assert_eq!(writes.len(), 2);
    assert_eq!(writes[0].timestamp, MediaTime::new(0, 1));
    assert_eq!(writes[0].samples, pcm);
    assert_eq!(writes[1].timestamp, MediaTime::new(256, 11025));
    assert_eq!(writes[1].samples, pcm[..512].to_vec());
    assert_eq!(ctx.audio_timestamp(), MediaTime::new(512, 11025));
    let r = after_decode(&mut ctx, Ok(()), pcm.clone(), 22050, 2048);
    assert!(matches!(r, Err(RtmpError::UnsupportedStream)));
    ctx.close_source();
    let r = after_decode(&mut ctx, Ok(()), pcm, 44100, 2048);
    assert!(matches!(r, Err(RtmpError::SourceSend)));
    assert_eq!(ctx.audio_timestamp(), MediaTime::new(512, 11025));
}

#[test]
fn a_session_opens_on_a_sending_end() {
    let mut registry = Registry::new();
    registry.listen("live").unwrap();
    let mut source = registry.connect("live").unwrap();
    source.write_audio(MediaTime::new(7, 2), vec![4, 5]).unwrap();
    let mut ctx = open_session(&mut registry, source).unwrap();
    assert_eq!(ctx.source().name(), "live");
    assert!(ctx.source().open());
    assert_eq!(ctx.audio_timestamp(), MediaTime::new(0, 1));
    assert!(ctx.meta().is_none());
    assert!(ctx.audio_asc().is_none());
    assert!(!ctx.has_video_dcr());
    assert_eq!(ctx.frames().len(), 0);
    // What was in the sending end is still there.
    let writes = ctx.take_audio();
    assert_eq!(writes.len(), 1);
    assert_eq!(writes[0].samples, vec![4, 5]);
    // The publisher keeps the mountpoint, and the decoder of the session works.
    assert_eq!(registry.connect("live").unwrap_err(), ConnectError::AlreadyConnected);
    assert!(matches!(receive_audio_packet(&mut ctx, audio_header(), at(0)), Ok(())));
    assert!(matches!(receive_audio_packet(&mut ctx, silent_frame(), at(0)), Ok(())));
    assert_eq!(ctx.take_audio().len(), 1);
}

#[test]
fn session_results_become_actions() {
    let mut ctx = with_metadata();
    let r = handle_session_result(&mut ctx, SessionResult::OutboundResponse(Bytes::from(vec![1u8, 2, 3])));
    assert!(matches!(r, Ok(Some(Action::Send(bytes))) if bytes.to_vec() == vec![1, 2, 3]));
    let r = handle_session_result(&mut ctx, SessionResult::UnhandleableMessageReceived);
    assert!(matches!(r, Ok(None)));
    let header = SessionEvent::VideoDataReceived { data: video_header(), timestamp: at(0) };
    assert!(matches!(handle_session_result(&mut ctx, SessionResult::RaisedEvent(header)), Ok(None)));
    let frame = SessionEvent::VideoDataReceived { data: video_packet(0x17, 0, &[7]), timestamp: at(9) };
    let r = handle_session_result(&mut ctx, SessionResult::RaisedEvent(frame));
    assert!(matches!(r, Ok(Some(Action::Decode(packet))) if packet.dts == 9 && packet.is_key_frame));
    let mut fresh = session();
    let frame = SessionEvent::VideoDataReceived { data: video_packet(0x17, 0, &[7]), timestamp: at(9) };
    let r = handle_session_result(&mut fresh, SessionResult::RaisedEvent(frame));
    assert!(matches!(r, Err(RtmpError::MetadataNotYetSent)));
}

#[test]
fn a_read_of_no_bytes_ends_the_session() {
    assert_eq!(read_outcome(0), ReadOutcome::Finished);
    assert_eq!(read_outcome(1), ReadOutcome::Feed(1));
    assert_eq!(read_outcome(4096), ReadOutcome::Feed(4096));
}

#[test]
fn publish_needs_a_free_mountpoint() {
    let mut registry = Registry::new();
    let r = accept_publish(&mut registry, "my_stream_endpoint");
    assert!(matches!(r, Err(RtmpError::SourceConnect(ConnectError::NoMountpoint))));
    registry.listen("my_stream_endpoint").unwrap();
    let ctx = accept_publish(&mut registry, "my_stream_endpoint").unwrap();
    assert!(ctx.source().open());
    assert_eq!(ctx.source().name(), "my_stream_endpoint");
    assert_eq!(ctx.audio_timestamp(), MediaTime::new(0, 1));
    let r = accept_publish(&mut registry, "my_stream_endpoint");
    assert!(matches!(r, Err(RtmpError::SourceConnect(ConnectError::AlreadyConnected))));
}

#[test]
fn a_finished_session_frees_its_mountpoint() {
    let mut registry = Registry::new();
    registry.listen("live").unwrap();
    let mut ctx = accept_publish(&mut registry, "live").unwrap();
    finish_audio_frame(&mut ctx, vec![1; 2048], 44100, 2048).unwrap();
    let (audio, video) = finish_publish(&mut registry, ctx);
    assert_eq!(audio.len(), 1);
    assert!(video.is_empty());
    assert!(accept_publish(&mut registry, "live").is_ok());
}

#[test]
fn a_session_gives_its_sending_end_back() {
    let mut ctx = session();
    finish_audio_frame(&mut ctx, vec![1; 2048], 44100, 2048).unwrap();
    let mut source = ctx.finish();
    assert_eq!(source.name(), "test");
    assert_eq!(source.take_audio().len(), 1);
}

#[test]
fn a_decoder_that_cannot_be_set_up_ends_the_session() {
    let r = ReceiveContext::from_decoder(
        SourceSend::detached("test"),
        Err(DecoderError::OUT_OF_MEMORY),
    );
    assert!(matches!(r, Err(RtmpError::AacCodec(e)) if e == DecoderError::OUT_OF_MEMORY));
    let r = ReceiveContext::from_decoder(SourceSend::detached("test"), Err(DecoderError::UNKNOWN));
    assert!(matches!(r, Err(RtmpError::AacCodec(e)) if e == DecoderError::UNKNOWN));
}

#[test]
fn a_session_decodes_with_the_decoder_it_was_given() {
    let mut source = SourceSend::detached("test");
    source.write_audio(MediaTime::new(5, 1), vec![9]).unwrap();
    let decoder = Decoder::new(Transport::Adts);
    let mut ctx = ReceiveContext::from_decoder(source, Ok(decoder)).unwrap();
    assert_eq!(ctx.audio_timestamp(), MediaTime::new(0, 1));
    assert!(ctx.meta().is_none());
    assert_eq!(ctx.frames().len(), 0);
    assert_eq!(ctx.source().name(), "test");
    // What was in the sending end is still there.
    assert_eq!(ctx.take_audio().len(), 1);
    assert!(matches!(receive_audio_packet(&mut ctx, audio_header(), at(0)), Ok(())));
    assert!(matches!(receive_audio_packet(&mut ctx, silent_frame(), at(0)), Ok(())));
    assert_eq!(ctx.take_audio().len(), 1);
}

#[test]
fn a_failed_set_up_frees_the_mountpoint() {
    let mut registry = Registry::new();
    registry.listen("live").unwrap();
    registry.listen("other").unwrap();
    registry.connect("other").unwrap();
    let source = registry.connect("live").unwrap();
    let r = publish_on(&mut registry, source, Err(DecoderError::UNSUPPORTED_FORMAT));
    assert!(matches!(r, Err(RtmpError::AacCodec(e)) if e == DecoderError::UNSUPPORTED_FORMAT));
    assert!(registry.connect("live").is_ok());
    assert_eq!(registry.connect("other").unwrap_err(), ConnectError::AlreadyConnected);
}

#[test]
fn a_set_up_decoder_opens_the_session() {
    let mut registry = Registry::new();
    registry.listen("live").unwrap();
    let source = registry.connect("live").unwrap();
    let ctx = publish_on(&mut registry, source, Ok(Decoder::new(Transport::Adts))).unwrap();
    assert!(ctx.source().open());
    assert_eq!(ctx.source().name(), "live");
    assert!(ctx.video_key_frame().is_none());
    // The publisher keeps the mountpoint.
    assert_eq!(registry.connect("live").unwrap_err(), ConnectError::AlreadyConnected);
}
