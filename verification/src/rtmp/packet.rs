//! The audio packets of an RTMP stream.
use crate::buf::{bytes_from_vec, bytes_to_vec, bytes_view, tail_from};
use bytes::Bytes;
use vstd::prelude::*;

verus! {

/// The sound format of AAC in the first four bits of an audio packet.
pub const AAC_SOUND_FORMAT: u8 = 10;

/// The length of an AAC audio packet's header: the sound format byte and
/// the packet type.
pub const AUDIO_HEADER_LEN: usize = 2;

/// One audio packet, by what it holds.
#[derive(Clone, Debug)]
pub enum AudioPacket {
    /// An audio specific configuration.
    AacSequenceHeader(Bytes),
    /// One raw AAC frame.
    AacRawData(Bytes),
    /// Anything else, as it came.
    Unknown(Bytes),
}

/// What an audio packet holds.
#[derive(Clone, Copy, Debug, PartialEq, Eq, Structural)]
pub enum AudioPacketKind {
    AacSequenceHeader,
    AacRawData,
    Unknown,
}

/// What the first two bytes of an audio packet say that it holds: AAC in
/// the first four bits, then 0 for a sequence header or 1 for raw data.
pub open spec fn audio_packet_kind(bytes: Seq<u8>) -> AudioPacketKind {
    if bytes.len() >= AUDIO_HEADER_LEN && bytes[0] / 16 == AAC_SOUND_FORMAT && bytes[1] == 0 {
        AudioPacketKind::AacSequenceHeader
    } else if bytes.len() >= AUDIO_HEADER_LEN && bytes[0] / 16 == AAC_SOUND_FORMAT && bytes[1]
        == 1 {
        AudioPacketKind::AacRawData
    } else {
        AudioPacketKind::Unknown
    }
}

/// What an audio packet carries: all of an unknown packet, and what follows
/// the header of any other.
pub open spec fn audio_packet_payload(bytes: Seq<u8>) -> Seq<u8> {
    if audio_packet_kind(bytes) == AudioPacketKind::Unknown {
        bytes
    } else {
        bytes.skip(AUDIO_HEADER_LEN as int)
    }
}

impl AudioPacket {
    pub open spec fn kind(&self) -> AudioPacketKind {
        match self {
            AudioPacket::AacSequenceHeader(_) => AudioPacketKind::AacSequenceHeader,
            AudioPacket::AacRawData(_) => AudioPacketKind::AacRawData,
            AudioPacket::Unknown(_) => AudioPacketKind::Unknown,
        }
    }

    pub open spec fn payload(&self) -> Seq<u8> {
        match self {
            AudioPacket::AacSequenceHeader(b) => bytes_view(b),
            AudioPacket::AacRawData(b) => bytes_view(b),
            AudioPacket::Unknown(b) => bytes_view(b),
        }
    }

    /// Reads an audio packet.
    pub fn parse(data: Bytes) -> (r: AudioPacket)
        ensures
            r.kind() == audio_packet_kind(bytes_view(&data)),
            r.payload() == audio_packet_payload(bytes_view(&data)),
    {
        let bytes = bytes_to_vec(&data);
        if bytes.len() >= AUDIO_HEADER_LEN && bytes[0] / 16 == AAC_SOUND_FORMAT {
            if bytes[1] == 0 {
                return AudioPacket::AacSequenceHeader(
                    bytes_from_vec(tail_from(&bytes, AUDIO_HEADER_LEN)),
                );
            } else if bytes[1] == 1 {
                return AudioPacket::AacRawData(bytes_from_vec(tail_from(&bytes, AUDIO_HEADER_LEN)));
            }
        }
        AudioPacket::Unknown(data)
    }
}

} // verus!
