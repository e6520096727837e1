//! AAC stream parameters, the audio specific configuration that announces
//! them, and ADTS framing of raw AAC payloads.
use crate::buf::{bytes_from_vec, bytes_to_vec, bytes_view};
use crate::fmp4::wire::put_bytes;
use bytes::Bytes;
use vstd::prelude::*;

verus! {

/// AAC profile, as ADTS and the MPEG-4 descriptors number it.
#[derive(Clone, Copy, Debug, PartialEq, Eq, Structural)]
pub enum AacProfile {
    Main,
    Lc,
    Ssr,
    Ltp,
}

impl AacProfile {
    /// The two bit code of the profile: the audio object type minus one.
    pub open spec fn code(&self) -> int {
        match self {
            AacProfile::Main => 0,
            AacProfile::Lc => 1,
            AacProfile::Ssr => 2,
            AacProfile::Ltp => 3,
        }
    }

    pub fn to_code(&self) -> (r: u8)
        ensures
            r == self.code(),
    {
        match self {
            AacProfile::Main => 0,
            AacProfile::Lc => 1,
            AacProfile::Ssr => 2,
            AacProfile::Ltp => 3,
        }
    }

    /// The profile with the given code, if the code is below four.
    pub fn from_code(code: u8) -> (r: Option<AacProfile>)
        ensures
            code < 4 <==> r is Some,
            r matches Some(p) ==> p.code() == code,
    {
        match code {
            0 => Some(AacProfile::Main),
            1 => Some(AacProfile::Lc),
            2 => Some(AacProfile::Ssr),
            3 => Some(AacProfile::Ltp),
            _ => None,
        }
    }
}

/// Sampling frequency, one of the thirteen that the format can index.
#[derive(Clone, Copy, Debug, PartialEq, Eq, Structural)]
pub enum SamplingFrequency {
    Hz96000,
    Hz88200,
    Hz64000,
    Hz48000,
    Hz44100,
    Hz32000,
    Hz24000,
    Hz22050,
    Hz16000,
    Hz12000,
    Hz11025,
    Hz8000,
    Hz7350,
}

impl SamplingFrequency {
    /// The four bit sampling frequency index.
    pub open spec fn index(&self) -> int {
        match self {
            SamplingFrequency::Hz96000 => 0,
            SamplingFrequency::Hz88200 => 1,
            SamplingFrequency::Hz64000 => 2,
            SamplingFrequency::Hz48000 => 3,
            SamplingFrequency::Hz44100 => 4,
            SamplingFrequency::Hz32000 => 5,
            SamplingFrequency::Hz24000 => 6,
            SamplingFrequency::Hz22050 => 7,
            SamplingFrequency::Hz16000 => 8,
            SamplingFrequency::Hz12000 => 9,
            SamplingFrequency::Hz11025 => 10,
            SamplingFrequency::Hz8000 => 11,
            SamplingFrequency::Hz7350 => 12,
        }
    }

    /// Samples per second.
    pub open spec fn hz(&self) -> int {
        match self {
            SamplingFrequency::Hz96000 => 96_000,
            SamplingFrequency::Hz88200 => 88_200,
            SamplingFrequency::Hz64000 => 64_000,
            SamplingFrequency::Hz48000 => 48_000,
            SamplingFrequency::Hz44100 => 44_100,
            SamplingFrequency::Hz32000 => 32_000,
            SamplingFrequency::Hz24000 => 24_000,
            SamplingFrequency::Hz22050 => 22_050,
            SamplingFrequency::Hz16000 => 16_000,
            SamplingFrequency::Hz12000 => 12_000,
            SamplingFrequency::Hz11025 => 11_025,
            SamplingFrequency::Hz8000 => 8_000,
            SamplingFrequency::Hz7350 => 7_350,
        }
    }

    pub fn to_index(&self) -> (r: u8)
        ensures
            r == self.index(),
    {
        match self {
            SamplingFrequency::Hz96000 => 0,
            SamplingFrequency::Hz88200 => 1,
            SamplingFrequency::Hz64000 => 2,
            SamplingFrequency::Hz48000 => 3,
            SamplingFrequency::Hz44100 => 4,
            SamplingFrequency::Hz32000 => 5,
            SamplingFrequency::Hz24000 => 6,
            SamplingFrequency::Hz22050 => 7,
            SamplingFrequency::Hz16000 => 8,
            SamplingFrequency::Hz12000 => 9,
            SamplingFrequency::Hz11025 => 10,
            SamplingFrequency::Hz8000 => 11,
            SamplingFrequency::Hz7350 => 12,
        }
    }

    pub fn as_u32(&self) -> (r: u32)
        ensures
            r == self.hz(),
    {
        match self {
            SamplingFrequency::Hz96000 => 96_000,
            SamplingFrequency::Hz88200 => 88_200,
            SamplingFrequency::Hz64000 => 64_000,
            SamplingFrequency::Hz48000 => 48_000,
            SamplingFrequency::Hz44100 => 44_100,
            SamplingFrequency::Hz32000 => 32_000,
            SamplingFrequency::Hz24000 => 24_000,
            SamplingFrequency::Hz22050 => 22_050,
            SamplingFrequency::Hz16000 => 16_000,
            SamplingFrequency::Hz12000 => 12_000,
            SamplingFrequency::Hz11025 => 11_025,
            SamplingFrequency::Hz8000 => 8_000,
            SamplingFrequency::Hz7350 => 7_350,
        }
    }

    /// The frequency with the given index, if the index is below thirteen.
    pub fn from_index(index: u8) -> (r: Option<SamplingFrequency>)
        ensures
            index < 13 <==> r is Some,
            r matches Some(f) ==> f.index() == index,
    {
        match index {
            0 => Some(SamplingFrequency::Hz96000),
            1 => Some(SamplingFrequency::Hz88200),
            2 => Some(SamplingFrequency::Hz64000),
            3 => Some(SamplingFrequency::Hz48000),
            4 => Some(SamplingFrequency::Hz44100),
            5 => Some(SamplingFrequency::Hz32000),
            6 => Some(SamplingFrequency::Hz24000),
            7 => Some(SamplingFrequency::Hz22050),
            8 => Some(SamplingFrequency::Hz16000),
            9 => Some(SamplingFrequency::Hz12000),
            10 => Some(SamplingFrequency::Hz11025),
            11 => Some(SamplingFrequency::Hz8000),
            12 => Some(SamplingFrequency::Hz7350),
            _ => None,
        }
    }
}

/// Channel configuration, as the format numbers it.
#[derive(Clone, Copy, Debug, PartialEq, Eq, Structural)]
pub enum ChannelConfiguration {
    SentViaInbandPce,
    OneChannel,
    TwoChannels,
    ThreeChannels,
    FourChannels,
    FiveChannels,
    SixChannels,
    EightChannels,
}

impl ChannelConfiguration {
    /// The three bit channel configuration.
    pub open spec fn code(&self) -> int {
        match self {
            ChannelConfiguration::SentViaInbandPce => 0,
            ChannelConfiguration::OneChannel => 1,
            ChannelConfiguration::TwoChannels => 2,
            ChannelConfiguration::ThreeChannels => 3,
            ChannelConfiguration::FourChannels => 4,
            ChannelConfiguration::FiveChannels => 5,
            ChannelConfiguration::SixChannels => 6,
            ChannelConfiguration::EightChannels => 7,
        }
    }

    pub fn to_code(&self) -> (r: u8)
        ensures
            r == self.code(),
    {
        match self {
            ChannelConfiguration::SentViaInbandPce => 0,
            ChannelConfiguration::OneChannel => 1,
            ChannelConfiguration::TwoChannels => 2,
            ChannelConfiguration::ThreeChannels => 3,
            ChannelConfiguration::FourChannels => 4,
            ChannelConfiguration::FiveChannels => 5,
            ChannelConfiguration::SixChannels => 6,
            ChannelConfiguration::EightChannels => 7,
        }
    }

    /// The configuration with the given code, if the code is below eight.
    pub fn from_code(code: u8) -> (r: Option<ChannelConfiguration>)
        ensures
            code < 8 <==> r is Some,
            r matches Some(c) ==> c.code() == code,
    {
        match code {
            0 => Some(ChannelConfiguration::SentViaInbandPce),
            1 => Some(ChannelConfiguration::OneChannel),
            2 => Some(ChannelConfiguration::TwoChannels),
            3 => Some(ChannelConfiguration::ThreeChannels),
            4 => Some(ChannelConfiguration::FourChannels),
            5 => Some(ChannelConfiguration::FiveChannels),
            6 => Some(ChannelConfiguration::SixChannels),
            7 => Some(ChannelConfiguration::EightChannels),
            _ => None,
        }
    }
}

/// Why an audio specific configuration was refused.
#[derive(Clone, Copy, Debug, PartialEq, Eq, Structural)]
pub enum AacError {
    /// Fewer than two bytes.
    NotEnoughData,
    /// The audio object type is none of Main, LC, SSR and LTP.
    UnsupportedObjectType,
    /// The sampling frequency index is reserved, or announces a frequency
    /// written out in full.
    UnsupportedFrequency,
    /// The channel configuration is reserved.
    UnsupportedChannelConfiguration,
}

/// The parameters of an AAC stream, as its sequence header announces them.
#[derive(Clone, Copy, Debug, PartialEq, Eq, Structural)]
pub struct AudioSpecificConfiguration {
    pub profile: AacProfile,
    pub frequency: SamplingFrequency,
    pub channel_configuration: ChannelConfiguration,
}

/// The audio object type of a configuration: its first five bits.
pub open spec fn config_object_type(bytes: Seq<u8>) -> int {
    bytes[0] as int / 8
}

/// The sampling frequency index of a configuration: the next four bits.
pub open spec fn config_frequency_index(bytes: Seq<u8>) -> int {
    (bytes[0] as int % 8) * 2 + bytes[1] as int / 128
}

/// The channel configuration of a configuration: the next four bits.
pub open spec fn config_channels(bytes: Seq<u8>) -> int {
    (bytes[1] as int / 8) % 16
}

/// What the bytes of an audio specific configuration say, or why they are
/// refused. The first reason that applies is given: too short, object type,
/// frequency, channels.
pub open spec fn parse_config(bytes: Seq<u8>) -> Result<AudioSpecificConfiguration, AacError> {
    if bytes.len() < 2 {
        Err(AacError::NotEnoughData)
    } else if !(1 <= config_object_type(bytes) <= 4) {
        Err(AacError::UnsupportedObjectType)
    } else if config_frequency_index(bytes) >= 13 {
        Err(AacError::UnsupportedFrequency)
    } else if config_channels(bytes) >= 8 {
        Err(AacError::UnsupportedChannelConfiguration)
    } else {
        Ok(
            AudioSpecificConfiguration {
                profile: profile_of(config_object_type(bytes) - 1),
                frequency: frequency_of(config_frequency_index(bytes)),
                channel_configuration: channels_of(config_channels(bytes)),
            },
        )
    }
}

/// The profile with the given code.
pub open spec fn profile_of(code: int) -> AacProfile {
    if code == 0 {
        AacProfile::Main
    } else if code == 1 {
        AacProfile::Lc
    } else if code == 2 {
        AacProfile::Ssr
    } else {
        AacProfile::Ltp
    }
}

/// The sampling frequency with the given index.
pub open spec fn frequency_of(index: int) -> SamplingFrequency {
    if index == 0 {
        SamplingFrequency::Hz96000
    } else if index == 1 {
        SamplingFrequency::Hz88200
    } else if index == 2 {
        SamplingFrequency::Hz64000
    } else if index == 3 {
        SamplingFrequency::Hz48000
    } else if index == 4 {
        SamplingFrequency::Hz44100
    } else if index == 5 {
        SamplingFrequency::Hz32000
    } else if index == 6 {
        SamplingFrequency::Hz24000
    } else if index == 7 {
        SamplingFrequency::Hz22050
    } else if index == 8 {
        SamplingFrequency::Hz16000
    } else if index == 9 {
        SamplingFrequency::Hz12000
    } else if index == 10 {
        SamplingFrequency::Hz11025
    } else if index == 11 {
        SamplingFrequency::Hz8000
    } else {
        SamplingFrequency::Hz7350
    }
}

/// The channel configuration with the given code.
pub open spec fn channels_of(code: int) -> ChannelConfiguration {
    if code == 0 {
        ChannelConfiguration::SentViaInbandPce
    } else if code == 1 {
        ChannelConfiguration::OneChannel
    } else if code == 2 {
        ChannelConfiguration::TwoChannels
    } else if code == 3 {
        ChannelConfiguration::ThreeChannels
    } else if code == 4 {
        ChannelConfiguration::FourChannels
    } else if code == 5 {
        ChannelConfiguration::FiveChannels
    } else if code == 6 {
        ChannelConfiguration::SixChannels
    } else {
        ChannelConfiguration::EightChannels
    }
}

impl AudioSpecificConfiguration {
    /// Reads an audio specific configuration.
    pub fn parse(bytes: Bytes) -> (r: Result<AudioSpecificConfiguration, AacError>)
        ensures
            r == parse_config(bytes_view(&bytes)),
    {
        let bytes = bytes_to_vec(&bytes);
        if bytes.len() < 2 {
            return Err(AacError::NotEnoughData);
        }
        let object_type = bytes[0] / 8;
        let profile = if object_type == 0 {
            None
        } else {
            AacProfile::from_code(object_type - 1)
        };
        let profile = match profile {
            Some(p) => p,
            None => {
                return Err(AacError::UnsupportedObjectType);
            },
        };
        let frequency = match SamplingFrequency::from_index((bytes[0] % 8) * 2 + bytes[1] / 128) {
            Some(f) => f,
            None => {
                return Err(AacError::UnsupportedFrequency);
            },
        };
        let channel_configuration = match ChannelConfiguration::from_code((bytes[1] / 8) % 16) {
            Some(c) => c,
            None => {
                return Err(AacError::UnsupportedChannelConfiguration);
            },
        };
        Ok(AudioSpecificConfiguration { profile, frequency, channel_configuration })
    }
}

/// The length of an ADTS header without checksum.
pub const ADTS_HEADER_LEN: usize = 7;

/// The longest payload that an ADTS frame holds: the frame's length has 13
/// bits and counts the header.
pub const MAX_ADTS_PAYLOAD: usize = 8184;

/// The ADTS header of a frame: the sync word, MPEG-4, no checksum; profile,
/// frequency index and channel configuration; the length of the whole frame;
/// a buffer fullness of all ones, which says variable bit rate; one raw data
/// block.
pub open spec fn adts_header(config: AudioSpecificConfiguration, payload_len: int) -> Seq<u8> {
    let len = ADTS_HEADER_LEN + payload_len;
    seq![
        0xffu8,
        0xf1u8,
        (config.profile.code() * 64 + config.frequency.index() * 4
            + config.channel_configuration.code() / 4) as u8,
        ((config.channel_configuration.code() % 4) * 64 + len / 2048) as u8,
        ((len / 8) % 256) as u8,
        ((len % 8) * 32 + 0x1f) as u8,
        0xfcu8,
    ]
}

/// A raw AAC payload behind its ADTS header.
#[derive(Clone, Debug)]
pub struct AudioDataTransportStream {
    payload: Bytes,
    config: AudioSpecificConfiguration,
}

impl AudioDataTransportStream {
    pub closed spec fn spec_payload(&self) -> Seq<u8> {
        bytes_view(&self.payload)
    }

    pub closed spec fn spec_config(&self) -> AudioSpecificConfiguration {
        self.config
    }

    /// The frame's bytes: the header, then the payload.
    pub open spec fn frame(&self) -> Seq<u8> {
        adts_header(self.spec_config(), self.spec_payload().len() as int) + self.spec_payload()
    }

    pub fn new(payload: Bytes, config: &AudioSpecificConfiguration) -> (r: AudioDataTransportStream)
        requires
            bytes_view(&payload).len() <= MAX_ADTS_PAYLOAD,
        ensures
            r.spec_payload() == bytes_view(&payload),
            r.spec_config() == *config,
            r.spec_payload().len() <= MAX_ADTS_PAYLOAD,
    {
        AudioDataTransportStream { payload, config: *config }
    }

    /// The frame's bytes.
    pub fn into_vec(self) -> (r: Vec<u8>)
        requires
            self.spec_payload().len() <= MAX_ADTS_PAYLOAD,
        ensures
            r@ == self.frame(),
    {
        let payload = bytes_to_vec(&self.payload);
        let len: usize = ADTS_HEADER_LEN + payload.len();
        let profile = self.config.profile.to_code();
        let frequency = self.config.frequency.to_index();
        let channels = self.config.channel_configuration.to_code();
        let mut r: Vec<u8> = Vec::new();
        r.push(0xff);
        r.push(0xf1);
        r.push(profile * 64 + frequency * 4 + channels / 4);
        r.push((channels % 4) * 64 + (len / 2048) as u8);
        r.push(((len / 8) % 256) as u8);
        r.push(((len % 8) * 32 + 0x1f) as u8);
        r.push(0xfc);
        assert(r@ =~= adts_header(self.spec_config(), self.spec_payload().len() as int));
        put_bytes(&mut r, &payload);
        r
    }

    /// The frame's bytes as a shared buffer.
    pub fn into_bytes(self) -> (r: Bytes)
        requires
            self.spec_payload().len() <= MAX_ADTS_PAYLOAD,
        ensures
            bytes_view(&r) == self.frame(),
    {
        bytes_from_vec(self.into_vec())
    }
}

} // verus!
