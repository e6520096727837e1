//! AVC video as RTMP carries it: the packet header, the decoder
//! configuration record of a sequence header, and the conversion of length
//! prefixed NAL units into a byte stream with start codes.
use crate::buf::{bytes_from_vec, bytes_to_vec, bytes_view, tail_from};
use crate::fmp4::wire::put_bytes;
use bytes::Bytes;
use vstd::prelude::*;

verus! {

/// The codec id of AVC in a video packet header.
pub const AVC_CODEC_ID: u8 = 7;

/// The length of a video packet header: frame type and codec, packet type,
/// and 24 bits of composition time.
pub const PACKET_HEADER_LEN: usize = 5;

/// Why a video packet or a decoder configuration record was refused.
#[derive(Clone, Copy, Debug, PartialEq, Eq, Structural)]
pub enum AvcError {
    /// The bytes end before what they announce.
    NotEnoughData,
    /// The packet's codec is not AVC.
    UnsupportedCodec,
    /// The frame type is none of the five that exist.
    UnknownFrameType,
    /// The packet type is none of the three that exist.
    UnknownPacketType,
    /// The configuration record is not of version 1.
    UnsupportedConfigurationRecordVersion,
}

/// The kind of frame that a video packet holds.
#[derive(Clone, Copy, Debug, PartialEq, Eq, Structural)]
pub enum FrameType {
    KeyFrame,
    InterFrame,
    DisposableInterFrame,
    GeneratedKeyFrame,
    VideoInfoCommandFrame,
}

impl FrameType {
    /// The frame type with the given code: 1 to 5.
    pub open spec fn of_code(code: int) -> Option<FrameType> {
        if code == 1 {
            Some(FrameType::KeyFrame)
        } else if code == 2 {
            Some(FrameType::InterFrame)
        } else if code == 3 {
            Some(FrameType::DisposableInterFrame)
        } else if code == 4 {
            Some(FrameType::GeneratedKeyFrame)
        } else if code == 5 {
            Some(FrameType::VideoInfoCommandFrame)
        } else {
            None
        }
    }

    pub fn from_code(code: u8) -> (r: Option<FrameType>)
        ensures
            r == FrameType::of_code(code as int),
    {
        match code {
            1 => Some(FrameType::KeyFrame),
            2 => Some(FrameType::InterFrame),
            3 => Some(FrameType::DisposableInterFrame),
            4 => Some(FrameType::GeneratedKeyFrame),
            5 => Some(FrameType::VideoInfoCommandFrame),
            _ => None,
        }
    }

    /// A frame that can be decoded without another: a key frame, sent or
    /// generated.
    pub open spec fn key(&self) -> bool {
        *self == FrameType::KeyFrame || *self == FrameType::GeneratedKeyFrame
    }

    pub fn is_key_frame(&self) -> (r: bool)
        ensures
            r == self.key(),
    {
        match self {
            FrameType::KeyFrame => true,
            FrameType::GeneratedKeyFrame => true,
            _ => false,
        }
    }
}

/// What the payload of a video packet is.
#[derive(Clone, Copy, Debug, PartialEq, Eq, Structural)]
pub enum AvcPacketType {
    SequenceHeader,
    Nalu,
    EndOfSequence,
}

impl AvcPacketType {
    /// The packet type with the given code: 0 to 2.
    pub open spec fn of_code(code: int) -> Option<AvcPacketType> {
        if code == 0 {
            Some(AvcPacketType::SequenceHeader)
        } else if code == 1 {
            Some(AvcPacketType::Nalu)
        } else if code == 2 {
            Some(AvcPacketType::EndOfSequence)
        } else {
            None
        }
    }

    pub fn from_code(code: u8) -> (r: Option<AvcPacketType>)
        ensures
            r == AvcPacketType::of_code(code as int),
    {
        match code {
            0 => Some(AvcPacketType::SequenceHeader),
            1 => Some(AvcPacketType::Nalu),
            2 => Some(AvcPacketType::EndOfSequence),
            _ => None,
        }
    }
}

/// A length of time in milliseconds.
#[derive(Clone, Copy, Debug, PartialEq, Eq, Structural)]
pub struct Millis(pub u64);

/// One video packet.
#[derive(Clone, Debug)]
pub struct AvcPacket {
    pub frame_type: FrameType,
    pub packet_type: AvcPacketType,
    /// Presentation time less decode time, in milliseconds.
    pub composition_time: u32,
    pub data: Bytes,
}

/// What the first five bytes of a video packet say, or why they are
/// refused. The first reason that applies is given: too short, not AVC,
/// unknown frame type, unknown packet type.
pub open spec fn packet_header(bytes: Seq<u8>) -> Result<(FrameType, AvcPacketType, u32), AvcError> {
    if bytes.len() < PACKET_HEADER_LEN {
        Err(AvcError::NotEnoughData)
    } else if bytes[0] % 16 != AVC_CODEC_ID {
        Err(AvcError::UnsupportedCodec)
    } else if FrameType::of_code(bytes[0] as int / 16) is None {
        Err(AvcError::UnknownFrameType)
    } else if AvcPacketType::of_code(bytes[1] as int) is None {
        Err(AvcError::UnknownPacketType)
    } else {
        Ok(
            (
                FrameType::of_code(bytes[0] as int / 16)->0,
                AvcPacketType::of_code(bytes[1] as int)->0,
                (bytes[2] * 0x1_0000 + bytes[3] * 0x100 + bytes[4]) as u32,
            ),
        )
    }
}

impl AvcPacket {
    /// Reads a video packet: the header, then the payload.
    pub fn parse(data: Bytes) -> (r: Result<AvcPacket, AvcError>)
        ensures
            match r {
                Ok(packet) => packet_header(bytes_view(&data)) == Ok::<_, AvcError>(
                    (packet.frame_type, packet.packet_type, packet.composition_time),
                ) && bytes_view(&packet.data) == bytes_view(&data).skip(PACKET_HEADER_LEN as int),
                Err(e) => packet_header(bytes_view(&data)) == Err::<
                    (FrameType, AvcPacketType, u32),
                    _,
                >(e),
            },
    {
        let bytes = bytes_to_vec(&data);
        if bytes.len() < PACKET_HEADER_LEN {
            return Err(AvcError::NotEnoughData);
        }
        if bytes[0] % 16 != AVC_CODEC_ID {
            return Err(AvcError::UnsupportedCodec);
        }
        let frame_type = match FrameType::from_code(bytes[0] / 16) {
            Some(t) => t,
            None => {
                return Err(AvcError::UnknownFrameType);
            },
        };
        let packet_type = match AvcPacketType::from_code(bytes[1]) {
            Some(t) => t,
            None => {
                return Err(AvcError::UnknownPacketType);
            },
        };
        let composition_time: u32 = bytes[2] as u32 * 0x1_0000 + bytes[3] as u32 * 0x100
            + bytes[4] as u32;
        Ok(
            AvcPacket {
                frame_type,
                packet_type,
                composition_time,
                data: bytes_from_vec(tail_from(&bytes, PACKET_HEADER_LEN)),
            },
        )
    }
}

/// The parameters that a decoder needs before the first frame: profile and
/// level, the size of the length field in front of each NAL unit, and the
/// sequence and picture parameter sets.
#[derive(Clone, Debug)]
pub struct DecoderConfigurationRecord {
    pub version: u8,
    pub profile_indication: u8,
    pub profile_compatibility: u8,
    pub level_indication: u8,
    /// Bytes of the length field in front of each NAL unit: 1 to 4.
    pub nalu_size: u8,
    pub sps: Vec<Vec<u8>>,
    pub pps: Vec<Vec<u8>>,
}

/// `count` units, each behind a 16 bit length, from the front of `bytes`,
/// and what follows them; or `None` if the bytes end too early.
pub open spec fn read_units(bytes: Seq<u8>, count: nat) -> Option<(Seq<Seq<u8>>, Seq<u8>)>
    decreases count,
{
    if count == 0 {
        Some((Seq::empty(), bytes))
    } else if bytes.len() < 2 {
        None
    } else {
        let len = bytes[0] * 0x100 + bytes[1];
        if bytes.len() < 2 + len {
            None
        } else {
            match read_units(bytes.skip(2 + len), (count - 1) as nat) {
                Some((units, rest)) => Some((seq![bytes.subrange(2, 2 + len)] + units, rest)),
                None => None,
            }
        }
    }
}

/// What `read_units` gives when the units read so far are put in front.
pub open spec fn units_after(
    done: Seq<Seq<u8>>,
    more: Option<(Seq<Seq<u8>>, Seq<u8>)>,
) -> Option<(Seq<Seq<u8>>, Seq<u8>)> {
    match more {
        Some((units, rest)) => Some((done + units, rest)),
        None => None,
    }
}

/// The views of the vectors of `v`.
pub open spec fn views(v: Seq<Vec<u8>>) -> Seq<Seq<u8>> {
    v.map_values(|u: Vec<u8>| u@)
}

/// The fields of a decoder configuration record as a plain value.
pub struct RecordView {
    pub version: u8,
    pub profile_indication: u8,
    pub profile_compatibility: u8,
    pub level_indication: u8,
    pub nalu_size: u8,
    pub sps: Seq<Seq<u8>>,
    pub pps: Seq<Seq<u8>>,
}

/// What the bytes of a decoder configuration record say, or why they are
/// refused. Five bytes of version, profile, compatibility, level and length
/// size; the number of sequence parameter sets in the low five bits of the
/// next byte, and the sets; the number of picture parameter sets in a byte,
/// and the sets. What follows is given back unread.
pub open spec fn parse_record(bytes: Seq<u8>) -> Result<(RecordView, Seq<u8>), AvcError> {
    if bytes.len() < 6 {
        Err(AvcError::NotEnoughData)
    } else if bytes[0] != 1 {
        Err(AvcError::UnsupportedConfigurationRecordVersion)
    } else {
        match read_units(bytes.skip(6), (bytes[5] % 32) as nat) {
            None => Err(AvcError::NotEnoughData),
            Some((sps, rest)) => {
                if rest.len() < 1 {
                    Err(AvcError::NotEnoughData)
                } else {
                    match read_units(rest.skip(1), rest[0] as nat) {
                        None => Err(AvcError::NotEnoughData),
                        Some((pps, after)) => Ok(
                            (
                                RecordView {
                                    version: bytes[0],
                                    profile_indication: bytes[1],
                                    profile_compatibility: bytes[2],
                                    level_indication: bytes[3],
                                    nalu_size: (bytes[4] % 4 + 1) as u8,
                                    sps,
                                    pps,
                                },
                                after,
                            ),
                        ),
                    }
                }
            },
        }
    }
}

/// Reads `count` units from position `start` of `bytes`. Gives the units and
/// the position behind them.
fn take_units(bytes: &Vec<u8>, start: usize, count: u8) -> (r: Option<(Vec<Vec<u8>>, usize)>)
    requires
        start <= bytes@.len(),
    ensures
        match r {
            Some((units, end)) => start <= end <= bytes@.len() && read_units(
                bytes@.skip(start as int),
                count as nat,
            ) == Some((views(units@), bytes@.skip(end as int))),
            None => read_units(bytes@.skip(start as int), count as nat) is None,
        },
{
    let mut units: Vec<Vec<u8>> = Vec::new();
    let mut pos: usize = start;
    let mut i: u8 = 0;
    assert(views(units@) =~= Seq::<Seq<u8>>::empty());
    assert(units_after(views(units@), read_units(bytes@.skip(pos as int), count as nat))
        =~= read_units(bytes@.skip(start as int), count as nat)) by {
        let more = read_units(bytes@.skip(pos as int), count as nat);
        if more is Some {
            let found = more->0;
            assert(Seq::<Seq<u8>>::empty() + found.0 =~= found.0);
        }
    }
    while i < count
        invariant
            i <= count,
            start <= pos <= bytes.len(),
            read_units(bytes@.skip(start as int), count as nat) == units_after(
                views(units@),
                read_units(bytes@.skip(pos as int), (count - i) as nat),
            ),
        decreases count - i,
    {
        let ghost here = bytes@.skip(pos as int);
        if bytes.len() - pos < 2 {
            return None;
        }
        let len: usize = bytes[pos] as usize * 0x100 + bytes[pos + 1] as usize;
        assert(here[0] == bytes@[pos as int] && here[1] == bytes@[pos + 1]);
        if bytes.len() - pos - 2 < len {
            return None;
        }
        let mut unit: Vec<u8> = Vec::new();
        let mut k: usize = 0;
        while k < len
            invariant
                k <= len,
                pos + 2 + len <= bytes.len(),
                unit@ == bytes@.subrange(pos + 2, pos + 2 + k),
            decreases len - k,
        {
            unit.push(bytes[pos + 2 + k]);
            k = k + 1;
            assert(unit@ =~= bytes@.subrange(pos + 2, pos + 2 + k));
        }
        let ghost before = views(units@);
        units.push(unit);
        proof {
            assert(unit@ =~= here.subrange(2, 2 + len));
            assert(here.skip(2 + len) =~= bytes@.skip(pos + 2 + len));
            assert(views(units@) =~= before + seq![here.subrange(2, 2 + len)]);
            let more = read_units(here.skip(2 + len), (count - i - 1) as nat);
            if more is Some {
                let found = more->0;
                assert(before + (seq![here.subrange(2, 2 + len)] + found.0) =~= views(units@)
                    + found.0);
            }
        }
        pos = pos + 2 + len;
        i = i + 1;
    }
    proof {
        let found = read_units(bytes@.skip(pos as int), 0)->0;
        assert(views(units@) + found.0 =~= views(units@));
    }
    Some((units, pos))
}

/// A copy of parameter sets.
fn copy_sets(sets: &Vec<Vec<u8>>) -> (r: Vec<Vec<u8>>)
    ensures
        views(r@) == views(sets@),
{
    let mut r: Vec<Vec<u8>> = Vec::new();
    let mut i: usize = 0;
    while i < sets.len()
        invariant
            i <= sets.len(),
            r@.len() == i,
            forall|k: int| 0 <= k < i ==> r@[k]@ == sets@[k]@,
        decreases sets.len() - i,
    {
        let mut set: Vec<u8> = Vec::new();
        put_bytes(&mut set, &sets[i]);
        assert(set@ =~= sets@[i as int]@);
        r.push(set);
        i = i + 1;
    }
    assert(views(r@) =~= views(sets@));
    r
}

impl DecoderConfigurationRecord {
    /// The record's fields as a plain value.
    pub open spec fn view(&self) -> RecordView {
        RecordView {
            version: self.version,
            profile_indication: self.profile_indication,
            profile_compatibility: self.profile_compatibility,
            level_indication: self.level_indication,
            nalu_size: self.nalu_size,
            sps: views(self.sps@),
            pps: views(self.pps@),
        }
    }

    /// The length field in front of each NAL unit has one to four bytes.
    pub open spec fn wf(&self) -> bool {
        1 <= self.nalu_size <= 4
    }

    /// A copy of the record.
    pub fn duplicate(&self) -> (r: DecoderConfigurationRecord)
        ensures
            r@ == self@,
    {
        DecoderConfigurationRecord {
            version: self.version,
            profile_indication: self.profile_indication,
            profile_compatibility: self.profile_compatibility,
            level_indication: self.level_indication,
            nalu_size: self.nalu_size,
            sps: copy_sets(&self.sps),
            pps: copy_sets(&self.pps),
        }
    }

    /// Reads a decoder configuration record from the front of `bytes`, and
    /// gives the position behind it.
    pub fn parse(bytes: &Vec<u8>) -> (r: Result<(DecoderConfigurationRecord, usize), AvcError>)
        ensures
            match r {
                Ok((record, end)) => end <= bytes@.len() && parse_record(bytes@) == Ok::<
                    _,
                    AvcError,
                >((record@, bytes@.skip(end as int))) && record.wf(),
                Err(e) => parse_record(bytes@) == Err::<(RecordView, Seq<u8>), _>(e),
            },
    {
        if bytes.len() < 6 {
            return Err(AvcError::NotEnoughData);
        }
        if bytes[0] != 1 {
            return Err(AvcError::UnsupportedConfigurationRecordVersion);
        }
        let (sps, after_sps) = match take_units(bytes, 6, bytes[5] % 32) {
            Some(found) => found,
            None => {
                return Err(AvcError::NotEnoughData);
            },
        };
        if bytes.len() - after_sps < 1 {
            return Err(AvcError::NotEnoughData);
        }
        let ghost rest = bytes@.skip(after_sps as int);
        assert(rest[0] == bytes@[after_sps as int]);
        assert(rest.skip(1) =~= bytes@.skip(after_sps + 1));
        let (pps, end) = match take_units(bytes, after_sps + 1, bytes[after_sps]) {
            Some(found) => found,
            None => {
                return Err(AvcError::NotEnoughData);
            },
        };
        Ok(
            (
                DecoderConfigurationRecord {
                    version: bytes[0],
                    profile_indication: bytes[1],
                    profile_compatibility: bytes[2],
                    level_indication: bytes[3],
                    nalu_size: bytes[4] % 4 + 1,
                    sps,
                    pps,
                },
                end,
            ),
        )
    }
}

/// The start code in front of every NAL unit of a byte stream.
pub open spec fn start_code() -> Seq<u8> {
    seq![0u8, 0u8, 0u8, 1u8]
}

/// The value of the bytes of a length field, most significant first.
pub open spec fn length_value(field: Seq<u8>) -> nat
    decreases field.len(),
{
    if field.len() == 0 {
        0
    } else {
        length_value(field.drop_last()) * 0x100 + field.last() as nat
    }
}

/// The units of `sets`, each behind a start code.
pub open spec fn framed_sets(sets: Seq<Seq<u8>>) -> Seq<u8>
    decreases sets.len(),
{
    if sets.len() == 0 {
        Seq::empty()
    } else {
        framed_sets(sets.drop_last()) + start_code() + sets.last()
    }
}

/// The NAL units of `data`, each behind a length field of `size` bytes in
/// `data` and behind a start code in the result; or `None` if `data` ends
/// inside a length field or a unit.
pub open spec fn framed_units(data: Seq<u8>, size: nat) -> Option<Seq<u8>>
    decreases data.len(),
{
    if data.len() == 0 {
        Some(Seq::empty())
    } else if size == 0 || data.len() < size {
        None
    } else {
        let len = length_value(data.take(size as int));
        if data.len() < size + len {
            None
        } else {
            match framed_units(data.skip((size + len) as int), size) {
                Some(rest) => Some(start_code() + data.subrange(size as int, (size + len) as int) + rest),
                None => None,
            }
        }
    }
}

/// What `framed_units` gives when the bytes written so far are put in front.
pub open spec fn stream_after(done: Seq<u8>, more: Option<Seq<u8>>) -> Option<Seq<u8>> {
    match more {
        Some(rest) => Some(done + rest),
        None => None,
    }
}

/// The access unit of one video packet: NAL units behind length fields,
/// together with the configuration record that says how long the fields
/// are.
#[derive(Clone, Debug)]
pub struct Bitstream {
    data: Bytes,
    dcr: DecoderConfigurationRecord,
}

fn put_start_code(out: &mut Vec<u8>)
    ensures
        final(out)@ == old(out)@ + start_code(),
{
    out.push(0);
    out.push(0);
    out.push(0);
    out.push(1);
    assert(out@ =~= old(out)@ + start_code());
}

fn put_sets(out: &mut Vec<u8>, sets: &Vec<Vec<u8>>)
    ensures
        final(out)@ == old(out)@ + framed_sets(views(sets@)),
{
    let mut i: usize = 0;
    assert(views(sets@).take(0) =~= Seq::<Seq<u8>>::empty());
    assert(out@ =~= old(out)@ + framed_sets(views(sets@).take(0)));
    while i < sets.len()
        invariant
            i <= sets.len(),
            out@ == old(out)@ + framed_sets(views(sets@).take(i as int)),
        decreases sets.len() - i,
    {
        let ghost before = out@;
        put_start_code(out);
        put_bytes(out, &sets[i]);
        i = i + 1;
        proof {
            let all = views(sets@);
            assert(all.take(i as int).drop_last() =~= all.take(i - 1));
            assert(all.take(i as int).last() == sets@[i - 1]@);
            assert(out@ =~= old(out)@ + framed_sets(all.take(i as int)));
        }
    }
    assert(views(sets@).take(sets@.len() as int) =~= views(sets@));
}

impl Bitstream {
    pub fn new(data: Bytes, dcr: DecoderConfigurationRecord) -> (r: Bitstream)
        ensures
            r.spec_data() == bytes_view(&data),
            r.spec_dcr() == dcr,
    {
        Bitstream { data, dcr }
    }

    /// The NAL units as they came, behind their length fields.
    pub closed spec fn spec_data(&self) -> Seq<u8> {
        bytes_view(&self.data)
    }

    /// The configuration record that the units belong to.
    pub closed spec fn spec_dcr(&self) -> DecoderConfigurationRecord {
        self.dcr
    }

    pub fn data(&self) -> (r: &Bytes)
        ensures
            bytes_view(r) == self.spec_data(),
    {
        &self.data
    }

    pub fn dcr(&self) -> (r: &DecoderConfigurationRecord)
        ensures
            *r == self.spec_dcr(),
    {
        &self.dcr
    }

    /// The byte stream of the access unit: the sequence parameter sets, the
    /// picture parameter sets, then the NAL units, each behind a start code;
    /// or `None` if the units do not fill the data exactly.
    pub open spec fn byte_stream(&self) -> Option<Seq<u8>> {
        stream_after(
            framed_sets(views(self.spec_dcr().sps@)) + framed_sets(views(self.spec_dcr().pps@)),
            framed_units(self.spec_data(), self.spec_dcr().nalu_size as nat),
        )
    }

    /// Appends the byte stream of the access unit to `out`. If the units do
    /// not fill the data exactly, nothing is appended.
    pub fn write_byte_stream(&self, out: &mut Vec<u8>) -> (r: Result<(), AvcError>)
        requires
            self.spec_dcr().wf(),
        ensures
            r is Ok <==> self.byte_stream() is Some,
            r is Ok ==> final(out)@ == old(out)@ + self.byte_stream()->0,
            r matches Err(e) ==> e == AvcError::NotEnoughData && final(out)@ == old(out)@,
    {
        let data = bytes_to_vec(&self.data);
        let size: usize = self.dcr.nalu_size as usize;
        let mut stream: Vec<u8> = Vec::new();
        put_sets(&mut stream, &self.dcr.sps);
        put_sets(&mut stream, &self.dcr.pps);
        let ghost head = stream@;
        let mut pos: usize = 0;
        assert(data@.skip(0) =~= data@);
        assert(stream_after(head, framed_units(data@, size as nat)) =~= stream_after(
            stream@,
            framed_units(data@.skip(0), size as nat),
        ));
        while pos < data.len()
            invariant
                1 <= size <= 4,
                pos <= data.len(),
                data@ == self.spec_data(),
                size == self.spec_dcr().nalu_size,
                stream_after(head, framed_units(data@, size as nat)) == stream_after(
                    stream@,
                    framed_units(data@.skip(pos as int), size as nat),
                ),
            decreases data.len() - pos,
        {
            let ghost here = data@.skip(pos as int);
            if data.len() - pos < size {
                assert(framed_units(here, size as nat) is None);
                return Err(AvcError::NotEnoughData);
            }
            let mut len: usize = 0;
            let mut k: usize = 0;
            assert(here.take(size as int).take(0) =~= Seq::<u8>::empty());
            while k < size
                invariant
                    k <= size <= 4,
                    pos + size <= data.len(),
                    here == data@.skip(pos as int),
                    len == length_value(here.take(size as int).take(k as int)),
                    len < pow256(k as nat),
                decreases size - k,
            {
                proof {
                    let field = here.take(size as int);
                    assert(field.take(k + 1).drop_last() =~= field.take(k as int));
                    assert(field.take(k + 1).last() == data@[pos + k]);
                    lemma_pow256(k as nat);
                }
                len = len * 0x100 + data[pos + k] as usize;
                k = k + 1;
            }
            assert(here.take(size as int).take(size as int) =~= here.take(size as int));
            if data.len() - pos - size < len {
                assert(framed_units(here, size as nat) is None);
                return Err(AvcError::NotEnoughData);
            }
            let ghost before = stream@;
            put_start_code(&mut stream);
            let mut j: usize = 0;
            while j < len
                invariant
                    j <= len,
                    pos + size + len <= data.len(),
                    stream@ == before + start_code() + data@.subrange(
                        pos + size,
                        pos + size + j,
                    ),
                decreases len - j,
            {
                stream.push(data[pos + size + j]);
                j = j + 1;
                assert(stream@ =~= before + start_code() + data@.subrange(
                    pos + size,
                    pos + size + j,
                ));
            }
            proof {
                assert(data@.subrange(pos + size, pos + size + len) =~= here.subrange(
                    size as int,
                    size + len,
                ));
                assert(here.skip(size + len) =~= data@.skip(pos + size + len));
                let more = framed_units(here.skip(size + len), size as nat);
                if more is Some {
                    assert(before + (start_code() + here.subrange(size as int, size + len)
                        + more->0) =~= stream@ + more->0);
                }
            }
            pos = pos + size + len;
        }
        proof {
            assert(data@.skip(pos as int) =~= Seq::<u8>::empty());
            assert(stream@ + Seq::<u8>::empty() =~= stream@);
            assert(head + framed_units(data@, size as nat)->0 =~= (framed_sets(
                views(self.spec_dcr().sps@),
            ) + framed_sets(views(self.spec_dcr().pps@))) + framed_units(
                data@,
                size as nat,
            )->0);
        }
        out.append(&mut stream);
        Ok(())
    }
}

/// 256 to the power of `k`, for `k` up to four.
pub open spec fn pow256(k: nat) -> nat {
    if k == 0 {
        1
    } else if k == 1 {
        0x100
    } else if k == 2 {
        0x1_0000
    } else if k == 3 {
        0x100_0000
    } else {
        0x1_0000_0000
    }
}

proof fn lemma_pow256(k: nat)
    requires
        k < 4,
    ensures
        pow256(k + 1) == pow256(k) * 0x100,
{
}

/// The video frame of one packet.
#[derive(Clone, Debug)]
pub struct AvcFrame {
    pub frame_type: FrameType,
    pub composition_time: Millis,
    pub bitstream: Bitstream,
}

} // verus!
