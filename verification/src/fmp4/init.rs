//! The boxes of an initialization segment: `ftyp` followed by `moov`.
//!
//! Boxes whose content never varies (`ftyp`, `dinf`, the empty sample tables)
//! have no type of their own, only their encoding.
use crate::aac::{AacProfile, ChannelConfiguration, SamplingFrequency};
use crate::fmp4::wire::{
    be16, be32, concat_all, full_box, full_box_of, lemma_concat_all_step, plain_box, plain_box_of,
    put_bytes, put_i16, put_i32, put_u16, put_u32, put_u8, put_zeroes, zeroes,
};
use vstd::prelude::*;

verus! {

pub const FTYP: u32 = 0x6674_7970;

pub const ISOM: u32 = 0x6973_6f6d;

pub const MOOV: u32 = 0x6d6f_6f76;

pub const MVHD: u32 = 0x6d76_6864;

pub const TRAK: u32 = 0x7472_616b;

pub const TKHD: u32 = 0x746b_6864;

pub const EDTS: u32 = 0x6564_7473;

pub const ELST: u32 = 0x656c_7374;

pub const MDIA: u32 = 0x6d64_6961;

pub const MDHD: u32 = 0x6d64_6864;

pub const HDLR: u32 = 0x6864_6c72;

pub const MINF: u32 = 0x6d69_6e66;

pub const VMHD: u32 = 0x766d_6864;

pub const SMHD: u32 = 0x736d_6864;

pub const DINF: u32 = 0x6469_6e66;

pub const DREF: u32 = 0x6472_6566;

pub const URL: u32 = 0x7572_6c20;

pub const STBL: u32 = 0x7374_626c;

pub const STSD: u32 = 0x7374_7364;

pub const STTS: u32 = 0x7374_7473;

pub const STSC: u32 = 0x7374_7363;

pub const STSZ: u32 = 0x7374_737a;

pub const STCO: u32 = 0x7374_636f;

pub const AVC1: u32 = 0x6176_6331;

pub const AVCC: u32 = 0x6176_6343;

pub const MP4A: u32 = 0x6d70_3461;

pub const ESDS: u32 = 0x6573_6473;

pub const MVEX: u32 = 0x6d76_6578;

pub const MEHD: u32 = 0x6d65_6864;

pub const TREX: u32 = 0x7472_6578;

/// Handler type of a sound track.
pub const SOUN: u32 = 0x736f_756e;

/// Handler type of a video track.
pub const VIDE: u32 = 0x7669_6465;

/// The unity transformation matrix that movie and track headers carry.
pub open spec fn unity_matrix() -> Seq<u8> {
    Seq::<u8>::empty() + be32(0x1_0000) + be32(0) + be32(0) + be32(0) + be32(0x1_0000) + be32(0)
        + be32(0) + be32(0) + be32(0x4000_0000)
}

fn put_unity_matrix(out: &mut Vec<u8>)
    ensures
        final(out)@ == old(out)@ + unity_matrix(),
{
    let mut m: Vec<u8> = Vec::new();
    put_u32(&mut m, 0x1_0000);
    put_u32(&mut m, 0);
    put_u32(&mut m, 0);
    put_u32(&mut m, 0);
    put_u32(&mut m, 0x1_0000);
    put_u32(&mut m, 0);
    put_u32(&mut m, 0);
    put_u32(&mut m, 0);
    put_u32(&mut m, 0x4000_0000);
    out.append(&mut m);
}

/// File type box (ISO/IEC 14496-12, 4.3): brand `isom`, minor version 512.
pub open spec fn ftyp_encoding() -> Seq<u8> {
    plain_box(FTYP, Seq::<u8>::empty() + be32(ISOM) + be32(512))
}

pub fn encode_ftyp() -> (r: Vec<u8>)
    ensures
        r@ == ftyp_encoding(),
{
    let mut payload: Vec<u8> = Vec::new();
    put_u32(&mut payload, ISOM);
    put_u32(&mut payload, 512);
    plain_box_of(FTYP, payload)
}

/// Movie header box (ISO/IEC 14496-12, 8.2.2), version 0: rate 1.0,
/// volume 1.0, no next track id.
#[derive(Clone, Copy, Debug)]
pub struct MovieHeaderBox {
    pub timescale: u32,
    pub duration: u32,
}

impl MovieHeaderBox {
    pub open spec fn payload(&self) -> Seq<u8> {
        Seq::<u8>::empty() + be32(0) + be32(0) + be32(self.timescale) + be32(self.duration) + be32(
            0x1_0000,
        ) + be16(0x100) + zeroes(2) + zeroes(8) + unity_matrix() + zeroes(24) + be32(0xffff_ffff)
    }

    pub open spec fn encoding(&self) -> Seq<u8> {
        full_box(MVHD, 0, 0, self.payload())
    }

    pub fn encode(&self) -> (r: Vec<u8>)
        ensures
            r@ == self.encoding(),
    {
        let mut payload: Vec<u8> = Vec::new();
        put_u32(&mut payload, 0);
        put_u32(&mut payload, 0);
        put_u32(&mut payload, self.timescale);
        put_u32(&mut payload, self.duration);
        put_u32(&mut payload, 0x1_0000);
        put_u16(&mut payload, 0x100);
        put_zeroes(&mut payload, 2);
        put_zeroes(&mut payload, 8);
        put_unity_matrix(&mut payload);
        put_zeroes(&mut payload, 24);
        put_u32(&mut payload, 0xffff_ffff);
        full_box_of(MVHD, 0, 0, payload)
    }
}

/// Track header box (ISO/IEC 14496-12, 8.3.2), version 0, of a track that is
/// enabled, in the movie and in the preview.
#[derive(Clone, Copy, Debug)]
pub struct TrackHeaderBox {
    pub track_id: u32,
    pub duration: u32,
    pub volume: i16,
    pub width: u32,
    pub height: u32,
}

impl TrackHeaderBox {
    pub open spec fn payload(&self) -> Seq<u8> {
        Seq::<u8>::empty() + be32(0) + be32(0) + be32(self.track_id) + zeroes(4) + be32(
            self.duration,
        ) + zeroes(8) + be16(0) + be16(0) + be16(self.volume as u16) + zeroes(2) + unity_matrix()
            + be32(self.width) + be32(self.height)
    }

    pub open spec fn encoding(&self) -> Seq<u8> {
        full_box(TKHD, 0, 7, self.payload())
    }

    pub fn encode(&self) -> (r: Vec<u8>)
        ensures
            r@ == self.encoding(),
    {
        let mut payload: Vec<u8> = Vec::new();
        put_u32(&mut payload, 0);
        put_u32(&mut payload, 0);
        put_u32(&mut payload, self.track_id);
        put_zeroes(&mut payload, 4);
        put_u32(&mut payload, self.duration);
        put_zeroes(&mut payload, 8);
        put_u16(&mut payload, 0);
        put_u16(&mut payload, 0);
        put_i16(&mut payload, self.volume);
        put_zeroes(&mut payload, 2);
        put_unity_matrix(&mut payload);
        put_u32(&mut payload, self.width);
        put_u32(&mut payload, self.height);
        full_box_of(TKHD, 0, 7, payload)
    }
}

/// Edit list box (ISO/IEC 14496-12, 8.6.6) with one entry that spans the
/// whole track at rate 1.0.
#[derive(Clone, Copy, Debug)]
pub struct EditListBox {
    pub media_time: i32,
}

/// Edit box (ISO/IEC 14496-12, 8.6.5).
#[derive(Clone, Copy, Debug)]
pub struct EditBox {
    pub elst_box: EditListBox,
}

impl EditListBox {
    pub open spec fn encoding(&self) -> Seq<u8> {
        full_box(
            ELST,
            0,
            0,
            Seq::<u8>::empty() + be32(1) + be32(0) + be32(self.media_time as u32) + be16(1) + be16(
                0,
            ),
        )
    }

    pub fn encode(&self) -> (r: Vec<u8>)
        ensures
            r@ == self.encoding(),
    {
        let mut payload: Vec<u8> = Vec::new();
        put_u32(&mut payload, 1);
        put_u32(&mut payload, 0);
        put_i32(&mut payload, self.media_time);
        put_u16(&mut payload, 1);
        put_u16(&mut payload, 0);
        full_box_of(ELST, 0, 0, payload)
    }
}

impl EditBox {
    pub open spec fn encoding(&self) -> Seq<u8> {
        plain_box(EDTS, self.elst_box.encoding())
    }

    pub fn encode(&self) -> (r: Vec<u8>)
        ensures
            r@ == self.encoding(),
    {
        plain_box_of(EDTS, self.elst_box.encode())
    }
}

/// The encoding of an optional edit box: nothing when absent.
pub open spec fn opt_edts(x: Option<EditBox>) -> Seq<u8> {
    match x {
        Some(b) => b.encoding(),
        None => Seq::empty(),
    }
}

/// Media header box (ISO/IEC 14496-12, 8.4.2), version 0, language
/// undetermined.
#[derive(Clone, Copy, Debug)]
pub struct MediaHeaderBox {
    pub timescale: u32,
    pub duration: u32,
}

impl MediaHeaderBox {
    pub open spec fn encoding(&self) -> Seq<u8> {
        full_box(
            MDHD,
            0,
            0,
            Seq::<u8>::empty() + be32(0) + be32(0) + be32(self.timescale) + be32(self.duration)
                + be16(0x55c4) + zeroes(2),
        )
    }

    pub fn encode(&self) -> (r: Vec<u8>)
        ensures
            r@ == self.encoding(),
    {
        let mut payload: Vec<u8> = Vec::new();
        put_u32(&mut payload, 0);
        put_u32(&mut payload, 0);
        put_u32(&mut payload, self.timescale);
        put_u32(&mut payload, self.duration);
        put_u16(&mut payload, 0x55c4);
        put_zeroes(&mut payload, 2);
        full_box_of(MDHD, 0, 0, payload)
    }
}

/// Handler reference box (ISO/IEC 14496-12, 8.4.3). The name is written
/// with a closing zero byte, so it holds none itself.
#[derive(Clone, Debug)]
pub struct HandlerReferenceBox {
    pub handler_type: u32,
    pub name: Vec<u8>,
}

/// The encoding of a handler reference: the handler type, then the name and
/// a closing zero byte.
pub open spec fn hdlr_box(handler_type: u32, name: Seq<u8>) -> Seq<u8> {
    full_box(
        HDLR,
        0,
        0,
        Seq::<u8>::empty() + zeroes(4) + be32(handler_type) + zeroes(12) + name + seq![0u8],
    )
}

impl HandlerReferenceBox {
    /// The name holds no zero byte and at most 65535 others.
    pub open spec fn wf(&self) -> bool {
        &&& forall|i: int| 0 <= i < self.name@.len() ==> self.name@[i] != 0
        &&& self.name@.len() <= 0xffff
    }

    pub open spec fn encoding(&self) -> Seq<u8> {
        hdlr_box(self.handler_type, self.name@)
    }

    pub fn encode(&self) -> (r: Vec<u8>)
        requires
            self.wf(),
        ensures
            r@ == self.encoding(),
    {
        let mut payload: Vec<u8> = Vec::new();
        put_zeroes(&mut payload, 4);
        put_u32(&mut payload, self.handler_type);
        put_zeroes(&mut payload, 12);
        put_bytes(&mut payload, &self.name);
        put_u8(&mut payload, 0);
        full_box_of(HDLR, 0, 0, payload)
    }
}

/// Video media header box (ISO/IEC 14496-12, 12.1.2): copy mode, black.
#[derive(Clone, Copy, Debug)]
pub struct VideoMediaHeaderBox;

/// Sound media header box (ISO/IEC 14496-12, 12.2.2): centred.
#[derive(Clone, Copy, Debug)]
pub struct SoundMediaHeaderBox;

pub open spec fn vmhd_encoding() -> Seq<u8> {
    full_box(VMHD, 0, 1, Seq::<u8>::empty() + be16(0) + zeroes(6))
}

pub open spec fn smhd_encoding() -> Seq<u8> {
    full_box(SMHD, 0, 0, Seq::<u8>::empty() + be16(0) + zeroes(2))
}

pub open spec fn opt_vmhd(x: Option<VideoMediaHeaderBox>) -> Seq<u8> {
    match x {
        Some(_) => vmhd_encoding(),
        None => Seq::empty(),
    }
}

pub open spec fn opt_smhd(x: Option<SoundMediaHeaderBox>) -> Seq<u8> {
    match x {
        Some(_) => smhd_encoding(),
        None => Seq::empty(),
    }
}

fn encode_vmhd() -> (r: Vec<u8>)
    ensures
        r@ == vmhd_encoding(),
{
    let mut payload: Vec<u8> = Vec::new();
    put_u16(&mut payload, 0);
    put_zeroes(&mut payload, 6);
    full_box_of(VMHD, 0, 1, payload)
}

fn encode_smhd() -> (r: Vec<u8>)
    ensures
        r@ == smhd_encoding(),
{
    let mut payload: Vec<u8> = Vec::new();
    put_u16(&mut payload, 0);
    put_zeroes(&mut payload, 2);
    full_box_of(SMHD, 0, 0, payload)
}

/// Data information box (ISO/IEC 14496-12, 8.7.1) with one reference: the
/// media is in the same file.
pub open spec fn dinf_encoding() -> Seq<u8> {
    plain_box(
        DINF,
        full_box(DREF, 0, 0, Seq::<u8>::empty() + be32(1) + full_box(URL, 0, 1, Seq::empty())),
    )
}

fn encode_dinf() -> (r: Vec<u8>)
    ensures
        r@ == dinf_encoding(),
{
    let mut url = full_box_of(URL, 0, 1, Vec::new());
    let mut payload: Vec<u8> = Vec::new();
    put_u32(&mut payload, 1);
    payload.append(&mut url);
    plain_box_of(DINF, full_box_of(DREF, 0, 0, payload))
}

/// The four sample tables of a track whose samples all come in fragments:
/// time to sample, sample to chunk, sample size and chunk offset, each
/// without an entry.
pub open spec fn empty_tables_encoding() -> Seq<u8> {
    Seq::<u8>::empty() + full_box(STTS, 0, 0, Seq::<u8>::empty() + be32(0)) + full_box(
        STSC,
        0,
        0,
        Seq::<u8>::empty() + be32(0),
    ) + full_box(STSZ, 0, 0, Seq::<u8>::empty() + be32(0) + be32(0)) + full_box(
        STCO,
        0,
        0,
        Seq::<u8>::empty() + be32(0),
    )
}

fn put_empty_tables(out: &mut Vec<u8>)
    ensures
        final(out)@ == old(out)@ + empty_tables_encoding(),
{
    let mut tables: Vec<u8> = Vec::new();
    let mut one: Vec<u8> = Vec::new();
    put_u32(&mut one, 0);
    let mut stts = full_box_of(STTS, 0, 0, one);
    tables.append(&mut stts);
    let mut one: Vec<u8> = Vec::new();
    put_u32(&mut one, 0);
    let mut stsc = full_box_of(STSC, 0, 0, one);
    tables.append(&mut stsc);
    let mut two: Vec<u8> = Vec::new();
    put_u32(&mut two, 0);
    put_u32(&mut two, 0);
    let mut stsz = full_box_of(STSZ, 0, 0, two);
    tables.append(&mut stsz);
    let mut one: Vec<u8> = Vec::new();
    put_u32(&mut one, 0);
    let mut stco = full_box_of(STCO, 0, 0, one);
    tables.append(&mut stco);
    out.append(&mut tables);
}

/// MPEG-4 elementary stream descriptor box for AAC (ISO/IEC 14496-1): an ES
/// descriptor that holds a decoder configuration with the two byte audio
/// specific configuration, and an SL configuration.
#[derive(Clone, Copy, Debug)]
pub struct Mpeg4EsDescriptorBox {
    pub profile: AacProfile,
    pub frequency: SamplingFrequency,
    pub channel_configuration: ChannelConfiguration,
}

impl Mpeg4EsDescriptorBox {
    /// The audio specific configuration: object type, frequency index and
    /// channel configuration in 5, 4 and 4 bits, then three zero bits.
    pub open spec fn config_word(&self) -> int {
        (self.profile.code() + 1) * 0x800 + self.frequency.index() * 0x80
            + self.channel_configuration.code() * 0x8
    }

    pub open spec fn payload(&self) -> Seq<u8> {
        Seq::<u8>::empty() + seq![0x03u8, 25u8] + be16(0) + seq![0u8] + seq![0x04u8, 17u8] + seq![
            0x40u8,
            0x15u8,
        ] + zeroes(3) + be32(0) + be32(0) + seq![0x05u8, 2u8] + be16(self.config_word() as u16)
            + seq![0x06u8, 1u8, 2u8]
    }

    pub open spec fn encoding(&self) -> Seq<u8> {
        full_box(ESDS, 0, 0, self.payload())
    }

    pub fn encode(&self) -> (r: Vec<u8>)
        ensures
            r@ == self.encoding(),
    {
        let word: u16 = (self.profile.to_code() as u16 + 1) * 0x800 + self.frequency.to_index() as u16
            * 0x80 + self.channel_configuration.to_code() as u16 * 0x8;
        let mut payload: Vec<u8> = Vec::new();
        let mut es: Vec<u8> = vec![0x03u8, 25u8];
        payload.append(&mut es);
        put_u16(&mut payload, 0);
        put_u8(&mut payload, 0);
        let mut dc: Vec<u8> = vec![0x04u8, 17u8];
        payload.append(&mut dc);
        let mut ot: Vec<u8> = vec![0x40u8, 0x15u8];
        payload.append(&mut ot);
        put_zeroes(&mut payload, 3);
        put_u32(&mut payload, 0);
        put_u32(&mut payload, 0);
        let mut ds: Vec<u8> = vec![0x05u8, 2u8];
        payload.append(&mut ds);
        put_u16(&mut payload, word);
        let mut sl: Vec<u8> = vec![0x06u8, 1u8, 2u8];
        payload.append(&mut sl);
        full_box_of(ESDS, 0, 0, payload)
    }
}

/// Sample entry of an AAC track: 16 bit samples.
#[derive(Clone, Copy, Debug)]
pub struct AacSampleEntry {
    pub esds_box: Mpeg4EsDescriptorBox,
}

impl AacSampleEntry {
    /// One or two channels, and a sampling frequency that 16 bits hold.
    pub open spec fn wf(&self) -> bool {
        &&& 1 <= self.esds_box.channel_configuration.code() <= 2
        &&& self.esds_box.frequency.hz() <= 0xffff
    }

    #[verifier::opaque]
    pub open spec fn encoding(&self) -> Seq<u8> {
        plain_box(
            MP4A,
            Seq::<u8>::empty() + zeroes(6) + be16(1) + zeroes(8) + be16(
                self.esds_box.channel_configuration.code() as u16,
            ) + be16(16) + zeroes(4) + be16(self.esds_box.frequency.hz() as u16) + zeroes(2)
                + self.esds_box.encoding(),
        )
    }

    pub fn encode(&self) -> (r: Vec<u8>)
        requires
            self.wf(),
        ensures
            r@ == self.encoding(),
    {
        proof {
            reveal(AacSampleEntry::encoding);
        }
        let mut payload: Vec<u8> = Vec::new();
        put_zeroes(&mut payload, 6);
        put_u16(&mut payload, 1);
        put_zeroes(&mut payload, 8);
        put_u16(&mut payload, self.esds_box.channel_configuration.to_code() as u16);
        put_u16(&mut payload, 16);
        put_zeroes(&mut payload, 4);
        put_u16(&mut payload, self.esds_box.frequency.as_u32() as u16);
        put_zeroes(&mut payload, 2);
        let mut esds = self.esds_box.encode();
        payload.append(&mut esds);
        plain_box_of(MP4A, payload)
    }
}

/// AVC configuration box: the decoder configuration record as it came.
#[derive(Clone, Debug)]
pub enum AvcConfigurationBox {
    Raw(Vec<u8>),
}

/// The encoding of an AVC configuration box around a decoder configuration
/// record.
pub open spec fn avcc_box(record: Seq<u8>) -> Seq<u8> {
    plain_box(AVCC, record)
}

impl AvcConfigurationBox {
    /// The bytes of the decoder configuration record.
    pub open spec fn record(&self) -> Seq<u8> {
        match self {
            AvcConfigurationBox::Raw(bytes) => bytes@,
        }
    }

    pub open spec fn encoding(&self) -> Seq<u8> {
        avcc_box(self.record())
    }

    pub open spec fn wf(&self) -> bool {
        self.record().len() <= MAX_DCR_LEN
    }

    pub fn encode(&self) -> (r: Vec<u8>)
        requires
            self.wf(),
        ensures
            r@ == self.encoding(),
    {
        let mut payload: Vec<u8> = Vec::new();
        match self {
            AvcConfigurationBox::Raw(bytes) => {
                put_bytes(&mut payload, bytes);
            },
        }
        assert(payload@ =~= self.record());
        plain_box_of(AVCC, payload)
    }
}

/// The longest decoder configuration record that a sample entry takes.
pub const MAX_DCR_LEN: usize = 0x7fff_ffff;

/// Sample entry of an AVC track: 72 dpi, one frame per sample, 24 bit
/// colour.
#[derive(Clone, Debug)]
pub struct AvcSampleEntry {
    pub width: u16,
    pub height: u16,
    pub avcc_box: AvcConfigurationBox,
}

/// The encoding of an AVC sample entry around its configuration box.
#[verifier::opaque]
pub open spec fn avc1_box(width: u16, height: u16, avcc: Seq<u8>) -> Seq<u8> {
    plain_box(
        AVC1,
        Seq::<u8>::empty() + zeroes(6) + be16(1) + zeroes(16) + be16(width) + be16(height) + be32(
            0x0048_0000,
        ) + be32(0x0048_0000) + zeroes(4) + be16(1) + zeroes(32) + be16(0x0018) + be16(0xffff)
            + avcc,
    )
}

impl AvcSampleEntry {
    pub open spec fn wf(&self) -> bool {
        self.avcc_box.wf()
    }

    #[verifier::opaque]
    pub open spec fn encoding(&self) -> Seq<u8> {
        avc1_box(self.width, self.height, self.avcc_box.encoding())
    }

    pub fn encode(&self) -> (r: Vec<u8>)
        requires
            self.wf(),
        ensures
            r@ == self.encoding(),
    {
        proof {
            reveal(AvcSampleEntry::encoding);
            reveal(avc1_box);
        }
        let mut payload: Vec<u8> = Vec::new();
        put_zeroes(&mut payload, 6);
        put_u16(&mut payload, 1);
        put_zeroes(&mut payload, 16);
        put_u16(&mut payload, self.width);
        put_u16(&mut payload, self.height);
        put_u32(&mut payload, 0x0048_0000);
        put_u32(&mut payload, 0x0048_0000);
        put_zeroes(&mut payload, 4);
        put_u16(&mut payload, 1);
        put_zeroes(&mut payload, 32);
        put_u16(&mut payload, 0x0018);
        put_u16(&mut payload, 0xffff);
        let mut avcc = self.avcc_box.encode();
        payload.append(&mut avcc);
        plain_box_of(AVC1, payload)
    }
}

/// Sample entry (ISO/IEC 14496-12, 8.5.2.2).
#[derive(Clone, Debug)]
pub enum SampleEntry {
    Avc(AvcSampleEntry),
    Aac(AacSampleEntry),
}

impl SampleEntry {
    pub open spec fn wf(&self) -> bool {
        match self {
            SampleEntry::Avc(e) => e.wf(),
            SampleEntry::Aac(e) => e.wf(),
        }
    }

    pub open spec fn encoding(&self) -> Seq<u8> {
        match self {
            SampleEntry::Avc(e) => e.encoding(),
            SampleEntry::Aac(e) => e.encoding(),
        }
    }

    pub fn encode(&self) -> (r: Vec<u8>)
        requires
            self.wf(),
        ensures
            r@ == self.encoding(),
    {
        match self {
            SampleEntry::Avc(e) => e.encode(),
            SampleEntry::Aac(e) => e.encode(),
        }
    }
}

/// How a sample description encodes one of its entries.
pub open spec fn entry_enc() -> spec_fn(SampleEntry) -> Seq<u8> {
    |e: SampleEntry| e.encoding()
}

/// Sample description box (ISO/IEC 14496-12, 8.5.2).
#[derive(Clone, Debug)]
pub struct SampleDescriptionBox {
    pub sample_entries: Vec<SampleEntry>,
}

/// The encoding of a sample description from the number of its entries
/// and their encodings.
#[verifier::opaque]
pub open spec fn stsd_box(entry_count: nat, entries: Seq<u8>) -> Seq<u8> {
    full_box(STSD, 0, 0, Seq::<u8>::empty() + be32(entry_count as u32) + entries)
}

impl SampleDescriptionBox {
    #[verifier::opaque]
    pub open spec fn encoding(&self) -> Seq<u8> {
        stsd_box(self.sample_entries@.len(), concat_all(self.sample_entries@, entry_enc()))
    }

    /// At least one entry, each well formed, and the box fits a 32 bit size.
    pub open spec fn wf(&self) -> bool {
        &&& self.sample_entries@.len() > 0
        &&& forall|i: int|
            0 <= i < self.sample_entries@.len() ==> (#[trigger] self.sample_entries@[i]).wf()
        &&& self.encoding().len() <= u32::MAX
    }

    pub fn encode(&self) -> (r: Vec<u8>)
        requires
            self.wf(),
        ensures
            r@ == self.encoding(),
    {
        proof {
            reveal(SampleDescriptionBox::encoding);
            reveal(stsd_box);
        }
        let mut payload: Vec<u8> = Vec::new();
        put_u32(&mut payload, self.sample_entries.len() as u32);
        let ghost head = payload@;
        let mut i: usize = 0;
        assert(self.sample_entries@.take(0) =~= Seq::<SampleEntry>::empty());
        while i < self.sample_entries.len()
            invariant
                forall|k: int|
                    0 <= k < self.sample_entries@.len() ==> (
                    #[trigger] self.sample_entries@[k]).wf(),
                i <= self.sample_entries.len(),
                payload@ == head + concat_all(self.sample_entries@.take(i as int), entry_enc()),
            decreases self.sample_entries.len() - i,
        {
            proof {
                lemma_concat_all_step(self.sample_entries@, entry_enc(), i as int);
            }
            let mut entry = self.sample_entries[i].encode();
            payload.append(&mut entry);
            i = i + 1;
            assert(payload@ =~= head + concat_all(
                self.sample_entries@.take(i as int),
                entry_enc(),
            ));
        }
        assert(self.sample_entries@.take(i as int) =~= self.sample_entries@);
        full_box_of(STSD, 0, 0, payload)
    }
}

/// Sample table box (ISO/IEC 14496-12, 8.5.1): the sample description and
/// the four empty tables.
#[derive(Clone, Debug)]
pub struct SampleTableBox {
    pub stsd_box: SampleDescriptionBox,
}

/// The encoding of a sample table around its sample description.
#[verifier::opaque]
pub open spec fn stbl_box(stsd: Seq<u8>) -> Seq<u8> {
    plain_box(STBL, Seq::<u8>::empty() + stsd + empty_tables_encoding())
}

impl SampleTableBox {
    #[verifier::opaque]
    pub open spec fn encoding(&self) -> Seq<u8> {
        stbl_box(self.stsd_box.encoding())
    }

    pub open spec fn wf(&self) -> bool {
        &&& self.stsd_box.wf()
        &&& self.encoding().len() <= u32::MAX
    }

    pub fn encode(&self) -> (r: Vec<u8>)
        requires
            self.wf(),
        ensures
            r@ == self.encoding(),
    {
        proof {
            reveal(SampleTableBox::encoding);
            reveal(stbl_box);
        }
        let mut payload: Vec<u8> = Vec::new();
        let mut stsd = self.stsd_box.encode();
        payload.append(&mut stsd);
        put_empty_tables(&mut payload);
        plain_box_of(STBL, payload)
    }
}

/// Media information box (ISO/IEC 14496-12, 8.4.4).
#[derive(Clone, Debug)]
pub struct MediaInformationBox {
    pub vmhd_box: Option<VideoMediaHeaderBox>,
    pub smhd_box: Option<SoundMediaHeaderBox>,
    pub stbl_box: SampleTableBox,
}

/// The encoding of a media information box around its sample table.
#[verifier::opaque]
pub open spec fn minf_box(
    vmhd: Option<VideoMediaHeaderBox>,
    smhd: Option<SoundMediaHeaderBox>,
    stbl: Seq<u8>,
) -> Seq<u8> {
    plain_box(MINF, Seq::<u8>::empty() + opt_vmhd(vmhd) + opt_smhd(smhd) + dinf_encoding() + stbl)
}

impl MediaInformationBox {
    #[verifier::opaque]
    pub open spec fn encoding(&self) -> Seq<u8> {
        minf_box(self.vmhd_box, self.smhd_box, self.stbl_box.encoding())
    }

    pub open spec fn wf(&self) -> bool {
        &&& self.stbl_box.wf()
        &&& self.encoding().len() <= u32::MAX
    }

    pub fn encode(&self) -> (r: Vec<u8>)
        requires
            self.wf(),
        ensures
            r@ == self.encoding(),
    {
        proof {
            reveal(MediaInformationBox::encoding);
            reveal(minf_box);
        }
        let mut payload: Vec<u8> = Vec::new();
        match self.vmhd_box {
            Some(_) => {
                let mut vmhd = encode_vmhd();
                payload.append(&mut vmhd);
            },
            None => {
                assert(payload@ =~= payload@ + opt_vmhd(self.vmhd_box));
            },
        }
        let ghost mid = payload@;
        match self.smhd_box {
            Some(_) => {
                let mut smhd = encode_smhd();
                payload.append(&mut smhd);
            },
            None => {
                assert(payload@ =~= mid + opt_smhd(self.smhd_box));
            },
        }
        let mut dinf = encode_dinf();
        payload.append(&mut dinf);
        let mut stbl = self.stbl_box.encode();
        payload.append(&mut stbl);
        plain_box_of(MINF, payload)
    }
}

/// Media box (ISO/IEC 14496-12, 8.4.1).
#[derive(Clone, Debug)]
pub struct MediaBox {
    pub mdhd_box: MediaHeaderBox,
    pub hdlr_box: HandlerReferenceBox,
    pub minf_box: MediaInformationBox,
}

/// The encoding of a media box from its header and the encodings of its
/// handler reference and media information.
#[verifier::opaque]
pub open spec fn mdia_box(mdhd: MediaHeaderBox, hdlr: Seq<u8>, minf: Seq<u8>) -> Seq<u8> {
    plain_box(MDIA, Seq::<u8>::empty() + mdhd.encoding() + hdlr + minf)
}

impl MediaBox {
    #[verifier::opaque]
    pub open spec fn encoding(&self) -> Seq<u8> {
        mdia_box(self.mdhd_box, self.hdlr_box.encoding(), self.minf_box.encoding())
    }

    pub open spec fn wf(&self) -> bool {
        &&& self.hdlr_box.wf()
        &&& self.minf_box.wf()
        &&& self.encoding().len() <= u32::MAX
    }

    pub fn encode(&self) -> (r: Vec<u8>)
        requires
            self.wf(),
        ensures
            r@ == self.encoding(),
    {
        proof {
            reveal(MediaBox::encoding);
            reveal(mdia_box);
        }
        let mut payload: Vec<u8> = Vec::new();
        let mut mdhd = self.mdhd_box.encode();
        payload.append(&mut mdhd);
        let mut hdlr = self.hdlr_box.encode();
        payload.append(&mut hdlr);
        let mut minf = self.minf_box.encode();
        payload.append(&mut minf);
        plain_box_of(MDIA, payload)
    }
}

/// Track box (ISO/IEC 14496-12, 8.3.1).
#[derive(Clone, Debug)]
pub struct TrackBox {
    pub tkhd_box: TrackHeaderBox,
    pub edts_box: Option<EditBox>,
    pub mdia_box: MediaBox,
}

/// The encoding of a track from its header, its optional edit box and the
/// encoding of its media box.
#[verifier::opaque]
pub open spec fn trak_box(tkhd: TrackHeaderBox, edts: Option<EditBox>, mdia: Seq<u8>) -> Seq<u8> {
    plain_box(TRAK, Seq::<u8>::empty() + tkhd.encoding() + opt_edts(edts) + mdia)
}

impl TrackBox {
    #[verifier::opaque]
    pub open spec fn encoding(&self) -> Seq<u8> {
        trak_box(self.tkhd_box, self.edts_box, self.mdia_box.encoding())
    }

    pub open spec fn wf(&self) -> bool {
        &&& self.mdia_box.wf()
        &&& self.encoding().len() <= u32::MAX
    }

    pub fn encode(&self) -> (r: Vec<u8>)
        requires
            self.wf(),
        ensures
            r@ == self.encoding(),
    {
        proof {
            reveal(TrackBox::encoding);
            reveal(trak_box);
        }
        let mut payload: Vec<u8> = Vec::new();
        let mut tkhd = self.tkhd_box.encode();
        payload.append(&mut tkhd);
        match self.edts_box {
            Some(b) => {
                let mut edts = b.encode();
                payload.append(&mut edts);
            },
            None => {
                assert(payload@ =~= payload@ + opt_edts(self.edts_box));
            },
        }
        let mut mdia = self.mdia_box.encode();
        payload.append(&mut mdia);
        plain_box_of(TRAK, payload)
    }
}

/// How a movie encodes one of its tracks.
pub open spec fn trak_enc() -> spec_fn(TrackBox) -> Seq<u8> {
    |t: TrackBox| t.encoding()
}

/// Movie extends header box (ISO/IEC 14496-12, 8.8.2).
#[derive(Clone, Copy, Debug)]
pub struct MovieExtendsHeaderBox {
    pub fragment_duration: u32,
}

impl MovieExtendsHeaderBox {
    pub open spec fn encoding(&self) -> Seq<u8> {
        full_box(MEHD, 0, 0, Seq::<u8>::empty() + be32(self.fragment_duration))
    }

    pub fn encode(&self) -> (r: Vec<u8>)
        ensures
            r@ == self.encoding(),
    {
        let mut payload: Vec<u8> = Vec::new();
        put_u32(&mut payload, self.fragment_duration);
        full_box_of(MEHD, 0, 0, payload)
    }
}

/// The encoding of an optional movie extends header: nothing when absent.
pub open spec fn opt_mehd(x: Option<MovieExtendsHeaderBox>) -> Seq<u8> {
    match x {
        Some(b) => b.encoding(),
        None => Seq::empty(),
    }
}

/// Track extends box (ISO/IEC 14496-12, 8.8.3): the defaults of the
/// fragments of one track.
#[derive(Clone, Copy, Debug)]
pub struct TrackExtendsBox {
    pub track_id: u32,
    pub default_sample_description_index: u32,
    pub default_sample_duration: u32,
    pub default_sample_size: u32,
    pub default_sample_flags: u32,
}

impl TrackExtendsBox {
    pub open spec fn encoding(&self) -> Seq<u8> {
        full_box(
            TREX,
            0,
            0,
            Seq::<u8>::empty() + be32(self.track_id) + be32(self.default_sample_description_index)
                + be32(self.default_sample_duration) + be32(self.default_sample_size) + be32(
                self.default_sample_flags,
            ),
        )
    }

    pub fn encode(&self) -> (r: Vec<u8>)
        ensures
            r@ == self.encoding(),
    {
        let mut payload: Vec<u8> = Vec::new();
        put_u32(&mut payload, self.track_id);
        put_u32(&mut payload, self.default_sample_description_index);
        put_u32(&mut payload, self.default_sample_duration);
        put_u32(&mut payload, self.default_sample_size);
        put_u32(&mut payload, self.default_sample_flags);
        full_box_of(TREX, 0, 0, payload)
    }
}

/// How a movie extends box encodes one of its track extends boxes.
pub open spec fn trex_enc() -> spec_fn(TrackExtendsBox) -> Seq<u8> {
    |t: TrackExtendsBox| t.encoding()
}

/// Movie extends box (ISO/IEC 14496-12, 8.8.1): announces that the movie
/// continues in fragments.
#[derive(Clone, Debug)]
pub struct MovieExtendsBox {
    pub mehd_box: Option<MovieExtendsHeaderBox>,
    pub trex_boxes: Vec<TrackExtendsBox>,
}

/// The encoding of a movie extends box from its optional header and the
/// encodings of its track extends boxes.
#[verifier::opaque]
pub open spec fn mvex_box(mehd: Option<MovieExtendsHeaderBox>, trexs: Seq<u8>) -> Seq<u8> {
    plain_box(MVEX, Seq::<u8>::empty() + opt_mehd(mehd) + trexs)
}

impl MovieExtendsBox {
    #[verifier::opaque]
    pub open spec fn encoding(&self) -> Seq<u8> {
        mvex_box(self.mehd_box, concat_all(self.trex_boxes@, trex_enc()))
    }

    /// At least one track, and the box fits a 32 bit size.
    pub open spec fn wf(&self) -> bool {
        &&& self.trex_boxes@.len() > 0
        &&& self.encoding().len() <= u32::MAX
    }

    pub fn encode(&self) -> (r: Vec<u8>)
        requires
            self.wf(),
        ensures
            r@ == self.encoding(),
    {
        proof {
            reveal(MovieExtendsBox::encoding);
            reveal(mvex_box);
        }
        let mut payload: Vec<u8> = Vec::new();
        match self.mehd_box {
            Some(b) => {
                let mut mehd = b.encode();
                payload.append(&mut mehd);
            },
            None => {
                assert(payload@ =~= payload@ + opt_mehd(self.mehd_box));
            },
        }
        let ghost head = payload@;
        let mut i: usize = 0;
        assert(self.trex_boxes@.take(0) =~= Seq::<TrackExtendsBox>::empty());
        assert(payload@ =~= head + concat_all(self.trex_boxes@.take(0), trex_enc()));
        while i < self.trex_boxes.len()
            invariant
                i <= self.trex_boxes.len(),
                payload@ == head + concat_all(self.trex_boxes@.take(i as int), trex_enc()),
            decreases self.trex_boxes.len() - i,
        {
            proof {
                lemma_concat_all_step(self.trex_boxes@, trex_enc(), i as int);
            }
            let mut trex = self.trex_boxes[i].encode();
            payload.append(&mut trex);
            i = i + 1;
            assert(payload@ =~= head + concat_all(self.trex_boxes@.take(i as int), trex_enc()));
        }
        assert(self.trex_boxes@.take(i as int) =~= self.trex_boxes@);
        plain_box_of(MVEX, payload)
    }
}

/// Movie box (ISO/IEC 14496-12, 8.2.1).
#[derive(Clone, Debug)]
pub struct MovieBox {
    pub mvhd_box: MovieHeaderBox,
    pub trak_boxes: Vec<TrackBox>,
    pub mvex_box: MovieExtendsBox,
}

/// The encoding of a movie from its header and the encodings of its tracks
/// and of its movie extends box.
#[verifier::opaque]
pub open spec fn moov_box(mvhd: MovieHeaderBox, traks: Seq<u8>, mvex: Seq<u8>) -> Seq<u8> {
    plain_box(MOOV, Seq::<u8>::empty() + mvhd.encoding() + traks + mvex)
}

impl MovieBox {
    #[verifier::opaque]
    pub open spec fn encoding(&self) -> Seq<u8> {
        moov_box(
            self.mvhd_box,
            concat_all(self.trak_boxes@, trak_enc()),
            self.mvex_box.encoding(),
        )
    }

    /// At least one track, each well formed, and the box fits a 32 bit size.
    pub open spec fn wf(&self) -> bool {
        &&& self.trak_boxes@.len() > 0
        &&& forall|i: int| 0 <= i < self.trak_boxes@.len() ==> (#[trigger] self.trak_boxes@[i]).wf()
        &&& self.mvex_box.wf()
        &&& self.encoding().len() <= u32::MAX
    }

    pub fn encode(&self) -> (r: Vec<u8>)
        requires
            self.wf(),
        ensures
            r@ == self.encoding(),
    {
        proof {
            reveal(MovieBox::encoding);
            reveal(moov_box);
        }
        let mut payload: Vec<u8> = Vec::new();
        let mut mvhd = self.mvhd_box.encode();
        payload.append(&mut mvhd);
        let ghost head = payload@;
        let mut i: usize = 0;
        assert(self.trak_boxes@.take(0) =~= Seq::<TrackBox>::empty());
        while i < self.trak_boxes.len()
            invariant
                forall|k: int|
                    0 <= k < self.trak_boxes@.len() ==> (#[trigger] self.trak_boxes@[k]).wf(),
                i <= self.trak_boxes.len(),
                payload@ == head + concat_all(self.trak_boxes@.take(i as int), trak_enc()),
            decreases self.trak_boxes.len() - i,
        {
            proof {
                lemma_concat_all_step(self.trak_boxes@, trak_enc(), i as int);
            }
            let mut trak = self.trak_boxes[i].encode();
            payload.append(&mut trak);
            i = i + 1;
            assert(payload@ =~= head + concat_all(self.trak_boxes@.take(i as int), trak_enc()));
        }
        assert(self.trak_boxes@.take(i as int) =~= self.trak_boxes@);
        let mut mvex = self.mvex_box.encode();
        payload.append(&mut mvex);
        plain_box_of(MOOV, payload)
    }
}

/// An initialization segment: the file type and the movie.
#[derive(Clone, Debug)]
pub struct InitializationSegment {
    pub moov_box: MovieBox,
}

impl InitializationSegment {
    pub open spec fn wf(&self) -> bool {
        self.moov_box.wf()
    }

    pub open spec fn encoding(&self) -> Seq<u8> {
        ftyp_encoding() + self.moov_box.encoding()
    }

    pub fn encode(&self) -> (r: Vec<u8>)
        requires
            self.wf(),
        ensures
            r@ == self.encoding(),
    {
        let mut out = encode_ftyp();
        let mut moov = self.moov_box.encode();
        out.append(&mut moov);
        out
    }
}

} // verus!
