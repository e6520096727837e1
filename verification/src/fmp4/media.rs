//! The boxes of a media segment: one `moof` followed by its `mdat` boxes.
use crate::fmp4::wire::{
    be32, be64, concat_all, flag, full_box, full_box_of, lemma_concat_all_step, opt_be32, plain_box, plain_box_of, put_bytes, put_i32, put_opt_u32,
    put_u32, put_u64, BOX_HEADER_SIZE, FULL_BOX_HEADER_SIZE,
};
use vstd::prelude::*;

verus! {

pub const MOOF: u32 = 0x6d6f_6f66;

pub const MFHD: u32 = 0x6d66_6864;

pub const TRAF: u32 = 0x7472_6166;

pub const TFHD: u32 = 0x7466_6864;

pub const TFDT: u32 = 0x7466_6474;

pub const TRUN: u32 = 0x7472_756e;

pub const MDAT: u32 = 0x6d64_6174;

/// The flags of one sample (ISO/IEC 14496-12, 8.8.8.1).
#[derive(Clone, Copy, Debug)]
pub struct SampleFlags {
    pub is_leading: u8,
    pub sample_depends_on: u8,
    pub sample_is_depended_on: u8,
    pub sample_has_redundancy: u8,
    pub sample_padding_value: u8,
    pub sample_is_non_sync_sample: bool,
    pub sample_degradation_priority: u16,
}

impl SampleFlags {
    /// Every field fits the bits that the format gives it.
    pub open spec fn wf(&self) -> bool {
        &&& self.is_leading < 4
        &&& self.sample_depends_on < 4
        &&& self.sample_is_depended_on < 4
        &&& self.sample_has_redundancy < 4
        &&& self.sample_padding_value < 8
    }

    /// The 32 bit word that holds the flags.
    pub open spec fn word(&self) -> int {
        self.is_leading * 0x400_0000 + self.sample_depends_on * 0x100_0000
            + self.sample_is_depended_on * 0x40_0000 + self.sample_has_redundancy * 0x10_0000
            + self.sample_padding_value * 0x2_0000 + flag(self.sample_is_non_sync_sample, 0x1_0000)
            + self.sample_degradation_priority
    }

    pub open spec fn encoding(&self) -> Seq<u8> {
        be32(self.word() as u32)
    }

    pub fn to_u32(&self) -> (r: u32)
        requires
            self.wf(),
        ensures
            r == self.word(),
    {
        let sync: u32 = if self.sample_is_non_sync_sample {
            0x1_0000
        } else {
            0
        };
        self.is_leading as u32 * 0x400_0000 + self.sample_depends_on as u32 * 0x100_0000
            + self.sample_is_depended_on as u32 * 0x40_0000 + self.sample_has_redundancy as u32
            * 0x10_0000 + self.sample_padding_value as u32 * 0x2_0000 + sync
            + self.sample_degradation_priority as u32
    }
}

/// The encoding of optional sample flags: nothing when absent.
pub open spec fn opt_flags(x: Option<SampleFlags>) -> Seq<u8> {
    match x {
        Some(f) => f.encoding(),
        None => Seq::empty(),
    }
}

/// Optional sample flags are well formed when absent or well formed.
pub open spec fn opt_flags_wf(x: Option<SampleFlags>) -> bool {
    match x {
        Some(f) => f.wf(),
        None => true,
    }
}

/// An optional signed field in two's complement.
pub open spec fn opt_be32_signed(x: Option<i32>) -> Seq<u8> {
    match x {
        Some(v) => be32(v as u32),
        None => Seq::empty(),
    }
}

fn put_opt_flags(out: &mut Vec<u8>, x: Option<SampleFlags>)
    requires
        opt_flags_wf(x),
    ensures
        final(out)@ == old(out)@ + opt_flags(x),
{
    match x {
        Some(f) => {
            put_u32(out, f.to_u32());
        },
        None => {
            assert(out@ =~= old(out)@ + opt_flags(x));
        },
    }
}

fn put_opt_i32(out: &mut Vec<u8>, x: Option<i32>)
    ensures
        final(out)@ == old(out)@ + opt_be32_signed(x),
{
    match x {
        Some(v) => {
            put_i32(out, v);
        },
        None => {
            assert(out@ =~= old(out)@ + opt_be32_signed(x));
        },
    }
}

/// One sample of a track run (ISO/IEC 14496-12, 8.8.8.2). The fields that
/// are present are written in this order: duration, size, flags,
/// composition time offset.
#[derive(Clone, Copy, Debug)]
pub struct Sample {
    pub duration: Option<u32>,
    pub size: Option<u32>,
    pub flags: Option<SampleFlags>,
    pub composition_time_offset: Option<i32>,
}

impl Sample {
    pub open spec fn wf(&self) -> bool {
        opt_flags_wf(self.flags)
    }

    /// The bits of the run's flags that say which fields each sample has.
    pub open spec fn box_flags(&self) -> int {
        flag(self.duration is Some, 0x100) + flag(self.size is Some, 0x200) + flag(
            self.flags is Some,
            0x400,
        ) + flag(self.composition_time_offset is Some, 0x800)
    }

    pub open spec fn encoding(&self) -> Seq<u8> {
        Seq::<u8>::empty() + opt_be32(self.duration) + opt_be32(self.size) + opt_flags(self.flags)
            + opt_be32_signed(self.composition_time_offset)
    }

    pub fn to_box_flags(&self) -> (r: u32)
        ensures
            r == self.box_flags(),
    {
        let mut r: u32 = 0;
        if self.duration.is_some() {
            r = r + 0x100;
        }
        if self.size.is_some() {
            r = r + 0x200;
        }
        if self.flags.is_some() {
            r = r + 0x400;
        }
        if self.composition_time_offset.is_some() {
            r = r + 0x800;
        }
        r
    }

    fn write(&self, out: &mut Vec<u8>)
        requires
            self.wf(),
        ensures
            final(out)@ == old(out)@ + self.encoding(),
    {
        let mut item: Vec<u8> = Vec::new();
        put_opt_u32(&mut item, self.duration);
        put_opt_u32(&mut item, self.size);
        put_opt_flags(&mut item, self.flags);
        put_opt_i32(&mut item, self.composition_time_offset);
        out.append(&mut item);
    }
}

/// A sample takes four bytes for each field that it has.
pub proof fn lemma_sample_len(s: Sample)
    ensures
        s.encoding().len() == 4 * (flag(s.duration is Some, 1) + flag(s.size is Some, 1) + flag(
            s.flags is Some,
            1,
        ) + flag(s.composition_time_offset is Some, 1)),
{
}

/// How a track run encodes one of its samples.
pub open spec fn sample_enc() -> spec_fn(Sample) -> Seq<u8> {
    |s: Sample| s.encoding()
}

/// Track fragment run box (ISO/IEC 14496-12, 8.8.8), version 1.
#[derive(Clone, Debug)]
pub struct TrackRunBox {
    pub data_offset: Option<i32>,
    pub first_sample_flags: Option<SampleFlags>,
    pub samples: Vec<Sample>,
}

/// The encoding of a track run from its fields and the encodings of its
/// samples: the sample count, the optional data offset and first sample
/// flags, then the samples.
#[verifier::opaque]
pub open spec fn trun_box(
    box_flags: int,
    sample_count: nat,
    data_offset: Option<i32>,
    first_sample_flags: Option<SampleFlags>,
    samples: Seq<u8>,
) -> Seq<u8> {
    full_box(
        TRUN,
        1,
        box_flags as u32,
        Seq::<u8>::empty() + be32(sample_count as u32) + opt_be32_signed(data_offset) + opt_flags(
            first_sample_flags,
        ) + samples,
    )
}

/// The length of a track run: its header, the count, the optional fields
/// and the samples.
pub proof fn lemma_trun_box_len(
    box_flags: int,
    sample_count: nat,
    data_offset: Option<i32>,
    first_sample_flags: Option<SampleFlags>,
    samples: Seq<u8>,
)
    ensures
        trun_box(box_flags, sample_count, data_offset, first_sample_flags, samples).len()
            == FULL_BOX_HEADER_SIZE + 4 + flag(data_offset is Some, 4) + flag(
            first_sample_flags is Some,
            4,
        ) + samples.len(),
{
    reveal(trun_box);
}

/// The flag bits of a track run whose samples have the fields `sample_flags`.
pub open spec fn trun_flags(
    data_offset: Option<i32>,
    first_sample_flags: Option<SampleFlags>,
    sample_flags: int,
) -> int {
    flag(data_offset is Some, 0x1) + flag(first_sample_flags is Some, 0x4) + sample_flags
}

impl TrackRunBox {
    /// The fields that the first sample has, or none for an empty run.
    pub open spec fn sample_flags(&self) -> int {
        if self.samples@.len() == 0 {
            0
        } else {
            self.samples@[0].box_flags()
        }
    }

    pub open spec fn box_flags(&self) -> int {
        trun_flags(self.data_offset, self.first_sample_flags, self.sample_flags())
    }

    #[verifier::opaque]
    pub open spec fn encoding(&self) -> Seq<u8> {
        trun_box(
            self.box_flags(),
            self.samples@.len(),
            self.data_offset,
            self.first_sample_flags,
            concat_all(self.samples@, sample_enc()),
        )
    }

    /// All samples hold the same fields, and the box fits a 32 bit size.
    pub open spec fn wf(&self) -> bool {
        &&& opt_flags_wf(self.first_sample_flags)
        &&& forall|i: int|
            0 <= i < self.samples@.len() ==> (#[trigger] self.samples@[i]).wf()
                && self.samples@[i].box_flags() == self.sample_flags()
        &&& self.encoding().len() <= u32::MAX
    }

    pub fn encode(&self) -> (r: Vec<u8>)
        requires
            self.wf(),
        ensures
            r@ == self.encoding(),
    {
        proof {
            reveal(TrackRunBox::encoding);
            reveal(trun_box);
        }
        let mut flags: u32 = 0;
        if self.data_offset.is_some() {
            flags = flags + 0x1;
        }
        if self.first_sample_flags.is_some() {
            flags = flags + 0x4;
        }
        if self.samples.len() > 0 {
            flags = flags + self.samples[0].to_box_flags();
        }
        let mut payload: Vec<u8> = Vec::new();
        put_u32(&mut payload, self.samples.len() as u32);
        put_opt_i32(&mut payload, self.data_offset);
        put_opt_flags(&mut payload, self.first_sample_flags);
        let ghost head = payload@;
        let mut i: usize = 0;
        assert(self.samples@.take(0) =~= Seq::<Sample>::empty());
        while i < self.samples.len()
            invariant
                forall|k: int|
                    0 <= k < self.samples@.len() ==> (#[trigger] self.samples@[k]).wf(),
                i <= self.samples.len(),
                payload@ == head + concat_all(self.samples@.take(i as int), sample_enc()),
            decreases self.samples.len() - i,
        {
            proof {
                lemma_concat_all_step(self.samples@, sample_enc(), i as int);
            }
            self.samples[i].write(&mut payload);
            i = i + 1;
            assert(payload@ =~= head + concat_all(self.samples@.take(i as int), sample_enc()));
        }
        assert(self.samples@.take(i as int) =~= self.samples@);
        full_box_of(TRUN, 1, flags, payload)
    }
}

/// Track fragment header box (ISO/IEC 14496-12, 8.8.7).
#[derive(Clone, Copy, Debug)]
pub struct TrackFragmentHeaderBox {
    pub track_id: u32,
    pub duration_is_empty: bool,
    pub default_base_is_moof: bool,
    pub base_data_offset: Option<u64>,
    pub sample_description_index: Option<u32>,
    pub default_sample_duration: Option<u32>,
    pub default_sample_size: Option<u32>,
    pub default_sample_flags: Option<SampleFlags>,
}

/// An optional 64 bit field: nothing when absent.
pub open spec fn opt_be64(x: Option<u64>) -> Seq<u8> {
    match x {
        Some(v) => be64(v),
        None => Seq::empty(),
    }
}

fn put_opt_u64(out: &mut Vec<u8>, x: Option<u64>)
    ensures
        final(out)@ == old(out)@ + opt_be64(x),
{
    match x {
        Some(v) => {
            put_u64(out, v);
        },
        None => {
            assert(out@ =~= old(out)@ + opt_be64(x));
        },
    }
}

impl TrackFragmentHeaderBox {
    pub open spec fn wf(&self) -> bool {
        opt_flags_wf(self.default_sample_flags)
    }

    pub open spec fn box_flags(&self) -> int {
        flag(self.base_data_offset is Some, 0x1) + flag(self.sample_description_index is Some, 0x2)
            + flag(self.default_sample_duration is Some, 0x8) + flag(
            self.default_sample_size is Some,
            0x10,
        ) + flag(self.default_sample_flags is Some, 0x20) + flag(self.duration_is_empty, 0x1_0000)
            + flag(self.default_base_is_moof, 0x2_0000)
    }

    pub open spec fn payload(&self) -> Seq<u8> {
        Seq::<u8>::empty() + be32(self.track_id) + opt_be64(self.base_data_offset) + opt_be32(
            self.sample_description_index,
        ) + opt_be32(self.default_sample_duration) + opt_be32(self.default_sample_size)
            + opt_flags(self.default_sample_flags)
    }

    pub open spec fn encoding(&self) -> Seq<u8> {
        full_box(TFHD, 0, self.box_flags() as u32, self.payload())
    }

    pub fn encode(&self) -> (r: Vec<u8>)
        requires
            self.wf(),
        ensures
            r@ == self.encoding(),
    {
        let mut flags: u32 = 0;
        if self.base_data_offset.is_some() {
            flags = flags + 0x1;
        }
        if self.sample_description_index.is_some() {
            flags = flags + 0x2;
        }
        if self.default_sample_duration.is_some() {
            flags = flags + 0x8;
        }
        if self.default_sample_size.is_some() {
            flags = flags + 0x10;
        }
        if self.default_sample_flags.is_some() {
            flags = flags + 0x20;
        }
        if self.duration_is_empty {
            flags = flags + 0x1_0000;
        }
        if self.default_base_is_moof {
            flags = flags + 0x2_0000;
        }
        let mut payload: Vec<u8> = Vec::new();
        put_u32(&mut payload, self.track_id);
        put_opt_u64(&mut payload, self.base_data_offset);
        put_opt_u32(&mut payload, self.sample_description_index);
        put_opt_u32(&mut payload, self.default_sample_duration);
        put_opt_u32(&mut payload, self.default_sample_size);
        put_opt_flags(&mut payload, self.default_sample_flags);
        full_box_of(TFHD, 0, flags, payload)
    }
}

/// Track fragment decode time box (ISO/IEC 14496-12, 8.8.12), version 0:
/// the decode time of the fragment's first sample, in the media's timescale.
#[derive(Clone, Copy, Debug)]
pub struct TrackFragmentBaseMediaDecodeTimeBox {
    pub base_media_decode_time: u32,
}

impl TrackFragmentBaseMediaDecodeTimeBox {
    pub open spec fn encoding(&self) -> Seq<u8> {
        full_box(TFDT, 0, 0, Seq::<u8>::empty() + be32(self.base_media_decode_time))
    }

    pub fn encode(&self) -> (r: Vec<u8>)
        ensures
            r@ == self.encoding(),
    {
        let mut payload: Vec<u8> = Vec::new();
        put_u32(&mut payload, self.base_media_decode_time);
        full_box_of(TFDT, 0, 0, payload)
    }
}

/// The encoding of an optional decode time box: nothing when absent.
pub open spec fn opt_tfdt(x: Option<TrackFragmentBaseMediaDecodeTimeBox>) -> Seq<u8> {
    match x {
        Some(b) => b.encoding(),
        None => Seq::empty(),
    }
}

/// Track fragment box (ISO/IEC 14496-12, 8.8.6).
#[derive(Clone, Debug)]
pub struct TrackFragmentBox {
    pub tfhd_box: TrackFragmentHeaderBox,
    pub tfdt_box: Option<TrackFragmentBaseMediaDecodeTimeBox>,
    pub trun_box: TrackRunBox,
}

/// The encoding of a track fragment from the encodings of its boxes.
#[verifier::opaque]
pub open spec fn traf_box(tfhd: Seq<u8>, tfdt: Seq<u8>, trun: Seq<u8>) -> Seq<u8> {
    plain_box(TRAF, Seq::<u8>::empty() + tfhd + tfdt + trun)
}

/// The length of a track fragment: its header and its boxes.
pub proof fn lemma_traf_box_len(tfhd: Seq<u8>, tfdt: Seq<u8>, trun: Seq<u8>)
    ensures
        traf_box(tfhd, tfdt, trun).len() == BOX_HEADER_SIZE + tfhd.len() + tfdt.len() + trun.len(),
{
    reveal(traf_box);
}

impl TrackFragmentBox {
    #[verifier::opaque]
    pub open spec fn encoding(&self) -> Seq<u8> {
        traf_box(self.tfhd_box.encoding(), opt_tfdt(self.tfdt_box), self.trun_box.encoding())
    }

    pub open spec fn wf(&self) -> bool {
        &&& self.tfhd_box.wf()
        &&& self.trun_box.wf()
        &&& self.encoding().len() <= u32::MAX
    }

    pub fn encode(&self) -> (r: Vec<u8>)
        requires
            self.wf(),
        ensures
            r@ == self.encoding(),
    {
        proof {
            reveal(TrackFragmentBox::encoding);
            reveal(traf_box);
        }
        let mut payload: Vec<u8> = Vec::new();
        let mut tfhd = self.tfhd_box.encode();
        payload.append(&mut tfhd);
        match self.tfdt_box {
            Some(b) => {
                let mut tfdt = b.encode();
                payload.append(&mut tfdt);
            },
            None => {
                assert(payload@ =~= payload@ + opt_tfdt(self.tfdt_box));
            },
        }
        let mut trun = self.trun_box.encode();
        payload.append(&mut trun);
        plain_box_of(TRAF, payload)
    }
}

/// How a movie fragment encodes one of its track fragments.
pub open spec fn traf_enc() -> spec_fn(TrackFragmentBox) -> Seq<u8> {
    |t: TrackFragmentBox| t.encoding()
}

/// Movie fragment header box (ISO/IEC 14496-12, 8.8.5).
#[derive(Clone, Copy, Debug)]
pub struct MovieFragmentHeaderBox {
    pub sequence_number: u32,
}

impl MovieFragmentHeaderBox {
    pub open spec fn encoding(&self) -> Seq<u8> {
        full_box(MFHD, 0, 0, Seq::<u8>::empty() + be32(self.sequence_number))
    }

    pub fn encode(&self) -> (r: Vec<u8>)
        ensures
            r@ == self.encoding(),
    {
        let mut payload: Vec<u8> = Vec::new();
        put_u32(&mut payload, self.sequence_number);
        full_box_of(MFHD, 0, 0, payload)
    }
}

/// Movie fragment box (ISO/IEC 14496-12, 8.8.4).
#[derive(Clone, Debug)]
pub struct MovieFragmentBox {
    pub mfhd_box: MovieFragmentHeaderBox,
    pub traf_boxes: Vec<TrackFragmentBox>,
}

/// The encoding of a movie fragment from the encodings of its header and
/// of its track fragments.
#[verifier::opaque]
pub open spec fn moof_box(mfhd: Seq<u8>, trafs: Seq<u8>) -> Seq<u8> {
    plain_box(MOOF, Seq::<u8>::empty() + mfhd + trafs)
}

/// The length of a movie fragment: its header and its boxes.
pub proof fn lemma_moof_box_len(mfhd: Seq<u8>, trafs: Seq<u8>)
    ensures
        moof_box(mfhd, trafs).len() == BOX_HEADER_SIZE + mfhd.len() + trafs.len(),
{
    reveal(moof_box);
}

impl MovieFragmentBox {
    #[verifier::opaque]
    pub open spec fn encoding(&self) -> Seq<u8> {
        moof_box(self.mfhd_box.encoding(), concat_all(self.traf_boxes@, traf_enc()))
    }

    /// At least one track fragment, each well formed, and the box fits a
    /// 32 bit size.
    pub open spec fn wf(&self) -> bool {
        &&& self.traf_boxes@.len() > 0
        &&& forall|i: int| 0 <= i < self.traf_boxes@.len() ==> (#[trigger] self.traf_boxes@[i]).wf()
        &&& self.encoding().len() <= u32::MAX
    }

    pub fn encode(&self) -> (r: Vec<u8>)
        requires
            self.wf(),
        ensures
            r@ == self.encoding(),
    {
        proof {
            reveal(MovieFragmentBox::encoding);
            reveal(moof_box);
        }
        let mut payload: Vec<u8> = Vec::new();
        let mut mfhd = self.mfhd_box.encode();
        payload.append(&mut mfhd);
        let ghost head = payload@;
        let mut i: usize = 0;
        assert(self.traf_boxes@.take(0) =~= Seq::<TrackFragmentBox>::empty());
        while i < self.traf_boxes.len()
            invariant
                forall|k: int|
                    0 <= k < self.traf_boxes@.len() ==> (#[trigger] self.traf_boxes@[k]).wf(),
                i <= self.traf_boxes.len(),
                payload@ == head + concat_all(self.traf_boxes@.take(i as int), traf_enc()),
            decreases self.traf_boxes.len() - i,
        {
            proof {
                lemma_concat_all_step(self.traf_boxes@, traf_enc(), i as int);
            }
            let mut traf = self.traf_boxes[i].encode();
            payload.append(&mut traf);
            i = i + 1;
            assert(payload@ =~= head + concat_all(self.traf_boxes@.take(i as int), traf_enc()));
        }
        assert(self.traf_boxes@.take(i as int) =~= self.traf_boxes@);
        plain_box_of(MOOF, payload)
    }

    /// The number of bytes that the box takes when written.
    pub fn box_size(&self) -> (r: u32)
        requires
            self.wf(),
        ensures
            r == self.encoding().len(),
    {
        let bytes = self.encode();
        bytes.len() as u32
    }
}

/// Media data box (ISO/IEC 14496-12, 8.1.1).
#[derive(Clone, Debug)]
pub struct MediaDataBox {
    pub data: Vec<u8>,
}

impl MediaDataBox {
    pub open spec fn wf(&self) -> bool {
        self.data@.len() + BOX_HEADER_SIZE <= u32::MAX
    }

    pub open spec fn encoding(&self) -> Seq<u8> {
        plain_box(MDAT, self.data@)
    }

    pub fn encode(&self) -> (r: Vec<u8>)
        requires
            self.wf(),
        ensures
            r@ == self.encoding(),
    {
        let mut payload: Vec<u8> = Vec::new();
        put_bytes(&mut payload, &self.data);
        assert(payload@ =~= self.data@);
        plain_box_of(MDAT, payload)
    }
}

/// How a media segment encodes one of its media data boxes.
pub open spec fn mdat_enc() -> spec_fn(MediaDataBox) -> Seq<u8> {
    |m: MediaDataBox| m.encoding()
}

/// A media segment: a movie fragment and the media data it describes.
#[derive(Clone, Debug)]
pub struct MediaSegment {
    pub moof_box: MovieFragmentBox,
    pub mdat_boxes: Vec<MediaDataBox>,
}

impl MediaSegment {
    /// A well formed fragment and at least one media data box, each well
    /// formed.
    pub open spec fn wf(&self) -> bool {
        &&& self.moof_box.wf()
        &&& self.mdat_boxes@.len() > 0
        &&& forall|i: int| 0 <= i < self.mdat_boxes@.len() ==> (#[trigger] self.mdat_boxes@[i]).wf()
    }

    pub open spec fn encoding(&self) -> Seq<u8> {
        self.moof_box.encoding() + concat_all(self.mdat_boxes@, mdat_enc())
    }

    pub fn encode(&self) -> (r: Vec<u8>)
        requires
            self.wf(),
        ensures
            r@ == self.encoding(),
    {
        let mut out = self.moof_box.encode();
        let ghost head = out@;
        let mut i: usize = 0;
        assert(self.mdat_boxes@.take(0) =~= Seq::<MediaDataBox>::empty());
        assert(out@ =~= head + concat_all(self.mdat_boxes@.take(0), mdat_enc()));
        while i < self.mdat_boxes.len()
            invariant
                forall|k: int|
                    0 <= k < self.mdat_boxes@.len() ==> (#[trigger] self.mdat_boxes@[k]).wf(),
                i <= self.mdat_boxes.len(),
                out@ == head + concat_all(self.mdat_boxes@.take(i as int), mdat_enc()),
            decreases self.mdat_boxes.len() - i,
        {
            proof {
                lemma_concat_all_step(self.mdat_boxes@, mdat_enc(), i as int);
            }
            let mut mdat = self.mdat_boxes[i].encode();
            out.append(&mut mdat);
            i = i + 1;
            assert(out@ =~= head + concat_all(self.mdat_boxes@.take(i as int), mdat_enc()));
        }
        assert(self.mdat_boxes@.take(i as int) =~= self.mdat_boxes@);
        out
    }
}

} // verus!
