//! The AAC decoder of the `fdk_aac` crate, as verified code sees it.
//!
//! What the decoder gives depends on everything it was fed before, so
//! nothing is claimed of its results but what the types force.
use fdk_aac::dec::{Decoder, DecoderError, Transport};
use vstd::prelude::*;

verus! {

/// `fdk_aac::dec::Decoder`: the state of one AAC decoder.
#[verifier::external_type_specification]
#[verifier::external_body]
pub struct ExDecoder(fdk_aac::dec::Decoder);

/// `fdk_aac::dec::DecoderError`: the error code of a failed decoder call.
#[verifier::external_type_specification]
#[verifier::external_body]
pub struct ExDecoderError(fdk_aac::dec::DecoderError);

/// How the frames that a decoder is fed are framed: bare, or each behind an
/// ADTS header.
#[derive(Clone, Copy, PartialEq, Eq, Debug)]
pub enum Framing {
    Raw,
    Adts,
}

/// `Decoder::new`: a fresh decoder for input of the given framing.
#[verifier::external_body]
pub(crate) fn decoder_new(framing: Framing) -> Decoder {
    Decoder::new(
        match framing {
            Framing::Raw => Transport::Raw,
            Framing::Adts => Transport::Adts,
        },
    )
}

/// `Decoder::set_min_output_channels`: asks for at least `channels`
/// channels of output.
#[verifier::external_body]
pub(crate) fn decoder_set_min_output_channels(decoder: &mut Decoder, channels: usize) -> Result<
    (),
    DecoderError,
> {
    decoder.set_min_output_channels(channels)
}

/// `Decoder::set_max_output_channels`: asks for at most `channels` channels
/// of output.
#[verifier::external_body]
pub(crate) fn decoder_set_max_output_channels(decoder: &mut Decoder, channels: usize) -> Result<
    (),
    DecoderError,
> {
    decoder.set_max_output_channels(channels)
}

/// `Decoder::fill`: hands input to the decoder and gives the number of
/// bytes that it took.
#[verifier::external_body]
pub(crate) fn decoder_fill(decoder: &mut Decoder, data: &Vec<u8>) -> Result<usize, DecoderError> {
    decoder.fill(data)
}

/// `Decoder::decode_frame`: decodes one frame into `pcm`, which keeps its
/// length.
#[verifier::external_body]
pub(crate) fn decoder_decode_frame(decoder: &mut Decoder, pcm: &mut Vec<i16>) -> (r: Result<
    (),
    DecoderError,
>)
    ensures
        final(pcm)@.len() == old(pcm)@.len(),
{
    decoder.decode_frame(pcm)
}

/// The `sampleRate` of `Decoder::stream_info`: samples per second of the
/// decoded stream.
#[verifier::external_body]
pub(crate) fn decoder_sample_rate(decoder: &Decoder) -> i32 {
    decoder.stream_info().sampleRate
}

/// `Decoder::decoded_frame_size`: the number of samples, over all channels,
/// of the frame that was decoded last.
#[verifier::external_body]
pub(crate) fn decoder_decoded_frame_size(decoder: &Decoder) -> usize {
    decoder.decoded_frame_size()
}

} // verus!
