//! ISO BMFF boxes of fragmented MP4: what each box holds, its exact encoding
//! as a sequence of bytes, and writers proved to produce that encoding.
//!
//! The encoding of a box that holds other boxes is a function of the
//! encodings of those boxes. Such functions are kept from the solver until
//! a proof reveals them, so that a proof about a `moov` does not unfold
//! every box below it.
pub mod init;
pub mod media;
pub mod wire;
