//! Live RTMP ingest and fragmented MP4 packaging.
//!
//! The crate turns the audio and video packets of a published RTMP stream
//! into timestamped frames with explicit key frame references, and packages
//! a frame stream into ISO BMFF initialization and media segments.
pub mod aac;
pub mod avc;
pub mod buf;
pub mod fmp4;
pub mod mp4;
pub mod rtmp;
pub mod source;
pub mod time;
pub mod video;
