//! Recording storage engine of a network video recorder: the sample-index
//! codec, playback segments, the per-stream writer and the directory syncer.

pub mod clock;
pub mod coding;
pub mod db;
pub mod digest;
pub mod dir;
pub mod error;
pub mod recording;
pub mod retention;
pub mod strutil;
pub mod syncer;
pub mod writer;
