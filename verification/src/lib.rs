//! Sample streams for uncompressed audio: sample types, frames, a growable
//! multi-channel buffer that can be overwritten or mixed into at any
//! position, and the byte-exact RIFF/WAVE encoding of such a buffer.

pub mod bytes;
pub mod container;
pub mod frame;
pub mod mixing;
pub mod sample;
pub mod wav;
