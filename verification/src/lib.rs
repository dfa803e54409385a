//! Verified core of an MPEG-1/2/2.5 Layer III audio decoder.
//!
//! The crate covers the integer heart of the per-frame pipeline: frame-header
//! parsing and frame-size computation, Layer III side-information parsing,
//! the cross-frame bit reservoir, scale-factor decoding for both MPEG-1 and
//! MPEG-2/2.5, Huffman decoding of the spectral samples, and the integer
//! bookkeeping of the later DSP stages (requantization exponents, joint-stereo
//! planning, short-block reordering and frequency inversion). The
//! floating-point transforms that consume these results (IMDCT, windowing,
//! polyphase synthesis) live outside the verified library.

pub mod bits;
pub mod error;
pub mod header;
pub mod huffman;
pub mod maindata;
pub mod requantize;
pub mod reservoir;
pub mod scalefacs;
pub mod sideinfo;
pub mod spectral;
pub mod tables;
