use vstd::prelude::*;

verus! {

/// Errors raised while decoding a frame.
///
/// Only two kinds of failures exist: decode errors for malformed or invalid
/// bitstreams, and unsupported errors for features the decoder deliberately
/// does not implement ("free" bitrate mode and Layers I and II). I/O failures
/// belong to the byte source and never originate here.
#[derive(Clone, Copy, Debug, PartialEq, Eq, Structural)]
pub enum Error {
    /// Reserved MPEG version bits (01).
    InvalidVersion,
    /// Reserved MPEG layer bits (00).
    InvalidLayer,
    /// Bitrate index 1111.
    InvalidBitrate,
    /// Reserved sample-rate index (11).
    InvalidSampleRate,
    /// A Layer 2 bitrate that is not allowed for the mono channel mode.
    InvalidLayer2BitrateMono,
    /// A Layer 2 bitrate that is not allowed for a non-mono channel mode.
    InvalidLayer2BitrateStereo,
    /// Reserved emphasis bits (10).
    InvalidEmphasis,
    /// Window switching with block_type 00.
    InvalidBlockType,
    /// A granule declaring more than 288 big_values.
    BigValuesTooLarge,
    /// main_data_begin reaching back past the bytes held by the reservoir.
    InvalidMainDataBegin,
    /// Scale factors claiming more bits than part2_3_length grants.
    InvalidPart23Length,
    /// Intensity stereo with the two channels of a granule declaring
    /// different block types.
    BlockTypeMismatch,
    /// A read past the end of the available bits.
    BitstreamExhausted,
    /// A Huffman codeword that is truncated, exceeds its bit budget, or does
    /// not appear in the selected table.
    InvalidHuffmanCode,
    /// "Free" bitrate mode (bitrate index 0000).
    FreeBitrate,
    /// Layer I or Layer II data, which this decoder does not implement.
    UnsupportedLayer,
}

impl Error {
    /// True for the unsupported-feature kind, false for decode errors.
    pub open spec fn spec_is_unsupported(self) -> bool {
        self == Error::FreeBitrate || self == Error::UnsupportedLayer
    }

    /// Returns true if this is an unsupported-feature error rather than a
    /// decode error.
    pub fn is_unsupported(&self) -> (r: bool)
        ensures
            r == self.spec_is_unsupported(),
    {
        match self {
            Error::FreeBitrate => true,
            Error::UnsupportedLayer => true,
            _ => false,
        }
    }

    /// A human-readable description of the error.
    pub fn message(&self) -> (r: &'static str)
        ensures
            self == Error::InvalidVersion ==> r@ == "Invalid MPEG version."@,
            self == Error::InvalidLayer ==> r@ == "Invalid MPEG layer."@,
            self == Error::InvalidBitrate ==> r@ == "Invalid bit-rate."@,
            self == Error::InvalidSampleRate ==> r@ == "Invalid sample rate."@,
            self == Error::InvalidLayer2BitrateMono ==> r@
                == "Invalid Layer 2 bitrate for mono channel mode."@,
            self == Error::InvalidLayer2BitrateStereo ==> r@
                == "Invalid Layer 2 bitrate for non-mono channel mode."@,
            self == Error::InvalidEmphasis ==> r@ == "Invalid emphasis."@,
            self == Error::InvalidBlockType ==> r@ == "Invalid block_type."@,
            self == Error::BigValuesTooLarge ==> r@ == "Granule big_values > 288."@,
            self == Error::InvalidMainDataBegin ==> r@ == "Invalid main_data_begin offset."@,
            self == Error::InvalidPart23Length ==> r@ == "part2_3_length is not valid"@,
            self == Error::BlockTypeMismatch ==> r@
                == "stereo channel pair block_type mismatch"@,
            self == Error::BitstreamExhausted ==> r@ == "unexpected end of bitstream"@,
            self == Error::InvalidHuffmanCode ==> r@ == "invalid huffman code"@,
            self == Error::FreeBitrate ==> r@ == "Free bit-rate is not supported."@,
            self == Error::UnsupportedLayer ==> r@ == "Unsupported MPEG Layer."@,
    {
        match self {
            Error::InvalidVersion => "Invalid MPEG version.",
            Error::InvalidLayer => "Invalid MPEG layer.",
            Error::InvalidBitrate => "Invalid bit-rate.",
            Error::InvalidSampleRate => "Invalid sample rate.",
            Error::InvalidLayer2BitrateMono => "Invalid Layer 2 bitrate for mono channel mode.",
            Error::InvalidLayer2BitrateStereo => {
                "Invalid Layer 2 bitrate for non-mono channel mode."
            },
            Error::InvalidEmphasis => "Invalid emphasis.",
            Error::InvalidBlockType => "Invalid block_type.",
            Error::BigValuesTooLarge => "Granule big_values > 288.",
            Error::InvalidMainDataBegin => "Invalid main_data_begin offset.",
            Error::InvalidPart23Length => "part2_3_length is not valid",
            Error::BlockTypeMismatch => "stereo channel pair block_type mismatch",
            Error::BitstreamExhausted => "unexpected end of bitstream",
            Error::InvalidHuffmanCode => "invalid huffman code",
            Error::FreeBitrate => "Free bit-rate is not supported.",
            Error::UnsupportedLayer => "Unsupported MPEG Layer.",
        }
    }
}

} // verus!
