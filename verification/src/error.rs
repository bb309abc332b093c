//! Error taxonomy of the decoder.
//!
//! Every failure is fatal to the parse that raised it: nothing is retried or
//! downgraded internally.  Each field-validation variant carries the raw byte
//! that was rejected, so a caller can tell an unsupported codec from a
//! corrupt stream.
use vstd::prelude::*;

verus! {

/// Relies on `std::io::Error`: declared opaquely so that a transport error
/// raised by an external byte source can be carried through [`Error::IO`].
/// Nothing is assumed about its values.
#[verifier::external_type_specification]
#[verifier::external_body]
pub struct ExIoError(std::io::Error);

/// An I/O failure propagated from an external byte source.  The core decoder
/// never constructs one; it exists for the convenience of blocking readers
/// wrapped around [`crate::demuxer::Parser`].
#[derive(Debug)]
pub struct IOError(std::io::Error);

/// Everything that can go wrong while decoding an FLV stream.
#[derive(Debug)]
pub enum Error {
    /// A transport failure from an external byte source.
    IO(IOError),
    /// The stream does not begin with the ASCII signature `FLV`; carries the
    /// three offending bytes as characters.
    Signature(char, char, char),
    /// A trailing `PreviousTagSize` integrity field held the carried value,
    /// which differs from the size it had to equal.
    PreviousTagSize(u32),
    /// The tag header's type field is not audio (8), video (9) or script (18).
    TagType(u8),
    /// The audio header byte names a sound format outside the permitted set.
    InvalidSoundFormat(u8),
    /// The audio header byte names a sample rate outside 0..=3.
    InvalidSampleRate(u8),
    /// The audio header byte names a bit depth outside 0..=1.
    InvalidBitDepth(u8),
    /// The audio header byte names a channel layout outside 0..=1.
    InvalidChannel(u8),
    /// The AAC packet-type byte is neither 0 nor 1.
    InvalidAACPacketType(u8),
    /// The video header byte names a frame type outside 1..=5.
    InvalidVideoFrameType(u8),
    /// The video header byte names a codec id outside 1..=7.
    InvalidVideoCodecId(u8),
    /// The AVC packet-type byte is not one of 0, 1 or 2.
    InvalidAVCPacketType(u8),
}

impl From<std::io::Error> for Error {
    /// Wraps a transport error from an external byte source.
    fn from(e: std::io::Error) -> (r: Error) {
        Error::IO(IOError(e))
    }
}

impl vstd::std_specs::convert::FromSpecImpl<std::io::Error> for Error {
    open spec fn obeys_from_spec() -> bool {
        true
    }

    closed spec fn from_spec(e: std::io::Error) -> Error {
        Error::IO(IOError(e))
    }
}

} // verus!
