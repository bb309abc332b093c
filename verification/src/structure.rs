//! The file header and the field codecs.
//!
//! Each codec maps a small integer code, cut out of a bit-packed payload
//! byte, to a closed enumeration.  The permitted sets are sparse where the
//! format reserves values (sound formats 9, 12 and 13): the gaps are part of
//! the format contract and are rejected, not ranged over.
use vstd::prelude::*;

use crate::bytes::{be32, spec_be32};
use crate::error::Error;

verus! {

/// Number of bytes in the file header.
pub const HEADER_SIZE: usize = 9;
/// Number of bytes in a tag header.
pub const TAG_HEADER_SIZE: usize = 11;

/// The FLV file header: one per stream, decoded from its first 9 bytes.
#[derive(Clone, Debug, PartialEq, Eq, Structural)]
pub struct Header {
    /// File version byte, taken raw.
    pub version: u8,
    /// Bit 2 of the flags byte: the stream announces audio tags.
    pub has_audio: bool,
    /// Bit 0 of the flags byte: the stream announces video tags.
    pub has_video: bool,
    /// Byte offset of the first tag; 9 in conforming files, not enforced.
    pub data_offset: u32,
}

/// What [`Header::try_from`] returns for the first 9 bytes of a stream: the
/// decoded header when the stream opens with the ASCII signature `FLV`, and
/// a [`Error::Signature`] carrying the three offending bytes otherwise.
pub open spec fn spec_header(s: Seq<u8>) -> Result<Header, Error> {
    if s[0] == 0x46 && s[1] == 0x4c && s[2] == 0x56 {
        Ok(
            Header {
                version: s[3],
                has_audio: s[4] & 0x04 != 0,
                has_video: s[4] & 0x01 != 0,
                data_offset: spec_be32(s[5], s[6], s[7], s[8]),
            },
        )
    } else {
        Err(Error::Signature(s[0] as char, s[1] as char, s[2] as char))
    }
}

impl Header {
    /// Decodes the 9 header bytes at the front of `input`.
    pub fn try_from(input: &[u8]) -> (r: Result<Header, Error>)
        requires
            input@.len() >= 9,
        ensures
            r == spec_header(input@),
    {
        if input[0] == 0x46 && input[1] == 0x4c && input[2] == 0x56 {
            Ok(
                Header {
                    version: input[3],
                    has_audio: input[4] & 0x04 != 0,
                    has_video: input[4] & 0x01 != 0,
                    data_offset: be32(input[5], input[6], input[7], input[8]),
                },
            )
        } else {
            Err(Error::Signature(input[0] as char, input[1] as char, input[2] as char))
        }
    }
}

/// Audio compression scheme, from bits 7-4 of an audio tag's first payload
/// byte.  Codes 9, 12 and 13 are reserved by the format and rejected.
#[derive(Clone, Copy, Debug, PartialEq, Eq, Structural)]
pub enum SoundFormat {
    LinearPCM,
    ADPCM,
    MP3,
    PCM,
    Nellymoser16KHzMono,
    Nellymoser8KHzMono,
    Nellymoser,
    G711A,
    G711U,
    AAC,
    Speex,
    MP38KHz,
    DeviceSpecificSound,
}

/// What [`SoundFormat::try_from`] returns for each code.
pub open spec fn spec_sound_format(value: u8) -> Result<SoundFormat, Error> {
    match value {
        0 => Ok(SoundFormat::LinearPCM),
        1 => Ok(SoundFormat::ADPCM),
        2 => Ok(SoundFormat::MP3),
        3 => Ok(SoundFormat::PCM),
        4 => Ok(SoundFormat::Nellymoser16KHzMono),
        5 => Ok(SoundFormat::Nellymoser8KHzMono),
        6 => Ok(SoundFormat::Nellymoser),
        7 => Ok(SoundFormat::G711A),
        8 => Ok(SoundFormat::G711U),
        10 => Ok(SoundFormat::AAC),
        11 => Ok(SoundFormat::Speex),
        14 => Ok(SoundFormat::MP38KHz),
        15 => Ok(SoundFormat::DeviceSpecificSound),
        _ => Err(Error::InvalidSoundFormat(value)),
    }
}

impl SoundFormat {
    /// Decodes a sound-format code; reserved and out-of-range codes fail
    /// with [`Error::InvalidSoundFormat`] carrying the code.
    pub fn try_from(value: u8) -> (r: Result<SoundFormat, Error>)
        ensures
            r == spec_sound_format(value),
    {
        match value {
            0 => Ok(SoundFormat::LinearPCM),
            1 => Ok(SoundFormat::ADPCM),
            2 => Ok(SoundFormat::MP3),
            3 => Ok(SoundFormat::PCM),
            4 => Ok(SoundFormat::Nellymoser16KHzMono),
            5 => Ok(SoundFormat::Nellymoser8KHzMono),
            6 => Ok(SoundFormat::Nellymoser),
            7 => Ok(SoundFormat::G711A),
            8 => Ok(SoundFormat::G711U),
            10 => Ok(SoundFormat::AAC),
            11 => Ok(SoundFormat::Speex),
            14 => Ok(SoundFormat::MP38KHz),
            15 => Ok(SoundFormat::DeviceSpecificSound),
            _ => Err(Error::InvalidSoundFormat(value)),
        }
    }
}

/// Audio sample rate, from bits 3-2 of the audio header byte.
#[derive(Clone, Copy, Debug, PartialEq, Eq, Structural)]
pub enum SampleRate {
    _5KHz,
    _11KHz,
    _22KHz,
    _44KHz,
}

/// What [`SampleRate::try_from`] returns for each code.
pub open spec fn spec_sample_rate(value: u8) -> Result<SampleRate, Error> {
    match value {
        0 => Ok(SampleRate::_5KHz),
        1 => Ok(SampleRate::_11KHz),
        2 => Ok(SampleRate::_22KHz),
        3 => Ok(SampleRate::_44KHz),
        _ => Err(Error::InvalidSampleRate(value)),
    }
}

impl SampleRate {
    /// Decodes a sample-rate code; codes above 3 fail with
    /// [`Error::InvalidSampleRate`] carrying the code.
    pub fn try_from(value: u8) -> (r: Result<SampleRate, Error>)
        ensures
            r == spec_sample_rate(value),
    {
        match value {
            0 => Ok(SampleRate::_5KHz),
            1 => Ok(SampleRate::_11KHz),
            2 => Ok(SampleRate::_22KHz),
            3 => Ok(SampleRate::_44KHz),
            _ => Err(Error::InvalidSampleRate(value)),
        }
    }
}

/// Audio sample width, from bit 1 of the audio header byte.
#[derive(Clone, Copy, Debug, PartialEq, Eq, Structural)]
pub enum BitDepth {
    _8Bit,
    _16Bit,
}

/// What [`BitDepth::try_from`] returns for each code.
pub open spec fn spec_bit_depth(value: u8) -> Result<BitDepth, Error> {
    match value {
        0 => Ok(BitDepth::_8Bit),
        1 => Ok(BitDepth::_16Bit),
        _ => Err(Error::InvalidBitDepth(value)),
    }
}

impl BitDepth {
    /// Decodes a bit-depth code; codes above 1 fail with
    /// [`Error::InvalidBitDepth`] carrying the code.
    pub fn try_from(value: u8) -> (r: Result<BitDepth, Error>)
        ensures
            r == spec_bit_depth(value),
    {
        match value {
            0 => Ok(BitDepth::_8Bit),
            1 => Ok(BitDepth::_16Bit),
            _ => Err(Error::InvalidBitDepth(value)),
        }
    }
}

/// Channel layout, from bit 0 of the audio header byte.
#[derive(Clone, Copy, Debug, PartialEq, Eq, Structural)]
pub enum Channel {
    Mono,
    Stereo,
}

/// What [`Channel::try_from`] returns for each code.
pub open spec fn spec_channel(value: u8) -> Result<Channel, Error> {
    match value {
        0 => Ok(Channel::Mono),
        1 => Ok(Channel::Stereo),
        _ => Err(Error::InvalidChannel(value)),
    }
}

impl Channel {
    /// Decodes a channel code; codes above 1 fail with
    /// [`Error::InvalidChannel`] carrying the code.
    pub fn try_from(value: u8) -> (r: Result<Channel, Error>)
        ensures
            r == spec_channel(value),
    {
        match value {
            0 => Ok(Channel::Mono),
            1 => Ok(Channel::Stereo),
            _ => Err(Error::InvalidChannel(value)),
        }
    }
}

/// Kind of an AAC audio payload: codec configuration or a raw frame.
#[derive(Clone, Copy, Debug, PartialEq, Eq, Structural)]
pub enum AACPacketType {
    SequenceHeader,
    Raw,
}

/// What [`AACPacketType::try_from`] returns for each code.
pub open spec fn spec_aac_packet_type(value: u8) -> Result<AACPacketType, Error> {
    match value {
        0 => Ok(AACPacketType::SequenceHeader),
        1 => Ok(AACPacketType::Raw),
        _ => Err(Error::InvalidAACPacketType(value)),
    }
}

impl AACPacketType {
    /// Decodes an AAC packet-type byte; values above 1 fail with
    /// [`Error::InvalidAACPacketType`] carrying the value.
    pub fn try_from(value: u8) -> (r: Result<AACPacketType, Error>)
        ensures
            r == spec_aac_packet_type(value),
    {
        match value {
            0 => Ok(AACPacketType::SequenceHeader),
            1 => Ok(AACPacketType::Raw),
            _ => Err(Error::InvalidAACPacketType(value)),
        }
    }
}

/// Role of a video frame, from bits 7-4 of a video tag's first payload byte.
#[derive(Clone, Copy, Debug, PartialEq, Eq, Structural)]
pub enum FrameType {
    KeyFrame,
    InterFrame,
    DisposableInterFrame,
    GeneratedKeyFrame,
    InfoFrame,
}

/// What [`FrameType::try_from`] returns for each code.
pub open spec fn spec_frame_type(value: u8) -> Result<FrameType, Error> {
    match value {
        1 => Ok(FrameType::KeyFrame),
        2 => Ok(FrameType::InterFrame),
        3 => Ok(FrameType::DisposableInterFrame),
        4 => Ok(FrameType::GeneratedKeyFrame),
        5 => Ok(FrameType::InfoFrame),
        _ => Err(Error::InvalidVideoFrameType(value)),
    }
}

impl FrameType {
    /// Decodes a frame-type code; 0 and codes above 5 fail with
    /// [`Error::InvalidVideoFrameType`] carrying the code.
    pub fn try_from(value: u8) -> (r: Result<FrameType, Error>)
        ensures
            r == spec_frame_type(value),
    {
        match value {
            1 => Ok(FrameType::KeyFrame),
            2 => Ok(FrameType::InterFrame),
            3 => Ok(FrameType::DisposableInterFrame),
            4 => Ok(FrameType::GeneratedKeyFrame),
            5 => Ok(FrameType::InfoFrame),
            _ => Err(Error::InvalidVideoFrameType(value)),
        }
    }
}

/// Video compression scheme, from bits 3-0 of the video header byte.
#[derive(Clone, Copy, Debug, PartialEq, Eq, Structural)]
pub enum CodecId {
    JPEG,
    H263,
    ScreenVideo,
    VP6,
    VP6WithAlpha,
    ScreenVideo2,
    H264,
}

/// What [`CodecId::try_from`] returns for each code.
pub open spec fn spec_codec_id(value: u8) -> Result<CodecId, Error> {
    match value {
        1 => Ok(CodecId::JPEG),
        2 => Ok(CodecId::H263),
        3 => Ok(CodecId::ScreenVideo),
        4 => Ok(CodecId::VP6),
        5 => Ok(CodecId::VP6WithAlpha),
        6 => Ok(CodecId::ScreenVideo2),
        7 => Ok(CodecId::H264),
        _ => Err(Error::InvalidVideoCodecId(value)),
    }
}

impl CodecId {
    /// Decodes a codec-id code; 0 and codes above 7 fail with
    /// [`Error::InvalidVideoCodecId`] carrying the code.
    pub fn try_from(value: u8) -> (r: Result<CodecId, Error>)
        ensures
            r == spec_codec_id(value),
    {
        match value {
            1 => Ok(CodecId::JPEG),
            2 => Ok(CodecId::H263),
            3 => Ok(CodecId::ScreenVideo),
            4 => Ok(CodecId::VP6),
            5 => Ok(CodecId::VP6WithAlpha),
            6 => Ok(CodecId::ScreenVideo2),
            7 => Ok(CodecId::H264),
            _ => Err(Error::InvalidVideoCodecId(value)),
        }
    }
}

/// Kind of an AVC (H.264) video payload.
#[derive(Clone, Copy, Debug, PartialEq, Eq, Structural)]
pub enum AVCPacketType {
    SequenceHeader,
    NALUs,
    EndOfSequence,
}

/// What [`AVCPacketType::try_from`] returns for each code.
pub open spec fn spec_avc_packet_type(value: u8) -> Result<AVCPacketType, Error> {
    match value {
        0 => Ok(AVCPacketType::SequenceHeader),
        1 => Ok(AVCPacketType::NALUs),
        2 => Ok(AVCPacketType::EndOfSequence),
        _ => Err(Error::InvalidAVCPacketType(value)),
    }
}

impl AVCPacketType {
    /// Decodes an AVC packet-type byte; values above 2 fail with
    /// [`Error::InvalidAVCPacketType`] carrying the value.
    pub fn try_from(value: u8) -> (r: Result<AVCPacketType, Error>)
        ensures
            r == spec_avc_packet_type(value),
    {
        match value {
            0 => Ok(AVCPacketType::SequenceHeader),
            1 => Ok(AVCPacketType::NALUs),
            2 => Ok(AVCPacketType::EndOfSequence),
            _ => Err(Error::InvalidAVCPacketType(value)),
        }
    }
}

} // verus!
