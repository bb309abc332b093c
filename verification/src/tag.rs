//! Tag records: the typed units of an FLV stream.
//!
//! A tag owns its raw body buffer (codec payload followed by the 4-byte
//! trailing integrity field) and exposes through [`Script::data`],
//! [`Audio::data`] and [`Video::data`] only the codec-relevant slice, with
//! the per-type header bytes and the integrity field trimmed off.
use vstd::prelude::*;
use vstd::slice::slice_subrange;

use crate::error::Error;
use crate::structure::{
    AACPacketType, AVCPacketType, BitDepth, Channel, CodecId, FrameType, SampleRate, SoundFormat,
    spec_aac_packet_type, spec_avc_packet_type, spec_bit_depth, spec_channel, spec_codec_id,
    spec_frame_type, spec_sample_rate, spec_sound_format,
};

verus! {

/// Discriminant of a tag, from the low 5 bits of the tag header's first
/// byte.  The top 3 bits (filter/encryption flags) are discarded unread.
#[derive(Debug, PartialEq, Eq, Structural)]
pub enum TagType {
    Audio,
    Video,
    Script,
}

/// What [`TagType::try_from`] returns for each code.
pub open spec fn spec_tag_type(value: u8) -> Result<TagType, Error> {
    match value {
        8 => Ok(TagType::Audio),
        9 => Ok(TagType::Video),
        18 => Ok(TagType::Script),
        _ => Err(Error::TagType(value)),
    }
}

impl TagType {
    /// Decodes a tag-type code; anything but 8, 9 or 18 fails with
    /// [`Error::TagType`] carrying the code.
    pub fn try_from(value: u8) -> (r: Result<TagType, Error>)
        ensures
            r == spec_tag_type(value),
    {
        match value {
            8 => Ok(TagType::Audio),
            9 => Ok(TagType::Video),
            18 => Ok(TagType::Script),
            _ => Err(Error::TagType(value)),
        }
    }
}

/// Mathematical image of a [`Script`] tag.
#[verifier::ext_equal]
pub ghost struct ScriptView {
    pub timestamp: u32,
    pub stream_id: u32,
    pub raw: Seq<u8>,
}

/// Mathematical image of an [`Audio`] tag.
#[verifier::ext_equal]
pub ghost struct AudioView {
    pub timestamp: u32,
    pub stream_id: u32,
    pub sound_format: SoundFormat,
    pub sample_rate: SampleRate,
    pub bit_depth: BitDepth,
    pub channel: Channel,
    pub packet_type: Option<AACPacketType>,
    pub raw: Seq<u8>,
}

/// Mathematical image of a [`Video`] tag.
#[verifier::ext_equal]
pub ghost struct VideoView {
    pub dts: u32,
    pub pts: u32,
    pub stream_id: u32,
    pub frame_type: FrameType,
    pub codec_id: CodecId,
    pub packet_type: Option<AVCPacketType>,
    pub raw: Seq<u8>,
}

/// Mathematical image of a [`Tag`].
#[verifier::ext_equal]
pub ghost enum TagView {
    Script(ScriptView),
    Audio(AudioView),
    Video(VideoView),
}

/// One decoded record of the stream body: an audio sample, a video sample,
/// or a script/metadata object.
#[derive(Debug)]
pub enum Tag {
    Script(Script),
    Audio(Audio),
    Video(Video),
}

impl View for Tag {
    type V = TagView;

    open spec fn view(&self) -> TagView {
        match self {
            Tag::Script(s) => TagView::Script(s@),
            Tag::Audio(a) => TagView::Audio(a@),
            Tag::Video(v) => TagView::Video(v@),
        }
    }
}

/// A script/metadata tag.  The payload is AMF-encoded and kept opaque; only
/// the trailing integrity field is trimmed by [`Script::data`].
#[derive(Debug)]
pub struct Script {
    /// Decoding timestamp in milliseconds, from the tag header.
    pub timestamp: u32,
    /// Stream id from the tag header; 0 in practice, not assumed.
    pub stream_id: u32,
    raw_data: Vec<u8>,
}

impl View for Script {
    type V = ScriptView;

    closed spec fn view(&self) -> ScriptView {
        ScriptView { timestamp: self.timestamp, stream_id: self.stream_id, raw: self.raw_data@ }
    }
}

impl Script {
    /// The payload with the trailing 4-byte integrity field trimmed off.
    pub fn data(&self) -> (r: &[u8])
        requires
            self@.raw.len() >= 4,
        ensures
            r@ == self@.raw.subrange(0, self@.raw.len() - 4),
    {
        slice_subrange(self.raw_data.as_slice(), 0, self.raw_data.len() - 4)
    }

    /// Length of the payload, the trailing integrity field not counted.
    pub fn len(&self) -> (r: usize)
        requires
            self@.raw.len() >= 4,
        ensures
            r == self@.raw.len() - 4,
    {
        self.raw_data.len() - 4
    }

    /// True when the payload is empty.
    pub fn is_empty(&self) -> (r: bool)
        requires
            self@.raw.len() >= 4,
        ensures
            r == (self@.raw.len() == 4),
    {
        self.len() == 0
    }

    /// Builds a script tag from its tag-header fields and raw body buffer
    /// (payload plus trailing integrity field), which it takes ownership of.
    pub fn from(value: (u32, u32, Vec<u8>)) -> (r: Script)
        ensures
            r@ == (ScriptView { timestamp: value.0, stream_id: value.1, raw: value.2@ }),
    {
        let (timestamp, stream_id, input) = value;
        Script { timestamp, stream_id, raw_data: input }
    }
}

/// What decoding an audio tag returns, given the tag-header fields and the
/// raw body (payload plus trailing integrity field).  Byte 0 packs
/// `[format:4][rate:2][depth:1][channel:1]`; when the format is AAC, byte 1
/// names the AAC packet type.  The first failing field decides the error.
pub open spec fn spec_audio(timestamp: u32, stream_id: u32, input: Seq<u8>) -> Result<
    AudioView,
    Error,
> {
    match spec_sound_format((input[0] >> 4) & 0x0f) {
        Err(e) => Err(e),
        Ok(sound_format) => match spec_sample_rate((input[0] >> 2) & 0x03) {
            Err(e) => Err(e),
            Ok(sample_rate) => match spec_bit_depth((input[0] >> 1) & 0x01) {
                Err(e) => Err(e),
                Ok(bit_depth) => match spec_channel(input[0] & 0x01) {
                    Err(e) => Err(e),
                    Ok(channel) => if sound_format == SoundFormat::AAC {
                        match spec_aac_packet_type(input[1]) {
                            Err(e) => Err(e),
                            Ok(packet_type) => Ok(
                                AudioView {
                                    timestamp,
                                    stream_id,
                                    sound_format,
                                    sample_rate,
                                    bit_depth,
                                    channel,
                                    packet_type: Some(packet_type),
                                    raw: input,
                                },
                            ),
                        }
                    } else {
                        Ok(
                            AudioView {
                                timestamp,
                                stream_id,
                                sound_format,
                                sample_rate,
                                bit_depth,
                                channel,
                                packet_type: None,
                                raw: input,
                            },
                        )
                    },
                },
            },
        },
    }
}

/// An audio tag: the codec parameters decoded from the first payload byte,
/// and the owned raw body.
#[derive(Debug)]
pub struct Audio {
    /// Decoding timestamp in milliseconds, from the tag header.
    pub timestamp: u32,
    /// Stream id from the tag header; 0 in practice, not assumed.
    pub stream_id: u32,
    /// Compression scheme, bits 7-4 of the first payload byte.
    pub sound_format: SoundFormat,
    /// Sample rate, bits 3-2 of the first payload byte.
    pub sample_rate: SampleRate,
    /// Sample width, bit 1 of the first payload byte.
    pub bit_depth: BitDepth,
    /// Channel layout, bit 0 of the first payload byte.
    pub channel: Channel,
    /// AAC packet kind from the second payload byte; present exactly when
    /// the sound format is AAC.
    pub packet_type: Option<AACPacketType>,
    raw_data: Vec<u8>,
}

impl View for Audio {
    type V = AudioView;

    closed spec fn view(&self) -> AudioView {
        AudioView {
            timestamp: self.timestamp,
            stream_id: self.stream_id,
            sound_format: self.sound_format,
            sample_rate: self.sample_rate,
            bit_depth: self.bit_depth,
            channel: self.channel,
            packet_type: self.packet_type,
            raw: self.raw_data@,
        }
    }
}

impl Audio {
    /// The codec payload: one header byte stripped from the front (two when
    /// the format is AAC), the trailing integrity field from the back.
    pub fn data(&self) -> (r: &[u8])
        requires
            self@.sound_format == SoundFormat::AAC ==> self@.raw.len() >= 6,
            self@.sound_format != SoundFormat::AAC ==> self@.raw.len() >= 5,
        ensures
            self@.sound_format == SoundFormat::AAC ==> r@ == self@.raw.subrange(
                2,
                self@.raw.len() - 4,
            ),
            self@.sound_format != SoundFormat::AAC ==> r@ == self@.raw.subrange(
                1,
                self@.raw.len() - 4,
            ),
    {
        if self.is_aac() {
            slice_subrange(self.raw_data.as_slice(), 2, self.raw_data.len() - 4)
        } else {
            slice_subrange(self.raw_data.as_slice(), 1, self.raw_data.len() - 4)
        }
    }

    /// Length of the payload, the trailing integrity field not counted.
    pub fn len(&self) -> (r: usize)
        requires
            self@.raw.len() >= 4,
        ensures
            r == self@.raw.len() - 4,
    {
        self.raw_data.len() - 4
    }

    /// True when the payload is empty.
    pub fn is_empty(&self) -> (r: bool)
        requires
            self@.raw.len() >= 4,
        ensures
            r == (self@.raw.len() == 4),
    {
        self.len() == 0
    }

    /// True when the sound format is AAC.
    pub fn is_aac(&self) -> (r: bool)
        ensures
            r == (self@.sound_format == SoundFormat::AAC),
    {
        self.sound_format == SoundFormat::AAC
    }

    /// Decodes an audio tag from its tag-header fields and raw body buffer
    /// (payload plus trailing integrity field), which it takes ownership of.
    pub fn try_from(value: (u32, u32, Vec<u8>)) -> (r: Result<Audio, Error>)
        requires
            value.2@.len() >= 1,
            (value.2@[0] >> 4) & 0x0f == 10 ==> value.2@.len() >= 2,
        ensures
            (match r {
                Ok(a) => spec_audio(value.0, value.1, value.2@) == Ok::<AudioView, Error>(a@),
                Err(e) => spec_audio(value.0, value.1, value.2@) == Err::<AudioView, Error>(e),
            }),
    {
        let (timestamp, stream_id, input) = value;
        let sound_format = match SoundFormat::try_from((input[0] >> 4) & 0x0f) {
            Ok(v) => v,
            Err(e) => { return Err(e); },
        };
        let sample_rate = match SampleRate::try_from((input[0] >> 2) & 0x03) {
            Ok(v) => v,
            Err(e) => { return Err(e); },
        };
        let bit_depth = match BitDepth::try_from((input[0] >> 1) & 0x01) {
            Ok(v) => v,
            Err(e) => { return Err(e); },
        };
        let channel = match Channel::try_from(input[0] & 0x01) {
            Ok(v) => v,
            Err(e) => { return Err(e); },
        };
        let mut packet_type = None;
        if sound_format == SoundFormat::AAC {
            packet_type = match AACPacketType::try_from(input[1]) {
                Ok(v) => Some(v),
                Err(e) => { return Err(e); },
            };
        }
        Ok(
            Audio {
                timestamp,
                stream_id,
                sound_format,
                sample_rate,
                bit_depth,
                channel,
                packet_type,
                raw_data: input,
            },
        )
    }
}

/// Invalid field isolation: an audio payload whose first byte names the
/// reserved sound format 9 fails with [`Error::InvalidSoundFormat`]
/// carrying 9, whatever the remaining bytes hold.
pub proof fn lemma_reserved_sound_format_rejected(timestamp: u32, stream_id: u32, input: Seq<u8>)
    requires
        (input[0] >> 4) & 0x0f == 9,
    ensures
        spec_audio(timestamp, stream_id, input) == Err::<AudioView, Error>(
            Error::InvalidSoundFormat(9),
        ),
{
}

/// The composition-time offset in milliseconds encoded by the three bytes
/// `b1 b2 b3`: the low 24 bits of a two's-complement value, so an offset
/// with bit 23 set is negative.
pub open spec fn spec_cts_offset(b1: u8, b2: u8, b3: u8) -> int {
    let v = b1 * 0x1_0000 + b2 * 0x100 + b3;
    if v >= 0x80_0000 {
        v - 0x100_0000
    } else {
        v
    }
}

/// The presentation timestamp: `dts` plus the signed composition-time
/// offset in `b1 b2 b3`, wrapped into 32 bits.
pub open spec fn spec_pts(dts: u32, b1: u8, b2: u8, b3: u8) -> u32 {
    let s = dts + spec_cts_offset(b1, b2, b3);
    if s < 0 {
        (s + 0x1_0000_0000) as u32
    } else if s > u32::MAX {
        (s - 0x1_0000_0000) as u32
    } else {
        s as u32
    }
}

/// What decoding a video tag returns, given the tag-header fields and the
/// raw body.  Byte 0 packs `[frame_type:4][codec_id:4]`; when the codec is
/// H.264, byte 1 names the AVC packet type and bytes 2-4 carry the signed
/// composition-time offset that turns `dts` into `pts`.
pub open spec fn spec_video(timestamp: u32, stream_id: u32, input: Seq<u8>) -> Result<
    VideoView,
    Error,
> {
    match spec_frame_type((input[0] >> 4) & 0x0f) {
        Err(e) => Err(e),
        Ok(frame_type) => match spec_codec_id(input[0] & 0x0f) {
            Err(e) => Err(e),
            Ok(codec_id) => if codec_id == CodecId::H264 {
                match spec_avc_packet_type(input[1]) {
                    Err(e) => Err(e),
                    Ok(packet_type) => Ok(
                        VideoView {
                            dts: timestamp,
                            pts: spec_pts(timestamp, input[2], input[3], input[4]),
                            stream_id,
                            frame_type,
                            codec_id,
                            packet_type: Some(packet_type),
                            raw: input,
                        },
                    ),
                }
            } else {
                Ok(
                    VideoView {
                        dts: timestamp,
                        pts: timestamp,
                        stream_id,
                        frame_type,
                        codec_id,
                        packet_type: None,
                        raw: input,
                    },
                )
            },
        },
    }
}

/// A video tag: the codec parameters decoded from the head of the payload,
/// and the owned raw body.
#[derive(Debug)]
pub struct Video {
    /// Decoding timestamp in milliseconds, from the tag header.
    pub dts: u32,
    /// Presentation timestamp: `dts` plus the signed composition-time
    /// offset when the codec is H.264, else equal to `dts`.
    pub pts: u32,
    /// Stream id from the tag header; 0 in practice, not assumed.
    pub stream_id: u32,
    /// Frame role, bits 7-4 of the first payload byte.
    pub frame_type: FrameType,
    /// Compression scheme, bits 3-0 of the first payload byte.
    pub codec_id: CodecId,
    /// AVC packet kind from the second payload byte; present exactly when
    /// the codec is H.264.
    pub packet_type: Option<AVCPacketType>,
    raw_data: Vec<u8>,
}

impl View for Video {
    type V = VideoView;

    closed spec fn view(&self) -> VideoView {
        VideoView {
            dts: self.dts,
            pts: self.pts,
            stream_id: self.stream_id,
            frame_type: self.frame_type,
            codec_id: self.codec_id,
            packet_type: self.packet_type,
            raw: self.raw_data@,
        }
    }
}

impl Video {
    /// The codec payload: one header byte stripped from the front (five
    /// when the codec is H.264: the type byte, the AVC packet-type byte and
    /// the three composition-time bytes), the trailing integrity field from
    /// the back.
    pub fn data(&self) -> (r: &[u8])
        requires
            self@.codec_id == CodecId::H264 ==> self@.raw.len() >= 9,
            self@.codec_id != CodecId::H264 ==> self@.raw.len() >= 5,
        ensures
            self@.codec_id == CodecId::H264 ==> r@ == self@.raw.subrange(
                5,
                self@.raw.len() - 4,
            ),
            self@.codec_id != CodecId::H264 ==> r@ == self@.raw.subrange(
                1,
                self@.raw.len() - 4,
            ),
    {
        if self.is_avc() {
            slice_subrange(self.raw_data.as_slice(), 5, self.raw_data.len() - 4)
        } else {
            slice_subrange(self.raw_data.as_slice(), 1, self.raw_data.len() - 4)
        }
    }

    /// Length of the payload, the trailing integrity field not counted.
    pub fn len(&self) -> (r: usize)
        requires
            self@.raw.len() >= 4,
        ensures
            r == self@.raw.len() - 4,
    {
        self.raw_data.len() - 4
    }

    /// True when the payload is empty.
    pub fn is_empty(&self) -> (r: bool)
        requires
            self@.raw.len() >= 4,
        ensures
            r == (self@.raw.len() == 4),
    {
        self.len() == 0
    }

    /// True when the codec is H.264.
    pub fn is_avc(&self) -> (r: bool)
        ensures
            r == (self@.codec_id == CodecId::H264),
    {
        self.codec_id == CodecId::H264
    }

    /// Decodes a video tag from its tag-header fields and raw body buffer
    /// (payload plus trailing integrity field), which it takes ownership of.
    pub fn try_from(value: (u32, u32, Vec<u8>)) -> (r: Result<Video, Error>)
        requires
            value.2@.len() >= 1,
            (spec_frame_type((value.2@[0] >> 4) & 0x0f) is Ok && value.2@[0] & 0x0f == 7)
                ==> value.2@.len() >= 2,
            (spec_frame_type((value.2@[0] >> 4) & 0x0f) is Ok && value.2@[0] & 0x0f == 7
                && spec_avc_packet_type(value.2@[1]) is Ok) ==> value.2@.len() >= 5,
        ensures
            (match r {
                Ok(v) => spec_video(value.0, value.1, value.2@) == Ok::<VideoView, Error>(v@),
                Err(e) => spec_video(value.0, value.1, value.2@) == Err::<VideoView, Error>(e),
            }),
    {
        let (timestamp, stream_id, input) = value;
        let frame_type = match FrameType::try_from((input[0] >> 4) & 0x0f) {
            Ok(v) => v,
            Err(e) => { return Err(e); },
        };
        let codec_id = match CodecId::try_from(input[0] & 0x0f) {
            Ok(v) => v,
            Err(e) => { return Err(e); },
        };
        let mut packet_type = None;
        let mut pts = timestamp;
        if codec_id == CodecId::H264 {
            packet_type = match AVCPacketType::try_from(input[1]) {
                Ok(v) => Some(v),
                Err(e) => { return Err(e); },
            };
            pts = add_composition_time(timestamp, input[2], input[3], input[4]);
        }
        Ok(
            Video {
                dts: timestamp,
                pts,
                stream_id,
                frame_type,
                codec_id,
                packet_type,
                raw_data: input,
            },
        )
    }
}

/// Adds the signed composition-time offset encoded by `b1 b2 b3` to `dts`,
/// wrapping in 32 bits.
fn add_composition_time(dts: u32, b1: u8, b2: u8, b3: u8) -> (r: u32)
    ensures
        r == spec_pts(dts, b1, b2, b3),
{
    let v: u32 = (b1 as u32) * 0x1_0000 + (b2 as u32) * 0x100 + (b3 as u32);
    let ext: u32 = if v >= 0x80_0000 {
        v + 0xff00_0000
    } else {
        v
    };
    dts.wrapping_add(ext)
}

} // verus!
