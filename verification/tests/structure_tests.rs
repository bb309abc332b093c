use flv::error::Error;
use flv::structure::{
    AACPacketType, AVCPacketType, BitDepth, Channel, CodecId, FrameType, Header, SampleRate,
    SoundFormat,
};

#[test]
fn test_header() {
    let input: &[u8] = &[b'F', b'L', b'V', 0x01, 0x05, 0x00, 0x00, 0x00, 0x09];
    assert_eq!(
        Header::try_from(input).unwrap(),
        Header { version: 1, has_audio: true, has_video: true, data_offset: 9 }
    );
}

#[test]
fn test_signature_err() {
    let input: &[u8] = &[b'W', b'A', b'V', 0x01, 0x05, 0x00, 0x00, 0x00, 0x09];
    assert!(Header::try_from(input).is_err());
}

#[test]
fn test_signature_err_carries_bytes() {
    let input: &[u8] = &[b'W', b'A', b'V', 0x01, 0x05, 0x00, 0x00, 0x00, 0x09];
    assert!(matches!(Header::try_from(input), Err(Error::Signature('W', 'A', 'V'))));
}

#[test]
fn test_header_flag_bits() {
    let audio_only: &[u8] = &[b'F', b'L', b'V', 0x03, 0x04, 0x00, 0x00, 0x01, 0x00];
    let h = Header::try_from(audio_only).unwrap();
    assert_eq!(h, Header { version: 3, has_audio: true, has_video: false, data_offset: 256 });

    let video_only: &[u8] = &[b'F', b'L', b'V', 0x01, 0x01, 0x00, 0x00, 0x00, 0x09];
    let h = Header::try_from(video_only).unwrap();
    assert!(!h.has_audio);
    assert!(h.has_video);

    // reserved flag bits are ignored
    let reserved: &[u8] = &[b'F', b'L', b'V', 0x01, 0xfa, 0x00, 0x00, 0x00, 0x09];
    let h = Header::try_from(reserved).unwrap();
    assert!(!h.has_audio);
    assert!(!h.has_video);
}

#[test]
fn test_sound_format_codes() {
    assert_eq!(SoundFormat::try_from(0).unwrap(), SoundFormat::LinearPCM);
    assert_eq!(SoundFormat::try_from(2).unwrap(), SoundFormat::MP3);
    assert_eq!(SoundFormat::try_from(7).unwrap(), SoundFormat::G711A);
    assert_eq!(SoundFormat::try_from(8).unwrap(), SoundFormat::G711U);
    assert_eq!(SoundFormat::try_from(10).unwrap(), SoundFormat::AAC);
    assert_eq!(SoundFormat::try_from(11).unwrap(), SoundFormat::Speex);
    assert_eq!(SoundFormat::try_from(14).unwrap(), SoundFormat::MP38KHz);
    assert_eq!(SoundFormat::try_from(15).unwrap(), SoundFormat::DeviceSpecificSound);
    // the reserved gaps are part of the format contract
    assert!(matches!(SoundFormat::try_from(9), Err(Error::InvalidSoundFormat(9))));
    assert!(matches!(SoundFormat::try_from(12), Err(Error::InvalidSoundFormat(12))));
    assert!(matches!(SoundFormat::try_from(13), Err(Error::InvalidSoundFormat(13))));
    assert!(matches!(SoundFormat::try_from(16), Err(Error::InvalidSoundFormat(16))));
}

#[test]
fn test_sample_rate_codes() {
    assert_eq!(SampleRate::try_from(0).unwrap(), SampleRate::_5KHz);
    assert_eq!(SampleRate::try_from(1).unwrap(), SampleRate::_11KHz);
    assert_eq!(SampleRate::try_from(2).unwrap(), SampleRate::_22KHz);
    assert_eq!(SampleRate::try_from(3).unwrap(), SampleRate::_44KHz);
    assert!(matches!(SampleRate::try_from(4), Err(Error::InvalidSampleRate(4))));
}

#[test]
fn test_bit_depth_codes() {
    assert_eq!(BitDepth::try_from(0).unwrap(), BitDepth::_8Bit);
    assert_eq!(BitDepth::try_from(1).unwrap(), BitDepth::_16Bit);
    assert!(matches!(BitDepth::try_from(2), Err(Error::InvalidBitDepth(2))));
}

#[test]
fn test_channel_codes() {
    assert_eq!(Channel::try_from(0).unwrap(), Channel::Mono);
    assert_eq!(Channel::try_from(1).unwrap(), Channel::Stereo);
    assert!(matches!(Channel::try_from(3), Err(Error::InvalidChannel(3))));
}

#[test]
fn test_aac_packet_type_codes() {
    assert_eq!(AACPacketType::try_from(0).unwrap(), AACPacketType::SequenceHeader);
    assert_eq!(AACPacketType::try_from(1).unwrap(), AACPacketType::Raw);
    assert!(matches!(AACPacketType::try_from(2), Err(Error::InvalidAACPacketType(2))));
}

#[test]
fn test_frame_type_codes() {
    assert_eq!(FrameType::try_from(1).unwrap(), FrameType::KeyFrame);
    assert_eq!(FrameType::try_from(2).unwrap(), FrameType::InterFrame);
    assert_eq!(FrameType::try_from(3).unwrap(), FrameType::DisposableInterFrame);
    assert_eq!(FrameType::try_from(4).unwrap(), FrameType::GeneratedKeyFrame);
    assert_eq!(FrameType::try_from(5).unwrap(), FrameType::InfoFrame);
    assert!(matches!(FrameType::try_from(0), Err(Error::InvalidVideoFrameType(0))));
    assert!(matches!(FrameType::try_from(6), Err(Error::InvalidVideoFrameType(6))));
}

#[test]
fn test_codec_id_codes() {
    assert_eq!(CodecId::try_from(1).unwrap(), CodecId::JPEG);
    assert_eq!(CodecId::try_from(2).unwrap(), CodecId::H263);
    assert_eq!(CodecId::try_from(3).unwrap(), CodecId::ScreenVideo);
    assert_eq!(CodecId::try_from(4).unwrap(), CodecId::VP6);
    assert_eq!(CodecId::try_from(5).unwrap(), CodecId::VP6WithAlpha);
    assert_eq!(CodecId::try_from(6).unwrap(), CodecId::ScreenVideo2);
    assert_eq!(CodecId::try_from(7).unwrap(), CodecId::H264);
    assert!(matches!(CodecId::try_from(0), Err(Error::InvalidVideoCodecId(0))));
    assert!(matches!(CodecId::try_from(8), Err(Error::InvalidVideoCodecId(8))));
}

#[test]
fn test_avc_packet_type_codes() {
    assert_eq!(AVCPacketType::try_from(0).unwrap(), AVCPacketType::SequenceHeader);
    assert_eq!(AVCPacketType::try_from(1).unwrap(), AVCPacketType::NALUs);
    assert_eq!(AVCPacketType::try_from(2).unwrap(), AVCPacketType::EndOfSequence);
    assert!(matches!(AVCPacketType::try_from(3), Err(Error::InvalidAVCPacketType(3))));
}

#[test]
fn test_be32() {
    assert_eq!(flv::bytes::be32(0x12, 0x34, 0x56, 0x78), 0x12345678);
    assert_eq!(flv::bytes::be32(0, 0, 0, 11), 11);
    assert_eq!(flv::bytes::be32(0xff, 0xff, 0xff, 0xff), u32::MAX);
}
