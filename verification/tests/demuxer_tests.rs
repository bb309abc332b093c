use flv::demuxer::{append, parse_tag, Observer, Parser};
use flv::error::Error;
use flv::structure::Header;
use flv::tag::Tag;

// --- stream construction helpers ---

fn header_bytes() -> Vec<u8> {
    // "FLV", version 1, audio + video, data offset 9, PreviousTagSize0 = 0
    vec![b'F', b'L', b'V', 0x01, 0x05, 0x00, 0x00, 0x00, 0x09, 0x00, 0x00, 0x00, 0x00]
}

fn tag_bytes(tag_type: u8, timestamp: u32, payload: &[u8]) -> Vec<u8> {
    let size = payload.len() as u32;
    let size_be = size.to_be_bytes();
    let ts_be = timestamp.to_be_bytes();
    let mut v = vec![tag_type, size_be[1], size_be[2], size_be[3]];
    // 24-bit timestamp with the high byte stored out of line as byte 7
    v.extend_from_slice(&[ts_be[1], ts_be[2], ts_be[3], ts_be[0]]);
    // stream id
    v.extend_from_slice(&[0x00, 0x00, 0x00]);
    v.extend_from_slice(payload);
    v.extend_from_slice(&(11 + size).to_be_bytes());
    v
}

fn sample_stream() -> Vec<u8> {
    let mut s = header_bytes();
    s.extend_from_slice(&tag_bytes(18, 0, &[0x02, 0x00, 0x0a])); // script
    s.extend_from_slice(&tag_bytes(8, 10, &[0x2f, 0xaa, 0xbb])); // MP3 audio
    s.extend_from_slice(&tag_bytes(9, 20, &[0x17, 0x01, 0xff, 0xff, 0xff, 0x09])); // AVC video
    s.extend_from_slice(&tag_bytes(8, 30, &[0xaf, 0x01, 0x11])); // AAC audio
    s
}

// --- observers ---

struct Collect {
    headers: Vec<Header>,
    tags: Vec<String>,
}

impl Collect {
    fn new() -> Collect {
        Collect { headers: Vec::new(), tags: Vec::new() }
    }
}

impl Observer for Collect {
    fn on_header(&mut self, header: &mut Header) -> Result<(), Error> {
        self.headers.push(header.clone());
        Ok(())
    }

    fn on_tag(&mut self, tag: &mut Tag) -> Result<(), Error> {
        let line = match tag {
            Tag::Audio(a) => format!(
                "A dts:{} sid:{} fmt:{:?} rate:{:?} depth:{:?} ch:{:?} pt:{:?} data:{:?}",
                a.timestamp, a.stream_id, a.sound_format, a.sample_rate, a.bit_depth, a.channel,
                a.packet_type, a.data()
            ),
            Tag::Video(v) => format!(
                "V dts:{} pts:{} sid:{} frame:{:?} codec:{:?} pt:{:?} data:{:?}",
                v.dts, v.pts, v.stream_id, v.frame_type, v.codec_id, v.packet_type, v.data()
            ),
            Tag::Script(s) => format!("S dts:{} sid:{} data:{:?}", s.timestamp, s.stream_id, s.data()),
        };
        self.tags.push(line);
        Ok(())
    }
}

struct RejectTags;

impl Observer for RejectTags {
    fn on_header(&mut self, _header: &mut Header) -> Result<(), Error> {
        Ok(())
    }

    fn on_tag(&mut self, _tag: &mut Tag) -> Result<(), Error> {
        Err(Error::TagType(0xee))
    }
}

// --- tests ---

#[test]
fn test_parser() {
    let mut p = Parser::new(Collect::new());
    p.input(&sample_stream()).unwrap();
    assert_eq!(
        p.observer().headers,
        vec![Header { version: 1, has_audio: true, has_video: true, data_offset: 9 }]
    );
    for tag in &p.observer().tags {
        println!("{:?}", tag);
    }
    assert_eq!(p.observer().tags.len(), 4);
}

#[test]
fn test_parser_record_order_and_fields() {
    let mut p = Parser::new(Collect::new());
    p.input(&sample_stream()).unwrap();
    let tags = &p.observer().tags;
    assert_eq!(tags.len(), 4);
    assert_eq!(tags[0], "S dts:0 sid:0 data:[2, 0, 10]");
    assert_eq!(
        tags[1],
        "A dts:10 sid:0 fmt:MP3 rate:_44KHz depth:_16Bit ch:Stereo pt:None data:[170, 187]"
    );
    // composition time 0xffffff = -1: pts = 20 - 1
    assert_eq!(tags[2], "V dts:20 pts:19 sid:0 frame:KeyFrame codec:H264 pt:Some(NALUs) data:[9]");
    assert_eq!(
        tags[3],
        "A dts:30 sid:0 fmt:AAC rate:_44KHz depth:_16Bit ch:Stereo pt:Some(Raw) data:[17]"
    );
}

#[test]
fn test_chunking_invariance() {
    let stream = sample_stream();

    let mut whole = Parser::new(Collect::new());
    whole.input(&stream).unwrap();

    // one byte at a time
    let mut bytewise = Parser::new(Collect::new());
    for b in &stream {
        bytewise.input(&[*b]).unwrap();
    }
    assert_eq!(whole.observer().headers, bytewise.observer().headers);
    assert_eq!(whole.observer().tags, bytewise.observer().tags);

    // ragged chunks
    let mut ragged = Parser::new(Collect::new());
    for chunk in stream.chunks(7) {
        ragged.input(chunk).unwrap();
    }
    assert_eq!(whole.observer().headers, ragged.observer().headers);
    assert_eq!(whole.observer().tags, ragged.observer().tags);
}

#[test]
fn test_header_end_to_end() {
    let mut p = Parser::new(Collect::new());
    p.input(&header_bytes()).unwrap();
    assert_eq!(
        p.observer().headers,
        vec![Header { version: 1, has_audio: true, has_video: true, data_offset: 9 }]
    );
    assert!(p.observer().tags.is_empty());
}

#[test]
fn test_signature_error() {
    let mut s = header_bytes();
    s[0] = b'W';
    s[1] = b'A';
    s[2] = b'V';
    let mut p = Parser::new(Collect::new());
    let r = p.input(&s);
    assert!(matches!(r, Err(Error::Signature('W', 'A', 'V'))));
    assert!(p.observer().headers.is_empty());
    assert!(p.observer().tags.is_empty());
}

#[test]
fn test_header_integrity_error() {
    let mut s = header_bytes();
    s[12] = 0x05; // PreviousTagSize0 must be 0
    let mut p = Parser::new(Collect::new());
    let r = p.input(&s);
    assert!(matches!(r, Err(Error::PreviousTagSize(5))));
}

#[test]
fn test_tag_integrity_error() {
    let mut s = header_bytes();
    let mut t = tag_bytes(8, 0, &[0x2f, 0xaa]);
    let wrong = t.len() - 1;
    t[wrong] = 0xff; // corrupt the trailing PreviousTagSize
    s.extend_from_slice(&t);
    let mut p = Parser::new(Collect::new());
    let r = p.input(&s);
    // expected 11 + 2 = 13; the error carries the value found
    assert!(matches!(r, Err(Error::PreviousTagSize(0xff))));
    assert_eq!(p.observer().headers.len(), 1);
    assert!(p.observer().tags.is_empty());
}

#[test]
fn test_invalid_tag_type_error() {
    let mut s = header_bytes();
    s.extend_from_slice(&tag_bytes(0x0a, 0, &[0x00]));
    let mut p = Parser::new(Collect::new());
    assert!(matches!(p.input(&s), Err(Error::TagType(10))));
}

#[test]
fn test_invalid_field_error_through_parser() {
    let mut s = header_bytes();
    s.extend_from_slice(&tag_bytes(8, 0, &[0x9f, 0x00])); // reserved sound format 9
    let mut p = Parser::new(Collect::new());
    assert!(matches!(p.input(&s), Err(Error::InvalidSoundFormat(9))));
}

#[test]
fn test_observer_rejection_aborts() {
    let mut p = Parser::new(RejectTags);
    let r = p.input(&sample_stream());
    assert!(matches!(r, Err(Error::TagType(0xee))));
}

#[test]
fn test_empty_input_is_ok() {
    let mut p = Parser::new(Collect::new());
    p.input(&[]).unwrap();
    assert!(p.observer().headers.is_empty());
}

#[test]
fn test_extended_timestamp_byte() {
    // timestamp 0x0100_0000 uses byte 7 as the most-significant byte
    let mut s = header_bytes();
    s.extend_from_slice(&tag_bytes(18, 0x0100_0000, &[0x01]));
    let mut p = Parser::new(Collect::new());
    p.input(&s).unwrap();
    assert_eq!(p.observer().tags[0], "S dts:16777216 sid:0 data:[1]");
}

#[test]
fn test_parse_tag_direct() {
    let t = tag_bytes(8, 0x123456, &[0x2f, 0x01, 0x02]);
    let tag = parse_tag(3, &t[..11], t[11..].to_vec()).unwrap();
    match tag {
        Tag::Audio(a) => {
            assert_eq!(a.timestamp, 0x123456);
            assert_eq!(a.data(), &[0x01, 0x02]);
        },
        _ => panic!("expected an audio tag"),
    }
}

#[test]
fn test_parse_tag_integrity() {
    let mut t = tag_bytes(8, 0, &[0x2f, 0x01]);
    let last = t.len() - 1;
    t[last] = 0x00;
    let r = parse_tag(2, &t[..11], t[11..].to_vec());
    assert!(matches!(r, Err(Error::PreviousTagSize(0))));
}

#[test]
fn test_append_counts() {
    let mut buf: Vec<u8> = Vec::new();
    // takes only what is needed to reach the target length
    assert_eq!(append(&mut buf, &[1, 2, 3, 4, 5], 3), 3);
    assert_eq!(buf, vec![1, 2, 3]);
    // takes everything when the target is further away
    let mut buf: Vec<u8> = vec![9];
    assert_eq!(append(&mut buf, &[1, 2], 13), 2);
    assert_eq!(buf, vec![9, 1, 2]);
    // a full buffer takes nothing
    let mut buf: Vec<u8> = vec![1, 2, 3];
    assert_eq!(append(&mut buf, &[4, 5], 3), 0);
    assert_eq!(buf, vec![1, 2, 3]);
}
