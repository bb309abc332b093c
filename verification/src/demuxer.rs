//! The incremental parsing state machine.
//!
//! [`Parser::input`] accepts a byte stream in arbitrarily sized, arbitrarily
//! aligned chunks and never assumes a chunk boundary lands on a record
//! boundary: each call buffers exactly the bytes the current record still
//! needs and hands the remainder to the next phase.  Its behaviour is
//! specified against a byte-at-a-time reference machine ([`spec_step`],
//! [`spec_run`]), which consumes one byte per step; chunking invariance is
//! the statement that runs of that machine compose over concatenation
//! ([`lemma_run_append`]), so the decoded records depend only on the bytes
//! fed, never on how they were cut into chunks.
use vstd::prelude::*;
use vstd::slice::slice_subrange;

use crate::bytes::{be32, spec_be32};
use crate::error::Error;
use crate::structure::{spec_header, Header, HEADER_SIZE, TAG_HEADER_SIZE};
use crate::tag::{
    spec_audio, spec_tag_type, spec_video, Audio, Script, ScriptView, Tag, TagType, TagView, Video,
};

verus! {

/// Which record the parser is in the middle of accumulating.
#[derive(Clone, Copy, Debug, PartialEq, Eq, Structural)]
pub enum ParseState {
    /// Waiting for the 9 file-header bytes plus the 4-byte `PreviousTagSize0`.
    Header,
    /// Waiting for the 11 tag-header bytes.
    TagHeader,
    /// Waiting for the tag body plus its trailing 4-byte `PreviousTagSize`.
    TagAndPreviousTagSize,
}

/// One record as delivered to an observer.
#[verifier::ext_equal]
pub ghost enum RecordView {
    Header(Header),
    Tag(TagView),
}

/// The reference machine's state: the phase and the bytes accumulated for
/// each buffer.  `header_buf` keeps its 13 bytes once the header phase is
/// done; the two tag buffers are cleared after every completed tag.
#[verifier::ext_equal]
pub ghost struct MachineState {
    pub state: ParseState,
    pub header_buf: Seq<u8>,
    pub tag_size: nat,
    pub tag_header_buf: Seq<u8>,
    pub tag_body_buf: Seq<u8>,
}

/// The machine before any byte: awaiting the file header, all buffers empty.
pub open spec fn init_state() -> MachineState {
    MachineState {
        state: ParseState::Header,
        header_buf: Seq::empty(),
        tag_size: 0,
        tag_header_buf: Seq::empty(),
        tag_body_buf: Seq::empty(),
    }
}

/// What one byte does to the machine: the successor state, the record the
/// byte completed (if any), and the decode error it raised (if any).  A
/// nonzero `PreviousTagSize0` raises its error only after the header record
/// is emitted, mirroring that the header observer runs before that check.
#[verifier::ext_equal]
pub ghost struct StepResult {
    pub next: MachineState,
    pub record: Option<RecordView>,
    pub error: Option<Error>,
}

/// The accumulated outcome of a run: the final state, every record
/// completed in order, and the first decode error if one was reached.
#[verifier::ext_equal]
pub ghost struct RunResult {
    pub state: MachineState,
    pub records: Seq<RecordView>,
    pub error: Option<Error>,
}

/// The records a step emits: none or one.
pub open spec fn opt_rec(r: Option<RecordView>) -> Seq<RecordView> {
    match r {
        Some(x) => seq![x],
        None => Seq::empty(),
    }
}

/// The buffer the current phase accumulates into.
pub open spec fn spec_buf(st: MachineState) -> Seq<u8> {
    match st.state {
        ParseState::Header => st.header_buf,
        ParseState::TagHeader => st.tag_header_buf,
        ParseState::TagAndPreviousTagSize => st.tag_body_buf,
    }
}

/// How many bytes the current phase needs in its buffer before it can
/// complete: header plus `PreviousTagSize0`, a tag header, or the recorded
/// body size plus its trailing integrity field.
pub open spec fn spec_target(st: MachineState) -> int {
    match st.state {
        ParseState::Header => 13,
        ParseState::TagHeader => 11,
        ParseState::TagAndPreviousTagSize => st.tag_size + 4int,
    }
}

/// Replaces the current phase's buffer.
pub open spec fn with_buf(st: MachineState, b: Seq<u8>) -> MachineState {
    match st.state {
        ParseState::Header => MachineState { header_buf: b, ..st },
        ParseState::TagHeader => MachineState { tag_header_buf: b, ..st },
        ParseState::TagAndPreviousTagSize => MachineState { tag_body_buf: b, ..st },
    }
}

/// The states the machine can actually be in between bytes: the current
/// buffer is strictly short of its target, finished buffers hold what later
/// phases read, and the recorded body size is the one the tag header named.
pub open spec fn state_inv(st: MachineState) -> bool {
    match st.state {
        ParseState::Header => st.header_buf.len() < 13 && st.tag_header_buf.len() == 0
            && st.tag_body_buf.len() == 0,
        ParseState::TagHeader => st.tag_header_buf.len() < 11 && st.tag_body_buf.len() == 0,
        ParseState::TagAndPreviousTagSize => st.tag_header_buf.len() == 11 && st.tag_body_buf.len()
            < st.tag_size + 4 && st.tag_size == spec_be32(
            0,
            st.tag_header_buf[1],
            st.tag_header_buf[2],
            st.tag_header_buf[3],
        ) && st.tag_size <= 0xff_ffff,
    }
}

/// What [`parse_tag`] returns for a completed tag: the trailing integrity
/// field must equal 11 (the tag-header size) plus the body size, then the
/// low 5 bits of the tag header's first byte select the record decoder.
/// The timestamp is a 24-bit big-endian value whose most-significant
/// extension byte is stored out of line as byte 7 of the tag header.
pub open spec fn spec_parse_tag(size: int, tag_header: Seq<u8>, data: Seq<u8>) -> Result<
    TagView,
    Error,
> {
    let previous_tag_size = spec_be32(data[size], data[size + 1], data[size + 2], data[size + 3]);
    if previous_tag_size != size + 11 {
        Err(Error::PreviousTagSize(previous_tag_size))
    } else {
        match spec_tag_type(tag_header[0] & 0x1f) {
            Err(e) => Err(e),
            Ok(tag_type) => {
                let timestamp = spec_be32(tag_header[7], tag_header[4], tag_header[5], tag_header[6]);
                let stream_id = spec_be32(0, tag_header[8], tag_header[9], tag_header[10]);
                match tag_type {
                    TagType::Audio => match spec_audio(timestamp, stream_id, data) {
                        Ok(a) => Ok(TagView::Audio(a)),
                        Err(e) => Err(e),
                    },
                    TagType::Video => match spec_video(timestamp, stream_id, data) {
                        Ok(v) => Ok(TagView::Video(v)),
                        Err(e) => Err(e),
                    },
                    TagType::Script => Ok(
                        TagView::Script(ScriptView { timestamp, stream_id, raw: data }),
                    ),
                }
            },
        }
    }
}

/// One byte of the reference machine.  Short of the target the byte is only
/// buffered; the byte that reaches the target completes the record: the
/// header is decoded and emitted and `PreviousTagSize0` checked, a tag
/// header records its body size, a tag body is integrity-checked, decoded
/// and emitted.
pub open spec fn spec_step(st: MachineState, b: u8) -> StepResult {
    match st.state {
        ParseState::Header => {
            let hb = st.header_buf.push(b);
            if hb.len() < 13 {
                StepResult { next: with_buf(st, hb), record: None, error: None }
            } else {
                match spec_header(hb) {
                    Err(e) => StepResult { next: with_buf(st, hb), record: None, error: Some(e) },
                    Ok(h) => {
                        let previous_tag_size_0 = spec_be32(hb[9], hb[10], hb[11], hb[12]);
                        if previous_tag_size_0 != 0 {
                            StepResult {
                                next: with_buf(st, hb),
                                record: Some(RecordView::Header(h)),
                                error: Some(Error::PreviousTagSize(previous_tag_size_0)),
                            }
                        } else {
                            StepResult {
                                next: MachineState {
                                    state: ParseState::TagHeader,
                                    header_buf: hb,
                                    ..st
                                },
                                record: Some(RecordView::Header(h)),
                                error: None,
                            }
                        }
                    },
                }
            }
        },
        ParseState::TagHeader => {
            let thb = st.tag_header_buf.push(b);
            if thb.len() < 11 {
                StepResult { next: with_buf(st, thb), record: None, error: None }
            } else {
                StepResult {
                    next: MachineState {
                        state: ParseState::TagAndPreviousTagSize,
                        tag_header_buf: thb,
                        tag_size: spec_be32(0, thb[1], thb[2], thb[3]) as nat,
                        ..st
                    },
                    record: None,
                    error: None,
                }
            }
        },
        ParseState::TagAndPreviousTagSize => {
            let tbb = st.tag_body_buf.push(b);
            if tbb.len() < st.tag_size + 4 {
                StepResult { next: with_buf(st, tbb), record: None, error: None }
            } else {
                match spec_parse_tag(st.tag_size as int, st.tag_header_buf, tbb) {
                    Err(e) => StepResult { next: with_buf(st, tbb), record: None, error: Some(e) },
                    Ok(t) => StepResult {
                        next: MachineState {
                            state: ParseState::TagHeader,
                            tag_header_buf: Seq::empty(),
                            tag_body_buf: Seq::empty(),
                            ..st
                        },
                        record: Some(RecordView::Tag(t)),
                        error: None,
                    },
                }
            }
        },
    }
}

/// The reference machine run over a whole byte sequence, one byte per step,
/// stopping at the first decode error.
pub open spec fn spec_run(st: MachineState, input: Seq<u8>) -> RunResult
    decreases input.len(),
{
    if input.len() == 0 {
        RunResult { state: st, records: Seq::empty(), error: None }
    } else {
        let s = spec_step(st, input[0]);
        if s.error is Some {
            RunResult { state: s.next, records: opt_rec(s.record), error: s.error }
        } else {
            let rest = spec_run(s.next, input.skip(1));
            RunResult {
                state: rest.state,
                records: opt_rec(s.record) + rest.records,
                error: rest.error,
            }
        }
    }
}

/// The records the machine decodes from a stream fed from the start.
pub open spec fn spec_records(s: Seq<u8>) -> Seq<RecordView> {
    spec_run(init_state(), s).records
}

/// The first decode error the machine reaches on a stream fed from the
/// start, if it reaches one.
pub open spec fn spec_error(s: Seq<u8>) -> Option<Error> {
    spec_run(init_state(), s).error
}

/// Chunking invariance at the level of the reference machine: running over
/// a concatenation is running over the pieces in order.  Cutting a stream
/// after `s1` therefore changes neither the records, nor the error, nor the
/// final state; and past an error the remainder of the stream is dead.
pub proof fn lemma_run_append(st: MachineState, s1: Seq<u8>, s2: Seq<u8>)
    ensures
        spec_run(st, s1).error is None ==> spec_run(st, s1 + s2) == (RunResult {
            state: spec_run(spec_run(st, s1).state, s2).state,
            records: spec_run(st, s1).records + spec_run(spec_run(st, s1).state, s2).records,
            error: spec_run(spec_run(st, s1).state, s2).error,
        }),
        spec_run(st, s1).error is Some ==> spec_run(st, s1 + s2) == spec_run(st, s1),
    decreases s1.len(),
{
    if s1.len() == 0 {
        assert(s1 + s2 =~= s2);
        assert(spec_run(st, s1).records + spec_run(st, s2).records =~= spec_run(st, s2).records);
        assert(spec_run(st, s1 + s2) =~= RunResult {
            state: spec_run(spec_run(st, s1).state, s2).state,
            records: spec_run(st, s1).records + spec_run(spec_run(st, s1).state, s2).records,
            error: spec_run(spec_run(st, s1).state, s2).error,
        });
    } else {
        let s = spec_step(st, s1[0]);
        assert((s1 + s2)[0] == s1[0]);
        assert((s1 + s2).skip(1) =~= s1.skip(1) + s2);
        if s.error is Some {
        } else {
            lemma_run_append(s.next, s1.skip(1), s2);
            let rest1 = spec_run(s.next, s1.skip(1));
            if rest1.error is None {
                let restb = spec_run(rest1.state, s2);
                assert(opt_rec(s.record) + (rest1.records + restb.records) =~= (opt_rec(s.record)
                    + rest1.records) + restb.records);
                assert(spec_run(st, s1 + s2) =~= RunResult {
                    state: restb.state,
                    records: (opt_rec(s.record) + rest1.records) + restb.records,
                    error: restb.error,
                });
            } else {
                assert(spec_run(st, s1 + s2) =~= spec_run(st, s1));
            }
        }
    }
}

/// Every record decoded from a stream is still decoded, in the same place,
/// from any extension of that stream.
pub proof fn lemma_records_prefix(s1: Seq<u8>, s2: Seq<u8>)
    ensures
        spec_records(s1).is_prefix_of(spec_records(s1 + s2)),
{
    lemma_run_append(init_state(), s1, s2);
    assert(spec_records(s1 + s2).take(spec_records(s1).len() as int) =~= spec_records(s1));
}

/// Feeding bytes that leave the current buffer short of its target only
/// extends that buffer: no record, no error, same phase.
pub proof fn lemma_run_fill(st: MachineState, chunk: Seq<u8>)
    requires
        state_inv(st),
        spec_buf(st).len() + chunk.len() < spec_target(st),
    ensures
        spec_run(st, chunk) == (RunResult {
            state: with_buf(st, spec_buf(st) + chunk),
            records: Seq::<RecordView>::empty(),
            error: None,
        }),
        state_inv(with_buf(st, spec_buf(st) + chunk)),
    decreases chunk.len(),
{
    if chunk.len() == 0 {
        assert(spec_buf(st) + chunk =~= spec_buf(st));
        assert(with_buf(st, spec_buf(st) + chunk) =~= st);
    } else {
        let s = spec_step(st, chunk[0]);
        let st1 = with_buf(st, spec_buf(st).push(chunk[0]));
        assert(s == StepResult { next: st1, record: None, error: None });
        assert(state_inv(st1));
        lemma_run_fill(st1, chunk.skip(1));
        assert(spec_buf(st1) + chunk.skip(1) =~= spec_buf(st) + chunk);
        assert(with_buf(st1, spec_buf(st1) + chunk.skip(1)) =~= with_buf(
            st,
            spec_buf(st) + chunk,
        ));
        assert(opt_rec(s.record) + Seq::<RecordView>::empty() =~= Seq::<RecordView>::empty());
        assert(spec_run(st, chunk) =~= RunResult {
            state: with_buf(st, spec_buf(st) + chunk),
            records: Seq::<RecordView>::empty(),
            error: None,
        });
    }
}

/// Feeding exactly the bytes the current buffer still needs runs the
/// machine to the completion step on the last byte, with the buffer full.
pub proof fn lemma_run_complete(st: MachineState, chunk: Seq<u8>)
    requires
        state_inv(st),
        chunk.len() >= 1,
        spec_buf(st).len() + chunk.len() == spec_target(st),
    ensures
        ({
            let full_st = with_buf(st, spec_buf(st) + chunk.take(chunk.len() - 1));
            let s = spec_step(full_st, chunk.last());
            spec_run(st, chunk) == (RunResult {
                state: s.next,
                records: opt_rec(s.record),
                error: s.error,
            })
        }),
{
    let a = chunk.take(chunk.len() - 1);
    let b = chunk.last();
    lemma_run_fill(st, a);
    let full_st = with_buf(st, spec_buf(st) + a);
    lemma_run_append(st, a, seq![b]);
    assert(a + seq![b] =~= chunk);
    let s = spec_step(full_st, b);
    assert(seq![b][0] == b);
    assert(seq![b].skip(1) =~= Seq::<u8>::empty());
    if s.error is Some {
        assert(spec_run(full_st, seq![b]) =~= RunResult {
            state: s.next,
            records: opt_rec(s.record),
            error: s.error,
        });
    } else {
        assert(spec_run(s.next, seq![b].skip(1)) =~= RunResult {
            state: s.next,
            records: Seq::<RecordView>::empty(),
            error: None,
        });
        assert(opt_rec(s.record) + Seq::<RecordView>::empty() =~= opt_rec(s.record));
        assert(spec_run(full_st, seq![b]) =~= RunResult {
            state: s.next,
            records: opt_rec(s.record),
            error: s.error,
        });
    }
    assert(Seq::<RecordView>::empty() + opt_rec(s.record) =~= opt_rec(s.record));
    assert(spec_run(st, chunk) =~= RunResult {
        state: s.next,
        records: opt_rec(s.record),
        error: s.error,
    });
}

/// Once the machine has erred on a prefix of a stream, the rest of the
/// stream is dead: the full stream shows the same error, the same records.
pub proof fn lemma_error_prefix(c: Seq<u8>, rest: Seq<u8>)
    requires
        spec_error(c) is Some,
    ensures
        spec_error(c + rest) == spec_error(c),
        spec_records(c + rest) == spec_records(c),
{
    lemma_run_append(init_state(), c, rest);
}

/// Integrity enforcement: a tag whose trailing `PreviousTagSize` bytes do
/// not encode `size + 11` decodes to a [`Error::PreviousTagSize`] carrying
/// the value found, whatever the rest of the bytes hold: the record is
/// never decoded.
pub proof fn lemma_integrity_enforced(size: int, tag_header: Seq<u8>, data: Seq<u8>)
    requires
        spec_be32(data[size], data[size + 1], data[size + 2], data[size + 3]) != size + 11,
    ensures
        spec_parse_tag(size, tag_header, data) == Err::<TagView, Error>(
            Error::PreviousTagSize(
                spec_be32(data[size], data[size + 1], data[size + 2], data[size + 3]),
            ),
        ),
{
}

/// Integrity enforcement at the header: when the 4 bytes after a valid
/// file header hold a nonzero `PreviousTagSize0`, the machine emits the
/// header record and halts with a [`Error::PreviousTagSize`] before any
/// tag.
pub proof fn lemma_header_integrity(s: Seq<u8>, h: Header)
    requires
        s.len() >= 13,
        spec_header(s.take(13)) == Ok::<Header, Error>(h),
        spec_be32(s[9], s[10], s[11], s[12]) != 0,
    ensures
        spec_error(s) == Some(Error::PreviousTagSize(spec_be32(s[9], s[10], s[11], s[12]))),
        spec_records(s) == seq![RecordView::Header(h)],
{
    let a = s.take(13);
    lemma_run_complete(init_state(), a);
    assert(spec_buf(init_state()) + a.take(12) =~= a.take(12));
    assert(with_buf(init_state(), a.take(12)).header_buf.push(a.last()) =~= a);
    assert(a[9] == s[9] && a[10] == s[10] && a[11] == s[11] && a[12] == s[12]);
    lemma_error_prefix(a, s.skip(13));
    assert(a + s.skip(13) =~= s);
}

/// Signature rejection: a stream whose first three bytes are not the ASCII
/// letters `FLV` fails with a [`Error::Signature`] carrying those bytes,
/// as soon as the 13 bytes of the header phase have arrived, and no record
/// is ever emitted.
pub proof fn lemma_signature_rejected(s: Seq<u8>)
    requires
        s.len() >= 13,
        !(s[0] == 0x46 && s[1] == 0x4c && s[2] == 0x56),
    ensures
        spec_error(s) == Some(Error::Signature(s[0] as char, s[1] as char, s[2] as char)),
        spec_records(s) == Seq::<RecordView>::empty(),
{
    let a = s.take(13);
    lemma_run_complete(init_state(), a);
    assert(spec_buf(init_state()) + a.take(12) =~= a.take(12));
    assert(with_buf(init_state(), a.take(12)).header_buf.push(a.last()) =~= a);
    assert(a[0] == s[0] && a[1] == s[1] && a[2] == s[2]);
    lemma_error_prefix(a, s.skip(13));
    assert(a + s.skip(13) =~= s);
}

/// Away from the header phase the machine never emits another header
/// record: everything it completes is a tag.
proof fn lemma_run_no_header_records(st: MachineState, input: Seq<u8>)
    requires
        st.state != ParseState::Header,
    ensures
        forall|i: int|
            0 <= i < spec_run(st, input).records.len() ==> spec_run(st, input).records[i] is Tag,
    decreases input.len(),
{
    if input.len() > 0 {
        let s = spec_step(st, input[0]);
        if s.error is None {
            lemma_run_no_header_records(s.next, input.skip(1));
        }
    }
}

/// The header record is delivered exactly once, first, before any tag: in
/// the records of any stream, position 0 is the file header and every later
/// position is a tag.
pub proof fn lemma_header_delivered_first(s: Seq<u8>)
    ensures
        spec_records(s).len() > 0 ==> spec_records(s)[0] is Header,
        forall|i: int| 1 <= i < spec_records(s).len() ==> spec_records(s)[i] is Tag,
{
    lemma_run_header_phase(init_state(), s);
}

/// In the header phase, the machine's records are empty or begin with the
/// one header record, every later record a tag.
proof fn lemma_run_header_phase(st: MachineState, input: Seq<u8>)
    requires
        st.state == ParseState::Header,
    ensures
        spec_run(st, input).records.len() > 0 ==> spec_run(st, input).records[0] is Header,
        forall|i: int|
            1 <= i < spec_run(st, input).records.len() ==> spec_run(st, input).records[i] is Tag,
    decreases input.len(),
{
    if input.len() > 0 {
        let s = spec_step(st, input[0]);
        if s.error is None {
            if s.next.state == ParseState::Header {
                lemma_run_header_phase(s.next, input.skip(1));
            } else {
                lemma_run_no_header_records(s.next, input.skip(1));
            }
        }
    }
}

/// Appends bytes from `data` to `buf` until `buf` holds `n` bytes or `data`
/// runs out, and says how many bytes it took.  This is the buffering
/// primitive that makes the parser chunk-boundary-agnostic: leftover input
/// stays with the caller for the next phase.
pub fn append(buf: &mut Vec<u8>, data: &[u8], n: usize) -> (r: usize)
    requires
        old(buf)@.len() <= n,
    ensures
        r == if data@.len() <= n - old(buf)@.len() {
            data@.len() as int
        } else {
            n - old(buf)@.len()
        },
        final(buf)@ == old(buf)@ + data@.take(r as int),
{
    let now = buf.len();
    let want = n - now;
    let take = if data.len() <= want {
        data.len()
    } else {
        want
    };
    let mut j: usize = 0;
    while j < take
        invariant
            j <= take,
            take <= data@.len(),
            buf@ =~= old(buf)@ + data@.take(j as int),
        decreases take - j,
    {
        buf.push(data[j]);
        assert(data@.take(j + 1int) =~= data@.take(j as int).push(data@[j as int]));
        j += 1;
    }
    assert(buf@ =~= old(buf)@ + data@.take(take as int));
    take
}

/// Decodes one completed tag: `tag_header` is the 11 tag-header bytes and
/// `data` the body of `size` bytes followed by the 4-byte trailing
/// `PreviousTagSize`, whose value must be `size + 11`.  The returned tag
/// takes ownership of `data`.
pub fn parse_tag(size: usize, tag_header: &[u8], data: Vec<u8>) -> (r: Result<Tag, Error>)
    requires
        tag_header@.len() == 11,
        data@.len() == size + 4,
        size + 11 <= usize::MAX,
    ensures
        (match r {
            Ok(t) => spec_parse_tag(size as int, tag_header@, data@) == Ok::<TagView, Error>(t@),
            Err(e) => spec_parse_tag(size as int, tag_header@, data@) == Err::<TagView, Error>(e),
        }),
{
    let previous_tag_size = be32(data[size], data[size + 1], data[size + 2], data[size + 3]);
    if previous_tag_size as usize != size + 11 {
        return Err(Error::PreviousTagSize(previous_tag_size));
    }
    let tag_type = match TagType::try_from(tag_header[0] & 0x1f) {
        Ok(t) => t,
        Err(e) => { return Err(e); },
    };
    let timestamp = be32(tag_header[7], tag_header[4], tag_header[5], tag_header[6]);
    let stream_id = be32(0, tag_header[8], tag_header[9], tag_header[10]);

    proof {
        if size == 0 {
            assert(data@[0] == 0);
            assert(((0u8 >> 4) & 0x0f) == 0) by (bit_vector);
        }
    }
    let tag = match tag_type {
        TagType::Audio => {
            let audio = match Audio::try_from((timestamp, stream_id, data)) {
                Ok(a) => a,
                Err(e) => { return Err(e); },
            };
            Tag::Audio(audio)
        },
        TagType::Video => {
            let video = match Video::try_from((timestamp, stream_id, data)) {
                Ok(v) => v,
                Err(e) => { return Err(e); },
            };
            Tag::Video(video)
        },
        TagType::Script => Tag::Script(Script::from((timestamp, stream_id, data))),
    };
    Ok(tag)
}

/// The caller-supplied hooks the parser drives: one call per decoded file
/// header, one per decoded tag, each invoked synchronously and in stream
/// order before the ingestion call returns.  Either hook may reject its
/// record by returning an error, which aborts the parse with that error.
pub trait Observer {
    /// Receives the decoded file header, exactly once, before any tag.
    fn on_header(&mut self, header: &mut Header) -> Result<(), Error>;

    /// Receives each decoded tag, in the order the tags appear in the
    /// stream.
    fn on_tag(&mut self, tag: &mut Tag) -> Result<(), Error>;
}

/// The incremental parser.  Feed it byte chunks with [`Parser::input`]; it
/// owns one buffer per record phase and an [`Observer`] that receives each
/// completed record.
pub struct Parser<O: Observer> {
    observer: O,
    state: ParseState,
    header_buf: Vec<u8>,
    tag_size: usize,
    tag_header_buf: Vec<u8>,
    tag_body_buf: Vec<u8>,
    consumed: Ghost<Seq<u8>>,
    delivered: Ghost<Seq<RecordView>>,
}

impl<O: Observer> Parser<O> {
    /// The reference-machine state the concrete buffers encode.
    pub closed spec fn machine(&self) -> MachineState {
        MachineState {
            state: self.state,
            header_buf: self.header_buf@,
            tag_size: self.tag_size as nat,
            tag_header_buf: self.tag_header_buf@,
            tag_body_buf: self.tag_body_buf@,
        }
    }

    /// Every byte this parser has consumed, over all calls to
    /// [`Parser::input`], in order.
    pub closed spec fn consumed(&self) -> Seq<u8> {
        self.consumed@
    }

    /// Every record handed to the observer so far, in delivery order.
    pub closed spec fn delivered(&self) -> Seq<RecordView> {
        self.delivered@
    }

    /// The stored observer.
    pub closed spec fn spec_observer(&self) -> O {
        self.observer
    }

    /// A parser that has not failed: the reference machine reaches no
    /// decode error on the bytes consumed so far, the concrete buffers
    /// encode exactly the machine's state, and the records delivered to
    /// the observer are exactly the machine's records.  A fatal error
    /// leaves the parser outside this predicate, and [`Parser::input`]
    /// requires it: after an error the parser is unusable for further
    /// input.
    pub closed spec fn wf(&self) -> bool {
        let r = spec_run(init_state(), self.consumed@);
        &&& r.error is None
        &&& r.state == self.machine()
        &&& state_inv(self.machine())
        &&& self.delivered@ == r.records
    }

    /// A fresh parser: awaiting the file header, nothing consumed, nothing
    /// delivered, its records to be handed to `observer`.
    pub fn new(observer: O) -> (r: Parser<O>)
        ensures
            r.wf(),
            r.consumed() == Seq::<u8>::empty(),
            r.delivered() == Seq::<RecordView>::empty(),
            r.spec_observer() == observer,
    {
        let r = Parser {
            observer,
            state: ParseState::Header,
            header_buf: Vec::with_capacity(HEADER_SIZE + 4),
            tag_size: 0,
            tag_header_buf: Vec::with_capacity(TAG_HEADER_SIZE),
            tag_body_buf: Vec::new(),
            consumed: Ghost(Seq::empty()),
            delivered: Ghost(Seq::empty()),
        };
        proof {
            assert(r.machine() =~= init_state());
        }
        r
    }

    /// Borrows the stored observer, e.g. to read what it accumulated.
    pub fn observer(&self) -> (r: &O)
        ensures
            r == self.spec_observer(),
    {
        &self.observer
    }

    /// Consumes bytes from `data[i..]` for the file-header phase: buffers
    /// up to the 13 bytes of header plus `PreviousTagSize0`, and on the byte
    /// that completes them decodes the header, hands it to the observer and
    /// checks the integrity field.  Returns how many bytes it took.
    fn phase_header(&mut self, data: &[u8], i: usize) -> (r: Result<usize, Error>)
        requires
            old(self).wf(),
            old(self).machine().state == ParseState::Header,
            i < data@.len(),
        ensures
            (match r {
                Ok(n) => {
                    &&& 1 <= n && i + n <= data@.len()
                    &&& final(self).wf()
                    &&& final(self).consumed@ == old(self).consumed@ + data@.subrange(
                        i as int,
                        i + n,
                    )
                    &&& old(self).delivered@.is_prefix_of(final(self).delivered@)
                },
                Err(e) => {
                    ||| spec_error(old(self).consumed@ + data@.skip(i as int)) == Some(e)
                    ||| spec_records(old(self).consumed@ + data@.skip(i as int)).len() > old(
                        self,
                    ).delivered@.len()
                },
            }),
    {
        let ghost c0 = self.consumed@;
        let ghost m0 = self.machine();
        let ghost s_all = old(self).consumed@ + data@.skip(i as int);
        let total = data.len();
        let n = append(&mut self.header_buf, slice_subrange(data, i, total), HEADER_SIZE + 4);
        let ghost chunk = data@.subrange(i as int, i + n);
        let ghost c1 = c0 + chunk;
        proof {
            assert(data@.subrange(i as int, total as int).take(n as int) =~= chunk);
            assert(self.header_buf@ == m0.header_buf + chunk);
            assert(c1 + data@.skip(i + n) =~= s_all);
            lemma_run_append(init_state(), c0, chunk);
        }
        if self.header_buf.len() == HEADER_SIZE + 4 {
            proof {
                lemma_run_complete(m0, chunk);
                assert(with_buf(m0, spec_buf(m0) + chunk.take(chunk.len() - 1)).header_buf.push(
                    chunk.last(),
                ) =~= self.header_buf@);
            }
            let mut header = match Header::try_from(self.header_buf.as_slice()) {
                Ok(h) => h,
                Err(e) => {
                    proof {
                        lemma_error_prefix(c1, data@.skip(i + n));
                    }
                    return Err(e);
                },
            };
            let ghost hrec = RecordView::Header(header);
            proof {
                assert(spec_run(init_state(), c1).records =~= spec_records(c0) + seq![hrec]);
                lemma_records_prefix(c1, data@.skip(i + n));
            }
            match self.observer.on_header(&mut header) {
                Ok(()) => {},
                Err(e) => {
                    proof {
                        assert(spec_records(s_all).len() >= spec_records(c1).len());
                    }
                    return Err(e);
                },
            }
            let previous_tag_size_0 = be32(
                self.header_buf[9],
                self.header_buf[10],
                self.header_buf[11],
                self.header_buf[12],
            );
            if previous_tag_size_0 != 0 {
                proof {
                    lemma_error_prefix(c1, data@.skip(i + n));
                }
                return Err(Error::PreviousTagSize(previous_tag_size_0));
            }
            self.state = ParseState::TagHeader;
            self.consumed = Ghost(c1);
            self.delivered = Ghost(self.delivered@ + seq![hrec]);
            proof {
                assert(self.machine() =~= spec_run(init_state(), c1).state);
            }
        } else {
            proof {
                lemma_run_fill(m0, chunk);
                assert(with_buf(m0, spec_buf(m0) + chunk) =~= self.machine());
                assert(spec_records(c0) + Seq::<RecordView>::empty() =~= spec_records(c0));
            }
            self.consumed = Ghost(c1);
        }
        Ok(n)
    }

    /// Consumes bytes from `data[i..]` for the tag-header phase: buffers up
    /// to the 11 tag-header bytes, and on the byte that completes them
    /// records the body size they name.  Returns how many bytes it took.
    fn phase_tag_header(&mut self, data: &[u8], i: usize) -> (n: usize)
        requires
            old(self).wf(),
            old(self).machine().state == ParseState::TagHeader,
            i < data@.len(),
        ensures
            1 <= n && i + n <= data@.len(),
            final(self).wf(),
            final(self).consumed@ == old(self).consumed@ + data@.subrange(i as int, i + n),
            final(self).delivered@ == old(self).delivered@,
    {
        let ghost c0 = self.consumed@;
        let ghost m0 = self.machine();
        let total = data.len();
        let n = append(&mut self.tag_header_buf, slice_subrange(data, i, total), TAG_HEADER_SIZE);
        let ghost chunk = data@.subrange(i as int, i + n);
        let ghost c1 = c0 + chunk;
        proof {
            assert(data@.subrange(i as int, total as int).take(n as int) =~= chunk);
            assert(self.tag_header_buf@ == m0.tag_header_buf + chunk);
            lemma_run_append(init_state(), c0, chunk);
        }
        if self.tag_header_buf.len() == TAG_HEADER_SIZE {
            proof {
                lemma_run_complete(m0, chunk);
                assert(with_buf(m0, spec_buf(m0) + chunk.take(chunk.len() - 1)).tag_header_buf.push(
                    chunk.last(),
                ) =~= self.tag_header_buf@);
            }
            let ts = be32(
                0,
                self.tag_header_buf[1],
                self.tag_header_buf[2],
                self.tag_header_buf[3],
            );
            self.tag_size = ts as usize;
            self.state = ParseState::TagAndPreviousTagSize;
            self.consumed = Ghost(c1);
            proof {
                assert(ts <= 0xff_ffff);
                assert(self.machine() =~= spec_run(init_state(), c1).state);
                assert(spec_records(c0) + Seq::<RecordView>::empty() =~= spec_records(c0));
            }
        } else {
            proof {
                lemma_run_fill(m0, chunk);
                assert(with_buf(m0, spec_buf(m0) + chunk) =~= self.machine());
                assert(spec_records(c0) + Seq::<RecordView>::empty() =~= spec_records(c0));
            }
            self.consumed = Ghost(c1);
        }
        n
    }

    /// Consumes bytes from `data[i..]` for the tag-body phase: buffers up
    /// to the body plus its trailing integrity field, and on the byte that
    /// completes them checks the integrity field, decodes the tag and hands
    /// it to the observer.  Returns how many bytes it took.
    fn phase_tag_body(&mut self, data: &[u8], i: usize) -> (r: Result<usize, Error>)
        requires
            old(self).wf(),
            old(self).machine().state == ParseState::TagAndPreviousTagSize,
            i < data@.len(),
        ensures
            (match r {
                Ok(n) => {
                    &&& 1 <= n && i + n <= data@.len()
                    &&& final(self).wf()
                    &&& final(self).consumed@ == old(self).consumed@ + data@.subrange(
                        i as int,
                        i + n,
                    )
                    &&& old(self).delivered@.is_prefix_of(final(self).delivered@)
                },
                Err(e) => {
                    ||| spec_error(old(self).consumed@ + data@.skip(i as int)) == Some(e)
                    ||| spec_records(old(self).consumed@ + data@.skip(i as int)).len() > old(
                        self,
                    ).delivered@.len()
                },
            }),
    {
        let ghost c0 = self.consumed@;
        let ghost m0 = self.machine();
        let ghost s_all = old(self).consumed@ + data@.skip(i as int);
        let total = data.len();
        let target = self.tag_size + 4;
        let n = append(&mut self.tag_body_buf, slice_subrange(data, i, total), target);
        let ghost chunk = data@.subrange(i as int, i + n);
        let ghost c1 = c0 + chunk;
        proof {
            assert(data@.subrange(i as int, total as int).take(n as int) =~= chunk);
            assert(self.tag_body_buf@ == m0.tag_body_buf + chunk);
            assert(c1 + data@.skip(i + n) =~= s_all);
            lemma_run_append(init_state(), c0, chunk);
        }
        if self.tag_body_buf.len() == target {
            proof {
                lemma_run_complete(m0, chunk);
                assert(with_buf(m0, spec_buf(m0) + chunk.take(chunk.len() - 1)).tag_body_buf.push(
                    chunk.last(),
                ) =~= self.tag_body_buf@);
            }
            let mut body: Vec<u8> = Vec::new();
            core::mem::swap(&mut body, &mut self.tag_body_buf);
            let mut tag = match parse_tag(self.tag_size, self.tag_header_buf.as_slice(), body) {
                Ok(t) => t,
                Err(e) => {
                    proof {
                        lemma_error_prefix(c1, data@.skip(i + n));
                    }
                    return Err(e);
                },
            };
            let ghost trec = RecordView::Tag(tag@);
            proof {
                assert(spec_run(init_state(), c1).records =~= spec_records(c0) + seq![trec]);
                lemma_records_prefix(c1, data@.skip(i + n));
            }
            match self.observer.on_tag(&mut tag) {
                Ok(()) => {},
                Err(e) => {
                    proof {
                        assert(spec_records(s_all).len() >= spec_records(c1).len());
                    }
                    return Err(e);
                },
            }
            self.state = ParseState::TagHeader;
            self.tag_header_buf.clear();
            self.consumed = Ghost(c1);
            self.delivered = Ghost(self.delivered@ + seq![trec]);
            proof {
                assert(self.machine() =~= spec_run(init_state(), c1).state);
            }
        } else {
            proof {
                lemma_run_fill(m0, chunk);
                assert(with_buf(m0, spec_buf(m0) + chunk) =~= self.machine());
                assert(spec_records(c0) + Seq::<RecordView>::empty() =~= spec_records(c0));
            }
            self.consumed = Ghost(c1);
        }
        Ok(n)
    }

    /// Feeds the parser the next chunk of the stream.
    ///
    /// On `Ok`, the whole chunk was consumed, the reference machine
    /// reaches no decode error on everything consumed so far, and the
    /// observer has now been handed exactly the machine's records for
    /// those bytes, in order — so the records depend only on the
    /// concatenation of the chunks fed, never on the chunk boundaries.
    /// On `Err(e)`, either `e` is the machine's own first decode error for
    /// the total stream, or a newly completed record existed for the
    /// observer to reject.
    #[verifier::loop_isolation(false)]
    pub fn input(&mut self, data: &[u8]) -> (r: Result<(), Error>)
        requires
            old(self).wf(),
        ensures
            (match r {
                Ok(()) => {
                    &&& final(self).wf()
                    &&& final(self).consumed() == old(self).consumed() + data@
                    &&& spec_error(old(self).consumed() + data@) is None
                    &&& final(self).delivered() == spec_records(old(self).consumed() + data@)
                    &&& old(self).delivered().is_prefix_of(final(self).delivered())
                },
                Err(e) => {
                    ||| spec_error(old(self).consumed() + data@) == Some(e)
                    ||| spec_records(old(self).consumed() + data@).len() > old(
                        self,
                    ).delivered().len()
                },
            }),
    {
        let total: usize = data.len();
        let mut i: usize = 0;
        proof {
            assert(old(self).consumed@ + data@.take(0) =~= old(self).consumed@);
            lemma_records_prefix(old(self).consumed@, data@);
        }
        while i < total
            invariant
                i <= total,
                self.wf(),
                self.consumed@ == old(self).consumed@ + data@.take(i as int),
                old(self).delivered@.is_prefix_of(self.delivered@),
            decreases total - i,
        {
            let ghost c_pre = self.consumed@;
            proof {
                assert(c_pre + data@.skip(i as int) =~= old(self).consumed@ + data@);
            }
            let n = match self.state {
                ParseState::Header => {
                    match self.phase_header(data, i) {
                        Ok(n) => n,
                        Err(e) => {
                            return Err(e);
                        },
                    }
                },
                ParseState::TagHeader => self.phase_tag_header(data, i),
                ParseState::TagAndPreviousTagSize => {
                    match self.phase_tag_body(data, i) {
                        Ok(n) => n,
                        Err(e) => {
                            return Err(e);
                        },
                    }
                },
            };
            proof {
                assert(c_pre + data@.subrange(i as int, i + n) =~= old(self).consumed@
                    + data@.take(i + n));
            }
            i += n;
        }
        proof {
            assert(old(self).consumed@ + data@.take(total as int) =~= old(self).consumed@ + data@);
        }
        Ok(())
    }
}

} // verus!
