//! The framing codec.
//!
//! An envelope is serialized as a 4-byte big-endian variant tag (0 for
//! `Encapsulated`, 1 for `Disconnect`); an `Encapsulated` envelope goes on
//! with its 2-byte big-endian protocol identifier, the 8-byte big-endian
//! length of its payload and the payload. On the stream transport each
//! serialized envelope is preceded by its length as a 4-byte big-endian
//! number; on the datagram transport a datagram is one serialized envelope.
pub mod error;
pub mod message;

use vstd::prelude::*;

use self::error::CodecError;
use self::message::{Encapsulated, Message, MessageView};

verus! {

/// The largest length a frame can announce.
pub const LEN_MAX: u32 = 0xffff_ffff;

/// The size of a frame's length prefix.
pub const LEN_SZ: usize = 4;

pub open spec fn u16_be(v: u16) -> Seq<u8> {
    seq![(v >> 8u16) as u8, v as u8]
}

pub open spec fn u32_be(v: u32) -> Seq<u8> {
    seq![(v >> 24u32) as u8, (v >> 16u32) as u8, (v >> 8u32) as u8, v as u8]
}

pub open spec fn u64_be(v: u64) -> Seq<u8> {
    seq![
        (v >> 56u64) as u8,
        (v >> 48u64) as u8,
        (v >> 40u64) as u8,
        (v >> 32u64) as u8,
        (v >> 24u64) as u8,
        (v >> 16u64) as u8,
        (v >> 8u64) as u8,
        v as u8,
    ]
}

/// The number that the first two bytes of `s` spell, big-endian.
pub open spec fn read_u16_be(s: Seq<u8>) -> u16 {
    ((s[0] as u16) << 8u16) | (s[1] as u16)
}

/// The number that the first four bytes of `s` spell, big-endian.
pub open spec fn read_u32_be(s: Seq<u8>) -> u32 {
    ((s[0] as u32) << 24u32) | ((s[1] as u32) << 16u32) | ((s[2] as u32) << 8u32) | (s[3] as u32)
}

/// The number that the first eight bytes of `s` spell, big-endian.
pub open spec fn read_u64_be(s: Seq<u8>) -> u64 {
    ((s[0] as u64) << 56u64) | ((s[1] as u64) << 48u64) | ((s[2] as u64) << 40u64) | ((s[3] as u64)
        << 32u64) | ((s[4] as u64) << 24u64) | ((s[5] as u64) << 16u64) | ((s[6] as u64) << 8u64)
        | (s[7] as u64)
}

/// The serialized form of an envelope.
pub open spec fn serialized(m: MessageView) -> Seq<u8> {
    match m {
        MessageView::Encapsulated { protocol_id, payload } => u32_be(0) + u16_be(protocol_id)
            + u64_be(payload.len() as u64) + payload,
        MessageView::Disconnect => u32_be(1),
    }
}

/// Whether an envelope's serialized form fits under the frame length cap.
pub open spec fn fits(m: MessageView) -> bool {
    serialized(m).len() <= LEN_MAX
}

/// The envelope that `s` is the serialized form of, if any: the bytes must
/// hold exactly one serialized envelope.
pub open spec fn parse(s: Seq<u8>) -> Option<MessageView> {
    if s.len() < 4 {
        None
    } else if read_u32_be(s) == 1 {
        if s.len() == 4 {
            Some(MessageView::Disconnect)
        } else {
            None
        }
    } else if read_u32_be(s) == 0 && s.len() >= 14 && read_u64_be(s.subrange(6, 14)) == s.len()
        - 14 {
        Some(
            MessageView::Encapsulated {
                protocol_id: read_u16_be(s.subrange(4, 6)),
                payload: s.subrange(14, s.len() as int),
            },
        )
    } else {
        None
    }
}

/// The frame of an envelope on the stream transport.
pub open spec fn frame(m: MessageView) -> Seq<u8> {
    u32_be(serialized(m).len() as u32) + serialized(m)
}

/// The length that a buffer's first frame announces.
pub open spec fn frame_len(buf: Seq<u8>) -> int {
    read_u32_be(buf) as int
}

/// Whether a buffer holds a whole first frame.
pub open spec fn frame_complete(buf: Seq<u8>) -> bool {
    buf.len() >= 4 && buf.len() >= 4 + frame_len(buf)
}

/// The payload of a buffer's first frame.
pub open spec fn frame_payload(buf: Seq<u8>) -> Seq<u8> {
    buf.subrange(4, 4 + frame_len(buf))
}

/// What follows a buffer's first frame.
pub open spec fn frame_rest(buf: Seq<u8>) -> Seq<u8> {
    buf.subrange(4 + frame_len(buf), buf.len() as int)
}

proof fn lemma_u16_round_trip(v: u16)
    ensures
        read_u16_be(u16_be(v)) == v,
{
    let s = u16_be(v);
    assert(s[0] == (v >> 8u16) as u8 && s[1] == v as u8);
    assert((((v >> 8u16) as u8 as u16) << 8u16) | (v as u8 as u16) == v) by (bit_vector);
}

proof fn lemma_u32_round_trip(v: u32)
    ensures
        read_u32_be(u32_be(v)) == v,
{
    let s = u32_be(v);
    assert(s[0] == (v >> 24u32) as u8 && s[1] == (v >> 16u32) as u8 && s[2] == (v >> 8u32) as u8
        && s[3] == v as u8);
    assert((((v >> 24u32) as u8 as u32) << 24u32) | (((v >> 16u32) as u8 as u32) << 16u32) | (((v
        >> 8u32) as u8 as u32) << 8u32) | (v as u8 as u32) == v) by (bit_vector);
}

proof fn lemma_u64_round_trip(v: u64)
    ensures
        read_u64_be(u64_be(v)) == v,
{
    let s = u64_be(v);
    assert(s[0] == (v >> 56u64) as u8 && s[1] == (v >> 48u64) as u8 && s[2] == (v >> 40u64) as u8
        && s[3] == (v >> 32u64) as u8 && s[4] == (v >> 24u64) as u8 && s[5] == (v >> 16u64) as u8
        && s[6] == (v >> 8u64) as u8 && s[7] == v as u8);
    assert((((v >> 56u64) as u8 as u64) << 56u64) | (((v >> 48u64) as u8 as u64) << 48u64) | (((v
        >> 40u64) as u8 as u64) << 40u64) | (((v >> 32u64) as u8 as u64) << 32u64) | (((v
        >> 24u64) as u8 as u64) << 24u64) | (((v >> 16u64) as u8 as u64) << 16u64) | (((v
        >> 8u64) as u8 as u64) << 8u64) | (v as u8 as u64) == v) by (bit_vector);
}

/// Parsing the serialized form of an envelope gives the envelope back.
pub proof fn lemma_parse_serialized(m: MessageView)
    requires
        fits(m),
    ensures
        parse(serialized(m)) == Some(m),
{
    let s = serialized(m);
    lemma_u32_round_trip(0);
    lemma_u32_round_trip(1);
    match m {
        MessageView::Encapsulated { protocol_id, payload } => {
            let n = payload.len() as u64;
            lemma_u16_round_trip(protocol_id);
            lemma_u64_round_trip(n);
            assert(s.subrange(0, 4) == u32_be(0));
            assert(s.subrange(4, 6) == u16_be(protocol_id));
            assert(s.subrange(6, 14) == u64_be(n));
            assert(s.subrange(14, s.len() as int) == payload);
            assert(read_u32_be(s) == read_u32_be(s.subrange(0, 4)));
        },
        MessageView::Disconnect => {},
    }
}

/// Codec round trip: a frame of an envelope that fits, followed by any
/// bytes, decodes to that envelope and leaves those bytes.
pub proof fn lemma_frame_round_trip(m: MessageView, rest: Seq<u8>)
    requires
        fits(m),
    ensures
        frame_complete(frame(m) + rest),
        frame_payload(frame(m) + rest) == serialized(m),
        frame_rest(frame(m) + rest) == rest,
        parse(frame_payload(frame(m) + rest)) == Some(m),
{
    let s = serialized(m);
    let buf = frame(m) + rest;
    lemma_u32_round_trip(s.len() as u32);
    assert(buf.subrange(0, 4) == u32_be(s.len() as u32));
    assert(read_u32_be(buf) == read_u32_be(buf.subrange(0, 4)));
    assert(frame_len(buf) == s.len());
    assert(buf.subrange(4, 4 + s.len() as int) == s);
    assert(buf.subrange(4 + s.len() as int, buf.len() as int) == rest);
    lemma_parse_serialized(m);
}

/// Decoding a buffer until the decoder asks for more or fails: the
/// envelopes decoded, the bytes left over, and whether it failed.
pub open spec fn drain(buf: Seq<u8>) -> (Seq<MessageView>, Seq<u8>, bool)
    decreases buf.len(),
{
    if !frame_complete(buf) {
        (seq![], buf, false)
    } else {
        match parse(frame_payload(buf)) {
            None => (seq![], frame_rest(buf), true),
            Some(m) => {
                let (ms, r, f) = drain(frame_rest(buf));
                (seq![m] + ms, r, f)
            },
        }
    }
}

/// Feeding `input` one byte at a time to a decoder that holds `pending`,
/// decoding as far as possible after each byte. After a failure the bytes
/// not yet fed stay behind the unconsumed ones.
pub open spec fn feed(pending: Seq<u8>, input: Seq<u8>) -> (Seq<MessageView>, Seq<u8>, bool)
    decreases input.len(),
{
    if input.len() == 0 {
        (seq![], pending, false)
    } else {
        let (ms, r, f) = drain(pending + seq![input[0]]);
        if f {
            (ms, r + input.drop_first(), true)
        } else {
            let (ms2, r2, f2) = feed(r, input.drop_first());
            (ms + ms2, r2, f2)
        }
    }
}

/// The frames of a sequence of envelopes, one after the other.
pub open spec fn frames(ms: Seq<MessageView>) -> Seq<u8>
    decreases ms.len(),
{
    if ms.len() == 0 {
        seq![]
    } else {
        frame(ms[0]) + frames(ms.drop_first())
    }
}

proof fn lemma_frame_extend(a: Seq<u8>, b: Seq<u8>)
    requires
        frame_complete(a),
    ensures
        frame_len(a + b) == frame_len(a),
        frame_complete(a + b),
        frame_payload(a + b) == frame_payload(a),
        frame_rest(a + b) == frame_rest(a) + b,
{
    assert((a + b).subrange(0, 4) == a.subrange(0, 4));
    assert(read_u32_be(a + b) == read_u32_be((a + b).subrange(0, 4)));
    assert(read_u32_be(a) == read_u32_be(a.subrange(0, 4)));
    assert(frame_payload(a + b) == frame_payload(a));
    assert(frame_rest(a + b) == frame_rest(a) + b);
}

/// Decoding is restartable: decoding `a + b` decodes what `a` alone gives,
/// then goes on from what `a` left, followed by `b`.
pub proof fn lemma_drain_split(a: Seq<u8>, b: Seq<u8>)
    ensures
        !drain(a).2 ==> drain(a + b) == (
            drain(a).0 + drain(drain(a).1 + b).0,
            drain(drain(a).1 + b).1,
            drain(drain(a).1 + b).2,
        ),
        drain(a).2 ==> drain(a + b) == (drain(a).0, drain(a).1 + b, true),
    decreases a.len(),
{
    if !frame_complete(a) {
        assert(drain(a).0 + drain(a + b).0 == drain(a + b).0);
    } else {
        lemma_frame_extend(a, b);
        match parse(frame_payload(a)) {
            None => {},
            Some(m) => {
                let rest = frame_rest(a);
                lemma_drain_split(rest, b);
                if !drain(rest).2 {
                    let d = drain(drain(rest).1 + b);
                    assert(seq![m] + (drain(rest).0 + d.0) == (seq![m] + drain(rest).0) + d.0);
                }
            },
        }
    }
}

proof fn lemma_drain_leaves_incomplete(a: Seq<u8>)
    ensures
        !drain(a).2 ==> !frame_complete(drain(a).1),
    decreases a.len(),
{
    if frame_complete(a) {
        lemma_drain_leaves_incomplete(frame_rest(a));
    }
}

proof fn lemma_feed_from(pending: Seq<u8>, input: Seq<u8>)
    requires
        !frame_complete(pending),
    ensures
        feed(pending, input) == drain(pending + input),
    decreases input.len(),
{
    if input.len() == 0 {
        assert(pending + input == pending);
    } else {
        let head = pending + seq![input[0]];
        let tail = input.drop_first();
        assert(pending + input == head + tail);
        lemma_drain_split(head, tail);
        lemma_drain_leaves_incomplete(head);
        if !drain(head).2 {
            lemma_feed_from(drain(head).1, tail);
        }
    }
}

/// The stream decoder is restartable: feeding bytes one at a time gives the
/// same envelopes, leftover and failure as feeding them all at once.
pub proof fn lemma_byte_by_byte(input: Seq<u8>)
    ensures
        feed(seq![], input) == drain(input),
{
    assert(!frame_complete(seq![]));
    assert(seq![] + input == input);
    lemma_feed_from(seq![], input);
}

/// Frames of envelopes that fit, one after the other, decode to those
/// envelopes with nothing left over.
pub proof fn lemma_drain_frames(ms: Seq<MessageView>)
    requires
        forall|i: int| 0 <= i < ms.len() ==> fits(#[trigger] ms[i]),
    ensures
        drain(frames(ms)) == (ms, Seq::<u8>::empty(), false),
    decreases ms.len(),
{
    if ms.len() == 0 {
        assert(!frame_complete(frames(ms)));
    } else {
        let tail = ms.drop_first();
        assert(forall|i: int| 0 <= i < tail.len() ==> tail[i] == ms[i + 1]);
        lemma_drain_frames(tail);
        lemma_frame_round_trip(ms[0], frames(tail));
        assert(seq![ms[0]] + tail == ms);
    }
}

fn push_u16_be(out: &mut Vec<u8>, v: u16)
    ensures
        final(out)@ == old(out)@ + u16_be(v),
{
    out.push((v >> 8u16) as u8);
    out.push(v as u8);
}

fn push_u32_be(out: &mut Vec<u8>, v: u32)
    ensures
        final(out)@ == old(out)@ + u32_be(v),
{
    out.push((v >> 24u32) as u8);
    out.push((v >> 16u32) as u8);
    out.push((v >> 8u32) as u8);
    out.push(v as u8);
}

fn push_u64_be(out: &mut Vec<u8>, v: u64)
    ensures
        final(out)@ == old(out)@ + u64_be(v),
{
    out.push((v >> 56u64) as u8);
    out.push((v >> 48u64) as u8);
    out.push((v >> 40u64) as u8);
    out.push((v >> 32u64) as u8);
    out.push((v >> 24u64) as u8);
    out.push((v >> 16u64) as u8);
    out.push((v >> 8u64) as u8);
    out.push(v as u8);
}

fn push_all(out: &mut Vec<u8>, src: &[u8])
    ensures
        final(out)@ == old(out)@ + src@,
{
    let mut i: usize = 0;
    while i < src.len()
        invariant
            i <= src@.len(),
            out@ == old(out)@ + src@.subrange(0, i as int),
        decreases src@.len() - i,
    {
        out.push(src[i]);
        i = i + 1;
        assert(src@.subrange(0, i as int) == src@.subrange(0, i - 1) + seq![src@[i - 1]]);
    }
    assert(src@.subrange(0, src@.len() as int) == src@);
}

fn copy_range(src: &[u8], start: usize, end: usize) -> (r: Vec<u8>)
    requires
        start <= end <= src@.len(),
    ensures
        r@ == src@.subrange(start as int, end as int),
{
    let mut r: Vec<u8> = Vec::new();
    let mut i: usize = start;
    while i < end
        invariant
            start <= i <= end <= src@.len(),
            r@ == src@.subrange(start as int, i as int),
        decreases end - i,
    {
        r.push(src[i]);
        i = i + 1;
        assert(src@.subrange(start as int, i as int) == src@.subrange(start as int, i - 1) + seq![
            src@[i - 1],
        ]);
    }
    r
}

fn read_u16_at(s: &[u8], at: usize) -> (r: u16)
    requires
        at + 2 <= s@.len(),
    ensures
        r == read_u16_be(s@.subrange(at as int, at + 2)),
{
    ((s[at] as u16) << 8u16) | (s[at + 1] as u16)
}

fn read_u32_at(s: &[u8], at: usize) -> (r: u32)
    requires
        at + 4 <= s@.len(),
    ensures
        r == read_u32_be(s@.subrange(at as int, at + 4)),
{
    ((s[at] as u32) << 24u32) | ((s[at + 1] as u32) << 16u32) | ((s[at + 2] as u32) << 8u32) | (
    s[at + 3] as u32)
}

fn read_u64_at(s: &[u8], at: usize) -> (r: u64)
    requires
        at + 8 <= s@.len(),
    ensures
        r == read_u64_be(s@.subrange(at as int, at + 8)),
{
    ((s[at] as u64) << 56u64) | ((s[at + 1] as u64) << 48u64) | ((s[at + 2] as u64) << 40u64) | ((
    s[at + 3] as u64) << 32u64) | ((s[at + 4] as u64) << 24u64) | ((s[at + 5] as u64) << 16u64)
        | ((s[at + 6] as u64) << 8u64) | (s[at + 7] as u64)
}

/// Serializes an envelope; fails when the result would exceed the frame
/// length cap.
pub fn serialize(value: &Message) -> (r: Result<Vec<u8>, CodecError>)
    ensures
        match r {
            Ok(bytes) => fits(value@) && bytes@ == serialized(value@),
            Err(_) => !fits(value@),
        },
{
    match value {
        Message::Encapsulated(e) => {
            let n = e.message.len();
            if n > (LEN_MAX - 14) as usize {
                return Err(CodecError::new("envelope exceeds the size limit"));
            }
            let mut out: Vec<u8> = Vec::new();
            push_u32_be(&mut out, 0);
            push_u16_be(&mut out, e.protocol_id);
            push_u64_be(&mut out, n as u64);
            push_all(&mut out, e.message.as_slice());
            Ok(out)
        },
        Message::Disconnect => {
            let mut out: Vec<u8> = Vec::new();
            push_u32_be(&mut out, 1);
            Ok(out)
        },
    }
}

/// Parses `bytes[start..]` as exactly one serialized envelope.
fn parse_from(bytes: &[u8], start: usize) -> (r: Option<Message>)
    requires
        start <= bytes@.len(),
    ensures
        match r {
            Some(m) => parse(bytes@.subrange(start as int, bytes@.len() as int)) == Some(m@),
            None => parse(bytes@.subrange(start as int, bytes@.len() as int)) is None,
        },
{
    let ghost s = bytes@.subrange(start as int, bytes@.len() as int);
    let len = bytes.len() - start;
    if len < 4 {
        return None;
    }
    let tag = read_u32_at(bytes, start);
    assert(s.subrange(0, 4) == bytes@.subrange(start as int, start + 4));
    assert(read_u32_be(s) == read_u32_be(s.subrange(0, 4)));
    if tag == 1 {
        if len == 4 {
            Some(Message::Disconnect)
        } else {
            None
        }
    } else if tag == 0 && len >= 14 {
        let n = read_u64_at(bytes, start + 6);
        assert(s.subrange(6, 14) == bytes@.subrange(start + 6, start + 14));
        if n == (len - 14) as u64 {
            let protocol_id = read_u16_at(bytes, start + 4);
            assert(s.subrange(4, 6) == bytes@.subrange(start + 4, start + 6));
            let payload = copy_range(bytes, start + 14, bytes.len());
            assert(s.subrange(14, s.len() as int) == bytes@.subrange(
                start + 14,
                bytes@.len() as int,
            ));
            Some(Message::Encapsulated(Encapsulated { protocol_id, message: payload }))
        } else {
            None
        }
    } else {
        None
    }
}

/// Parses a datagram as one serialized envelope.
pub fn deserialize(bytes: &[u8]) -> (r: Result<Message, CodecError>)
    ensures
        match r {
            Ok(m) => parse(bytes@) == Some(m@),
            Err(_) => parse(bytes@) is None,
        },
{
    assert(bytes@.subrange(0, bytes@.len() as int) == bytes@);
    match parse_from(bytes, 0) {
        Some(m) => Ok(m),
        None => Err(CodecError::new("malformed envelope")),
    }
}

/// The length-prefixed codec of the stream transport.
pub struct MessageCodec;

impl MessageCodec {
    pub fn new() -> (r: MessageCodec) {
        MessageCodec
    }

    /// Appends the frame of `value` to `bytes`; fails, leaving `bytes` as
    /// it was, when the envelope exceeds the frame length cap.
    pub fn encode(&mut self, value: Message, bytes: &mut Vec<u8>) -> (r: Result<(), CodecError>)
        ensures
            r is Ok <==> fits(value@),
            r is Ok ==> final(bytes)@ == old(bytes)@ + frame(value@),
            r is Err ==> final(bytes)@ == old(bytes)@,
    {
        match serialize(&value) {
            Ok(ser) => {
                push_u32_be(bytes, ser.len() as u32);
                push_all(bytes, ser.as_slice());
                assert(old(bytes)@ + u32_be(ser@.len() as u32) + ser@ == old(bytes)@ + frame(
                    value@,
                ));
                Ok(())
            },
            Err(e) => Err(e),
        }
    }

    /// Takes the first frame out of `bytes`. While the frame is incomplete
    /// the buffer is left alone and nothing is returned; once it is whole,
    /// the frame is consumed and its payload parsed, which fails if the
    /// payload is not exactly one serialized envelope.
    pub fn decode(&mut self, bytes: &mut Vec<u8>) -> (r: Result<Option<Message>, CodecError>)
        ensures
            !frame_complete(old(bytes)@) ==> r == Ok::<Option<Message>, CodecError>(None)
                && final(bytes)@ == old(bytes)@,
            frame_complete(old(bytes)@) ==> final(bytes)@ == frame_rest(old(bytes)@),
            frame_complete(old(bytes)@) ==> match r {
                Ok(Some(m)) => parse(frame_payload(old(bytes)@)) == Some(m@),
                Ok(None) => false,
                Err(_) => parse(frame_payload(old(bytes)@)) is None,
            },
    {
        if bytes.len() < LEN_SZ {
            return Ok(None);
        }
        let size = read_u32_at(bytes.as_slice(), 0) as usize;
        assert(bytes@.subrange(0, 4) =~= bytes@.subrange(0, 4));
        assert(read_u32_be(bytes@) == read_u32_be(bytes@.subrange(0, 4)));
        if bytes.len() - LEN_SZ < size {
            return Ok(None);
        }
        let mut rest = bytes.split_off(size + LEN_SZ);
        core::mem::swap(bytes, &mut rest);
        let head = rest;
        let parsed = parse_from(head.as_slice(), LEN_SZ);
        assert(head@.subrange(4, head@.len() as int) == frame_payload(old(bytes)@));
        match parsed {
            Some(m) => Ok(Some(m)),
            None => Err(CodecError::new("malformed envelope")),
        }
    }
}

} // verus!
