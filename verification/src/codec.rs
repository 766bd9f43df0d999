//! The wire codec: a byte-level document encoding of [`Message`] envelopes,
//! and the length-prefixed framing that carries one document per frame.
//!
//! Every frame on the wire is `len: u32 little-endian || body`, where `body`
//! is the document encoding of one envelope. Inside a document, integers are
//! little-endian, strings are UTF-8 behind a `u32` length prefix, and
//! payloads are raw bytes behind a `u32` length prefix.

use vstd::prelude::*;
use vstd::bytes::{
    spec_u32_to_le_bytes, spec_u32_from_le_bytes, u32_to_le_bytes, u32_from_le_bytes,
    spec_u64_to_le_bytes, spec_u64_from_le_bytes, u64_to_le_bytes, u64_from_le_bytes,
    lemma_auto_spec_u32_to_from_le_bytes, lemma_auto_spec_u64_to_from_le_bytes,
};
use vstd::utf8::{valid_utf8, decode_utf8, encode_utf8};
use vstd::slice::{slice_index_get, slice_subrange, slice_to_vec};
use vstd::string::StrSliceExecFns;
use crate::errors::BusError;
use crate::messages::{Message, MessageBody, Response, MessageView, BodyView, ResponseView};

verus! {

/// The largest frame body the codec accepts, in bytes (16 MiB). A frame
/// whose length prefix exceeds this is a protocol violation.
pub const MAX_FRAME_LEN: usize = 16777216;

pub const TAG_REGISTER: u8 = 1;

pub const TAG_CONNECT: u8 = 2;

pub const TAG_METHOD_CALL: u8 = 3;

pub const TAG_SUBSCRIBE: u8 = 4;

pub const TAG_WATCH: u8 = 5;

pub const TAG_SUCCESS: u8 = 6;

pub const TAG_RETURN: u8 = 7;

pub const TAG_SIGNAL: u8 = 8;

pub const TAG_STATE_CHANGED: u8 = 9;

pub const TAG_ERROR: u8 = 10;

pub const TAG_SHUTDOWN: u8 = 11;

/// A length-prefixed chunk: four bytes of little-endian length, then the
/// bytes themselves.
pub open spec fn spec_lp(b: Seq<u8>) -> Seq<u8> {
    spec_u32_to_le_bytes(b.len() as u32) + b
}

/// A string field: its UTF-8 bytes as a length-prefixed chunk.
pub open spec fn spec_string_field(s: Seq<char>) -> Seq<u8> {
    spec_lp(encode_utf8(s))
}

/// The document bytes of a response body, tag byte first.
pub open spec fn spec_response_bytes(r: ResponseView) -> Seq<u8> {
    match r {
        ResponseView::Success => seq![TAG_SUCCESS],
        ResponseView::Return(p) => seq![TAG_RETURN] + spec_lp(p),
        ResponseView::Signal(p) => seq![TAG_SIGNAL] + spec_lp(p),
        ResponseView::StateChanged(p) => seq![TAG_STATE_CHANGED] + spec_lp(p),
        ResponseView::Error(e) => seq![TAG_ERROR, e.spec_code()],
        ResponseView::Shutdown(s) => seq![TAG_SHUTDOWN] + spec_string_field(s),
    }
}

/// The document bytes of a message body, tag byte first.
pub open spec fn spec_body_bytes(b: BodyView) -> Seq<u8> {
    match b {
        BodyView::Register(s) => seq![TAG_REGISTER] + spec_string_field(s),
        BodyView::Connect(s) => seq![TAG_CONNECT] + spec_string_field(s),
        BodyView::MethodCall(t, m, p) => seq![TAG_METHOD_CALL] + spec_string_field(t)
            + spec_string_field(m) + spec_lp(p),
        BodyView::Subscribe(s) => seq![TAG_SUBSCRIBE] + spec_string_field(s),
        BodyView::Watch(s) => seq![TAG_WATCH] + spec_string_field(s),
        BodyView::Response(r) => spec_response_bytes(r),
    }
}

/// The document bytes of a whole envelope: eight bytes of `seq`, then the
/// body.
pub open spec fn spec_message_bytes(m: MessageView) -> Seq<u8> {
    spec_u64_to_le_bytes(m.seq) + spec_body_bytes(m.body)
}

/// The bytes of a whole frame: the document behind a `u32` length prefix.
pub open spec fn spec_frame_bytes(m: MessageView) -> Seq<u8> {
    spec_lp(spec_message_bytes(m))
}

/// A chunk small enough for its length prefix and for the frame bound.
pub open spec fn wf_chunk(b: Seq<u8>) -> bool {
    b.len() <= MAX_FRAME_LEN
}

/// Every variable-length field of the body fits the chunk bound.
pub open spec fn wf_body(b: BodyView) -> bool {
    match b {
        BodyView::Register(s) => wf_chunk(encode_utf8(s)),
        BodyView::Connect(s) => wf_chunk(encode_utf8(s)),
        BodyView::MethodCall(t, m, p) => wf_chunk(encode_utf8(t)) && wf_chunk(encode_utf8(m))
            && wf_chunk(p),
        BodyView::Subscribe(s) => wf_chunk(encode_utf8(s)),
        BodyView::Watch(s) => wf_chunk(encode_utf8(s)),
        BodyView::Response(r) => match r {
            ResponseView::Success => true,
            ResponseView::Return(p) => wf_chunk(p),
            ResponseView::Signal(p) => wf_chunk(p),
            ResponseView::StateChanged(p) => wf_chunk(p),
            ResponseView::Error(e) => true,
            ResponseView::Shutdown(s) => wf_chunk(encode_utf8(s)),
        },
    }
}

/// A message the codec can carry: every field fits its chunk bound and the
/// whole document fits in one frame.
pub open spec fn wf_message(m: MessageView) -> bool {
    wf_body(m.body) && spec_message_bytes(m).len() <= MAX_FRAME_LEN
}

/// Append one length-prefixed chunk, refusing a chunk over the bound.
fn push_chunk(out: &mut Vec<u8>, chunk: &[u8]) -> (ok: bool)
    ensures
        ok == wf_chunk(chunk@),
        ok ==> final(out)@ == old(out)@ + spec_lp(chunk@),
        !ok ==> final(out)@ == old(out)@,
{
    if chunk.len() > MAX_FRAME_LEN {
        return false;
    }
    proof {
        lemma_auto_spec_u32_to_from_le_bytes();
    }
    let mut prefix = u32_to_le_bytes(chunk.len() as u32);
    out.append(&mut prefix);
    let mut bytes = slice_to_vec(chunk);
    out.append(&mut bytes);
    true
}

/// Append one string field, refusing a string over the chunk bound.
fn push_string_field(out: &mut Vec<u8>, s: &str) -> (ok: bool)
    ensures
        ok == wf_chunk(encode_utf8(s@)),
        ok ==> final(out)@ == old(out)@ + spec_string_field(s@),
        !ok ==> final(out)@ == old(out)@,
{
    push_chunk(out, s.as_bytes())
}

/// Encode one envelope as document bytes.
///
/// Succeeds exactly on well-formed messages, and then returns exactly the
/// bytes of [`spec_message_bytes`]; an oversized field or document is
/// refused as a protocol violation.
pub fn encode_message(m: &Message) -> (r: Result<Vec<u8>, BusError>)
    ensures
        match r {
            Ok(v) => wf_message(m@) && v@ == spec_message_bytes(m@),
            Err(e) => e == BusError::ProtocolViolation && !wf_message(m@),
        },
{
    let mut out = u64_to_le_bytes(m.seq);
    let ghost prefix = out@;
    let ok: bool = match &m.body {
        MessageBody::Register(s) => {
            out.push(TAG_REGISTER);
            proof {
                assert(out@ =~= prefix + seq![TAG_REGISTER]);
            }
            push_string_field(&mut out, s.as_str())
        },
        MessageBody::Connect(s) => {
            out.push(TAG_CONNECT);
            proof {
                assert(out@ =~= prefix + seq![TAG_CONNECT]);
            }
            push_string_field(&mut out, s.as_str())
        },
        MessageBody::MethodCall(t, name, p) => {
            out.push(TAG_METHOD_CALL);
            proof {
                assert(out@ =~= prefix + seq![TAG_METHOD_CALL]);
            }
            let ok1 = push_string_field(&mut out, t.as_str());
            if ok1 {
                let ok2 = push_string_field(&mut out, name.as_str());
                if ok2 {
                    push_chunk(&mut out, p.as_slice())
                } else {
                    false
                }
            } else {
                false
            }
        },
        MessageBody::Subscribe(s) => {
            out.push(TAG_SUBSCRIBE);
            proof {
                assert(out@ =~= prefix + seq![TAG_SUBSCRIBE]);
            }
            push_string_field(&mut out, s.as_str())
        },
        MessageBody::Watch(s) => {
            out.push(TAG_WATCH);
            proof {
                assert(out@ =~= prefix + seq![TAG_WATCH]);
            }
            push_string_field(&mut out, s.as_str())
        },
        MessageBody::Response(resp) => match resp {
            Response::Success => {
                out.push(TAG_SUCCESS);
                proof {
                    assert(out@ =~= prefix + seq![TAG_SUCCESS]);
                }
                true
            },
            Response::Return(p) => {
                out.push(TAG_RETURN);
                proof {
                    assert(out@ =~= prefix + seq![TAG_RETURN]);
                }
                push_chunk(&mut out, p.as_slice())
            },
            Response::Signal(p) => {
                out.push(TAG_SIGNAL);
                proof {
                    assert(out@ =~= prefix + seq![TAG_SIGNAL]);
                }
                push_chunk(&mut out, p.as_slice())
            },
            Response::StateChanged(p) => {
                out.push(TAG_STATE_CHANGED);
                proof {
                    assert(out@ =~= prefix + seq![TAG_STATE_CHANGED]);
                }
                push_chunk(&mut out, p.as_slice())
            },
            Response::Error(e) => {
                out.push(TAG_ERROR);
                out.push(e.code());
                proof {
                    assert(out@ =~= prefix + seq![TAG_ERROR, e.spec_code()]);
                }
                true
            },
            Response::Shutdown(s) => {
                out.push(TAG_SHUTDOWN);
                proof {
                    assert(out@ =~= prefix + seq![TAG_SHUTDOWN]);
                }
                push_string_field(&mut out, s.as_str())
            },
        },
    };
    if !ok {
        return Err(BusError::ProtocolViolation);
    }
    proof {
        assert(out@ =~= spec_message_bytes(m@));
    }
    if out.len() > MAX_FRAME_LEN {
        return Err(BusError::ProtocolViolation);
    }
    Ok(out)
}

/// Relies on `String::from_utf8`: it succeeds exactly on valid UTF-8 input
/// and returns the string those bytes spell.
#[verifier::external_body]
fn bytes_to_string(v: Vec<u8>) -> (r: Option<String>)
    ensures
        r is Some <==> valid_utf8(v@),
        r matches Some(s) ==> s@ == decode_utf8(v@),
{
    match String::from_utf8(v) {
        Ok(s) => Some(s),
        Err(_) => None,
    }
}

/// Read a little-endian `u32` off the front, if four bytes are there.
pub open spec fn spec_take_u32(b: Seq<u8>) -> Option<(u32, Seq<u8>)> {
    if b.len() >= 4 {
        Some((spec_u32_from_le_bytes(b.subrange(0, 4)), b.skip(4)))
    } else {
        None
    }
}

/// Read one length-prefixed chunk off the front; a prefix over the frame
/// bound or past the end of the input is refused.
pub open spec fn spec_take_chunk(b: Seq<u8>) -> Option<(Seq<u8>, Seq<u8>)> {
    match spec_take_u32(b) {
        Some((n, rest)) => if n <= MAX_FRAME_LEN && n <= rest.len() {
            Some((rest.take(n as int), rest.skip(n as int)))
        } else {
            None
        },
        None => None,
    }
}

/// Read one string field off the front; a chunk that is not UTF-8 is
/// refused.
pub open spec fn spec_take_string(b: Seq<u8>) -> Option<(Seq<char>, Seq<u8>)> {
    match spec_take_chunk(b) {
        Some((c, rest)) => if valid_utf8(c) {
            Some((decode_utf8(c), rest))
        } else {
            None
        },
        None => None,
    }
}

/// Decode a response body from its tag and the bytes after the tag; the
/// bytes must be consumed exactly.
pub open spec fn spec_decode_response(tag: u8, b: Seq<u8>) -> Option<ResponseView> {
    if tag == TAG_SUCCESS {
        if b.len() == 0 {
            Some(ResponseView::Success)
        } else {
            None
        }
    } else if tag == TAG_RETURN {
        match spec_take_chunk(b) {
            Some((p, rest)) => if rest.len() == 0 {
                Some(ResponseView::Return(p))
            } else {
                None
            },
            None => None,
        }
    } else if tag == TAG_SIGNAL {
        match spec_take_chunk(b) {
            Some((p, rest)) => if rest.len() == 0 {
                Some(ResponseView::Signal(p))
            } else {
                None
            },
            None => None,
        }
    } else if tag == TAG_STATE_CHANGED {
        match spec_take_chunk(b) {
            Some((p, rest)) => if rest.len() == 0 {
                Some(ResponseView::StateChanged(p))
            } else {
                None
            },
            None => None,
        }
    } else if tag == TAG_ERROR {
        if b.len() == 1 {
            match BusError::spec_from_code(b[0]) {
                Some(e) => Some(ResponseView::Error(e)),
                None => None,
            }
        } else {
            None
        }
    } else if tag == TAG_SHUTDOWN {
        match spec_take_string(b) {
            Some((s, rest)) => if rest.len() == 0 {
                Some(ResponseView::Shutdown(s))
            } else {
                None
            },
            None => None,
        }
    } else {
        None
    }
}

/// Decode a message body from its tag and the bytes after the tag; the
/// bytes must be consumed exactly.
pub open spec fn spec_decode_body(tag: u8, b: Seq<u8>) -> Option<BodyView> {
    if tag == TAG_REGISTER {
        match spec_take_string(b) {
            Some((s, rest)) => if rest.len() == 0 {
                Some(BodyView::Register(s))
            } else {
                None
            },
            None => None,
        }
    } else if tag == TAG_CONNECT {
        match spec_take_string(b) {
            Some((s, rest)) => if rest.len() == 0 {
                Some(BodyView::Connect(s))
            } else {
                None
            },
            None => None,
        }
    } else if tag == TAG_METHOD_CALL {
        match spec_take_string(b) {
            Some((t, r1)) => match spec_take_string(r1) {
                Some((m, r2)) => match spec_take_chunk(r2) {
                    Some((p, r3)) => if r3.len() == 0 {
                        Some(BodyView::MethodCall(t, m, p))
                    } else {
                        None
                    },
                    None => None,
                },
                None => None,
            },
            None => None,
        }
    } else if tag == TAG_SUBSCRIBE {
        match spec_take_string(b) {
            Some((s, rest)) => if rest.len() == 0 {
                Some(BodyView::Subscribe(s))
            } else {
                None
            },
            None => None,
        }
    } else if tag == TAG_WATCH {
        match spec_take_string(b) {
            Some((s, rest)) => if rest.len() == 0 {
                Some(BodyView::Watch(s))
            } else {
                None
            },
            None => None,
        }
    } else {
        match spec_decode_response(tag, b) {
            Some(r) => Some(BodyView::Response(r)),
            None => None,
        }
    }
}

/// Decode one whole document: eight bytes of `seq`, a tag byte, the body
/// fields, nothing after them.
pub open spec fn spec_decode_message(b: Seq<u8>) -> Option<MessageView> {
    if b.len() >= 9 {
        match spec_decode_body(b[8], b.skip(9)) {
            Some(body) => Some(
                MessageView { seq: spec_u64_from_le_bytes(b.subrange(0, 8)), body },
            ),
            None => None,
        }
    } else {
        None
    }
}

/// Read one length-prefixed chunk starting at `pos`.
fn take_chunk(buf: &[u8], pos: usize) -> (r: Option<(Vec<u8>, usize)>)
    requires
        pos <= buf@.len(),
    ensures
        match r {
            Some((chunk, p2)) => pos <= p2 <= buf@.len() && spec_take_chunk(
                buf@.skip(pos as int),
            ) == Some((chunk@, buf@.skip(p2 as int))),
            None => spec_take_chunk(buf@.skip(pos as int)) is None,
        },
{
    if buf.len() - pos < 4 {
        return None;
    }
    let n = u32_from_le_bytes(slice_subrange(buf, pos, pos + 4));
    proof {
        assert(buf@.skip(pos as int).subrange(0, 4) =~= buf@.subrange(
            pos as int,
            pos as int + 4,
        ));
        assert(buf@.skip(pos as int).skip(4) =~= buf@.skip(pos as int + 4));
    }
    if n as usize > MAX_FRAME_LEN {
        return None;
    }
    let nu = n as usize;
    if nu > buf.len() - (pos + 4) {
        return None;
    }
    let chunk = slice_to_vec(slice_subrange(buf, pos + 4, pos + 4 + nu));
    proof {
        assert(buf@.skip(pos as int + 4).take(n as int) =~= buf@.subrange(
            pos as int + 4,
            pos as int + 4 + n as int,
        ));
        assert(buf@.skip(pos as int + 4).skip(n as int) =~= buf@.skip(
            pos as int + 4 + n as int,
        ));
    }
    Some((chunk, pos + 4 + nu))
}

/// Read one string field starting at `pos`.
fn take_string(buf: &[u8], pos: usize) -> (r: Option<(String, usize)>)
    requires
        pos <= buf@.len(),
    ensures
        match r {
            Some((s, p2)) => pos <= p2 <= buf@.len() && spec_take_string(
                buf@.skip(pos as int),
            ) == Some((s@, buf@.skip(p2 as int))),
            None => spec_take_string(buf@.skip(pos as int)) is None,
        },
{
    match take_chunk(buf, pos) {
        Some((chunk, p2)) => match bytes_to_string(chunk) {
            Some(s) => Some((s, p2)),
            None => None,
        },
        None => None,
    }
}

/// Decode one document back into an envelope.
///
/// Succeeds exactly where [`spec_decode_message`] does, with the message it
/// names; everything else is a protocol violation.
pub fn decode_message(buf: &[u8]) -> (r: Result<Message, BusError>)
    ensures
        match r {
            Ok(m) => spec_decode_message(buf@) == Some(m@),
            Err(e) => e == BusError::ProtocolViolation && spec_decode_message(buf@) is None,
        },
{
    if buf.len() < 9 {
        return Err(BusError::ProtocolViolation);
    }
    let seq = u64_from_le_bytes(slice_subrange(buf, 0, 8));
    let tag = *slice_index_get(buf, 8);
    let body: MessageBody = if tag == TAG_REGISTER {
        match take_string(buf, 9) {
            Some((s, p2)) => {
                if p2 != buf.len() {
                    return Err(BusError::ProtocolViolation);
                }
                MessageBody::Register(s)
            },
            None => {
                return Err(BusError::ProtocolViolation);
            },
        }
    } else if tag == TAG_CONNECT {
        match take_string(buf, 9) {
            Some((s, p2)) => {
                if p2 != buf.len() {
                    return Err(BusError::ProtocolViolation);
                }
                MessageBody::Connect(s)
            },
            None => {
                return Err(BusError::ProtocolViolation);
            },
        }
    } else if tag == TAG_METHOD_CALL {
        match take_string(buf, 9) {
            Some((t, p1)) => match take_string(buf, p1) {
                Some((m, p2)) => match take_chunk(buf, p2) {
                    Some((p, p3)) => {
                        if p3 != buf.len() {
                            return Err(BusError::ProtocolViolation);
                        }
                        MessageBody::MethodCall(t, m, p)
                    },
                    None => {
                        return Err(BusError::ProtocolViolation);
                    },
                },
                None => {
                    return Err(BusError::ProtocolViolation);
                },
            },
            None => {
                return Err(BusError::ProtocolViolation);
            },
        }
    } else if tag == TAG_SUBSCRIBE {
        match take_string(buf, 9) {
            Some((s, p2)) => {
                if p2 != buf.len() {
                    return Err(BusError::ProtocolViolation);
                }
                MessageBody::Subscribe(s)
            },
            None => {
                return Err(BusError::ProtocolViolation);
            },
        }
    } else if tag == TAG_WATCH {
        match take_string(buf, 9) {
            Some((s, p2)) => {
                if p2 != buf.len() {
                    return Err(BusError::ProtocolViolation);
                }
                MessageBody::Watch(s)
            },
            None => {
                return Err(BusError::ProtocolViolation);
            },
        }
    } else if tag == TAG_SUCCESS {
        if buf.len() != 9 {
            return Err(BusError::ProtocolViolation);
        }
        MessageBody::Response(Response::Success)
    } else if tag == TAG_RETURN {
        match take_chunk(buf, 9) {
            Some((p, p2)) => {
                if p2 != buf.len() {
                    return Err(BusError::ProtocolViolation);
                }
                MessageBody::Response(Response::Return(p))
            },
            None => {
                return Err(BusError::ProtocolViolation);
            },
        }
    } else if tag == TAG_SIGNAL {
        match take_chunk(buf, 9) {
            Some((p, p2)) => {
                if p2 != buf.len() {
                    return Err(BusError::ProtocolViolation);
                }
                MessageBody::Response(Response::Signal(p))
            },
            None => {
                return Err(BusError::ProtocolViolation);
            },
        }
    } else if tag == TAG_STATE_CHANGED {
        match take_chunk(buf, 9) {
            Some((p, p2)) => {
                if p2 != buf.len() {
                    return Err(BusError::ProtocolViolation);
                }
                MessageBody::Response(Response::StateChanged(p))
            },
            None => {
                return Err(BusError::ProtocolViolation);
            },
        }
    } else if tag == TAG_ERROR {
        if buf.len() != 10 {
            return Err(BusError::ProtocolViolation);
        }
        let code = *slice_index_get(buf, 9);
        match BusError::from_code(code) {
            Some(e) => MessageBody::Response(Response::Error(e)),
            None => {
                return Err(BusError::ProtocolViolation);
            },
        }
    } else if tag == TAG_SHUTDOWN {
        match take_string(buf, 9) {
            Some((s, p2)) => {
                if p2 != buf.len() {
                    return Err(BusError::ProtocolViolation);
                }
                MessageBody::Response(Response::Shutdown(s))
            },
            None => {
                return Err(BusError::ProtocolViolation);
            },
        }
    } else {
        return Err(BusError::ProtocolViolation);
    };
    Ok(Message::new(seq, body))
}

/// What one attempt to take a frame off the input buffer yielded.
pub enum FrameRead {
    /// The buffer holds no complete frame yet; read more first.
    NeedMore,
    /// The stream ended cleanly at a frame boundary.
    Closed,
    /// A whole frame: the decoded envelope and how many bytes it took.
    Frame(Message, usize),
    /// The bytes break the wire format.
    Violation,
}

/// The mathematical value of a [`FrameRead`].
pub enum FrameReadView {
    NeedMore,
    Closed,
    Frame(MessageView, int),
    Violation,
}

impl View for FrameRead {
    type V = FrameReadView;

    open spec fn view(&self) -> FrameReadView {
        match self {
            FrameRead::NeedMore => FrameReadView::NeedMore,
            FrameRead::Closed => FrameReadView::Closed,
            FrameRead::Frame(m, c) => FrameReadView::Frame(m@, *c as int),
            FrameRead::Violation => FrameReadView::Violation,
        }
    }
}

/// What taking a frame off buffered bytes must yield. `eof` says the
/// stream has ended, so that nothing more will ever arrive: a clean end
/// on a frame boundary closes the session, an end mid-frame violates the
/// protocol.
pub open spec fn spec_read_frame(b: Seq<u8>, eof: bool) -> FrameReadView {
    if b.len() == 0 {
        if eof {
            FrameReadView::Closed
        } else {
            FrameReadView::NeedMore
        }
    } else if b.len() < 4 {
        if eof {
            FrameReadView::Violation
        } else {
            FrameReadView::NeedMore
        }
    } else {
        let n = spec_u32_from_le_bytes(b.subrange(0, 4));
        if n > MAX_FRAME_LEN {
            FrameReadView::Violation
        } else if b.len() < 4 + n {
            if eof {
                FrameReadView::Violation
            } else {
                FrameReadView::NeedMore
            }
        } else {
            match spec_decode_message(b.subrange(4, 4 + n as int)) {
                Some(m) => FrameReadView::Frame(m, 4 + n as int),
                None => FrameReadView::Violation,
            }
        }
    }
}

/// Encode one envelope as a whole frame: length prefix, then document.
pub fn encode_frame(m: &Message) -> (r: Result<Vec<u8>, BusError>)
    ensures
        match r {
            Ok(v) => wf_message(m@) && v@ == spec_frame_bytes(m@),
            Err(e) => e == BusError::ProtocolViolation && !wf_message(m@),
        },
{
    match encode_message(m) {
        Ok(body) => {
            let mut out: Vec<u8> = Vec::new();
            let ok = push_chunk(&mut out, body.as_slice());
            proof {
                assert(out@ =~= spec_frame_bytes(m@));
            }
            Ok(out)
        },
        Err(e) => Err(e),
    }
}

/// Try to take one frame off the front of the buffered bytes.
///
/// Returns exactly what [`spec_read_frame`] names: a decoded frame with
/// the count of bytes to drop from the buffer, a clean close, a request
/// for more bytes, or a protocol violation.
pub fn try_read_frame(buf: &[u8], eof: bool) -> (r: FrameRead)
    ensures
        r@ == spec_read_frame(buf@, eof),
        r matches FrameRead::Frame(m, c) ==> 4 <= c <= buf@.len(),
{
    if buf.len() == 0 {
        if eof {
            return FrameRead::Closed;
        } else {
            return FrameRead::NeedMore;
        }
    }
    if buf.len() < 4 {
        if eof {
            return FrameRead::Violation;
        } else {
            return FrameRead::NeedMore;
        }
    }
    let n = u32_from_le_bytes(slice_subrange(buf, 0, 4));
    if n as usize > MAX_FRAME_LEN {
        return FrameRead::Violation;
    }
    let nu = n as usize;
    if buf.len() - 4 < nu {
        if eof {
            return FrameRead::Violation;
        } else {
            return FrameRead::NeedMore;
        }
    }
    let body = slice_subrange(buf, 4, 4 + nu);
    match decode_message(body) {
        Ok(m) => FrameRead::Frame(m, 4 + nu),
        Err(_) => FrameRead::Violation,
    }
}

/// Reading a length-prefixed chunk off its own encoding gives the chunk
/// back and leaves the rest untouched.
proof fn lemma_take_chunk_of_lp(c: Seq<u8>, rest: Seq<u8>)
    requires
        wf_chunk(c),
    ensures
        spec_take_chunk(spec_lp(c) + rest) == Some((c, rest)),
{
    lemma_auto_spec_u32_to_from_le_bytes();
    let b = spec_lp(c) + rest;
    assert(b.subrange(0, 4) =~= spec_u32_to_le_bytes(c.len() as u32));
    assert(b.skip(4) =~= c + rest);
    assert((c + rest).take(c.len() as int) =~= c);
    assert((c + rest).skip(c.len() as int) =~= rest);
}

/// Reading a string field off its own encoding gives the string back.
proof fn lemma_take_string_of_field(s: Seq<char>, rest: Seq<u8>)
    requires
        wf_chunk(encode_utf8(s)),
    ensures
        spec_take_string(spec_string_field(s) + rest) == Some((s, rest)),
{
    lemma_take_chunk_of_lp(encode_utf8(s), rest);
    vstd::utf8::encode_utf8_valid_utf8(s);
    vstd::utf8::encode_utf8_decode_utf8(s);
}

/// Round trip: decoding the document encoding of any well-formed message
/// yields that message back, exactly.
pub proof fn lemma_message_round_trip(m: MessageView)
    requires
        wf_message(m),
    ensures
        spec_decode_message(spec_message_bytes(m)) == Some(m),
{
    lemma_auto_spec_u64_to_from_le_bytes();
    let b = spec_message_bytes(m);
    let bb = spec_body_bytes(m.body);
    let empty = Seq::<u8>::empty();
    assert(b.subrange(0, 8) =~= spec_u64_to_le_bytes(m.seq));
    match m.body {
        BodyView::Register(s) => {
            assert(b[8] == TAG_REGISTER && b.skip(9) =~= spec_string_field(s) + empty);
            lemma_take_string_of_field(s, empty);
        },
        BodyView::Connect(s) => {
            assert(b[8] == TAG_CONNECT && b.skip(9) =~= spec_string_field(s) + empty);
            lemma_take_string_of_field(s, empty);
        },
        BodyView::MethodCall(t, name, p) => {
            assert(b[8] == TAG_METHOD_CALL && b.skip(9) =~= spec_string_field(t) + (
            spec_string_field(name) + spec_lp(p)));
            lemma_take_string_of_field(t, spec_string_field(name) + spec_lp(p));
            assert(spec_string_field(name) + spec_lp(p) =~= spec_string_field(name) + (
            spec_lp(p) + empty));
            lemma_take_string_of_field(name, spec_lp(p) + empty);
            assert(spec_lp(p) + empty =~= spec_lp(p) + empty);
            lemma_take_chunk_of_lp(p, empty);
        },
        BodyView::Subscribe(s) => {
            assert(b[8] == TAG_SUBSCRIBE && b.skip(9) =~= spec_string_field(s) + empty);
            lemma_take_string_of_field(s, empty);
        },
        BodyView::Watch(s) => {
            assert(b[8] == TAG_WATCH && b.skip(9) =~= spec_string_field(s) + empty);
            lemma_take_string_of_field(s, empty);
        },
        BodyView::Response(r) => match r {
            ResponseView::Success => {
                assert(b[8] == TAG_SUCCESS && b.skip(9) =~= empty);
            },
            ResponseView::Return(p) => {
                assert(b[8] == TAG_RETURN && b.skip(9) =~= spec_lp(p) + empty);
                lemma_take_chunk_of_lp(p, empty);
            },
            ResponseView::Signal(p) => {
                assert(b[8] == TAG_SIGNAL && b.skip(9) =~= spec_lp(p) + empty);
                lemma_take_chunk_of_lp(p, empty);
            },
            ResponseView::StateChanged(p) => {
                assert(b[8] == TAG_STATE_CHANGED && b.skip(9) =~= spec_lp(p) + empty);
                lemma_take_chunk_of_lp(p, empty);
            },
            ResponseView::Error(e) => {
                assert(b[8] == TAG_ERROR && b.skip(9) =~= seq![e.spec_code()]);
                BusError::lemma_code_round_trip(e);
            },
            ResponseView::Shutdown(s) => {
                assert(b[8] == TAG_SHUTDOWN && b.skip(9) =~= spec_string_field(s) + empty);
                lemma_take_string_of_field(s, empty);
            },
        },
    }
}

/// Round trip through framing: with a well-formed message's frame at the
/// front of the buffer, reading yields exactly that message and consumes
/// exactly that frame, whatever follows it and whether or not the stream
/// has ended.
pub proof fn lemma_frame_round_trip(m: MessageView, rest: Seq<u8>, eof: bool)
    requires
        wf_message(m),
    ensures
        spec_read_frame(spec_frame_bytes(m) + rest, eof) == FrameReadView::Frame(
            m,
            4 + spec_message_bytes(m).len() as int,
        ),
{
    lemma_auto_spec_u32_to_from_le_bytes();
    let msg = spec_message_bytes(m);
    let b = spec_frame_bytes(m) + rest;
    assert(b.subrange(0, 4) =~= spec_u32_to_le_bytes(msg.len() as u32));
    assert(b.subrange(4, 4 + msg.len() as int) =~= msg);
    lemma_message_round_trip(m);
}

} // verus!
