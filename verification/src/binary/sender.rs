//! Frames on the connection.
//!
//! A request is the length of what follows in four little-endian bytes, then
//! the opcode and the payload.  A reply is a status in four bytes (0 for
//! success, the code of the error otherwise), the length of the body in four
//! bytes, and the body.

use crate::buffer::as_slice;
use crate::buffer::bytes_view;
use crate::buffer::from_vec;
use crate::buffer::slice_from;
use crate::binary::mapper::push_u32;
use crate::command::decode_frame;
use crate::command::Command;
use crate::command::CommandView;
use crate::command::lemma_frame_roundtrip;
use crate::command::lemma_payload_bounded;
use crate::error::IggyError;
use crate::shard::handler::ShardResponse;
use crate::wire::le_u32;
use crate::wire::lemma_concat_empty;
use crate::wire::lemma_u32_roundtrip;
use crate::wire::read_u32_le;
use crate::wire::u32_le;
use bytes::Bytes;
use vstd::prelude::*;

verus! {

/// The largest body that a reply can carry: its length must fit four bytes.
pub const MAX_BODY_LENGTH: usize = 0xFFFF_FFFF;

/// The frame of a successful reply with the given body.
pub open spec fn ok_frame(body: Seq<u8>) -> Seq<u8>
    recommends
        body.len() <= 0xFFFF_FFFF,
{
    u32_le(0) + u32_le(body.len() as u32) + body
}

/// The frame of a reply that reports an error: the code of the error and an
/// empty body.
pub open spec fn error_frame(error: IggyError) -> Seq<u8> {
    u32_le(error.spec_code()) + u32_le(0)
}

/// The frame of the reply to an answer of the executor.  A body too long
/// for its length field is reported as an internal error.
pub open spec fn reply_frame(answer: Result<ShardResponse, IggyError>) -> Seq<u8> {
    match answer {
        Ok(ShardResponse::BinaryResponse(body)) => if bytes_view(body).len() <= 0xFFFF_FFFF {
            ok_frame(bytes_view(body))
        } else {
            error_frame(IggyError::Internal)
        },
        Ok(ShardResponse::ErrorResponse(error)) => error_frame(error),
        Err(error) => error_frame(error),
    }
}

/// The frame of a request: the length of opcode and payload, then both.
pub open spec fn request_frame(command: CommandView) -> Seq<u8> {
    u32_le(command.frame().len() as u32) + command.frame()
}

/// What the bytes of one request decode to: the length field must say
/// exactly how many bytes follow it, and those must be a command.
pub open spec fn decode_request(s: Seq<u8>) -> Option<CommandView> {
    if s.len() < 4 || le_u32(s) != s.len() - 4 {
        None
    } else {
        decode_frame(s.skip(4))
    }
}

/// A request survives framing and unframing, and a frame cut short by one
/// byte is no request.
pub proof fn lemma_request_roundtrip(command: CommandView)
    requires
        command.wf(),
    ensures
        command.canonical() ==> decode_request(request_frame(command)) == Some(command),
        decode_request(request_frame(command).drop_last()) is None,
{
    lemma_payload_bounded(command);
    let frame = command.frame();
    lemma_u32_roundtrip(frame.len() as u32, frame);
    if command.canonical() {
        lemma_frame_roundtrip(command);
    }
    let cut = request_frame(command).drop_last();
    assert(cut =~= u32_le(frame.len() as u32) + frame.drop_last());
    lemma_u32_roundtrip(frame.len() as u32, frame.drop_last());
}

/// The frame of the reply that acknowledges a command: status 0, length 0.
pub fn empty_ok_response() -> (r: Bytes)
    ensures
        bytes_view(r) == ok_frame(Seq::empty()),
{
    let mut out: Vec<u8> = Vec::new();
    push_u32(&mut out, 0);
    push_u32(&mut out, 0);
    proof {
        lemma_concat_empty(u32_le(0));
        lemma_concat_empty(u32_le(0) + u32_le(0));
    }
    from_vec(out)
}

/// The frame of the reply that reports an error.
pub fn error_response(error: IggyError) -> (r: Bytes)
    ensures
        bytes_view(r) == error_frame(error),
{
    let mut out: Vec<u8> = Vec::new();
    push_u32(&mut out, error.as_code());
    push_u32(&mut out, 0);
    proof {
        lemma_concat_empty(u32_le(error.spec_code()));
    }
    from_vec(out)
}

/// The frame of a successful reply with the given body, or of an internal
/// error where the body is too long for its length field.
pub fn ok_response(body: &Bytes) -> (r: Bytes)
    ensures
        bytes_view(r) == if bytes_view(*body).len() <= MAX_BODY_LENGTH {
            ok_frame(bytes_view(*body))
        } else {
            error_frame(IggyError::Internal)
        },
{
    if body.len() > MAX_BODY_LENGTH {
        return error_response(IggyError::Internal);
    }
    let mut out: Vec<u8> = Vec::new();
    push_u32(&mut out, 0);
    push_u32(&mut out, body.len() as u32);
    let s = as_slice(body);
    let mut i: usize = 0;
    let ghost head = out@;
    proof {
        lemma_concat_empty(u32_le(0));
        lemma_concat_empty(head);
    }
    while i < s.len()
        invariant
            i <= s@.len(),
            head == u32_le(0) + u32_le(s@.len() as u32),
            out@ == head + s@.take(i as int),
        decreases s@.len() - i,
    {
        out.push(s[i]);
        i += 1;
        proof {
            assert(out@ =~= head + s@.take(i as int));
        }
    }
    proof {
        assert(s@.take(i as int) =~= s@);
    }
    from_vec(out)
}

/// The frame of the reply to an answer of the executor.
pub fn response(answer: &Result<ShardResponse, IggyError>) -> (r: Bytes)
    ensures
        bytes_view(r) == reply_frame(*answer),
{
    match answer {
        Ok(ShardResponse::BinaryResponse(body)) => ok_response(body),
        Ok(ShardResponse::ErrorResponse(error)) => error_response(*error),
        Err(error) => error_response(*error),
    }
}

/// Frames a command as a request.
pub fn request(command: &Command) -> (r: Bytes)
    requires
        command@.wf(),
    ensures
        bytes_view(r) == request_frame(command@),
{
    let frame = command.as_bytes();
    proof {
        lemma_payload_bounded(command@);
    }
    let mut out: Vec<u8> = Vec::new();
    push_u32(&mut out, frame.len() as u32);
    let s = as_slice(&frame);
    let ghost head = out@;
    proof {
        lemma_concat_empty(u32_le(s@.len() as u32));
        lemma_concat_empty(head);
    }
    let mut i: usize = 0;
    while i < s.len()
        invariant
            i <= s@.len(),
            head == u32_le(s@.len() as u32),
            out@ == head + s@.take(i as int),
        decreases s@.len() - i,
    {
        out.push(s[i]);
        i += 1;
        proof {
            assert(out@ =~= head + s@.take(i as int));
        }
    }
    proof {
        assert(s@.take(i as int) =~= s@);
    }
    from_vec(out)
}

/// Reads the command out of the bytes of one request.  A frame whose length
/// field does not match, an unknown opcode and a payload that does not
/// decode are all `InvalidCommand`.
pub fn read_request(bytes: Bytes) -> (r: Result<Command, IggyError>)
    ensures
        match r {
            Ok(command) => decode_request(bytes_view(bytes)) == Some(command@) && command@.wf(),
            Err(e) => e == IggyError::InvalidCommand && decode_request(bytes_view(bytes))
                is None,
        },
{
    if bytes.len() < 4 {
        return Err(IggyError::InvalidCommand);
    }
    let s = as_slice(&bytes);
    proof {
        assert(s@.skip(0) =~= s@);
    }
    let length = read_u32_le(s, 0) as usize;
    if length != bytes.len() - 4 {
        return Err(IggyError::InvalidCommand);
    }
    Command::from_bytes(slice_from(&bytes, 4))
}

} // verus!
