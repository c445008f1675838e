//! Commands on streams.

use crate::buffer::as_slice;
use crate::buffer::bytes_mut_view;
use crate::buffer::bytes_view;
use crate::error::IggyError;
use crate::identifier::Identifier;
use crate::identifier::IdentifierView;
use crate::identifier::lemma_identifier_local;
use crate::identifier::lemma_identifier_roundtrip;
use crate::identifier::parse_identifier;
use crate::payload::CommandExecution;
use crate::payload::decode_identifier_payload;
use crate::payload::lemma_identifier_consumed;
use crate::payload::lemma_skip_skip;
use crate::payload::parse_empty;
use crate::payload::parse_identifier_payload;
use crate::wire::is_valid_opt_u32;
use crate::wire::is_valid_text;
use crate::wire::lemma_concat_assoc;
use crate::wire::lemma_concat_empty;
use crate::wire::lemma_opt_u32_local;
use crate::wire::lemma_opt_u32_parse;
use crate::wire::lemma_skip_concat;
use crate::wire::lemma_take_take;
use crate::wire::lemma_text_local;
use crate::wire::lemma_text_parse;
use crate::wire::lemma_window;
use crate::wire::opt_u32_wire;
use crate::wire::parse_opt_u32;
use crate::wire::parse_text;
use crate::wire::put_opt_u32;
use crate::wire::put_text;
use crate::wire::read_opt_u32;
use crate::wire::read_text_field;
use crate::wire::text_wire;
use crate::wire::valid_opt_u32;
use crate::wire::valid_text;
use bytes::Bytes;
use bytes::BytesMut;
use vstd::prelude::*;

verus! {

/// `GetStream` command is used to retrieve the information about a stream by unique ID.
#[derive(Debug, Clone, PartialEq, Default)]
pub struct GetStream {
    /// Unique stream ID (numeric or name).
    pub stream_id: Identifier,
}

impl View for GetStream {
    type V = IdentifierView;

    open spec fn view(&self) -> IdentifierView {
        self.stream_id@
    }
}

impl GetStream {
    /// Commands of this kind come straight from a client.
    pub fn get_command_execution_origin(&self) -> (origin: CommandExecution)
        ensures
            origin == CommandExecution::Direct,
    {
        CommandExecution::Direct
    }

    /// There are no field rules beyond those of the identifiers themselves.
    pub fn validate(&self) -> (r: Result<(), IggyError>)
        ensures
            r is Ok,
    {
        Ok(())
    }

    /// Encodes the identifier.
    pub fn as_bytes(&self) -> (r: Bytes)
        ensures
            bytes_view(r) == self@.wire(),
            self@.wf(),
    {
        self.stream_id.as_bytes()
    }

    /// Decodes the identifier.  A payload shorter than 3 bytes cannot hold
    /// one and is rejected at once.
    pub fn from_bytes(bytes: Bytes) -> (r: Result<GetStream, IggyError>)
        ensures
            match r {
                Ok(command) => parse_identifier_payload(bytes_view(bytes)) == Some(command@)
                    && command@.wf() && command@.canonical(),
                Err(e) => e == IggyError::InvalidCommand && parse_identifier_payload(
                    bytes_view(bytes),
                ) is None,
            },
            bytes_view(bytes).len() < 3 ==> r is Err,
    {
        let stream_id = decode_identifier_payload(bytes)?;
        let command = GetStream { stream_id };
        command.validate()?;
        Ok(command)
    }
}

/// `GetStreams` command is used to retrieve the information about all the streams.
/// It has no additional payload.
#[derive(Debug, Clone, Copy, Default, PartialEq, Eq)]
pub struct GetStreams {}

impl GetStreams {
    /// Commands of this kind come straight from a client.
    pub fn get_command_execution_origin(&self) -> (origin: CommandExecution)
        ensures
            origin == CommandExecution::Direct,
    {
        CommandExecution::Direct
    }

    /// There is nothing to check.
    pub fn validate(&self) -> (r: Result<(), IggyError>)
        ensures
            r is Ok,
    {
        Ok(())
    }

    /// The payload is empty.
    pub fn as_bytes(&self) -> (r: Bytes)
        ensures
            bytes_view(r) == Seq::<u8>::empty(),
    {
        Bytes::new()
    }

    /// Only the empty payload decodes; any byte at all is rejected.
    pub fn from_bytes(bytes: Bytes) -> (r: Result<GetStreams, IggyError>)
        ensures
            match r {
                Ok(_) => parse_empty(bytes_view(bytes)) is Some,
                Err(e) => e == IggyError::InvalidCommand && parse_empty(bytes_view(bytes)) is None,
            },
    {
        if !bytes.is_empty() {
            return Err(IggyError::InvalidCommand);
        }
        let command = GetStreams {};
        command.validate()?;
        Ok(GetStreams {})
    }
}

/// `CreateStream` command is used to create a new stream.
#[derive(Debug, Clone, PartialEq)]
pub struct CreateStream {
    /// Numeric ID of the new stream; the broker picks the next free one where this is `None`.
    pub stream_id: Option<u32>,
    /// Unique stream name, 1 to 255 bytes of UTF-8 text.
    pub name: Vec<u8>,
}

/// The mathematical value of a [`CreateStream`].
pub struct CreateStreamView {
    pub stream_id: Option<u32>,
    pub name: Seq<u8>,
}

impl CreateStreamView {
    /// The fields fit the wire.
    pub open spec fn wf(self) -> bool {
        valid_opt_u32(self.stream_id)
            && valid_text(self.name)
    }

    /// The wire form: stream id (0 for none), name.
    pub open spec fn wire(self) -> Seq<u8> {
        opt_u32_wire(self.stream_id)
            + text_wire(self.name)
    }
}

impl View for CreateStream {
    type V = CreateStreamView;

    open spec fn view(&self) -> CreateStreamView {
        CreateStreamView {
            stream_id: self.stream_id,
            name: self.name@,
        }
    }
}

impl CreateStream {
    /// Reads the fields, one after the other, from the front of `s`; the
    /// count is the number of bytes they took.
    #[verifier::opaque]
    pub open spec fn parse(s: Seq<u8>) -> Option<(CreateStreamView, nat)> {
        match parse_opt_u32(s) {
            Some((stream_id, n1)) => match parse_text(s.skip(n1 as int)) {
                Some((name, n2)) => Some(
                    (CreateStreamView { stream_id, name }, n1 + n2),
                ),
                None => None,
            },
            None => None,
        }
    }

    /// What a payload decodes to.  Bytes after the last field are ignored.
    pub open spec fn decode(s: Seq<u8>) -> Option<CreateStreamView> {
        match Self::parse(s) {
            Some((value, _)) => Some(value),
            None => None,
        }
    }

    /// The decoder never reads past the end of its input.
    pub proof fn lemma_bound(s: Seq<u8>)
        ensures
            match Self::parse(s) {
                Some((_, n)) => 0 < n <= s.len(),
                None => true,
            },
    {
        reveal(CreateStream::parse);
    }

    /// Reading back an encoded value gives the value and the length of its
    /// wire form, whatever follows it.
    pub proof fn lemma_parse(value: CreateStreamView, rest: Seq<u8>)
        requires
            value.wf(),
        ensures
            Self::parse(value.wire() + rest) == Some((value, value.wire().len())),
            (value.wire() + rest).skip(value.wire().len() as int) == rest,
    {
        reveal(CreateStream::parse);
        let s = value.wire() + rest;
        let w1 = opt_u32_wire(value.stream_id);
        let w2 = text_wire(value.name);
        let t3 = rest;
        let t2 = w2 + t3;
        let t1 = w1 + t2;
        assert(s == t1) by {
            lemma_concat_assoc(w1, w2, t3);
        }
        assert(parse_opt_u32(s) == Some((value.stream_id, w1.len()))
            && s.skip(w1.len() as int) == t2) by {
            lemma_opt_u32_parse(value.stream_id, t2);
        }
        assert(parse_text(s.skip(w1.len() as int)) == Some((value.name, w2.len()))
            && s.skip((w1.len() + w2.len()) as int) == t3) by {
            lemma_text_parse(value.name, t3);
            lemma_skip_skip(s, w1.len() as int, w2.len() as int);
        }
    }

    /// The decoder looks at nothing beyond the bytes it reads: an input that
    /// starts with the same bytes decodes to the same value.
    pub proof fn lemma_local(s: Seq<u8>, other: Seq<u8>)
        requires
            Self::parse(s) is Some,
            other.len() >= Self::parse(s).unwrap().1,
            other.take(Self::parse(s).unwrap().1 as int) == s.take(
                Self::parse(s).unwrap().1 as int,
            ),
        ensures
            Self::parse(other) == Self::parse(s),
    {
        reveal(CreateStream::parse);
        Self::lemma_bound(s);
        let n = Self::parse(s).unwrap().1 as int;
        let n1 = parse_opt_u32(s).unwrap().1 as int;
        lemma_take_take(s, n, n1);
        lemma_take_take(other, n, n1);
        lemma_opt_u32_local(s, other);
        let n2 = parse_text(s.skip(n1)).unwrap().1 as int;
        lemma_window(s, other, n, n1, n2);
        lemma_text_local(s.skip(n1), other.skip(n1));
    }

    /// An encoded value cut short cannot be read.
    pub proof fn lemma_cut(value: CreateStreamView, k: int)
        requires
            value.wf(),
            0 <= k < value.wire().len(),
        ensures
            Self::parse(value.wire().take(k)) is None,
    {
        let w = value.wire();
        let s = w.take(k);
        if Self::parse(s) is Some {
            let n = Self::parse(s).unwrap().1 as int;
            Self::lemma_bound(s);
            lemma_take_take(w, k, n);
            Self::lemma_local(s, w);
            Self::lemma_parse(value, Seq::empty());
            lemma_concat_empty(w);
        }
    }

    /// The wire form of a value that fits the wire is neither empty nor
    /// longer than 260 bytes.
    pub proof fn lemma_wire_len(value: CreateStreamView)
        requires
            value.wf(),
        ensures
            0 < value.wire().len() <= 260,
    {
    }

    /// A command that fits the wire survives
    /// encoding and decoding.
    pub proof fn lemma_roundtrip(value: CreateStreamView)
        requires
            value.wf(),
        ensures
            Self::decode(value.wire()) == Some(value),
    {
        Self::lemma_parse(value, Seq::empty());
        lemma_concat_empty(value.wire());
    }

    /// An encoded command whose last byte is cut off cannot be decoded.
    pub proof fn lemma_truncated(value: CreateStreamView)
        requires
            value.wf(),
        ensures
            value.wire().len() > 0,
            Self::decode(value.wire().drop_last()) is None,
    {
        Self::lemma_cut(value, value.wire().len() - 1);
        lemma_take_take(value.wire(), value.wire().len() as int, 0);
    }

    /// Commands of this kind come straight from a client.
    pub fn get_command_execution_origin(&self) -> (origin: CommandExecution)
        ensures
            origin == CommandExecution::Direct,
    {
        CommandExecution::Direct
    }

    /// Accepts the value where its fields fit the wire.
    pub fn validate(&self) -> (r: Result<(), IggyError>)
        ensures
            r is Ok <==> self@.wf(),
            r is Err ==> r == Err::<(), IggyError>(IggyError::InvalidCommand),
    {
        if !is_valid_opt_u32(self.stream_id) {
            return Err(IggyError::InvalidCommand);
        }
        if !is_valid_text(&self.name) {
            return Err(IggyError::InvalidCommand);
        }
        Ok(())
    }

    /// The number of bytes of the wire form.
    pub fn size(&self) -> (n: usize)
        requires
            self@.wf(),
        ensures
            n == self@.wire().len(),
            n <= 260,
    {
        4 + 1 + self.name.len()
    }

    /// Appends the wire form to `buf`.
    pub fn put(&self, buf: &mut BytesMut)
        requires
            self@.wf(),
            bytes_mut_view(*old(buf)).len() + self@.wire().len() <= isize::MAX,
        ensures
            bytes_mut_view(*final(buf)) == bytes_mut_view(*old(buf)) + self@.wire(),
    {
        let ghost before = bytes_mut_view(*buf);
        let ghost w1 = opt_u32_wire(self.stream_id);
        let ghost w2 = text_wire(self.name@);
        put_opt_u32(buf, self.stream_id);
        put_text(buf, &self.name);
        proof {
            lemma_concat_assoc(before, w1, w2);
        }
    }

    /// Decodes the value that starts at `pos` and returns it with the
    /// position just after it.
    pub fn read(s: &[u8], pos: usize) -> (r: Result<(CreateStream, usize), IggyError>)
        requires
            pos <= s@.len(),
        ensures
            match r {
                Ok((value, next)) => Self::parse(s@.skip(pos as int)) == Some(
                    (value@, (next - pos) as nat),
                ) && pos < next <= s@.len() && value@.wf(),
                Err(e) => e == IggyError::InvalidCommand && Self::parse(s@.skip(pos as int))
                    is None,
            },
    {
        proof {
            reveal(CreateStream::parse);
        }
        let (stream_id, p1) = read_opt_u32(s, pos)?;
        proof {
            lemma_skip_skip(s@, pos as int, p1 - pos);
        }
        let (name, p2) = read_text_field(s, p1)?;
        Ok((CreateStream { stream_id, name }, p2))
    }

    /// Encodes the command.
    pub fn as_bytes(&self) -> (r: Bytes)
        requires
            self@.wf(),
        ensures
            bytes_view(r) == self@.wire(),
    {
        let mut bytes = BytesMut::with_capacity(self.size());
        self.put(&mut bytes);
        proof {
            assert(Seq::<u8>::empty() + self@.wire() =~= self@.wire());
        }
        bytes.freeze()
    }

    /// Decodes the command.  A payload that ends before the last field does
    /// is rejected.
    pub fn from_bytes(bytes: Bytes) -> (r: Result<CreateStream, IggyError>)
        ensures
            match r {
                Ok(command) => Self::decode(bytes_view(bytes)) == Some(command@) && command@.wf(),
                Err(e) => e == IggyError::InvalidCommand && Self::decode(bytes_view(bytes))
                    is None,
            },
    {
        let s = as_slice(&bytes);
        proof {
            assert(s@.skip(0) =~= s@);
        }
        let (command, _) = CreateStream::read(s, 0)?;
        command.validate()?;
        Ok(command)
    }
}

/// `DeleteStream` command is used to delete an existing stream.
#[derive(Debug, Clone, PartialEq, Default)]
pub struct DeleteStream {
    /// Unique stream ID (numeric or name).
    pub stream_id: Identifier,
}

impl View for DeleteStream {
    type V = IdentifierView;

    open spec fn view(&self) -> IdentifierView {
        self.stream_id@
    }
}

impl DeleteStream {
    /// Commands of this kind come straight from a client.
    pub fn get_command_execution_origin(&self) -> (origin: CommandExecution)
        ensures
            origin == CommandExecution::Direct,
    {
        CommandExecution::Direct
    }

    /// There are no field rules beyond those of the identifiers themselves.
    pub fn validate(&self) -> (r: Result<(), IggyError>)
        ensures
            r is Ok,
    {
        Ok(())
    }

    /// Encodes the identifier.
    pub fn as_bytes(&self) -> (r: Bytes)
        ensures
            bytes_view(r) == self@.wire(),
            self@.wf(),
    {
        self.stream_id.as_bytes()
    }

    /// Decodes the identifier.  A payload shorter than 3 bytes cannot hold
    /// one and is rejected at once.
    pub fn from_bytes(bytes: Bytes) -> (r: Result<DeleteStream, IggyError>)
        ensures
            match r {
                Ok(command) => parse_identifier_payload(bytes_view(bytes)) == Some(command@)
                    && command@.wf() && command@.canonical(),
                Err(e) => e == IggyError::InvalidCommand && parse_identifier_payload(
                    bytes_view(bytes),
                ) is None,
            },
            bytes_view(bytes).len() < 3 ==> r is Err,
    {
        let stream_id = decode_identifier_payload(bytes)?;
        let command = DeleteStream { stream_id };
        command.validate()?;
        Ok(command)
    }
}

/// `UpdateStream` command is used to rename an existing stream.
#[derive(Debug, Clone, PartialEq)]
pub struct UpdateStream {
    /// Unique stream ID (numeric or name).
    pub stream_id: Identifier,
    /// New stream name, 1 to 255 bytes of UTF-8 text.
    pub name: Vec<u8>,
}

/// The mathematical value of a [`UpdateStream`].
pub struct UpdateStreamView {
    pub stream_id: IdentifierView,
    pub name: Seq<u8>,
}

impl UpdateStreamView {
    /// The fields fit the wire.
    pub open spec fn wf(self) -> bool {
        self.stream_id.wf()
            && valid_text(self.name)
    }

    /// The identifiers come back from the wire unchanged.
    pub open spec fn canonical(self) -> bool {
        self.stream_id.canonical()
    }

    /// The wire form: stream id, name.
    pub open spec fn wire(self) -> Seq<u8> {
        self.stream_id.wire()
            + text_wire(self.name)
    }
}

impl View for UpdateStream {
    type V = UpdateStreamView;

    open spec fn view(&self) -> UpdateStreamView {
        UpdateStreamView {
            stream_id: self.stream_id@,
            name: self.name@,
        }
    }
}

impl UpdateStream {
    /// Reads the fields, one after the other, from the front of `s`; the
    /// count is the number of bytes they took.
    #[verifier::opaque]
    pub open spec fn parse(s: Seq<u8>) -> Option<(UpdateStreamView, nat)> {
        match parse_identifier(s) {
            Some((stream_id, n1)) => match parse_text(s.skip(n1 as int)) {
                Some((name, n2)) => Some(
                    (UpdateStreamView { stream_id, name }, n1 + n2),
                ),
                None => None,
            },
            None => None,
        }
    }

    /// What a payload decodes to.  Bytes after the last field are ignored.
    pub open spec fn decode(s: Seq<u8>) -> Option<UpdateStreamView> {
        match Self::parse(s) {
            Some((value, _)) => Some(value),
            None => None,
        }
    }

    /// The decoder never reads past the end of its input.
    pub proof fn lemma_bound(s: Seq<u8>)
        ensures
            match Self::parse(s) {
                Some((_, n)) => 0 < n <= s.len(),
                None => true,
            },
    {
        reveal(UpdateStream::parse);
    }

    /// Reading back an encoded value gives the value and the length of its
    /// wire form, whatever follows it.
    pub proof fn lemma_parse(value: UpdateStreamView, rest: Seq<u8>)
        requires
            value.wf(),
            value.canonical(),
        ensures
            Self::parse(value.wire() + rest) == Some((value, value.wire().len())),
            (value.wire() + rest).skip(value.wire().len() as int) == rest,
    {
        reveal(UpdateStream::parse);
        let s = value.wire() + rest;
        let w1 = value.stream_id.wire();
        let w2 = text_wire(value.name);
        let t3 = rest;
        let t2 = w2 + t3;
        let t1 = w1 + t2;
        assert(s == t1) by {
            lemma_concat_assoc(w1, w2, t3);
        }
        assert(parse_identifier(s) == Some((value.stream_id, w1.len()))
            && s.skip(w1.len() as int) == t2) by {
            lemma_identifier_roundtrip(value.stream_id, t2);
        }
        assert(parse_text(s.skip(w1.len() as int)) == Some((value.name, w2.len()))
            && s.skip((w1.len() + w2.len()) as int) == t3) by {
            lemma_text_parse(value.name, t3);
            lemma_skip_skip(s, w1.len() as int, w2.len() as int);
        }
    }

    /// Whatever follows an encoded value, a decoder that accepts it reads
    /// exactly the bytes of that value.
    pub proof fn lemma_consumed(value: UpdateStreamView, rest: Seq<u8>)
        requires
            value.wf(),
        ensures
            match Self::parse(value.wire() + rest) {
                Some((_, n)) => n == value.wire().len(),
                None => true,
            },
            (value.wire() + rest).skip(value.wire().len() as int) == rest,
    {
        reveal(UpdateStream::parse);
        let s = value.wire() + rest;
        let w1 = value.stream_id.wire();
        let w2 = text_wire(value.name);
        let t3 = rest;
        let t2 = w2 + t3;
        let t1 = w1 + t2;
        assert(s == t1) by {
            lemma_concat_assoc(w1, w2, t3);
        }
        lemma_skip_concat(value.wire(), rest);
        if Self::parse(s) is Some {
            assert(parse_identifier(s) is Some);
            assert(parse_identifier(s).unwrap().1 == w1.len()
                && s.skip(w1.len() as int) == t2) by {
                lemma_identifier_consumed(value.stream_id, t2);
            }
            assert(parse_text(s.skip(w1.len() as int)) is Some);
            assert(parse_text(s.skip(w1.len() as int)).unwrap().1 == w2.len()
                && s.skip((w1.len() + w2.len()) as int) == t3) by {
                lemma_text_parse(value.name, t3);
                lemma_skip_skip(s, w1.len() as int, w2.len() as int);
            }
        }
    }

    /// The decoder looks at nothing beyond the bytes it reads: an input that
    /// starts with the same bytes decodes to the same value.
    pub proof fn lemma_local(s: Seq<u8>, other: Seq<u8>)
        requires
            Self::parse(s) is Some,
            other.len() >= Self::parse(s).unwrap().1,
            other.take(Self::parse(s).unwrap().1 as int) == s.take(
                Self::parse(s).unwrap().1 as int,
            ),
        ensures
            Self::parse(other) == Self::parse(s),
    {
        reveal(UpdateStream::parse);
        Self::lemma_bound(s);
        let n = Self::parse(s).unwrap().1 as int;
        let n1 = parse_identifier(s).unwrap().1 as int;
        lemma_take_take(s, n, n1);
        lemma_take_take(other, n, n1);
        lemma_identifier_local(s, other);
        let n2 = parse_text(s.skip(n1)).unwrap().1 as int;
        lemma_window(s, other, n, n1, n2);
        lemma_text_local(s.skip(n1), other.skip(n1));
    }

    /// An encoded value cut short cannot be read.
    pub proof fn lemma_cut(value: UpdateStreamView, k: int)
        requires
            value.wf(),
            0 <= k < value.wire().len(),
        ensures
            Self::parse(value.wire().take(k)) is None,
    {
        let w = value.wire();
        let s = w.take(k);
        if Self::parse(s) is Some {
            let n = Self::parse(s).unwrap().1 as int;
            Self::lemma_bound(s);
            lemma_take_take(w, k, n);
            Self::lemma_local(s, w);
            Self::lemma_consumed(value, Seq::empty());
            lemma_concat_empty(w);
        }
    }

    /// The wire form of a value that fits the wire is neither empty nor
    /// longer than 513 bytes.
    pub proof fn lemma_wire_len(value: UpdateStreamView)
        requires
            value.wf(),
        ensures
            0 < value.wire().len() <= 513,
    {
    }

    /// A command that fits the wire and is in canonical form survives
    /// encoding and decoding.
    pub proof fn lemma_roundtrip(value: UpdateStreamView)
        requires
            value.wf(),
            value.canonical(),
        ensures
            Self::decode(value.wire()) == Some(value),
    {
        Self::lemma_parse(value, Seq::empty());
        lemma_concat_empty(value.wire());
    }

    /// An encoded command whose last byte is cut off cannot be decoded.
    pub proof fn lemma_truncated(value: UpdateStreamView)
        requires
            value.wf(),
        ensures
            value.wire().len() > 0,
            Self::decode(value.wire().drop_last()) is None,
    {
        Self::lemma_cut(value, value.wire().len() - 1);
        lemma_take_take(value.wire(), value.wire().len() as int, 0);
    }

    /// Commands of this kind come straight from a client.
    pub fn get_command_execution_origin(&self) -> (origin: CommandExecution)
        ensures
            origin == CommandExecution::Direct,
    {
        CommandExecution::Direct
    }

    /// Accepts the value where its fields fit the wire.
    pub fn validate(&self) -> (r: Result<(), IggyError>)
        ensures
            r is Ok <==> self@.wf(),
            r is Err ==> r == Err::<(), IggyError>(IggyError::InvalidCommand),
    {
        self.stream_id.validate()?;
        if !is_valid_text(&self.name) {
            return Err(IggyError::InvalidCommand);
        }
        Ok(())
    }

    /// The number of bytes of the wire form.
    pub fn size(&self) -> (n: usize)
        requires
            self@.wf(),
        ensures
            n == self@.wire().len(),
            n <= 513,
    {
        self.stream_id.get_size_bytes() as usize + 1 + self.name.len()
    }

    /// Appends the wire form to `buf`.
    pub fn put(&self, buf: &mut BytesMut)
        requires
            self@.wf(),
            bytes_mut_view(*old(buf)).len() + self@.wire().len() <= isize::MAX,
        ensures
            bytes_mut_view(*final(buf)) == bytes_mut_view(*old(buf)) + self@.wire(),
    {
        let ghost before = bytes_mut_view(*buf);
        let ghost w1 = self.stream_id@.wire();
        let ghost w2 = text_wire(self.name@);
        self.stream_id.put(buf);
        put_text(buf, &self.name);
        proof {
            lemma_concat_assoc(before, w1, w2);
        }
    }

    /// Decodes the value that starts at `pos` and returns it with the
    /// position just after it.
    pub fn read(s: &[u8], pos: usize) -> (r: Result<(UpdateStream, usize), IggyError>)
        requires
            pos <= s@.len(),
        ensures
            match r {
                Ok((value, next)) => Self::parse(s@.skip(pos as int)) == Some(
                    (value@, (next - pos) as nat),
                ) && pos < next <= s@.len() && value@.wf() && value@.canonical(),
                Err(e) => e == IggyError::InvalidCommand && Self::parse(s@.skip(pos as int))
                    is None,
            },
    {
        proof {
            reveal(UpdateStream::parse);
        }
        let (stream_id, p1) = Identifier::read(s, pos)?;
        proof {
            lemma_skip_skip(s@, pos as int, p1 - pos);
        }
        let (name, p2) = read_text_field(s, p1)?;
        Ok((UpdateStream { stream_id, name }, p2))
    }

    /// Encodes the command.
    pub fn as_bytes(&self) -> (r: Bytes)
        requires
            self@.wf(),
        ensures
            bytes_view(r) == self@.wire(),
    {
        let mut bytes = BytesMut::with_capacity(self.size());
        self.put(&mut bytes);
        proof {
            assert(Seq::<u8>::empty() + self@.wire() =~= self@.wire());
        }
        bytes.freeze()
    }

    /// Decodes the command.  A payload that ends before the last field does
    /// is rejected.
    pub fn from_bytes(bytes: Bytes) -> (r: Result<UpdateStream, IggyError>)
        ensures
            match r {
                Ok(command) => Self::decode(bytes_view(bytes)) == Some(command@) && command@.wf() && command@.canonical(),
                Err(e) => e == IggyError::InvalidCommand && Self::decode(bytes_view(bytes))
                    is None,
            },
    {
        let s = as_slice(&bytes);
        proof {
            assert(s@.skip(0) =~= s@);
        }
        let (command, _) = UpdateStream::read(s, 0)?;
        command.validate()?;
        Ok(command)
    }
}

/// `PurgeStream` command is used to purge all the messages of a stream, keeping its topics.
#[derive(Debug, Clone, PartialEq, Default)]
pub struct PurgeStream {
    /// Unique stream ID (numeric or name).
    pub stream_id: Identifier,
}

impl View for PurgeStream {
    type V = IdentifierView;

    open spec fn view(&self) -> IdentifierView {
        self.stream_id@
    }
}

impl PurgeStream {
    /// Commands of this kind come straight from a client.
    pub fn get_command_execution_origin(&self) -> (origin: CommandExecution)
        ensures
            origin == CommandExecution::Direct,
    {
        CommandExecution::Direct
    }

    /// There are no field rules beyond those of the identifiers themselves.
    pub fn validate(&self) -> (r: Result<(), IggyError>)
        ensures
            r is Ok,
    {
        Ok(())
    }

    /// Encodes the identifier.
    pub fn as_bytes(&self) -> (r: Bytes)
        ensures
            bytes_view(r) == self@.wire(),
            self@.wf(),
    {
        self.stream_id.as_bytes()
    }

    /// Decodes the identifier.  A payload shorter than 3 bytes cannot hold
    /// one and is rejected at once.
    pub fn from_bytes(bytes: Bytes) -> (r: Result<PurgeStream, IggyError>)
        ensures
            match r {
                Ok(command) => parse_identifier_payload(bytes_view(bytes)) == Some(command@)
                    && command@.wf() && command@.canonical(),
                Err(e) => e == IggyError::InvalidCommand && parse_identifier_payload(
                    bytes_view(bytes),
                ) is None,
            },
            bytes_view(bytes).len() < 3 ==> r is Err,
    {
        let stream_id = decode_identifier_payload(bytes)?;
        let command = PurgeStream { stream_id };
        command.validate()?;
        Ok(command)
    }
}

} // verus!
