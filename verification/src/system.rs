//! Commands about the broker itself and the clients connected to it.

use crate::buffer::as_slice;
use crate::buffer::bytes_mut_view;
use crate::buffer::bytes_view;
use crate::error::IggyError;
use crate::payload::CommandExecution;
use crate::payload::parse_empty;
use crate::wire::lemma_concat_empty;
use crate::wire::lemma_take_take;
use crate::wire::lemma_u32_local;
use crate::wire::lemma_u32_parse;
use crate::wire::parse_u32;
use crate::wire::put_u32_le;
use crate::wire::read_u32;
use crate::wire::u32_le;
use bytes::Bytes;
use bytes::BytesMut;
use vstd::prelude::*;

verus! {

/// `Ping` command is used to check if the server is alive.
/// It has no additional payload.
#[derive(Debug, Clone, Copy, Default, PartialEq, Eq)]
pub struct Ping {}

impl Ping {
    /// Commands of this kind come straight from a client.
    pub fn get_command_execution_origin(&self) -> (origin: CommandExecution)
        ensures
            origin == CommandExecution::Direct,
    {
        CommandExecution::Direct
    }

    /// There is nothing to check.
    pub fn validate(&self) -> (r: Result<(), IggyError>)
        ensures
            r is Ok,
    {
        Ok(())
    }

    /// The payload is empty.
    pub fn as_bytes(&self) -> (r: Bytes)
        ensures
            bytes_view(r) == Seq::<u8>::empty(),
    {
        Bytes::new()
    }

    /// Only the empty payload decodes; any byte at all is rejected.
    pub fn from_bytes(bytes: Bytes) -> (r: Result<Ping, IggyError>)
        ensures
            match r {
                Ok(_) => parse_empty(bytes_view(bytes)) is Some,
                Err(e) => e == IggyError::InvalidCommand && parse_empty(bytes_view(bytes)) is None,
            },
    {
        if !bytes.is_empty() {
            return Err(IggyError::InvalidCommand);
        }
        let command = Ping {};
        command.validate()?;
        Ok(Ping {})
    }
}

/// `GetStats` command is used to get the statistics about the system.
/// It has no additional payload.
#[derive(Debug, Clone, Copy, Default, PartialEq, Eq)]
pub struct GetStats {}

impl GetStats {
    /// Commands of this kind come straight from a client.
    pub fn get_command_execution_origin(&self) -> (origin: CommandExecution)
        ensures
            origin == CommandExecution::Direct,
    {
        CommandExecution::Direct
    }

    /// There is nothing to check.
    pub fn validate(&self) -> (r: Result<(), IggyError>)
        ensures
            r is Ok,
    {
        Ok(())
    }

    /// The payload is empty.
    pub fn as_bytes(&self) -> (r: Bytes)
        ensures
            bytes_view(r) == Seq::<u8>::empty(),
    {
        Bytes::new()
    }

    /// Only the empty payload decodes; any byte at all is rejected.
    pub fn from_bytes(bytes: Bytes) -> (r: Result<GetStats, IggyError>)
        ensures
            match r {
                Ok(_) => parse_empty(bytes_view(bytes)) is Some,
                Err(e) => e == IggyError::InvalidCommand && parse_empty(bytes_view(bytes)) is None,
            },
    {
        if !bytes.is_empty() {
            return Err(IggyError::InvalidCommand);
        }
        let command = GetStats {};
        command.validate()?;
        Ok(GetStats {})
    }
}

/// `GetMe` command is used to get the information about the currently connected client.
/// It has no additional payload.
#[derive(Debug, Clone, Copy, Default, PartialEq, Eq)]
pub struct GetMe {}

impl GetMe {
    /// Commands of this kind come straight from a client.
    pub fn get_command_execution_origin(&self) -> (origin: CommandExecution)
        ensures
            origin == CommandExecution::Direct,
    {
        CommandExecution::Direct
    }

    /// There is nothing to check.
    pub fn validate(&self) -> (r: Result<(), IggyError>)
        ensures
            r is Ok,
    {
        Ok(())
    }

    /// The payload is empty.
    pub fn as_bytes(&self) -> (r: Bytes)
        ensures
            bytes_view(r) == Seq::<u8>::empty(),
    {
        Bytes::new()
    }

    /// Only the empty payload decodes; any byte at all is rejected.
    pub fn from_bytes(bytes: Bytes) -> (r: Result<GetMe, IggyError>)
        ensures
            match r {
                Ok(_) => parse_empty(bytes_view(bytes)) is Some,
                Err(e) => e == IggyError::InvalidCommand && parse_empty(bytes_view(bytes)) is None,
            },
    {
        if !bytes.is_empty() {
            return Err(IggyError::InvalidCommand);
        }
        let command = GetMe {};
        command.validate()?;
        Ok(GetMe {})
    }
}

/// `GetClients` command is used to get the information about all connected clients.
/// It has no additional payload.
#[derive(Debug, Clone, Copy, Default, PartialEq, Eq)]
pub struct GetClients {}

impl GetClients {
    /// Commands of this kind come straight from a client.
    pub fn get_command_execution_origin(&self) -> (origin: CommandExecution)
        ensures
            origin == CommandExecution::Direct,
    {
        CommandExecution::Direct
    }

    /// There is nothing to check.
    pub fn validate(&self) -> (r: Result<(), IggyError>)
        ensures
            r is Ok,
    {
        Ok(())
    }

    /// The payload is empty.
    pub fn as_bytes(&self) -> (r: Bytes)
        ensures
            bytes_view(r) == Seq::<u8>::empty(),
    {
        Bytes::new()
    }

    /// Only the empty payload decodes; any byte at all is rejected.
    pub fn from_bytes(bytes: Bytes) -> (r: Result<GetClients, IggyError>)
        ensures
            match r {
                Ok(_) => parse_empty(bytes_view(bytes)) is Some,
                Err(e) => e == IggyError::InvalidCommand && parse_empty(bytes_view(bytes)) is None,
            },
    {
        if !bytes.is_empty() {
            return Err(IggyError::InvalidCommand);
        }
        let command = GetClients {};
        command.validate()?;
        Ok(GetClients {})
    }
}

/// `GetClient` command is used to get the information about a specific client by its unique ID.
#[derive(Debug, Clone, Copy, PartialEq, Eq, Structural)]
pub struct GetClient {
    /// Unique ID of the client.
    pub client_id: u32,
}

impl GetClient {
    /// The fields fit the wire.
    pub open spec fn wf(self) -> bool {
        true
    }

    /// The wire form: client id.
    pub open spec fn wire(self) -> Seq<u8> {
        u32_le(self.client_id)
    }

    /// Reads the fields, one after the other, from the front of `s`; the
    /// count is the number of bytes they took.
    #[verifier::opaque]
    pub open spec fn parse(s: Seq<u8>) -> Option<(GetClient, nat)> {
        match parse_u32(s) {
            Some((client_id, n1)) => Some(
                (GetClient { client_id }, n1),
            ),
            None => None,
        }
    }

    /// What a payload decodes to.  Bytes after the last field are ignored.
    pub open spec fn decode(s: Seq<u8>) -> Option<GetClient> {
        match Self::parse(s) {
            Some((value, _)) => Some(value),
            None => None,
        }
    }

    /// The decoder never reads past the end of its input.
    pub proof fn lemma_bound(s: Seq<u8>)
        ensures
            match Self::parse(s) {
                Some((_, n)) => 0 < n <= s.len(),
                None => true,
            },
    {
        reveal(GetClient::parse);
    }

    /// Reading back an encoded value gives the value and the length of its
    /// wire form, whatever follows it.
    pub proof fn lemma_parse(value: GetClient, rest: Seq<u8>)
        requires
            value.wf(),
        ensures
            Self::parse(value.wire() + rest) == Some((value, value.wire().len())),
            (value.wire() + rest).skip(value.wire().len() as int) == rest,
    {
        reveal(GetClient::parse);
        let s = value.wire() + rest;
        let w1 = u32_le(value.client_id);
        let t2 = rest;
        let t1 = w1 + t2;
        assert(parse_u32(s) == Some((value.client_id, w1.len()))
            && s.skip(w1.len() as int) == t2) by {
            lemma_u32_parse(value.client_id, t2);
        }
    }

    /// The decoder looks at nothing beyond the bytes it reads: an input that
    /// starts with the same bytes decodes to the same value.
    pub proof fn lemma_local(s: Seq<u8>, other: Seq<u8>)
        requires
            Self::parse(s) is Some,
            other.len() >= Self::parse(s).unwrap().1,
            other.take(Self::parse(s).unwrap().1 as int) == s.take(
                Self::parse(s).unwrap().1 as int,
            ),
        ensures
            Self::parse(other) == Self::parse(s),
    {
        reveal(GetClient::parse);
        Self::lemma_bound(s);
        let n = Self::parse(s).unwrap().1 as int;
        let n1 = parse_u32(s).unwrap().1 as int;
        lemma_take_take(s, n, n1);
        lemma_take_take(other, n, n1);
        lemma_u32_local(s, other);
    }

    /// An encoded value cut short cannot be read.
    pub proof fn lemma_cut(value: GetClient, k: int)
        requires
            value.wf(),
            0 <= k < value.wire().len(),
        ensures
            Self::parse(value.wire().take(k)) is None,
    {
        let w = value.wire();
        let s = w.take(k);
        if Self::parse(s) is Some {
            let n = Self::parse(s).unwrap().1 as int;
            Self::lemma_bound(s);
            lemma_take_take(w, k, n);
            Self::lemma_local(s, w);
            Self::lemma_parse(value, Seq::empty());
            lemma_concat_empty(w);
        }
    }

    /// The wire form of a value that fits the wire is neither empty nor
    /// longer than 4 bytes.
    pub proof fn lemma_wire_len(value: GetClient)
        requires
            value.wf(),
        ensures
            0 < value.wire().len() <= 4,
    {
    }

    /// A command that fits the wire survives
    /// encoding and decoding.
    pub proof fn lemma_roundtrip(value: GetClient)
        requires
            value.wf(),
        ensures
            Self::decode(value.wire()) == Some(value),
    {
        Self::lemma_parse(value, Seq::empty());
        lemma_concat_empty(value.wire());
    }

    /// An encoded command whose last byte is cut off cannot be decoded.
    pub proof fn lemma_truncated(value: GetClient)
        requires
            value.wf(),
        ensures
            value.wire().len() > 0,
            Self::decode(value.wire().drop_last()) is None,
    {
        Self::lemma_cut(value, value.wire().len() - 1);
        lemma_take_take(value.wire(), value.wire().len() as int, 0);
    }

    /// Commands of this kind come straight from a client.
    pub fn get_command_execution_origin(&self) -> (origin: CommandExecution)
        ensures
            origin == CommandExecution::Direct,
    {
        CommandExecution::Direct
    }

    /// Accepts the value where its fields fit the wire.
    pub fn validate(&self) -> (r: Result<(), IggyError>)
        ensures
            r is Ok <==> self.wf(),
            r is Err ==> r == Err::<(), IggyError>(IggyError::InvalidCommand),
    {
        Ok(())
    }

    /// The number of bytes of the wire form.
    pub fn size(&self) -> (n: usize)
        requires
            self.wf(),
        ensures
            n == self.wire().len(),
            n <= 4,
    {
        4
    }

    /// Appends the wire form to `buf`.
    pub fn put(&self, buf: &mut BytesMut)
        requires
            self.wf(),
            bytes_mut_view(*old(buf)).len() + self.wire().len() <= isize::MAX,
        ensures
            bytes_mut_view(*final(buf)) == bytes_mut_view(*old(buf)) + self.wire(),
    {
        put_u32_le(buf, self.client_id);
    }

    /// Decodes the value that starts at `pos` and returns it with the
    /// position just after it.
    pub fn read(s: &[u8], pos: usize) -> (r: Result<(GetClient, usize), IggyError>)
        requires
            pos <= s@.len(),
        ensures
            match r {
                Ok((value, next)) => Self::parse(s@.skip(pos as int)) == Some(
                    (value, (next - pos) as nat),
                ) && pos < next <= s@.len() && value.wf(),
                Err(e) => e == IggyError::InvalidCommand && Self::parse(s@.skip(pos as int))
                    is None,
            },
    {
        proof {
            reveal(GetClient::parse);
        }
        let (client_id, p1) = read_u32(s, pos)?;
        Ok((GetClient { client_id }, p1))
    }

    /// Encodes the command.
    pub fn as_bytes(&self) -> (r: Bytes)
        requires
            self.wf(),
        ensures
            bytes_view(r) == self.wire(),
    {
        let mut bytes = BytesMut::with_capacity(self.size());
        self.put(&mut bytes);
        proof {
            assert(Seq::<u8>::empty() + self.wire() =~= self.wire());
        }
        bytes.freeze()
    }

    /// Decodes the command.  A payload that ends before the last field does
    /// is rejected.
    pub fn from_bytes(bytes: Bytes) -> (r: Result<GetClient, IggyError>)
        ensures
            match r {
                Ok(command) => Self::decode(bytes_view(bytes)) == Some(command) && command.wf(),
                Err(e) => e == IggyError::InvalidCommand && Self::decode(bytes_view(bytes))
                    is None,
            },
    {
        let s = as_slice(&bytes);
        proof {
            assert(s@.skip(0) =~= s@);
        }
        let (command, _) = GetClient::read(s, 0)?;
        command.validate()?;
        Ok(command)
    }
}

} // verus!
