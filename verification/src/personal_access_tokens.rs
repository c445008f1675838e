//! Commands on personal access tokens.

use crate::buffer::as_slice;
use crate::buffer::bytes_mut_view;
use crate::buffer::bytes_view;
use crate::error::IggyError;
use crate::payload::CommandExecution;
use crate::payload::lemma_skip_skip;
use crate::payload::parse_empty;
use crate::wire::is_valid_opt_u32;
use crate::wire::is_valid_text;
use crate::wire::lemma_concat_assoc;
use crate::wire::lemma_concat_empty;
use crate::wire::lemma_opt_u32_local;
use crate::wire::lemma_opt_u32_parse;
use crate::wire::lemma_take_take;
use crate::wire::lemma_text_local;
use crate::wire::lemma_text_parse;
use crate::wire::lemma_window;
use crate::wire::opt_u32_wire;
use crate::wire::parse_opt_u32;
use crate::wire::parse_text;
use crate::wire::put_opt_u32;
use crate::wire::put_text;
use crate::wire::read_opt_u32;
use crate::wire::read_text_field;
use crate::wire::text_wire;
use crate::wire::valid_opt_u32;
use crate::wire::valid_text;
use bytes::Bytes;
use bytes::BytesMut;
use vstd::prelude::*;

verus! {

/// `GetPersonalAccessTokens` command is used to list the personal access tokens of the logged-in user.
/// It has no additional payload.
#[derive(Debug, Clone, Copy, Default, PartialEq, Eq)]
pub struct GetPersonalAccessTokens {}

impl GetPersonalAccessTokens {
    /// Commands of this kind come straight from a client.
    pub fn get_command_execution_origin(&self) -> (origin: CommandExecution)
        ensures
            origin == CommandExecution::Direct,
    {
        CommandExecution::Direct
    }

    /// There is nothing to check.
    pub fn validate(&self) -> (r: Result<(), IggyError>)
        ensures
            r is Ok,
    {
        Ok(())
    }

    /// The payload is empty.
    pub fn as_bytes(&self) -> (r: Bytes)
        ensures
            bytes_view(r) == Seq::<u8>::empty(),
    {
        Bytes::new()
    }

    /// Only the empty payload decodes; any byte at all is rejected.
    pub fn from_bytes(bytes: Bytes) -> (r: Result<GetPersonalAccessTokens, IggyError>)
        ensures
            match r {
                Ok(_) => parse_empty(bytes_view(bytes)) is Some,
                Err(e) => e == IggyError::InvalidCommand && parse_empty(bytes_view(bytes)) is None,
            },
    {
        if !bytes.is_empty() {
            return Err(IggyError::InvalidCommand);
        }
        let command = GetPersonalAccessTokens {};
        command.validate()?;
        Ok(GetPersonalAccessTokens {})
    }
}

/// `CreatePersonalAccessToken` command is used to create a new personal access token for the logged-in user.
#[derive(Debug, Clone, PartialEq)]
pub struct CreatePersonalAccessToken {
    /// Unique name of the token, 1 to 255 bytes of UTF-8 text.
    pub name: Vec<u8>,
    /// Seconds after which the token expires; `None` for never.
    pub expiry: Option<u32>,
}

/// The mathematical value of a [`CreatePersonalAccessToken`].
pub struct CreatePersonalAccessTokenView {
    pub name: Seq<u8>,
    pub expiry: Option<u32>,
}

impl CreatePersonalAccessTokenView {
    /// The fields fit the wire.
    pub open spec fn wf(self) -> bool {
        valid_text(self.name)
            && valid_opt_u32(self.expiry)
    }

    /// The wire form: name, expiry (0 for none).
    pub open spec fn wire(self) -> Seq<u8> {
        text_wire(self.name)
            + opt_u32_wire(self.expiry)
    }
}

impl View for CreatePersonalAccessToken {
    type V = CreatePersonalAccessTokenView;

    open spec fn view(&self) -> CreatePersonalAccessTokenView {
        CreatePersonalAccessTokenView {
            name: self.name@,
            expiry: self.expiry,
        }
    }
}

impl CreatePersonalAccessToken {
    /// Reads the fields, one after the other, from the front of `s`; the
    /// count is the number of bytes they took.
    #[verifier::opaque]
    pub open spec fn parse(s: Seq<u8>) -> Option<(CreatePersonalAccessTokenView, nat)> {
        match parse_text(s) {
            Some((name, n1)) => match parse_opt_u32(s.skip(n1 as int)) {
                Some((expiry, n2)) => Some(
                    (CreatePersonalAccessTokenView { name, expiry }, n1 + n2),
                ),
                None => None,
            },
            None => None,
        }
    }

    /// What a payload decodes to.  Bytes after the last field are ignored.
    pub open spec fn decode(s: Seq<u8>) -> Option<CreatePersonalAccessTokenView> {
        match Self::parse(s) {
            Some((value, _)) => Some(value),
            None => None,
        }
    }

    /// The decoder never reads past the end of its input.
    pub proof fn lemma_bound(s: Seq<u8>)
        ensures
            match Self::parse(s) {
                Some((_, n)) => 0 < n <= s.len(),
                None => true,
            },
    {
        reveal(CreatePersonalAccessToken::parse);
    }

    /// Reading back an encoded value gives the value and the length of its
    /// wire form, whatever follows it.
    pub proof fn lemma_parse(value: CreatePersonalAccessTokenView, rest: Seq<u8>)
        requires
            value.wf(),
        ensures
            Self::parse(value.wire() + rest) == Some((value, value.wire().len())),
            (value.wire() + rest).skip(value.wire().len() as int) == rest,
    {
        reveal(CreatePersonalAccessToken::parse);
        let s = value.wire() + rest;
        let w1 = text_wire(value.name);
        let w2 = opt_u32_wire(value.expiry);
        let t3 = rest;
        let t2 = w2 + t3;
        let t1 = w1 + t2;
        assert(s == t1) by {
            lemma_concat_assoc(w1, w2, t3);
        }
        assert(parse_text(s) == Some((value.name, w1.len()))
            && s.skip(w1.len() as int) == t2) by {
            lemma_text_parse(value.name, t2);
        }
        assert(parse_opt_u32(s.skip(w1.len() as int)) == Some((value.expiry, w2.len()))
            && s.skip((w1.len() + w2.len()) as int) == t3) by {
            lemma_opt_u32_parse(value.expiry, t3);
            lemma_skip_skip(s, w1.len() as int, w2.len() as int);
        }
    }

    /// The decoder looks at nothing beyond the bytes it reads: an input that
    /// starts with the same bytes decodes to the same value.
    pub proof fn lemma_local(s: Seq<u8>, other: Seq<u8>)
        requires
            Self::parse(s) is Some,
            other.len() >= Self::parse(s).unwrap().1,
            other.take(Self::parse(s).unwrap().1 as int) == s.take(
                Self::parse(s).unwrap().1 as int,
            ),
        ensures
            Self::parse(other) == Self::parse(s),
    {
        reveal(CreatePersonalAccessToken::parse);
        Self::lemma_bound(s);
        let n = Self::parse(s).unwrap().1 as int;
        let n1 = parse_text(s).unwrap().1 as int;
        lemma_take_take(s, n, n1);
        lemma_take_take(other, n, n1);
        lemma_text_local(s, other);
        let n2 = parse_opt_u32(s.skip(n1)).unwrap().1 as int;
        lemma_window(s, other, n, n1, n2);
        lemma_opt_u32_local(s.skip(n1), other.skip(n1));
    }

    /// An encoded value cut short cannot be read.
    pub proof fn lemma_cut(value: CreatePersonalAccessTokenView, k: int)
        requires
            value.wf(),
            0 <= k < value.wire().len(),
        ensures
            Self::parse(value.wire().take(k)) is None,
    {
        let w = value.wire();
        let s = w.take(k);
        if Self::parse(s) is Some {
            let n = Self::parse(s).unwrap().1 as int;
            Self::lemma_bound(s);
            lemma_take_take(w, k, n);
            Self::lemma_local(s, w);
            Self::lemma_parse(value, Seq::empty());
            lemma_concat_empty(w);
        }
    }

    /// The wire form of a value that fits the wire is neither empty nor
    /// longer than 260 bytes.
    pub proof fn lemma_wire_len(value: CreatePersonalAccessTokenView)
        requires
            value.wf(),
        ensures
            0 < value.wire().len() <= 260,
    {
    }

    /// A command that fits the wire survives
    /// encoding and decoding.
    pub proof fn lemma_roundtrip(value: CreatePersonalAccessTokenView)
        requires
            value.wf(),
        ensures
            Self::decode(value.wire()) == Some(value),
    {
        Self::lemma_parse(value, Seq::empty());
        lemma_concat_empty(value.wire());
    }

    /// An encoded command whose last byte is cut off cannot be decoded.
    pub proof fn lemma_truncated(value: CreatePersonalAccessTokenView)
        requires
            value.wf(),
        ensures
            value.wire().len() > 0,
            Self::decode(value.wire().drop_last()) is None,
    {
        Self::lemma_cut(value, value.wire().len() - 1);
        lemma_take_take(value.wire(), value.wire().len() as int, 0);
    }

    /// Commands of this kind come straight from a client.
    pub fn get_command_execution_origin(&self) -> (origin: CommandExecution)
        ensures
            origin == CommandExecution::Direct,
    {
        CommandExecution::Direct
    }

    /// Accepts the value where its fields fit the wire.
    pub fn validate(&self) -> (r: Result<(), IggyError>)
        ensures
            r is Ok <==> self@.wf(),
            r is Err ==> r == Err::<(), IggyError>(IggyError::InvalidCommand),
    {
        if !is_valid_text(&self.name) {
            return Err(IggyError::InvalidCommand);
        }
        if !is_valid_opt_u32(self.expiry) {
            return Err(IggyError::InvalidCommand);
        }
        Ok(())
    }

    /// The number of bytes of the wire form.
    pub fn size(&self) -> (n: usize)
        requires
            self@.wf(),
        ensures
            n == self@.wire().len(),
            n <= 260,
    {
        1 + self.name.len() + 4
    }

    /// Appends the wire form to `buf`.
    pub fn put(&self, buf: &mut BytesMut)
        requires
            self@.wf(),
            bytes_mut_view(*old(buf)).len() + self@.wire().len() <= isize::MAX,
        ensures
            bytes_mut_view(*final(buf)) == bytes_mut_view(*old(buf)) + self@.wire(),
    {
        let ghost before = bytes_mut_view(*buf);
        let ghost w1 = text_wire(self.name@);
        let ghost w2 = opt_u32_wire(self.expiry);
        put_text(buf, &self.name);
        put_opt_u32(buf, self.expiry);
        proof {
            lemma_concat_assoc(before, w1, w2);
        }
    }

    /// Decodes the value that starts at `pos` and returns it with the
    /// position just after it.
    pub fn read(s: &[u8], pos: usize) -> (r: Result<(CreatePersonalAccessToken, usize), IggyError>)
        requires
            pos <= s@.len(),
        ensures
            match r {
                Ok((value, next)) => Self::parse(s@.skip(pos as int)) == Some(
                    (value@, (next - pos) as nat),
                ) && pos < next <= s@.len() && value@.wf(),
                Err(e) => e == IggyError::InvalidCommand && Self::parse(s@.skip(pos as int))
                    is None,
            },
    {
        proof {
            reveal(CreatePersonalAccessToken::parse);
        }
        let (name, p1) = read_text_field(s, pos)?;
        proof {
            lemma_skip_skip(s@, pos as int, p1 - pos);
        }
        let (expiry, p2) = read_opt_u32(s, p1)?;
        Ok((CreatePersonalAccessToken { name, expiry }, p2))
    }

    /// Encodes the command.
    pub fn as_bytes(&self) -> (r: Bytes)
        requires
            self@.wf(),
        ensures
            bytes_view(r) == self@.wire(),
    {
        let mut bytes = BytesMut::with_capacity(self.size());
        self.put(&mut bytes);
        proof {
            assert(Seq::<u8>::empty() + self@.wire() =~= self@.wire());
        }
        bytes.freeze()
    }

    /// Decodes the command.  A payload that ends before the last field does
    /// is rejected.
    pub fn from_bytes(bytes: Bytes) -> (r: Result<CreatePersonalAccessToken, IggyError>)
        ensures
            match r {
                Ok(command) => Self::decode(bytes_view(bytes)) == Some(command@) && command@.wf(),
                Err(e) => e == IggyError::InvalidCommand && Self::decode(bytes_view(bytes))
                    is None,
            },
    {
        let s = as_slice(&bytes);
        proof {
            assert(s@.skip(0) =~= s@);
        }
        let (command, _) = CreatePersonalAccessToken::read(s, 0)?;
        command.validate()?;
        Ok(command)
    }
}

/// `DeletePersonalAccessToken` command is used to delete a personal access token of the logged-in user.
#[derive(Debug, Clone, PartialEq)]
pub struct DeletePersonalAccessToken {
    /// Name of the token to delete.
    pub name: Vec<u8>,
}

/// The mathematical value of a [`DeletePersonalAccessToken`].
pub struct DeletePersonalAccessTokenView {
    pub name: Seq<u8>,
}

impl DeletePersonalAccessTokenView {
    /// The fields fit the wire.
    pub open spec fn wf(self) -> bool {
        valid_text(self.name)
    }

    /// The wire form: name.
    pub open spec fn wire(self) -> Seq<u8> {
        text_wire(self.name)
    }
}

impl View for DeletePersonalAccessToken {
    type V = DeletePersonalAccessTokenView;

    open spec fn view(&self) -> DeletePersonalAccessTokenView {
        DeletePersonalAccessTokenView {
            name: self.name@,
        }
    }
}

impl DeletePersonalAccessToken {
    /// Reads the fields, one after the other, from the front of `s`; the
    /// count is the number of bytes they took.
    #[verifier::opaque]
    pub open spec fn parse(s: Seq<u8>) -> Option<(DeletePersonalAccessTokenView, nat)> {
        match parse_text(s) {
            Some((name, n1)) => Some(
                (DeletePersonalAccessTokenView { name }, n1),
            ),
            None => None,
        }
    }

    /// What a payload decodes to.  Bytes after the last field are ignored.
    pub open spec fn decode(s: Seq<u8>) -> Option<DeletePersonalAccessTokenView> {
        match Self::parse(s) {
            Some((value, _)) => Some(value),
            None => None,
        }
    }

    /// The decoder never reads past the end of its input.
    pub proof fn lemma_bound(s: Seq<u8>)
        ensures
            match Self::parse(s) {
                Some((_, n)) => 0 < n <= s.len(),
                None => true,
            },
    {
        reveal(DeletePersonalAccessToken::parse);
    }

    /// Reading back an encoded value gives the value and the length of its
    /// wire form, whatever follows it.
    pub proof fn lemma_parse(value: DeletePersonalAccessTokenView, rest: Seq<u8>)
        requires
            value.wf(),
        ensures
            Self::parse(value.wire() + rest) == Some((value, value.wire().len())),
            (value.wire() + rest).skip(value.wire().len() as int) == rest,
    {
        reveal(DeletePersonalAccessToken::parse);
        let s = value.wire() + rest;
        let w1 = text_wire(value.name);
        let t2 = rest;
        let t1 = w1 + t2;
        assert(parse_text(s) == Some((value.name, w1.len()))
            && s.skip(w1.len() as int) == t2) by {
            lemma_text_parse(value.name, t2);
        }
    }

    /// The decoder looks at nothing beyond the bytes it reads: an input that
    /// starts with the same bytes decodes to the same value.
    pub proof fn lemma_local(s: Seq<u8>, other: Seq<u8>)
        requires
            Self::parse(s) is Some,
            other.len() >= Self::parse(s).unwrap().1,
            other.take(Self::parse(s).unwrap().1 as int) == s.take(
                Self::parse(s).unwrap().1 as int,
            ),
        ensures
            Self::parse(other) == Self::parse(s),
    {
        reveal(DeletePersonalAccessToken::parse);
        Self::lemma_bound(s);
        let n = Self::parse(s).unwrap().1 as int;
        let n1 = parse_text(s).unwrap().1 as int;
        lemma_take_take(s, n, n1);
        lemma_take_take(other, n, n1);
        lemma_text_local(s, other);
    }

    /// An encoded value cut short cannot be read.
    pub proof fn lemma_cut(value: DeletePersonalAccessTokenView, k: int)
        requires
            value.wf(),
            0 <= k < value.wire().len(),
        ensures
            Self::parse(value.wire().take(k)) is None,
    {
        let w = value.wire();
        let s = w.take(k);
        if Self::parse(s) is Some {
            let n = Self::parse(s).unwrap().1 as int;
            Self::lemma_bound(s);
            lemma_take_take(w, k, n);
            Self::lemma_local(s, w);
            Self::lemma_parse(value, Seq::empty());
            lemma_concat_empty(w);
        }
    }

    /// The wire form of a value that fits the wire is neither empty nor
    /// longer than 256 bytes.
    pub proof fn lemma_wire_len(value: DeletePersonalAccessTokenView)
        requires
            value.wf(),
        ensures
            0 < value.wire().len() <= 256,
    {
    }

    /// A command that fits the wire survives
    /// encoding and decoding.
    pub proof fn lemma_roundtrip(value: DeletePersonalAccessTokenView)
        requires
            value.wf(),
        ensures
            Self::decode(value.wire()) == Some(value),
    {
        Self::lemma_parse(value, Seq::empty());
        lemma_concat_empty(value.wire());
    }

    /// An encoded command whose last byte is cut off cannot be decoded.
    pub proof fn lemma_truncated(value: DeletePersonalAccessTokenView)
        requires
            value.wf(),
        ensures
            value.wire().len() > 0,
            Self::decode(value.wire().drop_last()) is None,
    {
        Self::lemma_cut(value, value.wire().len() - 1);
        lemma_take_take(value.wire(), value.wire().len() as int, 0);
    }

    /// Commands of this kind come straight from a client.
    pub fn get_command_execution_origin(&self) -> (origin: CommandExecution)
        ensures
            origin == CommandExecution::Direct,
    {
        CommandExecution::Direct
    }

    /// Accepts the value where its fields fit the wire.
    pub fn validate(&self) -> (r: Result<(), IggyError>)
        ensures
            r is Ok <==> self@.wf(),
            r is Err ==> r == Err::<(), IggyError>(IggyError::InvalidCommand),
    {
        if !is_valid_text(&self.name) {
            return Err(IggyError::InvalidCommand);
        }
        Ok(())
    }

    /// The number of bytes of the wire form.
    pub fn size(&self) -> (n: usize)
        requires
            self@.wf(),
        ensures
            n == self@.wire().len(),
            n <= 256,
    {
        1 + self.name.len()
    }

    /// Appends the wire form to `buf`.
    pub fn put(&self, buf: &mut BytesMut)
        requires
            self@.wf(),
            bytes_mut_view(*old(buf)).len() + self@.wire().len() <= isize::MAX,
        ensures
            bytes_mut_view(*final(buf)) == bytes_mut_view(*old(buf)) + self@.wire(),
    {
        put_text(buf, &self.name);
    }

    /// Decodes the value that starts at `pos` and returns it with the
    /// position just after it.
    pub fn read(s: &[u8], pos: usize) -> (r: Result<(DeletePersonalAccessToken, usize), IggyError>)
        requires
            pos <= s@.len(),
        ensures
            match r {
                Ok((value, next)) => Self::parse(s@.skip(pos as int)) == Some(
                    (value@, (next - pos) as nat),
                ) && pos < next <= s@.len() && value@.wf(),
                Err(e) => e == IggyError::InvalidCommand && Self::parse(s@.skip(pos as int))
                    is None,
            },
    {
        proof {
            reveal(DeletePersonalAccessToken::parse);
        }
        let (name, p1) = read_text_field(s, pos)?;
        Ok((DeletePersonalAccessToken { name }, p1))
    }

    /// Encodes the command.
    pub fn as_bytes(&self) -> (r: Bytes)
        requires
            self@.wf(),
        ensures
            bytes_view(r) == self@.wire(),
    {
        let mut bytes = BytesMut::with_capacity(self.size());
        self.put(&mut bytes);
        proof {
            assert(Seq::<u8>::empty() + self@.wire() =~= self@.wire());
        }
        bytes.freeze()
    }

    /// Decodes the command.  A payload that ends before the last field does
    /// is rejected.
    pub fn from_bytes(bytes: Bytes) -> (r: Result<DeletePersonalAccessToken, IggyError>)
        ensures
            match r {
                Ok(command) => Self::decode(bytes_view(bytes)) == Some(command@) && command@.wf(),
                Err(e) => e == IggyError::InvalidCommand && Self::decode(bytes_view(bytes))
                    is None,
            },
    {
        let s = as_slice(&bytes);
        proof {
            assert(s@.skip(0) =~= s@);
        }
        let (command, _) = DeletePersonalAccessToken::read(s, 0)?;
        command.validate()?;
        Ok(command)
    }
}

/// `LoginWithPersonalAccessToken` command is used to log in with a personal access token in place of a password.
#[derive(Debug, Clone, PartialEq)]
pub struct LoginWithPersonalAccessToken {
    /// The token as it was handed out when it was created.
    pub token: Vec<u8>,
}

/// The mathematical value of a [`LoginWithPersonalAccessToken`].
pub struct LoginWithPersonalAccessTokenView {
    pub token: Seq<u8>,
}

impl LoginWithPersonalAccessTokenView {
    /// The fields fit the wire.
    pub open spec fn wf(self) -> bool {
        valid_text(self.token)
    }

    /// The wire form: token.
    pub open spec fn wire(self) -> Seq<u8> {
        text_wire(self.token)
    }
}

impl View for LoginWithPersonalAccessToken {
    type V = LoginWithPersonalAccessTokenView;

    open spec fn view(&self) -> LoginWithPersonalAccessTokenView {
        LoginWithPersonalAccessTokenView {
            token: self.token@,
        }
    }
}

impl LoginWithPersonalAccessToken {
    /// Reads the fields, one after the other, from the front of `s`; the
    /// count is the number of bytes they took.
    #[verifier::opaque]
    pub open spec fn parse(s: Seq<u8>) -> Option<(LoginWithPersonalAccessTokenView, nat)> {
        match parse_text(s) {
            Some((token, n1)) => Some(
                (LoginWithPersonalAccessTokenView { token }, n1),
            ),
            None => None,
        }
    }

    /// What a payload decodes to.  Bytes after the last field are ignored.
    pub open spec fn decode(s: Seq<u8>) -> Option<LoginWithPersonalAccessTokenView> {
        match Self::parse(s) {
            Some((value, _)) => Some(value),
            None => None,
        }
    }

    /// The decoder never reads past the end of its input.
    pub proof fn lemma_bound(s: Seq<u8>)
        ensures
            match Self::parse(s) {
                Some((_, n)) => 0 < n <= s.len(),
                None => true,
            },
    {
        reveal(LoginWithPersonalAccessToken::parse);
    }

    /// Reading back an encoded value gives the value and the length of its
    /// wire form, whatever follows it.
    pub proof fn lemma_parse(value: LoginWithPersonalAccessTokenView, rest: Seq<u8>)
        requires
            value.wf(),
        ensures
            Self::parse(value.wire() + rest) == Some((value, value.wire().len())),
            (value.wire() + rest).skip(value.wire().len() as int) == rest,
    {
        reveal(LoginWithPersonalAccessToken::parse);
        let s = value.wire() + rest;
        let w1 = text_wire(value.token);
        let t2 = rest;
        let t1 = w1 + t2;
        assert(parse_text(s) == Some((value.token, w1.len()))
            && s.skip(w1.len() as int) == t2) by {
            lemma_text_parse(value.token, t2);
        }
    }

    /// The decoder looks at nothing beyond the bytes it reads: an input that
    /// starts with the same bytes decodes to the same value.
    pub proof fn lemma_local(s: Seq<u8>, other: Seq<u8>)
        requires
            Self::parse(s) is Some,
            other.len() >= Self::parse(s).unwrap().1,
            other.take(Self::parse(s).unwrap().1 as int) == s.take(
                Self::parse(s).unwrap().1 as int,
            ),
        ensures
            Self::parse(other) == Self::parse(s),
    {
        reveal(LoginWithPersonalAccessToken::parse);
        Self::lemma_bound(s);
        let n = Self::parse(s).unwrap().1 as int;
        let n1 = parse_text(s).unwrap().1 as int;
        lemma_take_take(s, n, n1);
        lemma_take_take(other, n, n1);
        lemma_text_local(s, other);
    }

    /// An encoded value cut short cannot be read.
    pub proof fn lemma_cut(value: LoginWithPersonalAccessTokenView, k: int)
        requires
            value.wf(),
            0 <= k < value.wire().len(),
        ensures
            Self::parse(value.wire().take(k)) is None,
    {
        let w = value.wire();
        let s = w.take(k);
        if Self::parse(s) is Some {
            let n = Self::parse(s).unwrap().1 as int;
            Self::lemma_bound(s);
            lemma_take_take(w, k, n);
            Self::lemma_local(s, w);
            Self::lemma_parse(value, Seq::empty());
            lemma_concat_empty(w);
        }
    }

    /// The wire form of a value that fits the wire is neither empty nor
    /// longer than 256 bytes.
    pub proof fn lemma_wire_len(value: LoginWithPersonalAccessTokenView)
        requires
            value.wf(),
        ensures
            0 < value.wire().len() <= 256,
    {
    }

    /// A command that fits the wire survives
    /// encoding and decoding.
    pub proof fn lemma_roundtrip(value: LoginWithPersonalAccessTokenView)
        requires
            value.wf(),
        ensures
            Self::decode(value.wire()) == Some(value),
    {
        Self::lemma_parse(value, Seq::empty());
        lemma_concat_empty(value.wire());
    }

    /// An encoded command whose last byte is cut off cannot be decoded.
    pub proof fn lemma_truncated(value: LoginWithPersonalAccessTokenView)
        requires
            value.wf(),
        ensures
            value.wire().len() > 0,
            Self::decode(value.wire().drop_last()) is None,
    {
        Self::lemma_cut(value, value.wire().len() - 1);
        lemma_take_take(value.wire(), value.wire().len() as int, 0);
    }

    /// Commands of this kind come straight from a client.
    pub fn get_command_execution_origin(&self) -> (origin: CommandExecution)
        ensures
            origin == CommandExecution::Direct,
    {
        CommandExecution::Direct
    }

    /// Accepts the value where its fields fit the wire.
    pub fn validate(&self) -> (r: Result<(), IggyError>)
        ensures
            r is Ok <==> self@.wf(),
            r is Err ==> r == Err::<(), IggyError>(IggyError::InvalidCommand),
    {
        if !is_valid_text(&self.token) {
            return Err(IggyError::InvalidCommand);
        }
        Ok(())
    }

    /// The number of bytes of the wire form.
    pub fn size(&self) -> (n: usize)
        requires
            self@.wf(),
        ensures
            n == self@.wire().len(),
            n <= 256,
    {
        1 + self.token.len()
    }

    /// Appends the wire form to `buf`.
    pub fn put(&self, buf: &mut BytesMut)
        requires
            self@.wf(),
            bytes_mut_view(*old(buf)).len() + self@.wire().len() <= isize::MAX,
        ensures
            bytes_mut_view(*final(buf)) == bytes_mut_view(*old(buf)) + self@.wire(),
    {
        put_text(buf, &self.token);
    }

    /// Decodes the value that starts at `pos` and returns it with the
    /// position just after it.
    pub fn read(s: &[u8], pos: usize) -> (r: Result<(LoginWithPersonalAccessToken, usize), IggyError>)
        requires
            pos <= s@.len(),
        ensures
            match r {
                Ok((value, next)) => Self::parse(s@.skip(pos as int)) == Some(
                    (value@, (next - pos) as nat),
                ) && pos < next <= s@.len() && value@.wf(),
                Err(e) => e == IggyError::InvalidCommand && Self::parse(s@.skip(pos as int))
                    is None,
            },
    {
        proof {
            reveal(LoginWithPersonalAccessToken::parse);
        }
        let (token, p1) = read_text_field(s, pos)?;
        Ok((LoginWithPersonalAccessToken { token }, p1))
    }

    /// Encodes the command.
    pub fn as_bytes(&self) -> (r: Bytes)
        requires
            self@.wf(),
        ensures
            bytes_view(r) == self@.wire(),
    {
        let mut bytes = BytesMut::with_capacity(self.size());
        self.put(&mut bytes);
        proof {
            assert(Seq::<u8>::empty() + self@.wire() =~= self@.wire());
        }
        bytes.freeze()
    }

    /// Decodes the command.  A payload that ends before the last field does
    /// is rejected.
    pub fn from_bytes(bytes: Bytes) -> (r: Result<LoginWithPersonalAccessToken, IggyError>)
        ensures
            match r {
                Ok(command) => Self::decode(bytes_view(bytes)) == Some(command@) && command@.wf(),
                Err(e) => e == IggyError::InvalidCommand && Self::decode(bytes_view(bytes))
                    is None,
            },
    {
        let s = as_slice(&bytes);
        proof {
            assert(s@.skip(0) =~= s@);
        }
        let (command, _) = LoginWithPersonalAccessToken::read(s, 0)?;
        command.validate()?;
        Ok(command)
    }
}

} // verus!
