//! Commands on users.

use crate::buffer::as_slice;
use crate::buffer::bytes_mut_view;
use crate::buffer::bytes_view;
use crate::error::IggyError;
use crate::identifier::Identifier;
use crate::identifier::IdentifierView;
use crate::identifier::lemma_identifier_local;
use crate::identifier::lemma_identifier_roundtrip;
use crate::identifier::parse_identifier;
use crate::payload::CommandExecution;
use crate::payload::decode_identifier_payload;
use crate::payload::lemma_identifier_consumed;
use crate::payload::lemma_skip_skip;
use crate::payload::parse_empty;
use crate::payload::parse_identifier_payload;
use crate::permissions::Permissions;
use crate::wire::is_valid_opt_text;
use crate::wire::is_valid_text;
use crate::wire::lemma_concat_assoc;
use crate::wire::lemma_concat_empty;
use crate::wire::lemma_opt_text_local;
use crate::wire::lemma_opt_text_parse;
use crate::wire::lemma_same_front;
use crate::wire::lemma_skip_concat;
use crate::wire::lemma_take_take;
use crate::wire::lemma_text_local;
use crate::wire::lemma_text_parse;
use crate::wire::lemma_window;
use crate::wire::opt_bytes_view;
use crate::wire::opt_text_size;
use crate::wire::opt_text_wire;
use crate::wire::parse_opt_text;
use crate::wire::parse_text;
use crate::wire::put_byte;
use crate::wire::put_opt_text;
use crate::wire::put_text;
use crate::wire::put_u8;
use crate::wire::read_opt_text;
use crate::wire::read_text_field;
use crate::wire::text_wire;
use crate::wire::valid_opt_text;
use crate::wire::valid_text;
use bytes::Bytes;
use bytes::BytesMut;
use vstd::prelude::*;

verus! {

/// Whether a user may log in.
#[derive(Debug, Clone, Copy, PartialEq, Eq, Structural)]
pub enum UserStatus {
    /// The user may log in.
    Active,
    /// The user exists but may not log in.
    Inactive,
}

impl UserStatus {
    /// The byte that stands for this user status on the wire.
    pub open spec fn spec_code(self) -> u8 {
        match self {
            UserStatus::Active => 1,
            UserStatus::Inactive => 2,
        }
    }

    /// The user status that a byte stands for, if any.
    pub open spec fn spec_from_code(code: u8) -> Option<UserStatus> {
        if code == 1 {
            Some(UserStatus::Active)
        } else if code == 2 {
            Some(UserStatus::Inactive)
        } else {
            None
        }
    }

    /// The wire form: one byte.
    pub open spec fn wire(self) -> Seq<u8> {
        seq![self.spec_code()]
    }

    /// Reads a user status from the front of `s`; an unknown byte is rejected.
    pub open spec fn parse(s: Seq<u8>) -> Option<(UserStatus, nat)> {
        if s.len() < 1 {
            None
        } else {
            match Self::spec_from_code(s[0]) {
                Some(value) => Some((value, 1nat)),
                None => None,
            }
        }
    }

    /// Reading back an encoded user status gives it back, whatever follows it.
    pub proof fn lemma_parse(value: UserStatus, rest: Seq<u8>)
        ensures
            Self::parse(value.wire() + rest) == Some((value, value.wire().len())),
            (value.wire() + rest).skip(value.wire().len() as int) == rest,
            value.wire().len() == 1,
    {
        assert((value.wire() + rest)[0] == value.spec_code());
        assert((value.wire() + rest).skip(1) =~= rest);
    }

    /// Reading a user status looks at nothing beyond its one byte.
    pub proof fn lemma_local(s: Seq<u8>, other: Seq<u8>)
        requires
            Self::parse(s) is Some,
            other.len() >= Self::parse(s).unwrap().1,
            other.take(Self::parse(s).unwrap().1 as int) == s.take(
                Self::parse(s).unwrap().1 as int,
            ),
        ensures
            Self::parse(other) == Self::parse(s),
    {
        lemma_same_front(s, other, 1);
    }

    /// Returns the byte that stands for this user status on the wire.
    pub fn as_code(&self) -> (code: u8)
        ensures
            code == self.spec_code(),
    {
        match self {
            UserStatus::Active => 1,
            UserStatus::Inactive => 2,
        }
    }

    /// Reads a user status from its byte; an unknown byte is rejected.
    pub fn from_code(code: u8) -> (r: Result<UserStatus, IggyError>)
        ensures
            match r {
                Ok(value) => Self::spec_from_code(code) == Some(value),
                Err(e) => e == IggyError::InvalidCommand && Self::spec_from_code(code) is None,
            },
    {
        match code {
            1 => Ok(UserStatus::Active),
            2 => Ok(UserStatus::Inactive),
            _ => Err(IggyError::InvalidCommand),
        }
    }

    /// Appends the wire form to `buf`.
    pub fn put(&self, buf: &mut BytesMut)
        requires
            bytes_mut_view(*old(buf)).len() + 1 <= isize::MAX,
        ensures
            bytes_mut_view(*final(buf)) == bytes_mut_view(*old(buf)) + self.wire(),
    {
        put_byte(buf, self.as_code());
    }

    /// Reads the user status at `pos`.
    pub fn read(s: &[u8], pos: usize) -> (r: Result<(UserStatus, usize), IggyError>)
        requires
            pos <= s@.len(),
        ensures
            match r {
                Ok((value, next)) => Self::parse(s@.skip(pos as int)) == Some(
                    (value, (next - pos) as nat),
                ) && pos < next <= s@.len(),
                Err(e) => e == IggyError::InvalidCommand && Self::parse(s@.skip(pos as int))
                    is None,
            },
    {
        if s.len() - pos < 1 {
            return Err(IggyError::InvalidCommand);
        }
        let value = UserStatus::from_code(s[pos])?;
        Ok((value, pos + 1))
    }
}

/// An optional user status on the wire: a zero byte for "none", or a one byte
/// followed by the user status.
pub open spec fn opt_status_wire(x: Option<UserStatus>) -> Seq<u8> {
    match x {
        Some(value) => seq![1u8] + value.wire(),
        None => seq![0u8],
    }
}

/// Reads an optional user status from the front of `s`.
pub open spec fn parse_opt_status(s: Seq<u8>) -> Option<(Option<UserStatus>, nat)> {
    if s.len() < 1 {
        None
    } else if s[0] == 0 {
        Some((None, 1nat))
    } else if s[0] == 1 {
        match UserStatus::parse(s.skip(1)) {
            Some((value, n)) => Some((Some(value), 1 + n)),
            None => None,
        }
    } else {
        None
    }
}

/// Reading back an encoded optional user status gives it back, whatever follows.
pub proof fn lemma_opt_status_parse(x: Option<UserStatus>, rest: Seq<u8>)
    ensures
        parse_opt_status(opt_status_wire(x) + rest) == Some((x, opt_status_wire(x).len())),
        (opt_status_wire(x) + rest).skip(opt_status_wire(x).len() as int) == rest,
        1 <= opt_status_wire(x).len() <= 2,
{
    let s = opt_status_wire(x) + rest;
    match x {
        Some(value) => {
            assert(s[0] == 1);
            assert(s.skip(1) =~= value.wire() + rest);
            UserStatus::lemma_parse(value, rest);
            assert(s.skip(opt_status_wire(x).len() as int) =~= rest);
        },
        None => {
            assert(s[0] == 0);
            assert(s.skip(1) =~= rest);
        },
    }
}

/// Reading an optional user status looks at nothing beyond it.
pub proof fn lemma_opt_status_local(s: Seq<u8>, other: Seq<u8>)
    requires
        parse_opt_status(s) is Some,
        other.len() >= parse_opt_status(s).unwrap().1,
        other.take(parse_opt_status(s).unwrap().1 as int) == s.take(
            parse_opt_status(s).unwrap().1 as int,
        ),
    ensures
        parse_opt_status(other) == parse_opt_status(s),
{
    let n = parse_opt_status(s).unwrap().1 as int;
    lemma_same_front(s, other, n);
    if s[0] == 1 {
        lemma_window(s, other, n, 1, n - 1);
        UserStatus::lemma_local(s.skip(1), other.skip(1));
    }
}

/// The number of bytes that an optional user status takes on the wire.
pub fn opt_status_size(x: &Option<UserStatus>) -> (n: usize)
    ensures
        n == opt_status_wire(*x).len(),
        n <= 2,
{
    match x {
        Some(_) => 2,
        None => 1,
    }
}

/// Appends an optional user status to `buf`.
pub fn put_opt_status(buf: &mut BytesMut, x: &Option<UserStatus>)
    requires
        bytes_mut_view(*old(buf)).len() + opt_status_wire(*x).len() <= isize::MAX,
    ensures
        bytes_mut_view(*final(buf)) == bytes_mut_view(*old(buf)) + opt_status_wire(*x),
{
    let ghost before = bytes_mut_view(*buf);
    match x {
        Some(value) => {
            put_u8(buf, 1);
            value.put(buf);
            proof {
                assert(bytes_mut_view(*buf) =~= before + opt_status_wire(*x));
            }
        },
        None => {
            put_u8(buf, 0);
            proof {
                assert(bytes_mut_view(*buf) =~= before + opt_status_wire(*x));
            }
        },
    }
}

/// Reads the optional user status at `pos`.
pub fn read_opt_status(s: &[u8], pos: usize) -> (r: Result<(Option<UserStatus>, usize), IggyError>)
    requires
        pos <= s@.len(),
    ensures
        match r {
            Ok((x, next)) => parse_opt_status(s@.skip(pos as int)) == Some(
                (x, (next - pos) as nat),
            ) && pos < next <= s@.len(),
            Err(e) => e == IggyError::InvalidCommand && parse_opt_status(s@.skip(pos as int))
                is None,
        },
{
    if s.len() - pos < 1 {
        return Err(IggyError::InvalidCommand);
    }
    let flag = s[pos];
    if flag == 0 {
        Ok((None, pos + 1))
    } else if flag == 1 {
        proof {
            assert(s@.skip(pos as int).skip(1) =~= s@.skip(pos + 1));
        }
        let (value, next) = UserStatus::read(s, pos + 1)?;
        Ok((Some(value), next))
    } else {
        Err(IggyError::InvalidCommand)
    }
}

/// An optional set of permissions on the wire: a zero byte for "none", or a one byte
/// followed by the set of permissions.
pub open spec fn opt_permissions_wire(x: Option<Permissions>) -> Seq<u8> {
    match x {
        Some(value) => seq![1u8] + value.wire(),
        None => seq![0u8],
    }
}

/// Reads an optional set of permissions from the front of `s`.
pub open spec fn parse_opt_permissions(s: Seq<u8>) -> Option<(Option<Permissions>, nat)> {
    if s.len() < 1 {
        None
    } else if s[0] == 0 {
        Some((None, 1nat))
    } else if s[0] == 1 {
        match Permissions::parse(s.skip(1)) {
            Some((value, n)) => Some((Some(value), 1 + n)),
            None => None,
        }
    } else {
        None
    }
}

/// Reading back an encoded optional set of permissions gives it back, whatever follows.
pub proof fn lemma_opt_permissions_parse(x: Option<Permissions>, rest: Seq<u8>)
    ensures
        parse_opt_permissions(opt_permissions_wire(x) + rest) == Some((x, opt_permissions_wire(x).len())),
        (opt_permissions_wire(x) + rest).skip(opt_permissions_wire(x).len() as int) == rest,
        1 <= opt_permissions_wire(x).len() <= 11,
{
    let s = opt_permissions_wire(x) + rest;
    match x {
        Some(value) => {
            assert(s[0] == 1);
            assert(s.skip(1) =~= value.wire() + rest);
            Permissions::lemma_parse(value, rest);
            assert(s.skip(opt_permissions_wire(x).len() as int) =~= rest);
        },
        None => {
            assert(s[0] == 0);
            assert(s.skip(1) =~= rest);
        },
    }
}

/// Reading an optional set of permissions looks at nothing beyond it.
pub proof fn lemma_opt_permissions_local(s: Seq<u8>, other: Seq<u8>)
    requires
        parse_opt_permissions(s) is Some,
        other.len() >= parse_opt_permissions(s).unwrap().1,
        other.take(parse_opt_permissions(s).unwrap().1 as int) == s.take(
            parse_opt_permissions(s).unwrap().1 as int,
        ),
    ensures
        parse_opt_permissions(other) == parse_opt_permissions(s),
{
    let n = parse_opt_permissions(s).unwrap().1 as int;
    lemma_same_front(s, other, n);
    if s[0] == 1 {
        lemma_window(s, other, n, 1, n - 1);
        Permissions::lemma_local(s.skip(1), other.skip(1));
    }
}

/// The number of bytes that an optional set of permissions takes on the wire.
pub fn opt_permissions_size(x: &Option<Permissions>) -> (n: usize)
    ensures
        n == opt_permissions_wire(*x).len(),
        n <= 11,
{
    match x {
        Some(_) => 11,
        None => 1,
    }
}

/// Appends an optional set of permissions to `buf`.
pub fn put_opt_permissions(buf: &mut BytesMut, x: &Option<Permissions>)
    requires
        bytes_mut_view(*old(buf)).len() + opt_permissions_wire(*x).len() <= isize::MAX,
    ensures
        bytes_mut_view(*final(buf)) == bytes_mut_view(*old(buf)) + opt_permissions_wire(*x),
{
    let ghost before = bytes_mut_view(*buf);
    match x {
        Some(value) => {
            put_u8(buf, 1);
            value.put(buf);
            proof {
                assert(bytes_mut_view(*buf) =~= before + opt_permissions_wire(*x));
            }
        },
        None => {
            put_u8(buf, 0);
            proof {
                assert(bytes_mut_view(*buf) =~= before + opt_permissions_wire(*x));
            }
        },
    }
}

/// Reads the optional set of permissions at `pos`.
pub fn read_opt_permissions(s: &[u8], pos: usize) -> (r: Result<(Option<Permissions>, usize), IggyError>)
    requires
        pos <= s@.len(),
    ensures
        match r {
            Ok((x, next)) => parse_opt_permissions(s@.skip(pos as int)) == Some(
                (x, (next - pos) as nat),
            ) && pos < next <= s@.len(),
            Err(e) => e == IggyError::InvalidCommand && parse_opt_permissions(s@.skip(pos as int))
                is None,
        },
{
    if s.len() - pos < 1 {
        return Err(IggyError::InvalidCommand);
    }
    let flag = s[pos];
    if flag == 0 {
        Ok((None, pos + 1))
    } else if flag == 1 {
        proof {
            assert(s@.skip(pos as int).skip(1) =~= s@.skip(pos + 1));
        }
        let (value, next) = Permissions::read(s, pos + 1)?;
        Ok((Some(value), next))
    } else {
        Err(IggyError::InvalidCommand)
    }
}

/// `GetUser` command is used to retrieve the information about a user by unique ID.
#[derive(Debug, Clone, PartialEq, Default)]
pub struct GetUser {
    /// Unique user ID (numeric or name).
    pub user_id: Identifier,
}

impl View for GetUser {
    type V = IdentifierView;

    open spec fn view(&self) -> IdentifierView {
        self.user_id@
    }
}

impl GetUser {
    /// Commands of this kind come straight from a client.
    pub fn get_command_execution_origin(&self) -> (origin: CommandExecution)
        ensures
            origin == CommandExecution::Direct,
    {
        CommandExecution::Direct
    }

    /// There are no field rules beyond those of the identifiers themselves.
    pub fn validate(&self) -> (r: Result<(), IggyError>)
        ensures
            r is Ok,
    {
        Ok(())
    }

    /// Encodes the identifier.
    pub fn as_bytes(&self) -> (r: Bytes)
        ensures
            bytes_view(r) == self@.wire(),
            self@.wf(),
    {
        self.user_id.as_bytes()
    }

    /// Decodes the identifier.  A payload shorter than 3 bytes cannot hold
    /// one and is rejected at once.
    pub fn from_bytes(bytes: Bytes) -> (r: Result<GetUser, IggyError>)
        ensures
            match r {
                Ok(command) => parse_identifier_payload(bytes_view(bytes)) == Some(command@)
                    && command@.wf() && command@.canonical(),
                Err(e) => e == IggyError::InvalidCommand && parse_identifier_payload(
                    bytes_view(bytes),
                ) is None,
            },
            bytes_view(bytes).len() < 3 ==> r is Err,
    {
        let user_id = decode_identifier_payload(bytes)?;
        let command = GetUser { user_id };
        command.validate()?;
        Ok(command)
    }
}

/// `GetUsers` command is used to retrieve the information about all users.
/// It has no additional payload.
#[derive(Debug, Clone, Copy, Default, PartialEq, Eq)]
pub struct GetUsers {}

impl GetUsers {
    /// Commands of this kind come straight from a client.
    pub fn get_command_execution_origin(&self) -> (origin: CommandExecution)
        ensures
            origin == CommandExecution::Direct,
    {
        CommandExecution::Direct
    }

    /// There is nothing to check.
    pub fn validate(&self) -> (r: Result<(), IggyError>)
        ensures
            r is Ok,
    {
        Ok(())
    }

    /// The payload is empty.
    pub fn as_bytes(&self) -> (r: Bytes)
        ensures
            bytes_view(r) == Seq::<u8>::empty(),
    {
        Bytes::new()
    }

    /// Only the empty payload decodes; any byte at all is rejected.
    pub fn from_bytes(bytes: Bytes) -> (r: Result<GetUsers, IggyError>)
        ensures
            match r {
                Ok(_) => parse_empty(bytes_view(bytes)) is Some,
                Err(e) => e == IggyError::InvalidCommand && parse_empty(bytes_view(bytes)) is None,
            },
    {
        if !bytes.is_empty() {
            return Err(IggyError::InvalidCommand);
        }
        let command = GetUsers {};
        command.validate()?;
        Ok(GetUsers {})
    }
}

/// `CreateUser` command is used to create a new user.
#[derive(Debug, Clone, PartialEq)]
pub struct CreateUser {
    /// Unique name of the user, 1 to 255 bytes of UTF-8 text.
    pub username: Vec<u8>,
    /// Password of the user, 1 to 255 bytes.
    pub password: Vec<u8>,
    /// Whether the user may log in.
    pub status: UserStatus,
    /// What the user may do; a user without permissions may do nothing.
    pub permissions: Option<Permissions>,
}

/// The mathematical value of a [`CreateUser`].
pub struct CreateUserView {
    pub username: Seq<u8>,
    pub password: Seq<u8>,
    pub status: UserStatus,
    pub permissions: Option<Permissions>,
}

impl CreateUserView {
    /// The fields fit the wire.
    pub open spec fn wf(self) -> bool {
        valid_text(self.username)
            && valid_text(self.password)
    }

    /// The wire form: username, password, status, then a flag byte and
    /// the permissions where there are any.
    pub open spec fn wire(self) -> Seq<u8> {
        text_wire(self.username)
            + text_wire(self.password)
            + self.status.wire()
            + opt_permissions_wire(self.permissions)
    }
}

impl View for CreateUser {
    type V = CreateUserView;

    open spec fn view(&self) -> CreateUserView {
        CreateUserView {
            username: self.username@,
            password: self.password@,
            status: self.status,
            permissions: self.permissions,
        }
    }
}

impl CreateUser {
    /// Reads the fields, one after the other, from the front of `s`; the
    /// count is the number of bytes they took.
    #[verifier::opaque]
    pub open spec fn parse(s: Seq<u8>) -> Option<(CreateUserView, nat)> {
        match parse_text(s) {
            Some((username, n1)) => match parse_text(s.skip(n1 as int)) {
                Some((password, n2)) => match UserStatus::parse(s.skip((n1 + n2) as int)) {
                    Some((status, n3)) => match parse_opt_permissions(
                        s.skip((n1 + n2 + n3) as int),
                    ) {
                        Some((permissions, n4)) => Some(
                            (CreateUserView { username, password, status, permissions }, n1 + n2 + n3 + n4),
                        ),
                        None => None,
                    },
                    None => None,
                },
                None => None,
            },
            None => None,
        }
    }

    /// What a payload decodes to.  Bytes after the last field are ignored.
    pub open spec fn decode(s: Seq<u8>) -> Option<CreateUserView> {
        match Self::parse(s) {
            Some((value, _)) => Some(value),
            None => None,
        }
    }

    /// The decoder never reads past the end of its input.
    pub proof fn lemma_bound(s: Seq<u8>)
        ensures
            match Self::parse(s) {
                Some((_, n)) => 0 < n <= s.len(),
                None => true,
            },
    {
        reveal(CreateUser::parse);
    }

    /// Reading back an encoded value gives the value and the length of its
    /// wire form, whatever follows it.
    pub proof fn lemma_parse(value: CreateUserView, rest: Seq<u8>)
        requires
            value.wf(),
        ensures
            Self::parse(value.wire() + rest) == Some((value, value.wire().len())),
            (value.wire() + rest).skip(value.wire().len() as int) == rest,
    {
        reveal(CreateUser::parse);
        let s = value.wire() + rest;
        let w1 = text_wire(value.username);
        let w2 = text_wire(value.password);
        let w3 = value.status.wire();
        let w4 = opt_permissions_wire(value.permissions);
        let u2 = w1 + w2;
        let u3 = u2 + w3;
        let t5 = rest;
        let t4 = w4 + t5;
        let t3 = w3 + t4;
        let t2 = w2 + t3;
        let t1 = w1 + t2;
        assert(s == t1) by {
            lemma_concat_assoc(u3, w4, t5);
            lemma_concat_assoc(u2, w3, t4);
            lemma_concat_assoc(w1, w2, t3);
        }
        assert(parse_text(s) == Some((value.username, w1.len()))
            && s.skip(w1.len() as int) == t2) by {
            lemma_text_parse(value.username, t2);
        }
        assert(parse_text(s.skip(w1.len() as int)) == Some((value.password, w2.len()))
            && s.skip((w1.len() + w2.len()) as int) == t3) by {
            lemma_text_parse(value.password, t3);
            lemma_skip_skip(s, w1.len() as int, w2.len() as int);
        }
        assert(UserStatus::parse(s.skip((w1.len() + w2.len()) as int)) == Some((value.status, w3.len()))
            && s.skip((w1.len() + w2.len() + w3.len()) as int) == t4) by {
            UserStatus::lemma_parse(value.status, t4);
            lemma_skip_skip(s, (w1.len() + w2.len()) as int, w3.len() as int);
        }
        assert(parse_opt_permissions(s.skip((w1.len() + w2.len() + w3.len()) as int)) == Some((value.permissions, w4.len()))
            && s.skip((w1.len() + w2.len() + w3.len() + w4.len()) as int) == t5) by {
            lemma_opt_permissions_parse(value.permissions, t5);
            lemma_skip_skip(s, (w1.len() + w2.len() + w3.len()) as int, w4.len() as int);
        }
    }

    /// The decoder looks at nothing beyond the bytes it reads: an input that
    /// starts with the same bytes decodes to the same value.
    pub proof fn lemma_local(s: Seq<u8>, other: Seq<u8>)
        requires
            Self::parse(s) is Some,
            other.len() >= Self::parse(s).unwrap().1,
            other.take(Self::parse(s).unwrap().1 as int) == s.take(
                Self::parse(s).unwrap().1 as int,
            ),
        ensures
            Self::parse(other) == Self::parse(s),
    {
        reveal(CreateUser::parse);
        Self::lemma_bound(s);
        let n = Self::parse(s).unwrap().1 as int;
        let n1 = parse_text(s).unwrap().1 as int;
        lemma_take_take(s, n, n1);
        lemma_take_take(other, n, n1);
        lemma_text_local(s, other);
        let n2 = parse_text(s.skip(n1)).unwrap().1 as int;
        lemma_window(s, other, n, n1, n2);
        lemma_text_local(s.skip(n1), other.skip(n1));
        let n3 = UserStatus::parse(s.skip(n1 + n2)).unwrap().1 as int;
        lemma_window(s, other, n, n1 + n2, n3);
        UserStatus::lemma_local(s.skip(n1 + n2), other.skip(n1 + n2));
        let n4 = parse_opt_permissions(s.skip(n1 + n2 + n3)).unwrap().1 as int;
        lemma_window(s, other, n, n1 + n2 + n3, n4);
        lemma_opt_permissions_local(s.skip(n1 + n2 + n3), other.skip(n1 + n2 + n3));
    }

    /// An encoded value cut short cannot be read.
    pub proof fn lemma_cut(value: CreateUserView, k: int)
        requires
            value.wf(),
            0 <= k < value.wire().len(),
        ensures
            Self::parse(value.wire().take(k)) is None,
    {
        let w = value.wire();
        let s = w.take(k);
        if Self::parse(s) is Some {
            let n = Self::parse(s).unwrap().1 as int;
            Self::lemma_bound(s);
            lemma_take_take(w, k, n);
            Self::lemma_local(s, w);
            Self::lemma_parse(value, Seq::empty());
            lemma_concat_empty(w);
        }
    }

    /// The wire form of a value that fits the wire is neither empty nor
    /// longer than 524 bytes.
    pub proof fn lemma_wire_len(value: CreateUserView)
        requires
            value.wf(),
        ensures
            0 < value.wire().len() <= 524,
    {
    }

    /// A command that fits the wire survives
    /// encoding and decoding.
    pub proof fn lemma_roundtrip(value: CreateUserView)
        requires
            value.wf(),
        ensures
            Self::decode(value.wire()) == Some(value),
    {
        Self::lemma_parse(value, Seq::empty());
        lemma_concat_empty(value.wire());
    }

    /// An encoded command whose last byte is cut off cannot be decoded.
    pub proof fn lemma_truncated(value: CreateUserView)
        requires
            value.wf(),
        ensures
            value.wire().len() > 0,
            Self::decode(value.wire().drop_last()) is None,
    {
        Self::lemma_cut(value, value.wire().len() - 1);
        lemma_take_take(value.wire(), value.wire().len() as int, 0);
    }

    /// Commands of this kind come straight from a client.
    pub fn get_command_execution_origin(&self) -> (origin: CommandExecution)
        ensures
            origin == CommandExecution::Direct,
    {
        CommandExecution::Direct
    }

    /// Accepts the value where its fields fit the wire.
    pub fn validate(&self) -> (r: Result<(), IggyError>)
        ensures
            r is Ok <==> self@.wf(),
            r is Err ==> r == Err::<(), IggyError>(IggyError::InvalidCommand),
    {
        if !is_valid_text(&self.username) {
            return Err(IggyError::InvalidCommand);
        }
        if !is_valid_text(&self.password) {
            return Err(IggyError::InvalidCommand);
        }
        Ok(())
    }

    /// The number of bytes of the wire form.
    pub fn size(&self) -> (n: usize)
        requires
            self@.wf(),
        ensures
            n == self@.wire().len(),
            n <= 524,
    {
        1 + self.username.len() + 1 + self.password.len() + 1 + opt_permissions_size(&self.permissions)
    }

    /// Appends the wire form to `buf`.
    pub fn put(&self, buf: &mut BytesMut)
        requires
            self@.wf(),
            bytes_mut_view(*old(buf)).len() + self@.wire().len() <= isize::MAX,
        ensures
            bytes_mut_view(*final(buf)) == bytes_mut_view(*old(buf)) + self@.wire(),
    {
        let ghost before = bytes_mut_view(*buf);
        let ghost w1 = text_wire(self.username@);
        let ghost w2 = text_wire(self.password@);
        let ghost w3 = self.status.wire();
        let ghost w4 = opt_permissions_wire(self.permissions);
        let ghost u2 = w1 + w2;
        let ghost u3 = u2 + w3;
        put_text(buf, &self.username);
        put_text(buf, &self.password);
        proof {
            lemma_concat_assoc(before, w1, w2);
        }
        self.status.put(buf);
        proof {
            lemma_concat_assoc(before, u2, w3);
        }
        put_opt_permissions(buf, &self.permissions);
        proof {
            lemma_concat_assoc(before, u3, w4);
        }
    }

    /// Decodes the value that starts at `pos` and returns it with the
    /// position just after it.
    pub fn read(s: &[u8], pos: usize) -> (r: Result<(CreateUser, usize), IggyError>)
        requires
            pos <= s@.len(),
        ensures
            match r {
                Ok((value, next)) => Self::parse(s@.skip(pos as int)) == Some(
                    (value@, (next - pos) as nat),
                ) && pos < next <= s@.len() && value@.wf(),
                Err(e) => e == IggyError::InvalidCommand && Self::parse(s@.skip(pos as int))
                    is None,
            },
    {
        proof {
            reveal(CreateUser::parse);
        }
        let (username, p1) = read_text_field(s, pos)?;
        proof {
            lemma_skip_skip(s@, pos as int, p1 - pos);
        }
        let (password, p2) = read_text_field(s, p1)?;
        proof {
            lemma_skip_skip(s@, pos as int, p2 - pos);
        }
        let (status, p3) = UserStatus::read(s, p2)?;
        proof {
            lemma_skip_skip(s@, pos as int, p3 - pos);
        }
        let (permissions, p4) = read_opt_permissions(s, p3)?;
        Ok((CreateUser { username, password, status, permissions }, p4))
    }

    /// Encodes the command.
    pub fn as_bytes(&self) -> (r: Bytes)
        requires
            self@.wf(),
        ensures
            bytes_view(r) == self@.wire(),
    {
        let mut bytes = BytesMut::with_capacity(self.size());
        self.put(&mut bytes);
        proof {
            assert(Seq::<u8>::empty() + self@.wire() =~= self@.wire());
        }
        bytes.freeze()
    }

    /// Decodes the command.  A payload that ends before the last field does
    /// is rejected.
    pub fn from_bytes(bytes: Bytes) -> (r: Result<CreateUser, IggyError>)
        ensures
            match r {
                Ok(command) => Self::decode(bytes_view(bytes)) == Some(command@) && command@.wf(),
                Err(e) => e == IggyError::InvalidCommand && Self::decode(bytes_view(bytes))
                    is None,
            },
    {
        let s = as_slice(&bytes);
        proof {
            assert(s@.skip(0) =~= s@);
        }
        let (command, _) = CreateUser::read(s, 0)?;
        command.validate()?;
        Ok(command)
    }
}

/// `DeleteUser` command is used to delete a user by unique ID.
#[derive(Debug, Clone, PartialEq, Default)]
pub struct DeleteUser {
    /// Unique user ID (numeric or name).
    pub user_id: Identifier,
}

impl View for DeleteUser {
    type V = IdentifierView;

    open spec fn view(&self) -> IdentifierView {
        self.user_id@
    }
}

impl DeleteUser {
    /// Commands of this kind come straight from a client.
    pub fn get_command_execution_origin(&self) -> (origin: CommandExecution)
        ensures
            origin == CommandExecution::Direct,
    {
        CommandExecution::Direct
    }

    /// There are no field rules beyond those of the identifiers themselves.
    pub fn validate(&self) -> (r: Result<(), IggyError>)
        ensures
            r is Ok,
    {
        Ok(())
    }

    /// Encodes the identifier.
    pub fn as_bytes(&self) -> (r: Bytes)
        ensures
            bytes_view(r) == self@.wire(),
            self@.wf(),
    {
        self.user_id.as_bytes()
    }

    /// Decodes the identifier.  A payload shorter than 3 bytes cannot hold
    /// one and is rejected at once.
    pub fn from_bytes(bytes: Bytes) -> (r: Result<DeleteUser, IggyError>)
        ensures
            match r {
                Ok(command) => parse_identifier_payload(bytes_view(bytes)) == Some(command@)
                    && command@.wf() && command@.canonical(),
                Err(e) => e == IggyError::InvalidCommand && parse_identifier_payload(
                    bytes_view(bytes),
                ) is None,
            },
            bytes_view(bytes).len() < 3 ==> r is Err,
    {
        let user_id = decode_identifier_payload(bytes)?;
        let command = DeleteUser { user_id };
        command.validate()?;
        Ok(command)
    }
}

/// `UpdateUser` command is used to change the name or the status of a user.
#[derive(Debug, Clone, PartialEq)]
pub struct UpdateUser {
    /// Unique user ID (numeric or name).
    pub user_id: Identifier,
    /// New name of the user, where it changes.
    pub username: Option<Vec<u8>>,
    /// New status of the user, where it changes.
    pub status: Option<UserStatus>,
}

/// The mathematical value of a [`UpdateUser`].
pub struct UpdateUserView {
    pub user_id: IdentifierView,
    pub username: Option<Seq<u8>>,
    pub status: Option<UserStatus>,
}

impl UpdateUserView {
    /// The fields fit the wire.
    pub open spec fn wf(self) -> bool {
        self.user_id.wf()
            && valid_opt_text(self.username)
    }

    /// The identifiers come back from the wire unchanged.
    pub open spec fn canonical(self) -> bool {
        self.user_id.canonical()
    }

    /// The wire form: user, a flag byte and the new name where there is
    /// one, a flag byte and the new status where there is one.
    pub open spec fn wire(self) -> Seq<u8> {
        self.user_id.wire()
            + opt_text_wire(self.username)
            + opt_status_wire(self.status)
    }
}

impl View for UpdateUser {
    type V = UpdateUserView;

    open spec fn view(&self) -> UpdateUserView {
        UpdateUserView {
            user_id: self.user_id@,
            username: opt_bytes_view(self.username),
            status: self.status,
        }
    }
}

impl UpdateUser {
    /// Reads the fields, one after the other, from the front of `s`; the
    /// count is the number of bytes they took.
    #[verifier::opaque]
    pub open spec fn parse(s: Seq<u8>) -> Option<(UpdateUserView, nat)> {
        match parse_identifier(s) {
            Some((user_id, n1)) => match parse_opt_text(s.skip(n1 as int)) {
                Some((username, n2)) => match parse_opt_status(s.skip((n1 + n2) as int)) {
                    Some((status, n3)) => Some(
                        (UpdateUserView { user_id, username, status }, n1 + n2 + n3),
                    ),
                    None => None,
                },
                None => None,
            },
            None => None,
        }
    }

    /// What a payload decodes to.  Bytes after the last field are ignored.
    pub open spec fn decode(s: Seq<u8>) -> Option<UpdateUserView> {
        match Self::parse(s) {
            Some((value, _)) => Some(value),
            None => None,
        }
    }

    /// The decoder never reads past the end of its input.
    pub proof fn lemma_bound(s: Seq<u8>)
        ensures
            match Self::parse(s) {
                Some((_, n)) => 0 < n <= s.len(),
                None => true,
            },
    {
        reveal(UpdateUser::parse);
    }

    /// Reading back an encoded value gives the value and the length of its
    /// wire form, whatever follows it.
    pub proof fn lemma_parse(value: UpdateUserView, rest: Seq<u8>)
        requires
            value.wf(),
            value.canonical(),
        ensures
            Self::parse(value.wire() + rest) == Some((value, value.wire().len())),
            (value.wire() + rest).skip(value.wire().len() as int) == rest,
    {
        reveal(UpdateUser::parse);
        let s = value.wire() + rest;
        let w1 = value.user_id.wire();
        let w2 = opt_text_wire(value.username);
        let w3 = opt_status_wire(value.status);
        let u2 = w1 + w2;
        let t4 = rest;
        let t3 = w3 + t4;
        let t2 = w2 + t3;
        let t1 = w1 + t2;
        assert(s == t1) by {
            lemma_concat_assoc(u2, w3, t4);
            lemma_concat_assoc(w1, w2, t3);
        }
        assert(parse_identifier(s) == Some((value.user_id, w1.len()))
            && s.skip(w1.len() as int) == t2) by {
            lemma_identifier_roundtrip(value.user_id, t2);
        }
        assert(parse_opt_text(s.skip(w1.len() as int)) == Some((value.username, w2.len()))
            && s.skip((w1.len() + w2.len()) as int) == t3) by {
            lemma_opt_text_parse(value.username, t3);
            lemma_skip_skip(s, w1.len() as int, w2.len() as int);
        }
        assert(parse_opt_status(s.skip((w1.len() + w2.len()) as int)) == Some((value.status, w3.len()))
            && s.skip((w1.len() + w2.len() + w3.len()) as int) == t4) by {
            lemma_opt_status_parse(value.status, t4);
            lemma_skip_skip(s, (w1.len() + w2.len()) as int, w3.len() as int);
        }
    }

    /// Whatever follows an encoded value, a decoder that accepts it reads
    /// exactly the bytes of that value.
    pub proof fn lemma_consumed(value: UpdateUserView, rest: Seq<u8>)
        requires
            value.wf(),
        ensures
            match Self::parse(value.wire() + rest) {
                Some((_, n)) => n == value.wire().len(),
                None => true,
            },
            (value.wire() + rest).skip(value.wire().len() as int) == rest,
    {
        reveal(UpdateUser::parse);
        let s = value.wire() + rest;
        let w1 = value.user_id.wire();
        let w2 = opt_text_wire(value.username);
        let w3 = opt_status_wire(value.status);
        let u2 = w1 + w2;
        let t4 = rest;
        let t3 = w3 + t4;
        let t2 = w2 + t3;
        let t1 = w1 + t2;
        assert(s == t1) by {
            lemma_concat_assoc(u2, w3, t4);
            lemma_concat_assoc(w1, w2, t3);
        }
        lemma_skip_concat(value.wire(), rest);
        if Self::parse(s) is Some {
            assert(parse_identifier(s) is Some);
            assert(parse_identifier(s).unwrap().1 == w1.len()
                && s.skip(w1.len() as int) == t2) by {
                lemma_identifier_consumed(value.user_id, t2);
            }
            assert(parse_opt_text(s.skip(w1.len() as int)) is Some);
            assert(parse_opt_text(s.skip(w1.len() as int)).unwrap().1 == w2.len()
                && s.skip((w1.len() + w2.len()) as int) == t3) by {
                lemma_opt_text_parse(value.username, t3);
                lemma_skip_skip(s, w1.len() as int, w2.len() as int);
            }
            assert(parse_opt_status(s.skip((w1.len() + w2.len()) as int)) is Some);
            assert(parse_opt_status(s.skip((w1.len() + w2.len()) as int)).unwrap().1 == w3.len()
                && s.skip((w1.len() + w2.len() + w3.len()) as int) == t4) by {
                lemma_opt_status_parse(value.status, t4);
                lemma_skip_skip(s, (w1.len() + w2.len()) as int, w3.len() as int);
            }
        }
    }

    /// The decoder looks at nothing beyond the bytes it reads: an input that
    /// starts with the same bytes decodes to the same value.
    pub proof fn lemma_local(s: Seq<u8>, other: Seq<u8>)
        requires
            Self::parse(s) is Some,
            other.len() >= Self::parse(s).unwrap().1,
            other.take(Self::parse(s).unwrap().1 as int) == s.take(
                Self::parse(s).unwrap().1 as int,
            ),
        ensures
            Self::parse(other) == Self::parse(s),
    {
        reveal(UpdateUser::parse);
        Self::lemma_bound(s);
        let n = Self::parse(s).unwrap().1 as int;
        let n1 = parse_identifier(s).unwrap().1 as int;
        lemma_take_take(s, n, n1);
        lemma_take_take(other, n, n1);
        lemma_identifier_local(s, other);
        let n2 = parse_opt_text(s.skip(n1)).unwrap().1 as int;
        lemma_window(s, other, n, n1, n2);
        lemma_opt_text_local(s.skip(n1), other.skip(n1));
        let n3 = parse_opt_status(s.skip(n1 + n2)).unwrap().1 as int;
        lemma_window(s, other, n, n1 + n2, n3);
        lemma_opt_status_local(s.skip(n1 + n2), other.skip(n1 + n2));
    }

    /// An encoded value cut short cannot be read.
    pub proof fn lemma_cut(value: UpdateUserView, k: int)
        requires
            value.wf(),
            0 <= k < value.wire().len(),
        ensures
            Self::parse(value.wire().take(k)) is None,
    {
        let w = value.wire();
        let s = w.take(k);
        if Self::parse(s) is Some {
            let n = Self::parse(s).unwrap().1 as int;
            Self::lemma_bound(s);
            lemma_take_take(w, k, n);
            Self::lemma_local(s, w);
            Self::lemma_consumed(value, Seq::empty());
            lemma_concat_empty(w);
        }
    }

    /// The wire form of a value that fits the wire is neither empty nor
    /// longer than 516 bytes.
    pub proof fn lemma_wire_len(value: UpdateUserView)
        requires
            value.wf(),
        ensures
            0 < value.wire().len() <= 516,
    {
    }

    /// A command that fits the wire and is in canonical form survives
    /// encoding and decoding.
    pub proof fn lemma_roundtrip(value: UpdateUserView)
        requires
            value.wf(),
            value.canonical(),
        ensures
            Self::decode(value.wire()) == Some(value),
    {
        Self::lemma_parse(value, Seq::empty());
        lemma_concat_empty(value.wire());
    }

    /// An encoded command whose last byte is cut off cannot be decoded.
    pub proof fn lemma_truncated(value: UpdateUserView)
        requires
            value.wf(),
        ensures
            value.wire().len() > 0,
            Self::decode(value.wire().drop_last()) is None,
    {
        Self::lemma_cut(value, value.wire().len() - 1);
        lemma_take_take(value.wire(), value.wire().len() as int, 0);
    }

    /// Commands of this kind come straight from a client.
    pub fn get_command_execution_origin(&self) -> (origin: CommandExecution)
        ensures
            origin == CommandExecution::Direct,
    {
        CommandExecution::Direct
    }

    /// Accepts the value where its fields fit the wire.
    pub fn validate(&self) -> (r: Result<(), IggyError>)
        ensures
            r is Ok <==> self@.wf(),
            r is Err ==> r == Err::<(), IggyError>(IggyError::InvalidCommand),
    {
        self.user_id.validate()?;
        if !is_valid_opt_text(&self.username) {
            return Err(IggyError::InvalidCommand);
        }
        Ok(())
    }

    /// The number of bytes of the wire form.
    pub fn size(&self) -> (n: usize)
        requires
            self@.wf(),
        ensures
            n == self@.wire().len(),
            n <= 516,
    {
        self.user_id.get_size_bytes() as usize + opt_text_size(&self.username) + opt_status_size(&self.status)
    }

    /// Appends the wire form to `buf`.
    pub fn put(&self, buf: &mut BytesMut)
        requires
            self@.wf(),
            bytes_mut_view(*old(buf)).len() + self@.wire().len() <= isize::MAX,
        ensures
            bytes_mut_view(*final(buf)) == bytes_mut_view(*old(buf)) + self@.wire(),
    {
        let ghost before = bytes_mut_view(*buf);
        let ghost w1 = self.user_id@.wire();
        let ghost w2 = opt_text_wire(opt_bytes_view(self.username));
        let ghost w3 = opt_status_wire(self.status);
        let ghost u2 = w1 + w2;
        self.user_id.put(buf);
        put_opt_text(buf, &self.username);
        proof {
            lemma_concat_assoc(before, w1, w2);
        }
        put_opt_status(buf, &self.status);
        proof {
            lemma_concat_assoc(before, u2, w3);
        }
    }

    /// Decodes the value that starts at `pos` and returns it with the
    /// position just after it.
    pub fn read(s: &[u8], pos: usize) -> (r: Result<(UpdateUser, usize), IggyError>)
        requires
            pos <= s@.len(),
        ensures
            match r {
                Ok((value, next)) => Self::parse(s@.skip(pos as int)) == Some(
                    (value@, (next - pos) as nat),
                ) && pos < next <= s@.len() && value@.wf() && value@.canonical(),
                Err(e) => e == IggyError::InvalidCommand && Self::parse(s@.skip(pos as int))
                    is None,
            },
    {
        proof {
            reveal(UpdateUser::parse);
        }
        let (user_id, p1) = Identifier::read(s, pos)?;
        proof {
            lemma_skip_skip(s@, pos as int, p1 - pos);
        }
        let (username, p2) = read_opt_text(s, p1)?;
        proof {
            lemma_skip_skip(s@, pos as int, p2 - pos);
        }
        let (status, p3) = read_opt_status(s, p2)?;
        Ok((UpdateUser { user_id, username, status }, p3))
    }

    /// Encodes the command.
    pub fn as_bytes(&self) -> (r: Bytes)
        requires
            self@.wf(),
        ensures
            bytes_view(r) == self@.wire(),
    {
        let mut bytes = BytesMut::with_capacity(self.size());
        self.put(&mut bytes);
        proof {
            assert(Seq::<u8>::empty() + self@.wire() =~= self@.wire());
        }
        bytes.freeze()
    }

    /// Decodes the command.  A payload that ends before the last field does
    /// is rejected.
    pub fn from_bytes(bytes: Bytes) -> (r: Result<UpdateUser, IggyError>)
        ensures
            match r {
                Ok(command) => Self::decode(bytes_view(bytes)) == Some(command@) && command@.wf() && command@.canonical(),
                Err(e) => e == IggyError::InvalidCommand && Self::decode(bytes_view(bytes))
                    is None,
            },
    {
        let s = as_slice(&bytes);
        proof {
            assert(s@.skip(0) =~= s@);
        }
        let (command, _) = UpdateUser::read(s, 0)?;
        command.validate()?;
        Ok(command)
    }
}

/// `UpdatePermissions` command is used to replace the permissions of a user.
#[derive(Debug, Clone, PartialEq)]
pub struct UpdatePermissions {
    /// Unique user ID (numeric or name).
    pub user_id: Identifier,
    /// The new permissions; `None` takes all permissions away.
    pub permissions: Option<Permissions>,
}

/// The mathematical value of a [`UpdatePermissions`].
pub struct UpdatePermissionsView {
    pub user_id: IdentifierView,
    pub permissions: Option<Permissions>,
}

impl UpdatePermissionsView {
    /// The fields fit the wire.
    pub open spec fn wf(self) -> bool {
        self.user_id.wf()
    }

    /// The identifiers come back from the wire unchanged.
    pub open spec fn canonical(self) -> bool {
        self.user_id.canonical()
    }

    /// The wire form: user, then a flag byte and the permissions where
    /// there are any.
    pub open spec fn wire(self) -> Seq<u8> {
        self.user_id.wire()
            + opt_permissions_wire(self.permissions)
    }
}

impl View for UpdatePermissions {
    type V = UpdatePermissionsView;

    open spec fn view(&self) -> UpdatePermissionsView {
        UpdatePermissionsView {
            user_id: self.user_id@,
            permissions: self.permissions,
        }
    }
}

impl UpdatePermissions {
    /// Reads the fields, one after the other, from the front of `s`; the
    /// count is the number of bytes they took.
    #[verifier::opaque]
    pub open spec fn parse(s: Seq<u8>) -> Option<(UpdatePermissionsView, nat)> {
        match parse_identifier(s) {
            Some((user_id, n1)) => match parse_opt_permissions(s.skip(n1 as int)) {
                Some((permissions, n2)) => Some(
                    (UpdatePermissionsView { user_id, permissions }, n1 + n2),
                ),
                None => None,
            },
            None => None,
        }
    }

    /// What a payload decodes to.  Bytes after the last field are ignored.
    pub open spec fn decode(s: Seq<u8>) -> Option<UpdatePermissionsView> {
        match Self::parse(s) {
            Some((value, _)) => Some(value),
            None => None,
        }
    }

    /// The decoder never reads past the end of its input.
    pub proof fn lemma_bound(s: Seq<u8>)
        ensures
            match Self::parse(s) {
                Some((_, n)) => 0 < n <= s.len(),
                None => true,
            },
    {
        reveal(UpdatePermissions::parse);
    }

    /// Reading back an encoded value gives the value and the length of its
    /// wire form, whatever follows it.
    pub proof fn lemma_parse(value: UpdatePermissionsView, rest: Seq<u8>)
        requires
            value.wf(),
            value.canonical(),
        ensures
            Self::parse(value.wire() + rest) == Some((value, value.wire().len())),
            (value.wire() + rest).skip(value.wire().len() as int) == rest,
    {
        reveal(UpdatePermissions::parse);
        let s = value.wire() + rest;
        let w1 = value.user_id.wire();
        let w2 = opt_permissions_wire(value.permissions);
        let t3 = rest;
        let t2 = w2 + t3;
        let t1 = w1 + t2;
        assert(s == t1) by {
            lemma_concat_assoc(w1, w2, t3);
        }
        assert(parse_identifier(s) == Some((value.user_id, w1.len()))
            && s.skip(w1.len() as int) == t2) by {
            lemma_identifier_roundtrip(value.user_id, t2);
        }
        assert(parse_opt_permissions(s.skip(w1.len() as int)) == Some((value.permissions, w2.len()))
            && s.skip((w1.len() + w2.len()) as int) == t3) by {
            lemma_opt_permissions_parse(value.permissions, t3);
            lemma_skip_skip(s, w1.len() as int, w2.len() as int);
        }
    }

    /// Whatever follows an encoded value, a decoder that accepts it reads
    /// exactly the bytes of that value.
    pub proof fn lemma_consumed(value: UpdatePermissionsView, rest: Seq<u8>)
        requires
            value.wf(),
        ensures
            match Self::parse(value.wire() + rest) {
                Some((_, n)) => n == value.wire().len(),
                None => true,
            },
            (value.wire() + rest).skip(value.wire().len() as int) == rest,
    {
        reveal(UpdatePermissions::parse);
        let s = value.wire() + rest;
        let w1 = value.user_id.wire();
        let w2 = opt_permissions_wire(value.permissions);
        let t3 = rest;
        let t2 = w2 + t3;
        let t1 = w1 + t2;
        assert(s == t1) by {
            lemma_concat_assoc(w1, w2, t3);
        }
        lemma_skip_concat(value.wire(), rest);
        if Self::parse(s) is Some {
            assert(parse_identifier(s) is Some);
            assert(parse_identifier(s).unwrap().1 == w1.len()
                && s.skip(w1.len() as int) == t2) by {
                lemma_identifier_consumed(value.user_id, t2);
            }
            assert(parse_opt_permissions(s.skip(w1.len() as int)) is Some);
            assert(parse_opt_permissions(s.skip(w1.len() as int)).unwrap().1 == w2.len()
                && s.skip((w1.len() + w2.len()) as int) == t3) by {
                lemma_opt_permissions_parse(value.permissions, t3);
                lemma_skip_skip(s, w1.len() as int, w2.len() as int);
            }
        }
    }

    /// The decoder looks at nothing beyond the bytes it reads: an input that
    /// starts with the same bytes decodes to the same value.
    pub proof fn lemma_local(s: Seq<u8>, other: Seq<u8>)
        requires
            Self::parse(s) is Some,
            other.len() >= Self::parse(s).unwrap().1,
            other.take(Self::parse(s).unwrap().1 as int) == s.take(
                Self::parse(s).unwrap().1 as int,
            ),
        ensures
            Self::parse(other) == Self::parse(s),
    {
        reveal(UpdatePermissions::parse);
        Self::lemma_bound(s);
        let n = Self::parse(s).unwrap().1 as int;
        let n1 = parse_identifier(s).unwrap().1 as int;
        lemma_take_take(s, n, n1);
        lemma_take_take(other, n, n1);
        lemma_identifier_local(s, other);
        let n2 = parse_opt_permissions(s.skip(n1)).unwrap().1 as int;
        lemma_window(s, other, n, n1, n2);
        lemma_opt_permissions_local(s.skip(n1), other.skip(n1));
    }

    /// An encoded value cut short cannot be read.
    pub proof fn lemma_cut(value: UpdatePermissionsView, k: int)
        requires
            value.wf(),
            0 <= k < value.wire().len(),
        ensures
            Self::parse(value.wire().take(k)) is None,
    {
        let w = value.wire();
        let s = w.take(k);
        if Self::parse(s) is Some {
            let n = Self::parse(s).unwrap().1 as int;
            Self::lemma_bound(s);
            lemma_take_take(w, k, n);
            Self::lemma_local(s, w);
            Self::lemma_consumed(value, Seq::empty());
            lemma_concat_empty(w);
        }
    }

    /// The wire form of a value that fits the wire is neither empty nor
    /// longer than 268 bytes.
    pub proof fn lemma_wire_len(value: UpdatePermissionsView)
        requires
            value.wf(),
        ensures
            0 < value.wire().len() <= 268,
    {
    }

    /// A command that fits the wire and is in canonical form survives
    /// encoding and decoding.
    pub proof fn lemma_roundtrip(value: UpdatePermissionsView)
        requires
            value.wf(),
            value.canonical(),
        ensures
            Self::decode(value.wire()) == Some(value),
    {
        Self::lemma_parse(value, Seq::empty());
        lemma_concat_empty(value.wire());
    }

    /// An encoded command whose last byte is cut off cannot be decoded.
    pub proof fn lemma_truncated(value: UpdatePermissionsView)
        requires
            value.wf(),
        ensures
            value.wire().len() > 0,
            Self::decode(value.wire().drop_last()) is None,
    {
        Self::lemma_cut(value, value.wire().len() - 1);
        lemma_take_take(value.wire(), value.wire().len() as int, 0);
    }

    /// Commands of this kind come straight from a client.
    pub fn get_command_execution_origin(&self) -> (origin: CommandExecution)
        ensures
            origin == CommandExecution::Direct,
    {
        CommandExecution::Direct
    }

    /// Accepts the value where its fields fit the wire.
    pub fn validate(&self) -> (r: Result<(), IggyError>)
        ensures
            r is Ok <==> self@.wf(),
            r is Err ==> r == Err::<(), IggyError>(IggyError::InvalidCommand),
    {
        self.user_id.validate()?;
        Ok(())
    }

    /// The number of bytes of the wire form.
    pub fn size(&self) -> (n: usize)
        requires
            self@.wf(),
        ensures
            n == self@.wire().len(),
            n <= 268,
    {
        self.user_id.get_size_bytes() as usize + opt_permissions_size(&self.permissions)
    }

    /// Appends the wire form to `buf`.
    pub fn put(&self, buf: &mut BytesMut)
        requires
            self@.wf(),
            bytes_mut_view(*old(buf)).len() + self@.wire().len() <= isize::MAX,
        ensures
            bytes_mut_view(*final(buf)) == bytes_mut_view(*old(buf)) + self@.wire(),
    {
        let ghost before = bytes_mut_view(*buf);
        let ghost w1 = self.user_id@.wire();
        let ghost w2 = opt_permissions_wire(self.permissions);
        self.user_id.put(buf);
        put_opt_permissions(buf, &self.permissions);
        proof {
            lemma_concat_assoc(before, w1, w2);
        }
    }

    /// Decodes the value that starts at `pos` and returns it with the
    /// position just after it.
    pub fn read(s: &[u8], pos: usize) -> (r: Result<(UpdatePermissions, usize), IggyError>)
        requires
            pos <= s@.len(),
        ensures
            match r {
                Ok((value, next)) => Self::parse(s@.skip(pos as int)) == Some(
                    (value@, (next - pos) as nat),
                ) && pos < next <= s@.len() && value@.wf() && value@.canonical(),
                Err(e) => e == IggyError::InvalidCommand && Self::parse(s@.skip(pos as int))
                    is None,
            },
    {
        proof {
            reveal(UpdatePermissions::parse);
        }
        let (user_id, p1) = Identifier::read(s, pos)?;
        proof {
            lemma_skip_skip(s@, pos as int, p1 - pos);
        }
        let (permissions, p2) = read_opt_permissions(s, p1)?;
        Ok((UpdatePermissions { user_id, permissions }, p2))
    }

    /// Encodes the command.
    pub fn as_bytes(&self) -> (r: Bytes)
        requires
            self@.wf(),
        ensures
            bytes_view(r) == self@.wire(),
    {
        let mut bytes = BytesMut::with_capacity(self.size());
        self.put(&mut bytes);
        proof {
            assert(Seq::<u8>::empty() + self@.wire() =~= self@.wire());
        }
        bytes.freeze()
    }

    /// Decodes the command.  A payload that ends before the last field does
    /// is rejected.
    pub fn from_bytes(bytes: Bytes) -> (r: Result<UpdatePermissions, IggyError>)
        ensures
            match r {
                Ok(command) => Self::decode(bytes_view(bytes)) == Some(command@) && command@.wf() && command@.canonical(),
                Err(e) => e == IggyError::InvalidCommand && Self::decode(bytes_view(bytes))
                    is None,
            },
    {
        let s = as_slice(&bytes);
        proof {
            assert(s@.skip(0) =~= s@);
        }
        let (command, _) = UpdatePermissions::read(s, 0)?;
        command.validate()?;
        Ok(command)
    }
}

/// `ChangePassword` command is used to change the password of a user.
#[derive(Debug, Clone, PartialEq)]
pub struct ChangePassword {
    /// Unique user ID (numeric or name).
    pub user_id: Identifier,
    /// The password so far.
    pub current_password: Vec<u8>,
    /// The password from now on.
    pub new_password: Vec<u8>,
}

/// The mathematical value of a [`ChangePassword`].
pub struct ChangePasswordView {
    pub user_id: IdentifierView,
    pub current_password: Seq<u8>,
    pub new_password: Seq<u8>,
}

impl ChangePasswordView {
    /// The fields fit the wire.
    pub open spec fn wf(self) -> bool {
        self.user_id.wf()
            && valid_text(self.current_password)
            && valid_text(self.new_password)
    }

    /// The identifiers come back from the wire unchanged.
    pub open spec fn canonical(self) -> bool {
        self.user_id.canonical()
    }

    /// The wire form: user id, current password, new password.
    pub open spec fn wire(self) -> Seq<u8> {
        self.user_id.wire()
            + text_wire(self.current_password)
            + text_wire(self.new_password)
    }
}

impl View for ChangePassword {
    type V = ChangePasswordView;

    open spec fn view(&self) -> ChangePasswordView {
        ChangePasswordView {
            user_id: self.user_id@,
            current_password: self.current_password@,
            new_password: self.new_password@,
        }
    }
}

impl ChangePassword {
    /// Reads the fields, one after the other, from the front of `s`; the
    /// count is the number of bytes they took.
    #[verifier::opaque]
    pub open spec fn parse(s: Seq<u8>) -> Option<(ChangePasswordView, nat)> {
        match parse_identifier(s) {
            Some((user_id, n1)) => match parse_text(s.skip(n1 as int)) {
                Some((current_password, n2)) => match parse_text(s.skip((n1 + n2) as int)) {
                    Some((new_password, n3)) => Some(
                        (ChangePasswordView { user_id, current_password, new_password }, n1 + n2 + n3),
                    ),
                    None => None,
                },
                None => None,
            },
            None => None,
        }
    }

    /// What a payload decodes to.  Bytes after the last field are ignored.
    pub open spec fn decode(s: Seq<u8>) -> Option<ChangePasswordView> {
        match Self::parse(s) {
            Some((value, _)) => Some(value),
            None => None,
        }
    }

    /// The decoder never reads past the end of its input.
    pub proof fn lemma_bound(s: Seq<u8>)
        ensures
            match Self::parse(s) {
                Some((_, n)) => 0 < n <= s.len(),
                None => true,
            },
    {
        reveal(ChangePassword::parse);
    }

    /// Reading back an encoded value gives the value and the length of its
    /// wire form, whatever follows it.
    pub proof fn lemma_parse(value: ChangePasswordView, rest: Seq<u8>)
        requires
            value.wf(),
            value.canonical(),
        ensures
            Self::parse(value.wire() + rest) == Some((value, value.wire().len())),
            (value.wire() + rest).skip(value.wire().len() as int) == rest,
    {
        reveal(ChangePassword::parse);
        let s = value.wire() + rest;
        let w1 = value.user_id.wire();
        let w2 = text_wire(value.current_password);
        let w3 = text_wire(value.new_password);
        let u2 = w1 + w2;
        let t4 = rest;
        let t3 = w3 + t4;
        let t2 = w2 + t3;
        let t1 = w1 + t2;
        assert(s == t1) by {
            lemma_concat_assoc(u2, w3, t4);
            lemma_concat_assoc(w1, w2, t3);
        }
        assert(parse_identifier(s) == Some((value.user_id, w1.len()))
            && s.skip(w1.len() as int) == t2) by {
            lemma_identifier_roundtrip(value.user_id, t2);
        }
        assert(parse_text(s.skip(w1.len() as int)) == Some((value.current_password, w2.len()))
            && s.skip((w1.len() + w2.len()) as int) == t3) by {
            lemma_text_parse(value.current_password, t3);
            lemma_skip_skip(s, w1.len() as int, w2.len() as int);
        }
        assert(parse_text(s.skip((w1.len() + w2.len()) as int)) == Some((value.new_password, w3.len()))
            && s.skip((w1.len() + w2.len() + w3.len()) as int) == t4) by {
            lemma_text_parse(value.new_password, t4);
            lemma_skip_skip(s, (w1.len() + w2.len()) as int, w3.len() as int);
        }
    }

    /// Whatever follows an encoded value, a decoder that accepts it reads
    /// exactly the bytes of that value.
    pub proof fn lemma_consumed(value: ChangePasswordView, rest: Seq<u8>)
        requires
            value.wf(),
        ensures
            match Self::parse(value.wire() + rest) {
                Some((_, n)) => n == value.wire().len(),
                None => true,
            },
            (value.wire() + rest).skip(value.wire().len() as int) == rest,
    {
        reveal(ChangePassword::parse);
        let s = value.wire() + rest;
        let w1 = value.user_id.wire();
        let w2 = text_wire(value.current_password);
        let w3 = text_wire(value.new_password);
        let u2 = w1 + w2;
        let t4 = rest;
        let t3 = w3 + t4;
        let t2 = w2 + t3;
        let t1 = w1 + t2;
        assert(s == t1) by {
            lemma_concat_assoc(u2, w3, t4);
            lemma_concat_assoc(w1, w2, t3);
        }
        lemma_skip_concat(value.wire(), rest);
        if Self::parse(s) is Some {
            assert(parse_identifier(s) is Some);
            assert(parse_identifier(s).unwrap().1 == w1.len()
                && s.skip(w1.len() as int) == t2) by {
                lemma_identifier_consumed(value.user_id, t2);
            }
            assert(parse_text(s.skip(w1.len() as int)) is Some);
            assert(parse_text(s.skip(w1.len() as int)).unwrap().1 == w2.len()
                && s.skip((w1.len() + w2.len()) as int) == t3) by {
                lemma_text_parse(value.current_password, t3);
                lemma_skip_skip(s, w1.len() as int, w2.len() as int);
            }
            assert(parse_text(s.skip((w1.len() + w2.len()) as int)) is Some);
            assert(parse_text(s.skip((w1.len() + w2.len()) as int)).unwrap().1 == w3.len()
                && s.skip((w1.len() + w2.len() + w3.len()) as int) == t4) by {
                lemma_text_parse(value.new_password, t4);
                lemma_skip_skip(s, (w1.len() + w2.len()) as int, w3.len() as int);
            }
        }
    }

    /// The decoder looks at nothing beyond the bytes it reads: an input that
    /// starts with the same bytes decodes to the same value.
    pub proof fn lemma_local(s: Seq<u8>, other: Seq<u8>)
        requires
            Self::parse(s) is Some,
            other.len() >= Self::parse(s).unwrap().1,
            other.take(Self::parse(s).unwrap().1 as int) == s.take(
                Self::parse(s).unwrap().1 as int,
            ),
        ensures
            Self::parse(other) == Self::parse(s),
    {
        reveal(ChangePassword::parse);
        Self::lemma_bound(s);
        let n = Self::parse(s).unwrap().1 as int;
        let n1 = parse_identifier(s).unwrap().1 as int;
        lemma_take_take(s, n, n1);
        lemma_take_take(other, n, n1);
        lemma_identifier_local(s, other);
        let n2 = parse_text(s.skip(n1)).unwrap().1 as int;
        lemma_window(s, other, n, n1, n2);
        lemma_text_local(s.skip(n1), other.skip(n1));
        let n3 = parse_text(s.skip(n1 + n2)).unwrap().1 as int;
        lemma_window(s, other, n, n1 + n2, n3);
        lemma_text_local(s.skip(n1 + n2), other.skip(n1 + n2));
    }

    /// An encoded value cut short cannot be read.
    pub proof fn lemma_cut(value: ChangePasswordView, k: int)
        requires
            value.wf(),
            0 <= k < value.wire().len(),
        ensures
            Self::parse(value.wire().take(k)) is None,
    {
        let w = value.wire();
        let s = w.take(k);
        if Self::parse(s) is Some {
            let n = Self::parse(s).unwrap().1 as int;
            Self::lemma_bound(s);
            lemma_take_take(w, k, n);
            Self::lemma_local(s, w);
            Self::lemma_consumed(value, Seq::empty());
            lemma_concat_empty(w);
        }
    }

    /// The wire form of a value that fits the wire is neither empty nor
    /// longer than 769 bytes.
    pub proof fn lemma_wire_len(value: ChangePasswordView)
        requires
            value.wf(),
        ensures
            0 < value.wire().len() <= 769,
    {
    }

    /// A command that fits the wire and is in canonical form survives
    /// encoding and decoding.
    pub proof fn lemma_roundtrip(value: ChangePasswordView)
        requires
            value.wf(),
            value.canonical(),
        ensures
            Self::decode(value.wire()) == Some(value),
    {
        Self::lemma_parse(value, Seq::empty());
        lemma_concat_empty(value.wire());
    }

    /// An encoded command whose last byte is cut off cannot be decoded.
    pub proof fn lemma_truncated(value: ChangePasswordView)
        requires
            value.wf(),
        ensures
            value.wire().len() > 0,
            Self::decode(value.wire().drop_last()) is None,
    {
        Self::lemma_cut(value, value.wire().len() - 1);
        lemma_take_take(value.wire(), value.wire().len() as int, 0);
    }

    /// Commands of this kind come straight from a client.
    pub fn get_command_execution_origin(&self) -> (origin: CommandExecution)
        ensures
            origin == CommandExecution::Direct,
    {
        CommandExecution::Direct
    }

    /// Accepts the value where its fields fit the wire.
    pub fn validate(&self) -> (r: Result<(), IggyError>)
        ensures
            r is Ok <==> self@.wf(),
            r is Err ==> r == Err::<(), IggyError>(IggyError::InvalidCommand),
    {
        self.user_id.validate()?;
        if !is_valid_text(&self.current_password) {
            return Err(IggyError::InvalidCommand);
        }
        if !is_valid_text(&self.new_password) {
            return Err(IggyError::InvalidCommand);
        }
        Ok(())
    }

    /// The number of bytes of the wire form.
    pub fn size(&self) -> (n: usize)
        requires
            self@.wf(),
        ensures
            n == self@.wire().len(),
            n <= 769,
    {
        self.user_id.get_size_bytes() as usize + 1 + self.current_password.len() + 1 + self.new_password.len()
    }

    /// Appends the wire form to `buf`.
    pub fn put(&self, buf: &mut BytesMut)
        requires
            self@.wf(),
            bytes_mut_view(*old(buf)).len() + self@.wire().len() <= isize::MAX,
        ensures
            bytes_mut_view(*final(buf)) == bytes_mut_view(*old(buf)) + self@.wire(),
    {
        let ghost before = bytes_mut_view(*buf);
        let ghost w1 = self.user_id@.wire();
        let ghost w2 = text_wire(self.current_password@);
        let ghost w3 = text_wire(self.new_password@);
        let ghost u2 = w1 + w2;
        self.user_id.put(buf);
        put_text(buf, &self.current_password);
        proof {
            lemma_concat_assoc(before, w1, w2);
        }
        put_text(buf, &self.new_password);
        proof {
            lemma_concat_assoc(before, u2, w3);
        }
    }

    /// Decodes the value that starts at `pos` and returns it with the
    /// position just after it.
    pub fn read(s: &[u8], pos: usize) -> (r: Result<(ChangePassword, usize), IggyError>)
        requires
            pos <= s@.len(),
        ensures
            match r {
                Ok((value, next)) => Self::parse(s@.skip(pos as int)) == Some(
                    (value@, (next - pos) as nat),
                ) && pos < next <= s@.len() && value@.wf() && value@.canonical(),
                Err(e) => e == IggyError::InvalidCommand && Self::parse(s@.skip(pos as int))
                    is None,
            },
    {
        proof {
            reveal(ChangePassword::parse);
        }
        let (user_id, p1) = Identifier::read(s, pos)?;
        proof {
            lemma_skip_skip(s@, pos as int, p1 - pos);
        }
        let (current_password, p2) = read_text_field(s, p1)?;
        proof {
            lemma_skip_skip(s@, pos as int, p2 - pos);
        }
        let (new_password, p3) = read_text_field(s, p2)?;
        Ok((ChangePassword { user_id, current_password, new_password }, p3))
    }

    /// Encodes the command.
    pub fn as_bytes(&self) -> (r: Bytes)
        requires
            self@.wf(),
        ensures
            bytes_view(r) == self@.wire(),
    {
        let mut bytes = BytesMut::with_capacity(self.size());
        self.put(&mut bytes);
        proof {
            assert(Seq::<u8>::empty() + self@.wire() =~= self@.wire());
        }
        bytes.freeze()
    }

    /// Decodes the command.  A payload that ends before the last field does
    /// is rejected.
    pub fn from_bytes(bytes: Bytes) -> (r: Result<ChangePassword, IggyError>)
        ensures
            match r {
                Ok(command) => Self::decode(bytes_view(bytes)) == Some(command@) && command@.wf() && command@.canonical(),
                Err(e) => e == IggyError::InvalidCommand && Self::decode(bytes_view(bytes))
                    is None,
            },
    {
        let s = as_slice(&bytes);
        proof {
            assert(s@.skip(0) =~= s@);
        }
        let (command, _) = ChangePassword::read(s, 0)?;
        command.validate()?;
        Ok(command)
    }
}

/// `LoginUser` command is used to log a user in by name and password.
#[derive(Debug, Clone, PartialEq)]
pub struct LoginUser {
    /// Name of the user.
    pub username: Vec<u8>,
    /// Password of the user.
    pub password: Vec<u8>,
}

/// The mathematical value of a [`LoginUser`].
pub struct LoginUserView {
    pub username: Seq<u8>,
    pub password: Seq<u8>,
}

impl LoginUserView {
    /// The fields fit the wire.
    pub open spec fn wf(self) -> bool {
        valid_text(self.username)
            && valid_text(self.password)
    }

    /// The wire form: username, password.
    pub open spec fn wire(self) -> Seq<u8> {
        text_wire(self.username)
            + text_wire(self.password)
    }
}

impl View for LoginUser {
    type V = LoginUserView;

    open spec fn view(&self) -> LoginUserView {
        LoginUserView {
            username: self.username@,
            password: self.password@,
        }
    }
}

impl LoginUser {
    /// Reads the fields, one after the other, from the front of `s`; the
    /// count is the number of bytes they took.
    #[verifier::opaque]
    pub open spec fn parse(s: Seq<u8>) -> Option<(LoginUserView, nat)> {
        match parse_text(s) {
            Some((username, n1)) => match parse_text(s.skip(n1 as int)) {
                Some((password, n2)) => Some(
                    (LoginUserView { username, password }, n1 + n2),
                ),
                None => None,
            },
            None => None,
        }
    }

    /// What a payload decodes to.  Bytes after the last field are ignored.
    pub open spec fn decode(s: Seq<u8>) -> Option<LoginUserView> {
        match Self::parse(s) {
            Some((value, _)) => Some(value),
            None => None,
        }
    }

    /// The decoder never reads past the end of its input.
    pub proof fn lemma_bound(s: Seq<u8>)
        ensures
            match Self::parse(s) {
                Some((_, n)) => 0 < n <= s.len(),
                None => true,
            },
    {
        reveal(LoginUser::parse);
    }

    /// Reading back an encoded value gives the value and the length of its
    /// wire form, whatever follows it.
    pub proof fn lemma_parse(value: LoginUserView, rest: Seq<u8>)
        requires
            value.wf(),
        ensures
            Self::parse(value.wire() + rest) == Some((value, value.wire().len())),
            (value.wire() + rest).skip(value.wire().len() as int) == rest,
    {
        reveal(LoginUser::parse);
        let s = value.wire() + rest;
        let w1 = text_wire(value.username);
        let w2 = text_wire(value.password);
        let t3 = rest;
        let t2 = w2 + t3;
        let t1 = w1 + t2;
        assert(s == t1) by {
            lemma_concat_assoc(w1, w2, t3);
        }
        assert(parse_text(s) == Some((value.username, w1.len()))
            && s.skip(w1.len() as int) == t2) by {
            lemma_text_parse(value.username, t2);
        }
        assert(parse_text(s.skip(w1.len() as int)) == Some((value.password, w2.len()))
            && s.skip((w1.len() + w2.len()) as int) == t3) by {
            lemma_text_parse(value.password, t3);
            lemma_skip_skip(s, w1.len() as int, w2.len() as int);
        }
    }

    /// The decoder looks at nothing beyond the bytes it reads: an input that
    /// starts with the same bytes decodes to the same value.
    pub proof fn lemma_local(s: Seq<u8>, other: Seq<u8>)
        requires
            Self::parse(s) is Some,
            other.len() >= Self::parse(s).unwrap().1,
            other.take(Self::parse(s).unwrap().1 as int) == s.take(
                Self::parse(s).unwrap().1 as int,
            ),
        ensures
            Self::parse(other) == Self::parse(s),
    {
        reveal(LoginUser::parse);
        Self::lemma_bound(s);
        let n = Self::parse(s).unwrap().1 as int;
        let n1 = parse_text(s).unwrap().1 as int;
        lemma_take_take(s, n, n1);
        lemma_take_take(other, n, n1);
        lemma_text_local(s, other);
        let n2 = parse_text(s.skip(n1)).unwrap().1 as int;
        lemma_window(s, other, n, n1, n2);
        lemma_text_local(s.skip(n1), other.skip(n1));
    }

    /// An encoded value cut short cannot be read.
    pub proof fn lemma_cut(value: LoginUserView, k: int)
        requires
            value.wf(),
            0 <= k < value.wire().len(),
        ensures
            Self::parse(value.wire().take(k)) is None,
    {
        let w = value.wire();
        let s = w.take(k);
        if Self::parse(s) is Some {
            let n = Self::parse(s).unwrap().1 as int;
            Self::lemma_bound(s);
            lemma_take_take(w, k, n);
            Self::lemma_local(s, w);
            Self::lemma_parse(value, Seq::empty());
            lemma_concat_empty(w);
        }
    }

    /// The wire form of a value that fits the wire is neither empty nor
    /// longer than 512 bytes.
    pub proof fn lemma_wire_len(value: LoginUserView)
        requires
            value.wf(),
        ensures
            0 < value.wire().len() <= 512,
    {
    }

    /// A command that fits the wire survives
    /// encoding and decoding.
    pub proof fn lemma_roundtrip(value: LoginUserView)
        requires
            value.wf(),
        ensures
            Self::decode(value.wire()) == Some(value),
    {
        Self::lemma_parse(value, Seq::empty());
        lemma_concat_empty(value.wire());
    }

    /// An encoded command whose last byte is cut off cannot be decoded.
    pub proof fn lemma_truncated(value: LoginUserView)
        requires
            value.wf(),
        ensures
            value.wire().len() > 0,
            Self::decode(value.wire().drop_last()) is None,
    {
        Self::lemma_cut(value, value.wire().len() - 1);
        lemma_take_take(value.wire(), value.wire().len() as int, 0);
    }

    /// Commands of this kind come straight from a client.
    pub fn get_command_execution_origin(&self) -> (origin: CommandExecution)
        ensures
            origin == CommandExecution::Direct,
    {
        CommandExecution::Direct
    }

    /// Accepts the value where its fields fit the wire.
    pub fn validate(&self) -> (r: Result<(), IggyError>)
        ensures
            r is Ok <==> self@.wf(),
            r is Err ==> r == Err::<(), IggyError>(IggyError::InvalidCommand),
    {
        if !is_valid_text(&self.username) {
            return Err(IggyError::InvalidCommand);
        }
        if !is_valid_text(&self.password) {
            return Err(IggyError::InvalidCommand);
        }
        Ok(())
    }

    /// The number of bytes of the wire form.
    pub fn size(&self) -> (n: usize)
        requires
            self@.wf(),
        ensures
            n == self@.wire().len(),
            n <= 512,
    {
        1 + self.username.len() + 1 + self.password.len()
    }

    /// Appends the wire form to `buf`.
    pub fn put(&self, buf: &mut BytesMut)
        requires
            self@.wf(),
            bytes_mut_view(*old(buf)).len() + self@.wire().len() <= isize::MAX,
        ensures
            bytes_mut_view(*final(buf)) == bytes_mut_view(*old(buf)) + self@.wire(),
    {
        let ghost before = bytes_mut_view(*buf);
        let ghost w1 = text_wire(self.username@);
        let ghost w2 = text_wire(self.password@);
        put_text(buf, &self.username);
        put_text(buf, &self.password);
        proof {
            lemma_concat_assoc(before, w1, w2);
        }
    }

    /// Decodes the value that starts at `pos` and returns it with the
    /// position just after it.
    pub fn read(s: &[u8], pos: usize) -> (r: Result<(LoginUser, usize), IggyError>)
        requires
            pos <= s@.len(),
        ensures
            match r {
                Ok((value, next)) => Self::parse(s@.skip(pos as int)) == Some(
                    (value@, (next - pos) as nat),
                ) && pos < next <= s@.len() && value@.wf(),
                Err(e) => e == IggyError::InvalidCommand && Self::parse(s@.skip(pos as int))
                    is None,
            },
    {
        proof {
            reveal(LoginUser::parse);
        }
        let (username, p1) = read_text_field(s, pos)?;
        proof {
            lemma_skip_skip(s@, pos as int, p1 - pos);
        }
        let (password, p2) = read_text_field(s, p1)?;
        Ok((LoginUser { username, password }, p2))
    }

    /// Encodes the command.
    pub fn as_bytes(&self) -> (r: Bytes)
        requires
            self@.wf(),
        ensures
            bytes_view(r) == self@.wire(),
    {
        let mut bytes = BytesMut::with_capacity(self.size());
        self.put(&mut bytes);
        proof {
            assert(Seq::<u8>::empty() + self@.wire() =~= self@.wire());
        }
        bytes.freeze()
    }

    /// Decodes the command.  A payload that ends before the last field does
    /// is rejected.
    pub fn from_bytes(bytes: Bytes) -> (r: Result<LoginUser, IggyError>)
        ensures
            match r {
                Ok(command) => Self::decode(bytes_view(bytes)) == Some(command@) && command@.wf(),
                Err(e) => e == IggyError::InvalidCommand && Self::decode(bytes_view(bytes))
                    is None,
            },
    {
        let s = as_slice(&bytes);
        proof {
            assert(s@.skip(0) =~= s@);
        }
        let (command, _) = LoginUser::read(s, 0)?;
        command.validate()?;
        Ok(command)
    }
}

/// `LogoutUser` command is used to log the current user out.
/// It has no additional payload.
#[derive(Debug, Clone, Copy, Default, PartialEq, Eq)]
pub struct LogoutUser {}

impl LogoutUser {
    /// Commands of this kind come straight from a client.
    pub fn get_command_execution_origin(&self) -> (origin: CommandExecution)
        ensures
            origin == CommandExecution::Direct,
    {
        CommandExecution::Direct
    }

    /// There is nothing to check.
    pub fn validate(&self) -> (r: Result<(), IggyError>)
        ensures
            r is Ok,
    {
        Ok(())
    }

    /// The payload is empty.
    pub fn as_bytes(&self) -> (r: Bytes)
        ensures
            bytes_view(r) == Seq::<u8>::empty(),
    {
        Bytes::new()
    }

    /// Only the empty payload decodes; any byte at all is rejected.
    pub fn from_bytes(bytes: Bytes) -> (r: Result<LogoutUser, IggyError>)
        ensures
            match r {
                Ok(_) => parse_empty(bytes_view(bytes)) is Some,
                Err(e) => e == IggyError::InvalidCommand && parse_empty(bytes_view(bytes)) is None,
            },
    {
        if !bytes.is_empty() {
            return Err(IggyError::InvalidCommand);
        }
        let command = LogoutUser {};
        command.validate()?;
        Ok(LogoutUser {})
    }
}

} // verus!
