//! The identifier of a resource: a number or a name, tagged on the wire.

use crate::buffer::as_slice;
use crate::buffer::bytes_mut_view;
use crate::buffer::bytes_view;
use crate::error::IggyError;
use crate::wire::copy_range;
use crate::wire::le_u32;
use crate::wire::put_u8;
use crate::wire::read_u32_le;
use crate::wire::u32_le;
use bytes::BufMut;
use bytes::Bytes;
use bytes::BytesMut;
use vstd::prelude::*;
use vstd::string::StringSliceAdditionalSpecFns;

verus! {

/// Which of the two forms an identifier has.
#[derive(Debug, Clone, Copy, PartialEq, Eq, Hash, Structural)]
pub enum IdKind {
    /// A 32-bit number, carried as four little-endian bytes.
    Numeric,
    /// A name of 1 to 255 bytes.
    String,
}

impl IdKind {
    /// The tag byte of this kind.
    pub open spec fn spec_code(self) -> u8 {
        match self {
            IdKind::Numeric => 1,
            IdKind::String => 2,
        }
    }

    /// Returns the tag byte of this kind.
    pub fn as_code(&self) -> (code: u8)
        ensures
            code == self.spec_code(),
    {
        match self {
            IdKind::Numeric => 1,
            IdKind::String => 2,
        }
    }

    /// Reads a kind from its tag byte; any byte but 1 and 2 is rejected.
    pub fn from_code(code: u8) -> (r: Result<IdKind, IggyError>)
        ensures
            code == 1 ==> r == Ok::<IdKind, IggyError>(IdKind::Numeric),
            code == 2 ==> r == Ok::<IdKind, IggyError>(IdKind::String),
            code != 1 && code != 2 ==> r == Err::<IdKind, IggyError>(IggyError::InvalidCommand),
    {
        match code {
            1 => Ok(IdKind::Numeric),
            2 => Ok(IdKind::String),
            _ => Err(IggyError::InvalidCommand),
        }
    }
}

/// The mathematical value of an identifier: its kind and its payload bytes.
pub struct IdentifierView {
    pub kind: IdKind,
    pub value: Seq<u8>,
}

impl IdentifierView {
    /// A numeric identifier has exactly four payload bytes, a name between
    /// 1 and 255.
    pub open spec fn wf(self) -> bool {
        match self.kind {
            IdKind::Numeric => self.value.len() == 4,
            IdKind::String => 1 <= self.value.len() <= 255,
        }
    }

    /// A name that ends in a NUL byte is shortened by the decoder, so only a
    /// name that does not end in one comes back from the wire as it was sent.
    pub open spec fn canonical(self) -> bool {
        self.kind == IdKind::String ==> self.value.len() > 0 && self.value.last() != 0
    }

    /// The wire form: kind byte, length byte, payload.
    pub open spec fn wire(self) -> Seq<u8> {
        seq![self.kind.spec_code(), self.value.len() as u8] + self.value
    }

    /// The number of bytes of the wire form.
    pub open spec fn size(self) -> nat {
        2 + self.value.len()
    }

    /// The identifier of the number `n`.
    pub open spec fn numeric(n: u32) -> IdentifierView {
        IdentifierView { kind: IdKind::Numeric, value: u32_le(n) }
    }

    /// The identifier of the name `name`.
    pub open spec fn named(name: Seq<u8>) -> IdentifierView {
        IdentifierView { kind: IdKind::String, value: name }
    }
}

/// `s` without the NUL bytes at its end.
pub open spec fn trim_nul(s: Seq<u8>) -> Seq<u8>
    decreases s.len(),
{
    if s.len() > 0 && s.last() == 0 {
        trim_nul(s.drop_last())
    } else {
        s
    }
}

/// Reads one identifier from the front of `s`.
///
/// The result is the identifier and the number of bytes it occupied, or
/// `None` where the header is missing, the kind byte is neither 1 nor 2, the
/// length is zero, a numeric payload is not four bytes long, the payload runs
/// past the end of `s`, or a name consists of NUL bytes only.  NUL bytes at
/// the end of a name are dropped; the count of bytes read still includes them.
pub open spec fn parse_identifier(s: Seq<u8>) -> Option<(IdentifierView, nat)> {
    if s.len() < 2 {
        None
    } else {
        let length = s[1] as int;
        let payload = s.subrange(2, 2 + length);
        if length == 0 || s.len() < 2 + length {
            None
        } else if s[0] == 1 {
            if length == 4 {
                Some((IdentifierView { kind: IdKind::Numeric, value: payload }, 6nat))
            } else {
                None
            }
        } else if s[0] == 2 {
            if trim_nul(payload).len() == 0 {
                None
            } else {
                Some(
                    (
                        IdentifierView { kind: IdKind::String, value: trim_nul(payload) },
                        (2 + length) as nat,
                    ),
                )
            }
        } else {
            None
        }
    }
}

/// Trimming shortens a sequence, keeps a prefix of it, and leaves no NUL at
/// the end.
pub proof fn lemma_trim_nul(s: Seq<u8>)
    ensures
        trim_nul(s).len() <= s.len(),
        trim_nul(s) == s.take(trim_nul(s).len() as int),
        trim_nul(s).len() > 0 ==> trim_nul(s).last() != 0,
        (s.len() > 0 && s.last() != 0) ==> trim_nul(s) == s,
    decreases s.len(),
{
    if s.len() > 0 && s.last() == 0 {
        lemma_trim_nul(s.drop_last());
        let t = trim_nul(s.drop_last());
        assert(t =~= s.take(t.len() as int));
    } else {
        assert(s =~= s.take(s.len() as int));
    }
}

/// What the decoder accepts is a well-formed identifier in canonical form,
/// and it never reads past the end of its input.
pub proof fn lemma_parse_identifier_wf(s: Seq<u8>)
    ensures
        match parse_identifier(s) {
            Some((id, n)) => id.wf() && id.canonical() && 3 <= n <= s.len() && n <= 257 && n == 2
                + s[1],
            None => true,
        },
{
    if s.len() >= 2 {
        lemma_trim_nul(s.subrange(2, 2 + s[1] as int));
    }
}

/// Decoding an encoded identifier gives the identifier back, together with
/// the size of its wire form, whatever bytes follow it.
pub proof fn lemma_identifier_roundtrip(id: IdentifierView, rest: Seq<u8>)
    requires
        id.wf(),
        id.canonical(),
    ensures
        id.wire().len() == id.size(),
        parse_identifier(id.wire() + rest) == Some((id, id.size())),
        (id.wire() + rest).skip(id.size() as int) == rest,
{
    let s = id.wire() + rest;
    assert(s[0] == id.kind.spec_code());
    assert(s[1] == id.value.len() as u8);
    assert(s.subrange(2, 2 + id.value.len() as int) =~= id.value);
    assert(s.skip(id.size() as int) =~= rest);
    lemma_trim_nul(id.value);
}

/// An encoded identifier cut short cannot be decoded.
pub proof fn lemma_identifier_prefix_fails(id: IdentifierView, k: int)
    requires
        id.wf(),
        0 <= k < id.size(),
    ensures
        parse_identifier(id.wire().take(k)) is None,
{
    let s = id.wire().take(k);
    if k >= 2 {
        assert(s[1] == id.value.len() as u8);
    }
}

/// Decoding an identifier looks at nothing beyond it.
pub proof fn lemma_identifier_local(s: Seq<u8>, other: Seq<u8>)
    requires
        parse_identifier(s) is Some,
        other.len() >= parse_identifier(s).unwrap().1,
        other.take(parse_identifier(s).unwrap().1 as int) == s.take(
            parse_identifier(s).unwrap().1 as int,
        ),
    ensures
        parse_identifier(other) == parse_identifier(s),
{
    let n = 2 + s[1] as int;
    assert forall|i: int| 0 <= i < n implies s[i] == other[i] by {
        assert(s.take(n)[i] == s[i]);
        assert(other.take(n)[i] == other[i]);
    }
    assert(other.subrange(2, n) =~= s.subrange(2, n));
}

/// A resource identifier: a number, or a name of 1 to 255 bytes.
///
/// Every value of this type is well-formed: the stored length matches the
/// payload, a number has four payload bytes, a name at least one.
#[derive(Debug, PartialEq, Eq, Hash)]
pub struct Identifier {
    kind: IdKind,
    length: u8,
    value: Vec<u8>,
}

impl View for Identifier {
    type V = IdentifierView;

    closed spec fn view(&self) -> IdentifierView {
        IdentifierView { kind: self.kind, value: self.value@ }
    }
}

impl Clone for Identifier {
    fn clone(&self) -> (r: Self)
        ensures
            r@ == self@,
    {
        proof {
            use_type_invariant(self);
        }
        let value = copy_range(self.value.as_slice(), 0, self.value.len());
        proof {
            assert(value@ =~= self.value@);
        }
        Identifier { kind: self.kind, length: self.length, value }
    }
}

impl Default for Identifier {
    /// The identifier of the number 1.
    fn default() -> (r: Self)
        ensures
            r@ == IdentifierView::numeric(1),
    {
        let mut bytes: Vec<u8> = Vec::new();
        bytes.push(1);
        bytes.push(0);
        bytes.push(0);
        bytes.push(0);
        proof {
            assert(bytes@ =~= u32_le(1));
        }
        Identifier { kind: IdKind::Numeric, length: 4, value: bytes }
    }
}

impl Identifier {
    #[verifier::type_invariant]
    spec fn inv(self) -> bool {
        self.length as int == self.value@.len() && self@.wf()
    }

    /// The identifier of the number `value`.  Every 32-bit number is accepted.
    pub fn numeric(value: u32) -> (r: Result<Identifier, IggyError>)
        ensures
            r is Ok,
            r.unwrap()@ == IdentifierView::numeric(value),
    {
        let mut bytes: Vec<u8> = Vec::new();
        bytes.push((value % 256) as u8);
        bytes.push((value / 256 % 256) as u8);
        bytes.push((value / 65536 % 256) as u8);
        bytes.push((value / 16777216) as u8);
        proof {
            assert(bytes@ =~= u32_le(value));
        }
        Ok(Identifier { kind: IdKind::Numeric, length: 4, value: bytes })
    }

    /// The identifier of the name `value`, given as text.  A name must have
    /// between 1 and 255 bytes.
    pub fn named(value: &str) -> (r: Result<Identifier, IggyError>)
        ensures
            match r {
                Ok(id) => 1 <= value.spec_bytes().len() <= 255 && id@ == IdentifierView::named(
                    value.spec_bytes(),
                ),
                Err(e) => e == IggyError::InvalidCommand && !(1 <= value.spec_bytes().len() <= 255),
            },
    {
        Identifier::named_bytes(value.as_bytes())
    }

    /// The identifier of the name `value`, given as bytes.  A name must have
    /// between 1 and 255 bytes; what they are is not examined.
    pub fn named_bytes(value: &[u8]) -> (r: Result<Identifier, IggyError>)
        ensures
            match r {
                Ok(id) => 1 <= value@.len() <= 255 && id@ == IdentifierView::named(value@),
                Err(e) => e == IggyError::InvalidCommand && !(1 <= value@.len() <= 255),
            },
    {
        let n = value.len();
        if n == 0 || n > 255 {
            return Err(IggyError::InvalidCommand);
        }
        let bytes = copy_range(value, 0, n);
        proof {
            assert(bytes@ =~= value@);
        }
        Ok(Identifier { kind: IdKind::String, length: n as u8, value: bytes })
    }

    /// The kind of this identifier.
    pub fn kind(&self) -> (k: IdKind)
        ensures
            k == self@.kind,
    {
        self.kind
    }

    /// The number of payload bytes.
    pub fn length(&self) -> (n: u8)
        ensures
            n == self@.value.len(),
            self@.wf(),
    {
        proof {
            use_type_invariant(self);
        }
        self.length
    }

    /// The payload bytes: four little-endian bytes for a number, the name
    /// otherwise.
    pub fn value(&self) -> (v: &[u8])
        ensures
            v@ == self@.value,
            self@.wf(),
    {
        proof {
            use_type_invariant(self);
        }
        self.value.as_slice()
    }

    /// The size of the wire form: two header bytes and the payload.
    pub fn get_size_bytes(&self) -> (n: u32)
        ensures
            n == self@.size(),
            3 <= n <= 257,
            self@.wf(),
    {
        proof {
            use_type_invariant(self);
        }
        2 + self.length as u32
    }

    /// The number that a numeric identifier stands for; a name has none.
    pub fn get_u32_value(&self) -> (r: Result<u32, IggyError>)
        ensures
            self@.wf(),
            match r {
                Ok(n) => self@.kind == IdKind::Numeric && n == le_u32(self@.value),
                Err(e) => e == IggyError::InvalidCommand && self@.kind == IdKind::String,
            },
    {
        proof {
            use_type_invariant(self);
        }
        match self.kind {
            IdKind::Numeric => {
                let n = read_u32_le(self.value.as_slice(), 0);
                proof {
                    assert(self.value@.skip(0) =~= self.value@);
                }
                Ok(n)
            },
            IdKind::String => Err(IggyError::InvalidCommand),
        }
    }

    /// Tells whether two identifiers have the same kind and payload.
    pub fn equals(&self, other: &Identifier) -> (same: bool)
        ensures
            same == (self@ == other@),
    {
        proof {
            use_type_invariant(self);
            use_type_invariant(other);
        }
        if self.kind != other.kind || self.length != other.length {
            return false;
        }
        let n = self.value.len();
        let mut i: usize = 0;
        while i < n
            invariant
                i <= n,
                n == self.value@.len(),
                n == other.value@.len(),
                forall|j: int| 0 <= j < i ==> self.value@[j] == other.value@[j],
            decreases n - i,
        {
            if self.value[i] != other.value[i] {
                return false;
            }
            i += 1;
        }
        proof {
            assert(self.value@ =~= other.value@);
        }
        true
    }

    /// Always succeeds: a value of this type cannot be malformed.
    pub fn validate(&self) -> (r: Result<(), IggyError>)
        ensures
            r is Ok,
            self@.wf(),
    {
        proof {
            use_type_invariant(self);
        }
        Ok(())
    }

    /// Encodes the identifier: kind byte, length byte, payload.
    pub fn as_bytes(&self) -> (r: Bytes)
        ensures
            bytes_view(r) == self@.wire(),
            self@.wf(),
    {
        proof {
            use_type_invariant(self);
        }
        let mut bytes = BytesMut::with_capacity(2 + self.length as usize);
        put_u8(&mut bytes, self.kind.as_code());
        put_u8(&mut bytes, self.length);
        bytes.put_slice(self.value.as_slice());
        proof {
            assert(bytes_mut_view(bytes) =~= self@.wire());
        }
        bytes.freeze()
    }

    /// Appends the wire form of the identifier to `buf`.
    pub fn put(&self, buf: &mut BytesMut)
        requires
            bytes_mut_view(*old(buf)).len() + self@.wire().len() <= isize::MAX,
        ensures
            bytes_mut_view(*final(buf)) == bytes_mut_view(*old(buf)) + self@.wire(),
            self@.wf(),
    {
        proof {
            use_type_invariant(self);
        }
        let ghost before = bytes_mut_view(*buf);
        put_u8(buf, self.kind.as_code());
        put_u8(buf, self.length);
        buf.put_slice(self.value.as_slice());
        proof {
            assert(bytes_mut_view(*buf) =~= before + self@.wire());
        }
    }

    /// Decodes one identifier from the front of `s`, starting at `pos`, and
    /// returns it with the position just after it.
    pub fn read(s: &[u8], pos: usize) -> (r: Result<(Identifier, usize), IggyError>)
        requires
            pos <= s@.len(),
        ensures
            match r {
                Ok((id, next)) => parse_identifier(s@.skip(pos as int)) == Some(
                    (id@, (next - pos) as nat),
                ) && pos + 3 <= next <= s@.len() && id@.wf() && id@.canonical(),
                Err(e) => e == IggyError::InvalidCommand && parse_identifier(s@.skip(pos as int))
                    is None,
            },
    {
        let ghost rest = s@.skip(pos as int);
        proof {
            lemma_parse_identifier_wf(rest);
        }
        if s.len() - pos < 2 {
            return Err(IggyError::InvalidCommand);
        }
        let code = s[pos];
        let length = s[pos + 1];
        let n = length as usize;
        if n == 0 || s.len() - pos < 2 + n {
            return Err(IggyError::InvalidCommand);
        }
        let ghost payload = rest.subrange(2, 2 + n);
        proof {
            assert(rest[0] == code);
            assert(rest[1] == length);
            assert(payload =~= s@.subrange(pos + 2, pos + 2 + n));
        }
        if code == 1 {
            if n != 4 {
                return Err(IggyError::InvalidCommand);
            }
            let value = copy_range(s, pos + 2, pos + 6);
            Ok((Identifier { kind: IdKind::Numeric, length: 4, value }, pos + 6))
        } else if code == 2 {
            let mut end: usize = pos + 2 + n;
            while end > pos + 2 && s[end - 1] == 0
                invariant
                    pos + 2 <= end <= pos + 2 + n <= s@.len(),
                    trim_nul(payload) == trim_nul(s@.subrange(pos + 2, end as int)),
                decreases end,
            {
                proof {
                    assert(s@.subrange(pos + 2, end as int).drop_last() =~= s@.subrange(
                        pos + 2,
                        end - 1,
                    ));
                }
                end -= 1;
            }
            if end == pos + 2 {
                return Err(IggyError::InvalidCommand);
            }
            let value = copy_range(s, pos + 2, end);
            Ok((Identifier { kind: IdKind::String, length: (end - pos - 2) as u8, value }, pos + 2 + n))
        } else {
            Err(IggyError::InvalidCommand)
        }
    }

    /// Decodes one identifier from the front of `bytes` and returns it with
    /// the number of bytes it occupied.  Bytes after it are ignored.
    pub fn decode(bytes: &Bytes) -> (r: Result<(Identifier, usize), IggyError>)
        ensures
            match r {
                Ok((id, n)) => parse_identifier(bytes_view(*bytes)) == Some((id@, n as nat)) && 3
                    <= n <= bytes_view(*bytes).len() && id@.wf() && id@.canonical(),
                Err(e) => e == IggyError::InvalidCommand && parse_identifier(bytes_view(*bytes))
                    is None,
            },
    {
        let s = as_slice(bytes);
        proof {
            assert(s@.skip(0) =~= s@);
        }
        Identifier::read(s, 0)
    }

    /// Decodes one identifier from the front of `bytes`.  Bytes after it are
    /// ignored.
    pub fn from_bytes(bytes: Bytes) -> (r: Result<Identifier, IggyError>)
        ensures
            match r {
                Ok(id) => parse_identifier(bytes_view(bytes)) is Some && parse_identifier(
                    bytes_view(bytes),
                ).unwrap().0 == id@ && id@.wf() && id@.canonical(),
                Err(e) => e == IggyError::InvalidCommand && parse_identifier(bytes_view(bytes))
                    is None,
            },
    {
        match Identifier::decode(&bytes) {
            Ok((id, _)) => Ok(id),
            Err(e) => Err(e),
        }
    }
}

} // verus!
