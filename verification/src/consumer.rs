//! The consumer named by polling and offset commands.

use crate::buffer::bytes_mut_view;
use crate::error::IggyError;
use crate::payload::lemma_skip_skip;
use crate::streaming::consumer_group::ConsumerGroup;
use crate::wire::lemma_concat_assoc;
use crate::wire::lemma_same_front;
use crate::wire::lemma_take_take;
use crate::wire::lemma_u32_local;
use crate::wire::lemma_u32_parse;
use crate::wire::lemma_window;
use crate::wire::parse_u32;
use crate::wire::put_byte;
use crate::wire::put_u32_le;
use crate::wire::read_u32;
use crate::wire::u32_le;
use bytes::BytesMut;
use vstd::prelude::*;

verus! {

/// Whether messages are read by a single consumer or on behalf of a consumer group.
#[derive(Debug, Clone, Copy, PartialEq, Eq, Structural)]
pub enum ConsumerKind {
    /// A single consumer, identified by its own id.
    Consumer,
    /// A member of the consumer group with the given id.
    ConsumerGroup,
}

impl ConsumerKind {
    /// The byte that stands for this consumer kind on the wire.
    pub open spec fn spec_code(self) -> u8 {
        match self {
            ConsumerKind::Consumer => 1,
            ConsumerKind::ConsumerGroup => 2,
        }
    }

    /// The consumer kind that a byte stands for, if any.
    pub open spec fn spec_from_code(code: u8) -> Option<ConsumerKind> {
        if code == 1 {
            Some(ConsumerKind::Consumer)
        } else if code == 2 {
            Some(ConsumerKind::ConsumerGroup)
        } else {
            None
        }
    }

    /// The wire form: one byte.
    pub open spec fn wire(self) -> Seq<u8> {
        seq![self.spec_code()]
    }

    /// Reads a consumer kind from the front of `s`; an unknown byte is rejected.
    pub open spec fn parse(s: Seq<u8>) -> Option<(ConsumerKind, nat)> {
        if s.len() < 1 {
            None
        } else {
            match Self::spec_from_code(s[0]) {
                Some(value) => Some((value, 1nat)),
                None => None,
            }
        }
    }

    /// Reading back an encoded consumer kind gives it back, whatever follows it.
    pub proof fn lemma_parse(value: ConsumerKind, rest: Seq<u8>)
        ensures
            Self::parse(value.wire() + rest) == Some((value, value.wire().len())),
            (value.wire() + rest).skip(value.wire().len() as int) == rest,
            value.wire().len() == 1,
    {
        assert((value.wire() + rest)[0] == value.spec_code());
        assert((value.wire() + rest).skip(1) =~= rest);
    }

    /// Reading a consumer kind looks at nothing beyond its one byte.
    pub proof fn lemma_local(s: Seq<u8>, other: Seq<u8>)
        requires
            Self::parse(s) is Some,
            other.len() >= Self::parse(s).unwrap().1,
            other.take(Self::parse(s).unwrap().1 as int) == s.take(
                Self::parse(s).unwrap().1 as int,
            ),
        ensures
            Self::parse(other) == Self::parse(s),
    {
        lemma_same_front(s, other, 1);
    }

    /// Returns the byte that stands for this consumer kind on the wire.
    pub fn as_code(&self) -> (code: u8)
        ensures
            code == self.spec_code(),
    {
        match self {
            ConsumerKind::Consumer => 1,
            ConsumerKind::ConsumerGroup => 2,
        }
    }

    /// Reads a consumer kind from its byte; an unknown byte is rejected.
    pub fn from_code(code: u8) -> (r: Result<ConsumerKind, IggyError>)
        ensures
            match r {
                Ok(value) => Self::spec_from_code(code) == Some(value),
                Err(e) => e == IggyError::InvalidCommand && Self::spec_from_code(code) is None,
            },
    {
        match code {
            1 => Ok(ConsumerKind::Consumer),
            2 => Ok(ConsumerKind::ConsumerGroup),
            _ => Err(IggyError::InvalidCommand),
        }
    }

    /// Appends the wire form to `buf`.
    pub fn put(&self, buf: &mut BytesMut)
        requires
            bytes_mut_view(*old(buf)).len() + 1 <= isize::MAX,
        ensures
            bytes_mut_view(*final(buf)) == bytes_mut_view(*old(buf)) + self.wire(),
    {
        put_byte(buf, self.as_code());
    }

    /// Reads the consumer kind at `pos`.
    pub fn read(s: &[u8], pos: usize) -> (r: Result<(ConsumerKind, usize), IggyError>)
        requires
            pos <= s@.len(),
        ensures
            match r {
                Ok((value, next)) => Self::parse(s@.skip(pos as int)) == Some(
                    (value, (next - pos) as nat),
                ) && pos < next <= s@.len(),
                Err(e) => e == IggyError::InvalidCommand && Self::parse(s@.skip(pos as int))
                    is None,
            },
    {
        if s.len() - pos < 1 {
            return Err(IggyError::InvalidCommand);
        }
        let value = ConsumerKind::from_code(s[pos])?;
        Ok((value, pos + 1))
    }
}

/// On whose behalf messages are read and offsets are stored.
#[derive(Debug, Clone, Copy, PartialEq, Eq, Structural)]
pub struct Consumer {
    /// Single consumer or consumer group.
    pub kind: ConsumerKind,
    /// ID of the consumer or of the consumer group.
    pub id: u32,
}

impl Consumer {
    /// The fields fit the wire.
    pub open spec fn wf(self) -> bool {
        true
    }

    /// The wire form: kind byte, then the id.
    pub open spec fn wire(self) -> Seq<u8> {
        self.kind.wire()
            + u32_le(self.id)
    }

    /// Reads the fields, one after the other, from the front of `s`; the
    /// count is the number of bytes they took.
    #[verifier::opaque]
    pub open spec fn parse(s: Seq<u8>) -> Option<(Consumer, nat)> {
        match ConsumerKind::parse(s) {
            Some((kind, n1)) => match parse_u32(s.skip(n1 as int)) {
                Some((id, n2)) => Some(
                    (Consumer { kind, id }, n1 + n2),
                ),
                None => None,
            },
            None => None,
        }
    }

    /// The decoder never reads past the end of its input.
    pub proof fn lemma_bound(s: Seq<u8>)
        ensures
            match Self::parse(s) {
                Some((_, n)) => 0 < n <= s.len(),
                None => true,
            },
    {
        reveal(Consumer::parse);
    }

    /// Reading back an encoded value gives the value and the length of its
    /// wire form, whatever follows it.
    pub proof fn lemma_parse(value: Consumer, rest: Seq<u8>)
        requires
            value.wf(),
        ensures
            Self::parse(value.wire() + rest) == Some((value, value.wire().len())),
            (value.wire() + rest).skip(value.wire().len() as int) == rest,
    {
        reveal(Consumer::parse);
        let s = value.wire() + rest;
        let w1 = value.kind.wire();
        let w2 = u32_le(value.id);
        let t3 = rest;
        let t2 = w2 + t3;
        let t1 = w1 + t2;
        assert(s == t1) by {
            lemma_concat_assoc(w1, w2, t3);
        }
        assert(ConsumerKind::parse(s) == Some((value.kind, w1.len()))
            && s.skip(w1.len() as int) == t2) by {
            ConsumerKind::lemma_parse(value.kind, t2);
        }
        assert(parse_u32(s.skip(w1.len() as int)) == Some((value.id, w2.len()))
            && s.skip((w1.len() + w2.len()) as int) == t3) by {
            lemma_u32_parse(value.id, t3);
            lemma_skip_skip(s, w1.len() as int, w2.len() as int);
        }
    }

    /// The decoder looks at nothing beyond the bytes it reads: an input that
    /// starts with the same bytes decodes to the same value.
    pub proof fn lemma_local(s: Seq<u8>, other: Seq<u8>)
        requires
            Self::parse(s) is Some,
            other.len() >= Self::parse(s).unwrap().1,
            other.take(Self::parse(s).unwrap().1 as int) == s.take(
                Self::parse(s).unwrap().1 as int,
            ),
        ensures
            Self::parse(other) == Self::parse(s),
    {
        reveal(Consumer::parse);
        Self::lemma_bound(s);
        let n = Self::parse(s).unwrap().1 as int;
        let n1 = ConsumerKind::parse(s).unwrap().1 as int;
        lemma_take_take(s, n, n1);
        lemma_take_take(other, n, n1);
        ConsumerKind::lemma_local(s, other);
        let n2 = parse_u32(s.skip(n1)).unwrap().1 as int;
        lemma_window(s, other, n, n1, n2);
        lemma_u32_local(s.skip(n1), other.skip(n1));
    }

    /// The wire form of a value that fits the wire is neither empty nor
    /// longer than 5 bytes.
    pub proof fn lemma_wire_len(value: Consumer)
        requires
            value.wf(),
        ensures
            0 < value.wire().len() <= 5,
    {
    }

    /// Accepts the value where its fields fit the wire.
    pub fn validate(&self) -> (r: Result<(), IggyError>)
        ensures
            r is Ok <==> self.wf(),
            r is Err ==> r == Err::<(), IggyError>(IggyError::InvalidCommand),
    {
        Ok(())
    }

    /// The number of bytes of the wire form.
    pub fn size(&self) -> (n: usize)
        requires
            self.wf(),
        ensures
            n == self.wire().len(),
            n <= 5,
    {
        1 + 4
    }

    /// Appends the wire form to `buf`.
    pub fn put(&self, buf: &mut BytesMut)
        requires
            self.wf(),
            bytes_mut_view(*old(buf)).len() + self.wire().len() <= isize::MAX,
        ensures
            bytes_mut_view(*final(buf)) == bytes_mut_view(*old(buf)) + self.wire(),
    {
        let ghost before = bytes_mut_view(*buf);
        let ghost w1 = self.kind.wire();
        let ghost w2 = u32_le(self.id);
        self.kind.put(buf);
        put_u32_le(buf, self.id);
        proof {
            lemma_concat_assoc(before, w1, w2);
        }
    }

    /// Decodes the value that starts at `pos` and returns it with the
    /// position just after it.
    pub fn read(s: &[u8], pos: usize) -> (r: Result<(Consumer, usize), IggyError>)
        requires
            pos <= s@.len(),
        ensures
            match r {
                Ok((value, next)) => Self::parse(s@.skip(pos as int)) == Some(
                    (value, (next - pos) as nat),
                ) && pos < next <= s@.len() && value.wf(),
                Err(e) => e == IggyError::InvalidCommand && Self::parse(s@.skip(pos as int))
                    is None,
            },
    {
        proof {
            reveal(Consumer::parse);
        }
        let (kind, p1) = ConsumerKind::read(s, pos)?;
        proof {
            lemma_skip_skip(s@, pos as int, p1 - pos);
        }
        let (id, p2) = read_u32(s, p1)?;
        Ok((Consumer { kind, id }, p2))
    }
}

} // verus!
