//! Commands on the partitions of a topic.

use crate::buffer::as_slice;
use crate::buffer::bytes_mut_view;
use crate::buffer::bytes_view;
use crate::error::IggyError;
use crate::identifier::Identifier;
use crate::identifier::IdentifierView;
use crate::identifier::lemma_identifier_local;
use crate::identifier::lemma_identifier_roundtrip;
use crate::identifier::parse_identifier;
use crate::payload::CommandExecution;
use crate::payload::lemma_identifier_consumed;
use crate::payload::lemma_skip_skip;
use crate::wire::lemma_concat_assoc;
use crate::wire::lemma_concat_empty;
use crate::wire::lemma_skip_concat;
use crate::wire::lemma_take_take;
use crate::wire::lemma_u32_local;
use crate::wire::lemma_u32_parse;
use crate::wire::lemma_window;
use crate::wire::parse_u32;
use crate::wire::put_u32_le;
use crate::wire::read_u32;
use crate::wire::u32_le;
use bytes::Bytes;
use bytes::BytesMut;
use vstd::prelude::*;

verus! {

/// `CreatePartitions` command is used to add partitions to a topic.
#[derive(Debug, Clone, PartialEq)]
pub struct CreatePartitions {
    /// Unique stream ID (numeric or name).
    pub stream_id: Identifier,
    /// Unique topic ID (numeric or name).
    pub topic_id: Identifier,
    /// Number of partitions to add.
    pub partitions_count: u32,
}

/// The mathematical value of a [`CreatePartitions`].
pub struct CreatePartitionsView {
    pub stream_id: IdentifierView,
    pub topic_id: IdentifierView,
    pub partitions_count: u32,
}

impl CreatePartitionsView {
    /// The fields fit the wire.
    pub open spec fn wf(self) -> bool {
        self.stream_id.wf()
            && self.topic_id.wf()
    }

    /// The identifiers come back from the wire unchanged.
    pub open spec fn canonical(self) -> bool {
        self.stream_id.canonical()
            && self.topic_id.canonical()
    }

    /// The wire form: stream id, topic id, partitions count.
    pub open spec fn wire(self) -> Seq<u8> {
        self.stream_id.wire()
            + self.topic_id.wire()
            + u32_le(self.partitions_count)
    }
}

impl View for CreatePartitions {
    type V = CreatePartitionsView;

    open spec fn view(&self) -> CreatePartitionsView {
        CreatePartitionsView {
            stream_id: self.stream_id@,
            topic_id: self.topic_id@,
            partitions_count: self.partitions_count,
        }
    }
}

impl CreatePartitions {
    /// Reads the fields, one after the other, from the front of `s`; the
    /// count is the number of bytes they took.
    #[verifier::opaque]
    pub open spec fn parse(s: Seq<u8>) -> Option<(CreatePartitionsView, nat)> {
        match parse_identifier(s) {
            Some((stream_id, n1)) => match parse_identifier(s.skip(n1 as int)) {
                Some((topic_id, n2)) => match parse_u32(s.skip((n1 + n2) as int)) {
                    Some((partitions_count, n3)) => Some(
                        (CreatePartitionsView { stream_id, topic_id, partitions_count }, n1 + n2 + n3),
                    ),
                    None => None,
                },
                None => None,
            },
            None => None,
        }
    }

    /// What a payload decodes to.  Bytes after the last field are ignored.
    pub open spec fn decode(s: Seq<u8>) -> Option<CreatePartitionsView> {
        match Self::parse(s) {
            Some((value, _)) => Some(value),
            None => None,
        }
    }

    /// The decoder never reads past the end of its input.
    pub proof fn lemma_bound(s: Seq<u8>)
        ensures
            match Self::parse(s) {
                Some((_, n)) => 0 < n <= s.len(),
                None => true,
            },
    {
        reveal(CreatePartitions::parse);
    }

    /// Reading back an encoded value gives the value and the length of its
    /// wire form, whatever follows it.
    pub proof fn lemma_parse(value: CreatePartitionsView, rest: Seq<u8>)
        requires
            value.wf(),
            value.canonical(),
        ensures
            Self::parse(value.wire() + rest) == Some((value, value.wire().len())),
            (value.wire() + rest).skip(value.wire().len() as int) == rest,
    {
        reveal(CreatePartitions::parse);
        let s = value.wire() + rest;
        let w1 = value.stream_id.wire();
        let w2 = value.topic_id.wire();
        let w3 = u32_le(value.partitions_count);
        let u2 = w1 + w2;
        let t4 = rest;
        let t3 = w3 + t4;
        let t2 = w2 + t3;
        let t1 = w1 + t2;
        assert(s == t1) by {
            lemma_concat_assoc(u2, w3, t4);
            lemma_concat_assoc(w1, w2, t3);
        }
        assert(parse_identifier(s) == Some((value.stream_id, w1.len()))
            && s.skip(w1.len() as int) == t2) by {
            lemma_identifier_roundtrip(value.stream_id, t2);
        }
        assert(parse_identifier(s.skip(w1.len() as int)) == Some((value.topic_id, w2.len()))
            && s.skip((w1.len() + w2.len()) as int) == t3) by {
            lemma_identifier_roundtrip(value.topic_id, t3);
            lemma_skip_skip(s, w1.len() as int, w2.len() as int);
        }
        assert(parse_u32(s.skip((w1.len() + w2.len()) as int)) == Some((value.partitions_count, w3.len()))
            && s.skip((w1.len() + w2.len() + w3.len()) as int) == t4) by {
            lemma_u32_parse(value.partitions_count, t4);
            lemma_skip_skip(s, (w1.len() + w2.len()) as int, w3.len() as int);
        }
    }

    /// Whatever follows an encoded value, a decoder that accepts it reads
    /// exactly the bytes of that value.
    pub proof fn lemma_consumed(value: CreatePartitionsView, rest: Seq<u8>)
        requires
            value.wf(),
        ensures
            match Self::parse(value.wire() + rest) {
                Some((_, n)) => n == value.wire().len(),
                None => true,
            },
            (value.wire() + rest).skip(value.wire().len() as int) == rest,
    {
        reveal(CreatePartitions::parse);
        let s = value.wire() + rest;
        let w1 = value.stream_id.wire();
        let w2 = value.topic_id.wire();
        let w3 = u32_le(value.partitions_count);
        let u2 = w1 + w2;
        let t4 = rest;
        let t3 = w3 + t4;
        let t2 = w2 + t3;
        let t1 = w1 + t2;
        assert(s == t1) by {
            lemma_concat_assoc(u2, w3, t4);
            lemma_concat_assoc(w1, w2, t3);
        }
        lemma_skip_concat(value.wire(), rest);
        if Self::parse(s) is Some {
            assert(parse_identifier(s) is Some);
            assert(parse_identifier(s).unwrap().1 == w1.len()
                && s.skip(w1.len() as int) == t2) by {
                lemma_identifier_consumed(value.stream_id, t2);
            }
            assert(parse_identifier(s.skip(w1.len() as int)) is Some);
            assert(parse_identifier(s.skip(w1.len() as int)).unwrap().1 == w2.len()
                && s.skip((w1.len() + w2.len()) as int) == t3) by {
                lemma_identifier_consumed(value.topic_id, t3);
                lemma_skip_skip(s, w1.len() as int, w2.len() as int);
            }
            assert(parse_u32(s.skip((w1.len() + w2.len()) as int)) is Some);
            assert(parse_u32(s.skip((w1.len() + w2.len()) as int)).unwrap().1 == w3.len()
                && s.skip((w1.len() + w2.len() + w3.len()) as int) == t4) by {
                lemma_u32_parse(value.partitions_count, t4);
                lemma_skip_skip(s, (w1.len() + w2.len()) as int, w3.len() as int);
            }
        }
    }

    /// The decoder looks at nothing beyond the bytes it reads: an input that
    /// starts with the same bytes decodes to the same value.
    pub proof fn lemma_local(s: Seq<u8>, other: Seq<u8>)
        requires
            Self::parse(s) is Some,
            other.len() >= Self::parse(s).unwrap().1,
            other.take(Self::parse(s).unwrap().1 as int) == s.take(
                Self::parse(s).unwrap().1 as int,
            ),
        ensures
            Self::parse(other) == Self::parse(s),
    {
        reveal(CreatePartitions::parse);
        Self::lemma_bound(s);
        let n = Self::parse(s).unwrap().1 as int;
        let n1 = parse_identifier(s).unwrap().1 as int;
        lemma_take_take(s, n, n1);
        lemma_take_take(other, n, n1);
        lemma_identifier_local(s, other);
        let n2 = parse_identifier(s.skip(n1)).unwrap().1 as int;
        lemma_window(s, other, n, n1, n2);
        lemma_identifier_local(s.skip(n1), other.skip(n1));
        let n3 = parse_u32(s.skip(n1 + n2)).unwrap().1 as int;
        lemma_window(s, other, n, n1 + n2, n3);
        lemma_u32_local(s.skip(n1 + n2), other.skip(n1 + n2));
    }

    /// An encoded value cut short cannot be read.
    pub proof fn lemma_cut(value: CreatePartitionsView, k: int)
        requires
            value.wf(),
            0 <= k < value.wire().len(),
        ensures
            Self::parse(value.wire().take(k)) is None,
    {
        let w = value.wire();
        let s = w.take(k);
        if Self::parse(s) is Some {
            let n = Self::parse(s).unwrap().1 as int;
            Self::lemma_bound(s);
            lemma_take_take(w, k, n);
            Self::lemma_local(s, w);
            Self::lemma_consumed(value, Seq::empty());
            lemma_concat_empty(w);
        }
    }

    /// The wire form of a value that fits the wire is neither empty nor
    /// longer than 518 bytes.
    pub proof fn lemma_wire_len(value: CreatePartitionsView)
        requires
            value.wf(),
        ensures
            0 < value.wire().len() <= 518,
    {
    }

    /// A command that fits the wire and is in canonical form survives
    /// encoding and decoding.
    pub proof fn lemma_roundtrip(value: CreatePartitionsView)
        requires
            value.wf(),
            value.canonical(),
        ensures
            Self::decode(value.wire()) == Some(value),
    {
        Self::lemma_parse(value, Seq::empty());
        lemma_concat_empty(value.wire());
    }

    /// An encoded command whose last byte is cut off cannot be decoded.
    pub proof fn lemma_truncated(value: CreatePartitionsView)
        requires
            value.wf(),
        ensures
            value.wire().len() > 0,
            Self::decode(value.wire().drop_last()) is None,
    {
        Self::lemma_cut(value, value.wire().len() - 1);
        lemma_take_take(value.wire(), value.wire().len() as int, 0);
    }

    /// Commands of this kind come straight from a client.
    pub fn get_command_execution_origin(&self) -> (origin: CommandExecution)
        ensures
            origin == CommandExecution::Direct,
    {
        CommandExecution::Direct
    }

    /// Accepts the value where its fields fit the wire.
    pub fn validate(&self) -> (r: Result<(), IggyError>)
        ensures
            r is Ok <==> self@.wf(),
            r is Err ==> r == Err::<(), IggyError>(IggyError::InvalidCommand),
    {
        self.stream_id.validate()?;
        self.topic_id.validate()?;
        Ok(())
    }

    /// The number of bytes of the wire form.
    pub fn size(&self) -> (n: usize)
        requires
            self@.wf(),
        ensures
            n == self@.wire().len(),
            n <= 518,
    {
        self.stream_id.get_size_bytes() as usize + self.topic_id.get_size_bytes() as usize + 4
    }

    /// Appends the wire form to `buf`.
    pub fn put(&self, buf: &mut BytesMut)
        requires
            self@.wf(),
            bytes_mut_view(*old(buf)).len() + self@.wire().len() <= isize::MAX,
        ensures
            bytes_mut_view(*final(buf)) == bytes_mut_view(*old(buf)) + self@.wire(),
    {
        let ghost before = bytes_mut_view(*buf);
        let ghost w1 = self.stream_id@.wire();
        let ghost w2 = self.topic_id@.wire();
        let ghost w3 = u32_le(self.partitions_count);
        let ghost u2 = w1 + w2;
        self.stream_id.put(buf);
        self.topic_id.put(buf);
        proof {
            lemma_concat_assoc(before, w1, w2);
        }
        put_u32_le(buf, self.partitions_count);
        proof {
            lemma_concat_assoc(before, u2, w3);
        }
    }

    /// Decodes the value that starts at `pos` and returns it with the
    /// position just after it.
    pub fn read(s: &[u8], pos: usize) -> (r: Result<(CreatePartitions, usize), IggyError>)
        requires
            pos <= s@.len(),
        ensures
            match r {
                Ok((value, next)) => Self::parse(s@.skip(pos as int)) == Some(
                    (value@, (next - pos) as nat),
                ) && pos < next <= s@.len() && value@.wf() && value@.canonical(),
                Err(e) => e == IggyError::InvalidCommand && Self::parse(s@.skip(pos as int))
                    is None,
            },
    {
        proof {
            reveal(CreatePartitions::parse);
        }
        let (stream_id, p1) = Identifier::read(s, pos)?;
        proof {
            lemma_skip_skip(s@, pos as int, p1 - pos);
        }
        let (topic_id, p2) = Identifier::read(s, p1)?;
        proof {
            lemma_skip_skip(s@, pos as int, p2 - pos);
        }
        let (partitions_count, p3) = read_u32(s, p2)?;
        Ok((CreatePartitions { stream_id, topic_id, partitions_count }, p3))
    }

    /// Encodes the command.
    pub fn as_bytes(&self) -> (r: Bytes)
        requires
            self@.wf(),
        ensures
            bytes_view(r) == self@.wire(),
    {
        let mut bytes = BytesMut::with_capacity(self.size());
        self.put(&mut bytes);
        proof {
            assert(Seq::<u8>::empty() + self@.wire() =~= self@.wire());
        }
        bytes.freeze()
    }

    /// Decodes the command.  A payload that ends before the last field does
    /// is rejected.
    pub fn from_bytes(bytes: Bytes) -> (r: Result<CreatePartitions, IggyError>)
        ensures
            match r {
                Ok(command) => Self::decode(bytes_view(bytes)) == Some(command@) && command@.wf() && command@.canonical(),
                Err(e) => e == IggyError::InvalidCommand && Self::decode(bytes_view(bytes))
                    is None,
            },
    {
        let s = as_slice(&bytes);
        proof {
            assert(s@.skip(0) =~= s@);
        }
        let (command, _) = CreatePartitions::read(s, 0)?;
        command.validate()?;
        Ok(command)
    }
}

/// `DeletePartitions` command is used to remove the last partitions of a topic.
#[derive(Debug, Clone, PartialEq)]
pub struct DeletePartitions {
    /// Unique stream ID (numeric or name).
    pub stream_id: Identifier,
    /// Unique topic ID (numeric or name).
    pub topic_id: Identifier,
    /// Number of partitions to remove.
    pub partitions_count: u32,
}

/// The mathematical value of a [`DeletePartitions`].
pub struct DeletePartitionsView {
    pub stream_id: IdentifierView,
    pub topic_id: IdentifierView,
    pub partitions_count: u32,
}

impl DeletePartitionsView {
    /// The fields fit the wire.
    pub open spec fn wf(self) -> bool {
        self.stream_id.wf()
            && self.topic_id.wf()
    }

    /// The identifiers come back from the wire unchanged.
    pub open spec fn canonical(self) -> bool {
        self.stream_id.canonical()
            && self.topic_id.canonical()
    }

    /// The wire form: stream id, topic id, partitions count.
    pub open spec fn wire(self) -> Seq<u8> {
        self.stream_id.wire()
            + self.topic_id.wire()
            + u32_le(self.partitions_count)
    }
}

impl View for DeletePartitions {
    type V = DeletePartitionsView;

    open spec fn view(&self) -> DeletePartitionsView {
        DeletePartitionsView {
            stream_id: self.stream_id@,
            topic_id: self.topic_id@,
            partitions_count: self.partitions_count,
        }
    }
}

impl DeletePartitions {
    /// Reads the fields, one after the other, from the front of `s`; the
    /// count is the number of bytes they took.
    #[verifier::opaque]
    pub open spec fn parse(s: Seq<u8>) -> Option<(DeletePartitionsView, nat)> {
        match parse_identifier(s) {
            Some((stream_id, n1)) => match parse_identifier(s.skip(n1 as int)) {
                Some((topic_id, n2)) => match parse_u32(s.skip((n1 + n2) as int)) {
                    Some((partitions_count, n3)) => Some(
                        (DeletePartitionsView { stream_id, topic_id, partitions_count }, n1 + n2 + n3),
                    ),
                    None => None,
                },
                None => None,
            },
            None => None,
        }
    }

    /// What a payload decodes to.  Bytes after the last field are ignored.
    pub open spec fn decode(s: Seq<u8>) -> Option<DeletePartitionsView> {
        match Self::parse(s) {
            Some((value, _)) => Some(value),
            None => None,
        }
    }

    /// The decoder never reads past the end of its input.
    pub proof fn lemma_bound(s: Seq<u8>)
        ensures
            match Self::parse(s) {
                Some((_, n)) => 0 < n <= s.len(),
                None => true,
            },
    {
        reveal(DeletePartitions::parse);
    }

    /// Reading back an encoded value gives the value and the length of its
    /// wire form, whatever follows it.
    pub proof fn lemma_parse(value: DeletePartitionsView, rest: Seq<u8>)
        requires
            value.wf(),
            value.canonical(),
        ensures
            Self::parse(value.wire() + rest) == Some((value, value.wire().len())),
            (value.wire() + rest).skip(value.wire().len() as int) == rest,
    {
        reveal(DeletePartitions::parse);
        let s = value.wire() + rest;
        let w1 = value.stream_id.wire();
        let w2 = value.topic_id.wire();
        let w3 = u32_le(value.partitions_count);
        let u2 = w1 + w2;
        let t4 = rest;
        let t3 = w3 + t4;
        let t2 = w2 + t3;
        let t1 = w1 + t2;
        assert(s == t1) by {
            lemma_concat_assoc(u2, w3, t4);
            lemma_concat_assoc(w1, w2, t3);
        }
        assert(parse_identifier(s) == Some((value.stream_id, w1.len()))
            && s.skip(w1.len() as int) == t2) by {
            lemma_identifier_roundtrip(value.stream_id, t2);
        }
        assert(parse_identifier(s.skip(w1.len() as int)) == Some((value.topic_id, w2.len()))
            && s.skip((w1.len() + w2.len()) as int) == t3) by {
            lemma_identifier_roundtrip(value.topic_id, t3);
            lemma_skip_skip(s, w1.len() as int, w2.len() as int);
        }
        assert(parse_u32(s.skip((w1.len() + w2.len()) as int)) == Some((value.partitions_count, w3.len()))
            && s.skip((w1.len() + w2.len() + w3.len()) as int) == t4) by {
            lemma_u32_parse(value.partitions_count, t4);
            lemma_skip_skip(s, (w1.len() + w2.len()) as int, w3.len() as int);
        }
    }

    /// Whatever follows an encoded value, a decoder that accepts it reads
    /// exactly the bytes of that value.
    pub proof fn lemma_consumed(value: DeletePartitionsView, rest: Seq<u8>)
        requires
            value.wf(),
        ensures
            match Self::parse(value.wire() + rest) {
                Some((_, n)) => n == value.wire().len(),
                None => true,
            },
            (value.wire() + rest).skip(value.wire().len() as int) == rest,
    {
        reveal(DeletePartitions::parse);
        let s = value.wire() + rest;
        let w1 = value.stream_id.wire();
        let w2 = value.topic_id.wire();
        let w3 = u32_le(value.partitions_count);
        let u2 = w1 + w2;
        let t4 = rest;
        let t3 = w3 + t4;
        let t2 = w2 + t3;
        let t1 = w1 + t2;
        assert(s == t1) by {
            lemma_concat_assoc(u2, w3, t4);
            lemma_concat_assoc(w1, w2, t3);
        }
        lemma_skip_concat(value.wire(), rest);
        if Self::parse(s) is Some {
            assert(parse_identifier(s) is Some);
            assert(parse_identifier(s).unwrap().1 == w1.len()
                && s.skip(w1.len() as int) == t2) by {
                lemma_identifier_consumed(value.stream_id, t2);
            }
            assert(parse_identifier(s.skip(w1.len() as int)) is Some);
            assert(parse_identifier(s.skip(w1.len() as int)).unwrap().1 == w2.len()
                && s.skip((w1.len() + w2.len()) as int) == t3) by {
                lemma_identifier_consumed(value.topic_id, t3);
                lemma_skip_skip(s, w1.len() as int, w2.len() as int);
            }
            assert(parse_u32(s.skip((w1.len() + w2.len()) as int)) is Some);
            assert(parse_u32(s.skip((w1.len() + w2.len()) as int)).unwrap().1 == w3.len()
                && s.skip((w1.len() + w2.len() + w3.len()) as int) == t4) by {
                lemma_u32_parse(value.partitions_count, t4);
                lemma_skip_skip(s, (w1.len() + w2.len()) as int, w3.len() as int);
            }
        }
    }

    /// The decoder looks at nothing beyond the bytes it reads: an input that
    /// starts with the same bytes decodes to the same value.
    pub proof fn lemma_local(s: Seq<u8>, other: Seq<u8>)
        requires
            Self::parse(s) is Some,
            other.len() >= Self::parse(s).unwrap().1,
            other.take(Self::parse(s).unwrap().1 as int) == s.take(
                Self::parse(s).unwrap().1 as int,
            ),
        ensures
            Self::parse(other) == Self::parse(s),
    {
        reveal(DeletePartitions::parse);
        Self::lemma_bound(s);
        let n = Self::parse(s).unwrap().1 as int;
        let n1 = parse_identifier(s).unwrap().1 as int;
        lemma_take_take(s, n, n1);
        lemma_take_take(other, n, n1);
        lemma_identifier_local(s, other);
        let n2 = parse_identifier(s.skip(n1)).unwrap().1 as int;
        lemma_window(s, other, n, n1, n2);
        lemma_identifier_local(s.skip(n1), other.skip(n1));
        let n3 = parse_u32(s.skip(n1 + n2)).unwrap().1 as int;
        lemma_window(s, other, n, n1 + n2, n3);
        lemma_u32_local(s.skip(n1 + n2), other.skip(n1 + n2));
    }

    /// An encoded value cut short cannot be read.
    pub proof fn lemma_cut(value: DeletePartitionsView, k: int)
        requires
            value.wf(),
            0 <= k < value.wire().len(),
        ensures
            Self::parse(value.wire().take(k)) is None,
    {
        let w = value.wire();
        let s = w.take(k);
        if Self::parse(s) is Some {
            let n = Self::parse(s).unwrap().1 as int;
            Self::lemma_bound(s);
            lemma_take_take(w, k, n);
            Self::lemma_local(s, w);
            Self::lemma_consumed(value, Seq::empty());
            lemma_concat_empty(w);
        }
    }

    /// The wire form of a value that fits the wire is neither empty nor
    /// longer than 518 bytes.
    pub proof fn lemma_wire_len(value: DeletePartitionsView)
        requires
            value.wf(),
        ensures
            0 < value.wire().len() <= 518,
    {
    }

    /// A command that fits the wire and is in canonical form survives
    /// encoding and decoding.
    pub proof fn lemma_roundtrip(value: DeletePartitionsView)
        requires
            value.wf(),
            value.canonical(),
        ensures
            Self::decode(value.wire()) == Some(value),
    {
        Self::lemma_parse(value, Seq::empty());
        lemma_concat_empty(value.wire());
    }

    /// An encoded command whose last byte is cut off cannot be decoded.
    pub proof fn lemma_truncated(value: DeletePartitionsView)
        requires
            value.wf(),
        ensures
            value.wire().len() > 0,
            Self::decode(value.wire().drop_last()) is None,
    {
        Self::lemma_cut(value, value.wire().len() - 1);
        lemma_take_take(value.wire(), value.wire().len() as int, 0);
    }

    /// Commands of this kind come straight from a client.
    pub fn get_command_execution_origin(&self) -> (origin: CommandExecution)
        ensures
            origin == CommandExecution::Direct,
    {
        CommandExecution::Direct
    }

    /// Accepts the value where its fields fit the wire.
    pub fn validate(&self) -> (r: Result<(), IggyError>)
        ensures
            r is Ok <==> self@.wf(),
            r is Err ==> r == Err::<(), IggyError>(IggyError::InvalidCommand),
    {
        self.stream_id.validate()?;
        self.topic_id.validate()?;
        Ok(())
    }

    /// The number of bytes of the wire form.
    pub fn size(&self) -> (n: usize)
        requires
            self@.wf(),
        ensures
            n == self@.wire().len(),
            n <= 518,
    {
        self.stream_id.get_size_bytes() as usize + self.topic_id.get_size_bytes() as usize + 4
    }

    /// Appends the wire form to `buf`.
    pub fn put(&self, buf: &mut BytesMut)
        requires
            self@.wf(),
            bytes_mut_view(*old(buf)).len() + self@.wire().len() <= isize::MAX,
        ensures
            bytes_mut_view(*final(buf)) == bytes_mut_view(*old(buf)) + self@.wire(),
    {
        let ghost before = bytes_mut_view(*buf);
        let ghost w1 = self.stream_id@.wire();
        let ghost w2 = self.topic_id@.wire();
        let ghost w3 = u32_le(self.partitions_count);
        let ghost u2 = w1 + w2;
        self.stream_id.put(buf);
        self.topic_id.put(buf);
        proof {
            lemma_concat_assoc(before, w1, w2);
        }
        put_u32_le(buf, self.partitions_count);
        proof {
            lemma_concat_assoc(before, u2, w3);
        }
    }

    /// Decodes the value that starts at `pos` and returns it with the
    /// position just after it.
    pub fn read(s: &[u8], pos: usize) -> (r: Result<(DeletePartitions, usize), IggyError>)
        requires
            pos <= s@.len(),
        ensures
            match r {
                Ok((value, next)) => Self::parse(s@.skip(pos as int)) == Some(
                    (value@, (next - pos) as nat),
                ) && pos < next <= s@.len() && value@.wf() && value@.canonical(),
                Err(e) => e == IggyError::InvalidCommand && Self::parse(s@.skip(pos as int))
                    is None,
            },
    {
        proof {
            reveal(DeletePartitions::parse);
        }
        let (stream_id, p1) = Identifier::read(s, pos)?;
        proof {
            lemma_skip_skip(s@, pos as int, p1 - pos);
        }
        let (topic_id, p2) = Identifier::read(s, p1)?;
        proof {
            lemma_skip_skip(s@, pos as int, p2 - pos);
        }
        let (partitions_count, p3) = read_u32(s, p2)?;
        Ok((DeletePartitions { stream_id, topic_id, partitions_count }, p3))
    }

    /// Encodes the command.
    pub fn as_bytes(&self) -> (r: Bytes)
        requires
            self@.wf(),
        ensures
            bytes_view(r) == self@.wire(),
    {
        let mut bytes = BytesMut::with_capacity(self.size());
        self.put(&mut bytes);
        proof {
            assert(Seq::<u8>::empty() + self@.wire() =~= self@.wire());
        }
        bytes.freeze()
    }

    /// Decodes the command.  A payload that ends before the last field does
    /// is rejected.
    pub fn from_bytes(bytes: Bytes) -> (r: Result<DeletePartitions, IggyError>)
        ensures
            match r {
                Ok(command) => Self::decode(bytes_view(bytes)) == Some(command@) && command@.wf() && command@.canonical(),
                Err(e) => e == IggyError::InvalidCommand && Self::decode(bytes_view(bytes))
                    is None,
            },
    {
        let s = as_slice(&bytes);
        proof {
            assert(s@.skip(0) =~= s@);
        }
        let (command, _) = DeletePartitions::read(s, 0)?;
        command.validate()?;
        Ok(command)
    }
}

} // verus!
