//! Commands on stored consumer offsets.

use crate::buffer::as_slice;
use crate::buffer::bytes_mut_view;
use crate::buffer::bytes_view;
use crate::consumer::Consumer;
use crate::error::IggyError;
use crate::identifier::Identifier;
use crate::identifier::IdentifierView;
use crate::identifier::lemma_identifier_local;
use crate::identifier::lemma_identifier_roundtrip;
use crate::identifier::parse_identifier;
use crate::payload::CommandExecution;
use crate::payload::lemma_identifier_consumed;
use crate::payload::lemma_skip_skip;
use crate::wire::is_valid_opt_u32;
use crate::wire::lemma_concat_assoc;
use crate::wire::lemma_concat_empty;
use crate::wire::lemma_opt_u32_local;
use crate::wire::lemma_opt_u32_parse;
use crate::wire::lemma_skip_concat;
use crate::wire::lemma_take_take;
use crate::wire::lemma_u64_local;
use crate::wire::lemma_u64_parse;
use crate::wire::lemma_window;
use crate::wire::opt_u32_wire;
use crate::wire::parse_opt_u32;
use crate::wire::parse_u64;
use crate::wire::put_opt_u32;
use crate::wire::put_u64_le;
use crate::wire::read_opt_u32;
use crate::wire::read_u64;
use crate::wire::u64_le;
use crate::wire::valid_opt_u32;
use bytes::Bytes;
use bytes::BytesMut;
use vstd::prelude::*;

verus! {

/// `GetConsumerOffset` command is used to read the offset stored for a consumer on a partition.
#[derive(Debug, Clone, PartialEq)]
pub struct GetConsumerOffset {
    /// The consumer whose offset is read.
    pub consumer: Consumer,
    /// Unique stream ID (numeric or name).
    pub stream_id: Identifier,
    /// Unique topic ID (numeric or name).
    pub topic_id: Identifier,
    /// Partition ID; `None` where the consumer group assigns it.
    pub partition_id: Option<u32>,
}

/// The mathematical value of a [`GetConsumerOffset`].
pub struct GetConsumerOffsetView {
    pub consumer: Consumer,
    pub stream_id: IdentifierView,
    pub topic_id: IdentifierView,
    pub partition_id: Option<u32>,
}

impl GetConsumerOffsetView {
    /// The fields fit the wire.
    pub open spec fn wf(self) -> bool {
        self.stream_id.wf()
            && self.topic_id.wf()
            && valid_opt_u32(self.partition_id)
    }

    /// The identifiers come back from the wire unchanged.
    pub open spec fn canonical(self) -> bool {
        self.stream_id.canonical()
            && self.topic_id.canonical()
    }

    /// The wire form: consumer, stream, topic, partition id (0 for none).
    pub open spec fn wire(self) -> Seq<u8> {
        self.consumer.wire()
            + self.stream_id.wire()
            + self.topic_id.wire()
            + opt_u32_wire(self.partition_id)
    }
}

impl View for GetConsumerOffset {
    type V = GetConsumerOffsetView;

    open spec fn view(&self) -> GetConsumerOffsetView {
        GetConsumerOffsetView {
            consumer: self.consumer,
            stream_id: self.stream_id@,
            topic_id: self.topic_id@,
            partition_id: self.partition_id,
        }
    }
}

impl GetConsumerOffset {
    /// Reads the fields, one after the other, from the front of `s`; the
    /// count is the number of bytes they took.
    #[verifier::opaque]
    pub open spec fn parse(s: Seq<u8>) -> Option<(GetConsumerOffsetView, nat)> {
        match Consumer::parse(s) {
            Some((consumer, n1)) => match parse_identifier(s.skip(n1 as int)) {
                Some((stream_id, n2)) => match parse_identifier(s.skip((n1 + n2) as int)) {
                    Some((topic_id, n3)) => match parse_opt_u32(s.skip((n1 + n2 + n3) as int)) {
                        Some((partition_id, n4)) => Some(
                            (GetConsumerOffsetView { consumer, stream_id, topic_id, partition_id }, n1 + n2 + n3 + n4),
                        ),
                        None => None,
                    },
                    None => None,
                },
                None => None,
            },
            None => None,
        }
    }

    /// What a payload decodes to.  Bytes after the last field are ignored.
    pub open spec fn decode(s: Seq<u8>) -> Option<GetConsumerOffsetView> {
        match Self::parse(s) {
            Some((value, _)) => Some(value),
            None => None,
        }
    }

    /// The decoder never reads past the end of its input.
    pub proof fn lemma_bound(s: Seq<u8>)
        ensures
            match Self::parse(s) {
                Some((_, n)) => 0 < n <= s.len(),
                None => true,
            },
    {
        reveal(GetConsumerOffset::parse);
        if Self::parse(s) is Some {
            Consumer::lemma_bound(s);
            let n1 = Consumer::parse(s).unwrap().1 as int;
            let n2 = parse_identifier(s.skip(n1)).unwrap().1 as int;
            let n3 = parse_identifier(s.skip(n1 + n2)).unwrap().1 as int;
            let n4 = parse_opt_u32(s.skip(n1 + n2 + n3)).unwrap().1 as int;
        }
    }

    /// Reading back an encoded value gives the value and the length of its
    /// wire form, whatever follows it.
    pub proof fn lemma_parse(value: GetConsumerOffsetView, rest: Seq<u8>)
        requires
            value.wf(),
            value.canonical(),
        ensures
            Self::parse(value.wire() + rest) == Some((value, value.wire().len())),
            (value.wire() + rest).skip(value.wire().len() as int) == rest,
    {
        reveal(GetConsumerOffset::parse);
        let s = value.wire() + rest;
        let w1 = value.consumer.wire();
        let w2 = value.stream_id.wire();
        let w3 = value.topic_id.wire();
        let w4 = opt_u32_wire(value.partition_id);
        let u2 = w1 + w2;
        let u3 = u2 + w3;
        let t5 = rest;
        let t4 = w4 + t5;
        let t3 = w3 + t4;
        let t2 = w2 + t3;
        let t1 = w1 + t2;
        assert(s == t1) by {
            lemma_concat_assoc(u3, w4, t5);
            lemma_concat_assoc(u2, w3, t4);
            lemma_concat_assoc(w1, w2, t3);
        }
        assert(Consumer::parse(s) == Some((value.consumer, w1.len()))
            && s.skip(w1.len() as int) == t2) by {
            Consumer::lemma_parse(value.consumer, t2);
        }
        assert(parse_identifier(s.skip(w1.len() as int)) == Some((value.stream_id, w2.len()))
            && s.skip((w1.len() + w2.len()) as int) == t3) by {
            lemma_identifier_roundtrip(value.stream_id, t3);
            lemma_skip_skip(s, w1.len() as int, w2.len() as int);
        }
        assert(parse_identifier(s.skip((w1.len() + w2.len()) as int)) == Some((value.topic_id, w3.len()))
            && s.skip((w1.len() + w2.len() + w3.len()) as int) == t4) by {
            lemma_identifier_roundtrip(value.topic_id, t4);
            lemma_skip_skip(s, (w1.len() + w2.len()) as int, w3.len() as int);
        }
        assert(parse_opt_u32(s.skip((w1.len() + w2.len() + w3.len()) as int)) == Some((value.partition_id, w4.len()))
            && s.skip((w1.len() + w2.len() + w3.len() + w4.len()) as int) == t5) by {
            lemma_opt_u32_parse(value.partition_id, t5);
            lemma_skip_skip(s, (w1.len() + w2.len() + w3.len()) as int, w4.len() as int);
        }
    }

    /// Whatever follows an encoded value, a decoder that accepts it reads
    /// exactly the bytes of that value.
    pub proof fn lemma_consumed(value: GetConsumerOffsetView, rest: Seq<u8>)
        requires
            value.wf(),
        ensures
            match Self::parse(value.wire() + rest) {
                Some((_, n)) => n == value.wire().len(),
                None => true,
            },
            (value.wire() + rest).skip(value.wire().len() as int) == rest,
    {
        reveal(GetConsumerOffset::parse);
        let s = value.wire() + rest;
        let w1 = value.consumer.wire();
        let w2 = value.stream_id.wire();
        let w3 = value.topic_id.wire();
        let w4 = opt_u32_wire(value.partition_id);
        let u2 = w1 + w2;
        let u3 = u2 + w3;
        let t5 = rest;
        let t4 = w4 + t5;
        let t3 = w3 + t4;
        let t2 = w2 + t3;
        let t1 = w1 + t2;
        assert(s == t1) by {
            lemma_concat_assoc(u3, w4, t5);
            lemma_concat_assoc(u2, w3, t4);
            lemma_concat_assoc(w1, w2, t3);
        }
        lemma_skip_concat(value.wire(), rest);
        if Self::parse(s) is Some {
            assert(Consumer::parse(s) is Some);
            assert(Consumer::parse(s).unwrap().1 == w1.len()
                && s.skip(w1.len() as int) == t2) by {
                Consumer::lemma_parse(value.consumer, t2);
            }
            assert(parse_identifier(s.skip(w1.len() as int)) is Some);
            assert(parse_identifier(s.skip(w1.len() as int)).unwrap().1 == w2.len()
                && s.skip((w1.len() + w2.len()) as int) == t3) by {
                lemma_identifier_consumed(value.stream_id, t3);
                lemma_skip_skip(s, w1.len() as int, w2.len() as int);
            }
            assert(parse_identifier(s.skip((w1.len() + w2.len()) as int)) is Some);
            assert(parse_identifier(s.skip((w1.len() + w2.len()) as int)).unwrap().1 == w3.len()
                && s.skip((w1.len() + w2.len() + w3.len()) as int) == t4) by {
                lemma_identifier_consumed(value.topic_id, t4);
                lemma_skip_skip(s, (w1.len() + w2.len()) as int, w3.len() as int);
            }
            assert(parse_opt_u32(s.skip((w1.len() + w2.len() + w3.len()) as int)) is Some);
            assert(parse_opt_u32(s.skip((w1.len() + w2.len() + w3.len()) as int)).unwrap().1 == w4.len()
                && s.skip((w1.len() + w2.len() + w3.len() + w4.len()) as int) == t5) by {
                lemma_opt_u32_parse(value.partition_id, t5);
                lemma_skip_skip(s, (w1.len() + w2.len() + w3.len()) as int, w4.len() as int);
            }
        }
    }

    /// The decoder looks at nothing beyond the bytes it reads: an input that
    /// starts with the same bytes decodes to the same value.
    pub proof fn lemma_local(s: Seq<u8>, other: Seq<u8>)
        requires
            Self::parse(s) is Some,
            other.len() >= Self::parse(s).unwrap().1,
            other.take(Self::parse(s).unwrap().1 as int) == s.take(
                Self::parse(s).unwrap().1 as int,
            ),
        ensures
            Self::parse(other) == Self::parse(s),
    {
        reveal(GetConsumerOffset::parse);
        Self::lemma_bound(s);
        let n = Self::parse(s).unwrap().1 as int;
        let n1 = Consumer::parse(s).unwrap().1 as int;
        lemma_take_take(s, n, n1);
        lemma_take_take(other, n, n1);
        Consumer::lemma_local(s, other);
        let n2 = parse_identifier(s.skip(n1)).unwrap().1 as int;
        lemma_window(s, other, n, n1, n2);
        lemma_identifier_local(s.skip(n1), other.skip(n1));
        let n3 = parse_identifier(s.skip(n1 + n2)).unwrap().1 as int;
        lemma_window(s, other, n, n1 + n2, n3);
        lemma_identifier_local(s.skip(n1 + n2), other.skip(n1 + n2));
        let n4 = parse_opt_u32(s.skip(n1 + n2 + n3)).unwrap().1 as int;
        lemma_window(s, other, n, n1 + n2 + n3, n4);
        lemma_opt_u32_local(s.skip(n1 + n2 + n3), other.skip(n1 + n2 + n3));
    }

    /// An encoded value cut short cannot be read.
    pub proof fn lemma_cut(value: GetConsumerOffsetView, k: int)
        requires
            value.wf(),
            0 <= k < value.wire().len(),
        ensures
            Self::parse(value.wire().take(k)) is None,
    {
        let w = value.wire();
        let s = w.take(k);
        if Self::parse(s) is Some {
            let n = Self::parse(s).unwrap().1 as int;
            Self::lemma_bound(s);
            lemma_take_take(w, k, n);
            Self::lemma_local(s, w);
            Self::lemma_consumed(value, Seq::empty());
            lemma_concat_empty(w);
        }
    }

    /// The wire form of a value that fits the wire is neither empty nor
    /// longer than 523 bytes.
    pub proof fn lemma_wire_len(value: GetConsumerOffsetView)
        requires
            value.wf(),
        ensures
            0 < value.wire().len() <= 523,
    {
        Consumer::lemma_wire_len(value.consumer);
    }

    /// A command that fits the wire and is in canonical form survives
    /// encoding and decoding.
    pub proof fn lemma_roundtrip(value: GetConsumerOffsetView)
        requires
            value.wf(),
            value.canonical(),
        ensures
            Self::decode(value.wire()) == Some(value),
    {
        Self::lemma_parse(value, Seq::empty());
        lemma_concat_empty(value.wire());
    }

    /// An encoded command whose last byte is cut off cannot be decoded.
    pub proof fn lemma_truncated(value: GetConsumerOffsetView)
        requires
            value.wf(),
        ensures
            value.wire().len() > 0,
            Self::decode(value.wire().drop_last()) is None,
    {
        Self::lemma_cut(value, value.wire().len() - 1);
        lemma_take_take(value.wire(), value.wire().len() as int, 0);
    }

    /// Commands of this kind come straight from a client.
    pub fn get_command_execution_origin(&self) -> (origin: CommandExecution)
        ensures
            origin == CommandExecution::Direct,
    {
        CommandExecution::Direct
    }

    /// Accepts the value where its fields fit the wire.
    pub fn validate(&self) -> (r: Result<(), IggyError>)
        ensures
            r is Ok <==> self@.wf(),
            r is Err ==> r == Err::<(), IggyError>(IggyError::InvalidCommand),
    {
        self.stream_id.validate()?;
        self.topic_id.validate()?;
        if !is_valid_opt_u32(self.partition_id) {
            return Err(IggyError::InvalidCommand);
        }
        Ok(())
    }

    /// The number of bytes of the wire form.
    pub fn size(&self) -> (n: usize)
        requires
            self@.wf(),
        ensures
            n == self@.wire().len(),
            n <= 523,
    {
        5 + self.stream_id.get_size_bytes() as usize + self.topic_id.get_size_bytes() as usize + 4
    }

    /// Appends the wire form to `buf`.
    pub fn put(&self, buf: &mut BytesMut)
        requires
            self@.wf(),
            bytes_mut_view(*old(buf)).len() + self@.wire().len() <= isize::MAX,
        ensures
            bytes_mut_view(*final(buf)) == bytes_mut_view(*old(buf)) + self@.wire(),
    {
        let ghost before = bytes_mut_view(*buf);
        let ghost w1 = self.consumer.wire();
        let ghost w2 = self.stream_id@.wire();
        let ghost w3 = self.topic_id@.wire();
        let ghost w4 = opt_u32_wire(self.partition_id);
        let ghost u2 = w1 + w2;
        let ghost u3 = u2 + w3;
        self.consumer.put(buf);
        self.stream_id.put(buf);
        proof {
            lemma_concat_assoc(before, w1, w2);
        }
        self.topic_id.put(buf);
        proof {
            lemma_concat_assoc(before, u2, w3);
        }
        put_opt_u32(buf, self.partition_id);
        proof {
            lemma_concat_assoc(before, u3, w4);
        }
    }

    /// Decodes the value that starts at `pos` and returns it with the
    /// position just after it.
    pub fn read(s: &[u8], pos: usize) -> (r: Result<(GetConsumerOffset, usize), IggyError>)
        requires
            pos <= s@.len(),
        ensures
            match r {
                Ok((value, next)) => Self::parse(s@.skip(pos as int)) == Some(
                    (value@, (next - pos) as nat),
                ) && pos < next <= s@.len() && value@.wf() && value@.canonical(),
                Err(e) => e == IggyError::InvalidCommand && Self::parse(s@.skip(pos as int))
                    is None,
            },
    {
        proof {
            reveal(GetConsumerOffset::parse);
        }
        let (consumer, p1) = Consumer::read(s, pos)?;
        proof {
            lemma_skip_skip(s@, pos as int, p1 - pos);
        }
        let (stream_id, p2) = Identifier::read(s, p1)?;
        proof {
            lemma_skip_skip(s@, pos as int, p2 - pos);
        }
        let (topic_id, p3) = Identifier::read(s, p2)?;
        proof {
            lemma_skip_skip(s@, pos as int, p3 - pos);
        }
        let (partition_id, p4) = read_opt_u32(s, p3)?;
        Ok((GetConsumerOffset { consumer, stream_id, topic_id, partition_id }, p4))
    }

    /// Encodes the command.
    pub fn as_bytes(&self) -> (r: Bytes)
        requires
            self@.wf(),
        ensures
            bytes_view(r) == self@.wire(),
    {
        let mut bytes = BytesMut::with_capacity(self.size());
        self.put(&mut bytes);
        proof {
            assert(Seq::<u8>::empty() + self@.wire() =~= self@.wire());
        }
        bytes.freeze()
    }

    /// Decodes the command.  A payload that ends before the last field does
    /// is rejected.
    pub fn from_bytes(bytes: Bytes) -> (r: Result<GetConsumerOffset, IggyError>)
        ensures
            match r {
                Ok(command) => Self::decode(bytes_view(bytes)) == Some(command@) && command@.wf() && command@.canonical(),
                Err(e) => e == IggyError::InvalidCommand && Self::decode(bytes_view(bytes))
                    is None,
            },
    {
        let s = as_slice(&bytes);
        proof {
            assert(s@.skip(0) =~= s@);
        }
        let (command, _) = GetConsumerOffset::read(s, 0)?;
        command.validate()?;
        Ok(command)
    }
}

/// `StoreConsumerOffset` command is used to store the offset of a consumer on a partition.
#[derive(Debug, Clone, PartialEq)]
pub struct StoreConsumerOffset {
    /// The consumer whose offset is stored.
    pub consumer: Consumer,
    /// Unique stream ID (numeric or name).
    pub stream_id: Identifier,
    /// Unique topic ID (numeric or name).
    pub topic_id: Identifier,
    /// Partition ID; `None` where the consumer group assigns it.
    pub partition_id: Option<u32>,
    /// Offset to store.
    pub offset: u64,
}

/// The mathematical value of a [`StoreConsumerOffset`].
pub struct StoreConsumerOffsetView {
    pub consumer: Consumer,
    pub stream_id: IdentifierView,
    pub topic_id: IdentifierView,
    pub partition_id: Option<u32>,
    pub offset: u64,
}

impl StoreConsumerOffsetView {
    /// The fields fit the wire.
    pub open spec fn wf(self) -> bool {
        self.stream_id.wf()
            && self.topic_id.wf()
            && valid_opt_u32(self.partition_id)
    }

    /// The identifiers come back from the wire unchanged.
    pub open spec fn canonical(self) -> bool {
        self.stream_id.canonical()
            && self.topic_id.canonical()
    }

    /// The wire form: consumer, stream, topic, partition id (0 for none),
    /// offset.
    pub open spec fn wire(self) -> Seq<u8> {
        self.consumer.wire()
            + self.stream_id.wire()
            + self.topic_id.wire()
            + opt_u32_wire(self.partition_id)
            + u64_le(self.offset)
    }
}

impl View for StoreConsumerOffset {
    type V = StoreConsumerOffsetView;

    open spec fn view(&self) -> StoreConsumerOffsetView {
        StoreConsumerOffsetView {
            consumer: self.consumer,
            stream_id: self.stream_id@,
            topic_id: self.topic_id@,
            partition_id: self.partition_id,
            offset: self.offset,
        }
    }
}

impl StoreConsumerOffset {
    /// Reads the fields, one after the other, from the front of `s`; the
    /// count is the number of bytes they took.
    #[verifier::opaque]
    pub open spec fn parse(s: Seq<u8>) -> Option<(StoreConsumerOffsetView, nat)> {
        match Consumer::parse(s) {
            Some((consumer, n1)) => match parse_identifier(s.skip(n1 as int)) {
                Some((stream_id, n2)) => match parse_identifier(s.skip((n1 + n2) as int)) {
                    Some((topic_id, n3)) => match parse_opt_u32(s.skip((n1 + n2 + n3) as int)) {
                        Some((partition_id, n4)) => match parse_u64(
                            s.skip((n1 + n2 + n3 + n4) as int),
                        ) {
                            Some((offset, n5)) => Some(
                                (StoreConsumerOffsetView { consumer, stream_id, topic_id, partition_id, offset }, n1 + n2 + n3 + n4 + n5),
                            ),
                            None => None,
                        },
                        None => None,
                    },
                    None => None,
                },
                None => None,
            },
            None => None,
        }
    }

    /// What a payload decodes to.  Bytes after the last field are ignored.
    pub open spec fn decode(s: Seq<u8>) -> Option<StoreConsumerOffsetView> {
        match Self::parse(s) {
            Some((value, _)) => Some(value),
            None => None,
        }
    }

    /// The decoder never reads past the end of its input.
    pub proof fn lemma_bound(s: Seq<u8>)
        ensures
            match Self::parse(s) {
                Some((_, n)) => 0 < n <= s.len(),
                None => true,
            },
    {
        reveal(StoreConsumerOffset::parse);
        if Self::parse(s) is Some {
            Consumer::lemma_bound(s);
            let n1 = Consumer::parse(s).unwrap().1 as int;
            let n2 = parse_identifier(s.skip(n1)).unwrap().1 as int;
            let n3 = parse_identifier(s.skip(n1 + n2)).unwrap().1 as int;
            let n4 = parse_opt_u32(s.skip(n1 + n2 + n3)).unwrap().1 as int;
            let n5 = parse_u64(s.skip(n1 + n2 + n3 + n4)).unwrap().1 as int;
        }
    }

    /// Reading back an encoded value gives the value and the length of its
    /// wire form, whatever follows it.
    pub proof fn lemma_parse(value: StoreConsumerOffsetView, rest: Seq<u8>)
        requires
            value.wf(),
            value.canonical(),
        ensures
            Self::parse(value.wire() + rest) == Some((value, value.wire().len())),
            (value.wire() + rest).skip(value.wire().len() as int) == rest,
    {
        reveal(StoreConsumerOffset::parse);
        let s = value.wire() + rest;
        let w1 = value.consumer.wire();
        let w2 = value.stream_id.wire();
        let w3 = value.topic_id.wire();
        let w4 = opt_u32_wire(value.partition_id);
        let w5 = u64_le(value.offset);
        let u2 = w1 + w2;
        let u3 = u2 + w3;
        let u4 = u3 + w4;
        let t6 = rest;
        let t5 = w5 + t6;
        let t4 = w4 + t5;
        let t3 = w3 + t4;
        let t2 = w2 + t3;
        let t1 = w1 + t2;
        assert(s == t1) by {
            lemma_concat_assoc(u4, w5, t6);
            lemma_concat_assoc(u3, w4, t5);
            lemma_concat_assoc(u2, w3, t4);
            lemma_concat_assoc(w1, w2, t3);
        }
        assert(Consumer::parse(s) == Some((value.consumer, w1.len()))
            && s.skip(w1.len() as int) == t2) by {
            Consumer::lemma_parse(value.consumer, t2);
        }
        assert(parse_identifier(s.skip(w1.len() as int)) == Some((value.stream_id, w2.len()))
            && s.skip((w1.len() + w2.len()) as int) == t3) by {
            lemma_identifier_roundtrip(value.stream_id, t3);
            lemma_skip_skip(s, w1.len() as int, w2.len() as int);
        }
        assert(parse_identifier(s.skip((w1.len() + w2.len()) as int)) == Some((value.topic_id, w3.len()))
            && s.skip((w1.len() + w2.len() + w3.len()) as int) == t4) by {
            lemma_identifier_roundtrip(value.topic_id, t4);
            lemma_skip_skip(s, (w1.len() + w2.len()) as int, w3.len() as int);
        }
        assert(parse_opt_u32(s.skip((w1.len() + w2.len() + w3.len()) as int)) == Some((value.partition_id, w4.len()))
            && s.skip((w1.len() + w2.len() + w3.len() + w4.len()) as int) == t5) by {
            lemma_opt_u32_parse(value.partition_id, t5);
            lemma_skip_skip(s, (w1.len() + w2.len() + w3.len()) as int, w4.len() as int);
        }
        assert(parse_u64(s.skip((w1.len() + w2.len() + w3.len() + w4.len()) as int)) == Some((value.offset, w5.len()))
            && s.skip((w1.len() + w2.len() + w3.len() + w4.len() + w5.len()) as int) == t6) by {
            lemma_u64_parse(value.offset, t6);
            lemma_skip_skip(s, (w1.len() + w2.len() + w3.len() + w4.len()) as int, w5.len() as int);
        }
    }

    /// Whatever follows an encoded value, a decoder that accepts it reads
    /// exactly the bytes of that value.
    pub proof fn lemma_consumed(value: StoreConsumerOffsetView, rest: Seq<u8>)
        requires
            value.wf(),
        ensures
            match Self::parse(value.wire() + rest) {
                Some((_, n)) => n == value.wire().len(),
                None => true,
            },
            (value.wire() + rest).skip(value.wire().len() as int) == rest,
    {
        reveal(StoreConsumerOffset::parse);
        let s = value.wire() + rest;
        let w1 = value.consumer.wire();
        let w2 = value.stream_id.wire();
        let w3 = value.topic_id.wire();
        let w4 = opt_u32_wire(value.partition_id);
        let w5 = u64_le(value.offset);
        let u2 = w1 + w2;
        let u3 = u2 + w3;
        let u4 = u3 + w4;
        let t6 = rest;
        let t5 = w5 + t6;
        let t4 = w4 + t5;
        let t3 = w3 + t4;
        let t2 = w2 + t3;
        let t1 = w1 + t2;
        assert(s == t1) by {
            lemma_concat_assoc(u4, w5, t6);
            lemma_concat_assoc(u3, w4, t5);
            lemma_concat_assoc(u2, w3, t4);
            lemma_concat_assoc(w1, w2, t3);
        }
        lemma_skip_concat(value.wire(), rest);
        if Self::parse(s) is Some {
            assert(Consumer::parse(s) is Some);
            assert(Consumer::parse(s).unwrap().1 == w1.len()
                && s.skip(w1.len() as int) == t2) by {
                Consumer::lemma_parse(value.consumer, t2);
            }
            assert(parse_identifier(s.skip(w1.len() as int)) is Some);
            assert(parse_identifier(s.skip(w1.len() as int)).unwrap().1 == w2.len()
                && s.skip((w1.len() + w2.len()) as int) == t3) by {
                lemma_identifier_consumed(value.stream_id, t3);
                lemma_skip_skip(s, w1.len() as int, w2.len() as int);
            }
            assert(parse_identifier(s.skip((w1.len() + w2.len()) as int)) is Some);
            assert(parse_identifier(s.skip((w1.len() + w2.len()) as int)).unwrap().1 == w3.len()
                && s.skip((w1.len() + w2.len() + w3.len()) as int) == t4) by {
                lemma_identifier_consumed(value.topic_id, t4);
                lemma_skip_skip(s, (w1.len() + w2.len()) as int, w3.len() as int);
            }
            assert(parse_opt_u32(s.skip((w1.len() + w2.len() + w3.len()) as int)) is Some);
            assert(parse_opt_u32(s.skip((w1.len() + w2.len() + w3.len()) as int)).unwrap().1 == w4.len()
                && s.skip((w1.len() + w2.len() + w3.len() + w4.len()) as int) == t5) by {
                lemma_opt_u32_parse(value.partition_id, t5);
                lemma_skip_skip(s, (w1.len() + w2.len() + w3.len()) as int, w4.len() as int);
            }
            assert(parse_u64(s.skip((w1.len() + w2.len() + w3.len() + w4.len()) as int)) is Some);
            assert(parse_u64(s.skip((w1.len() + w2.len() + w3.len() + w4.len()) as int)).unwrap().1 == w5.len()
                && s.skip((w1.len() + w2.len() + w3.len() + w4.len() + w5.len()) as int) == t6) by {
                lemma_u64_parse(value.offset, t6);
                lemma_skip_skip(s, (w1.len() + w2.len() + w3.len() + w4.len()) as int, w5.len() as int);
            }
        }
    }

    /// The decoder looks at nothing beyond the bytes it reads: an input that
    /// starts with the same bytes decodes to the same value.
    pub proof fn lemma_local(s: Seq<u8>, other: Seq<u8>)
        requires
            Self::parse(s) is Some,
            other.len() >= Self::parse(s).unwrap().1,
            other.take(Self::parse(s).unwrap().1 as int) == s.take(
                Self::parse(s).unwrap().1 as int,
            ),
        ensures
            Self::parse(other) == Self::parse(s),
    {
        reveal(StoreConsumerOffset::parse);
        Self::lemma_bound(s);
        let n = Self::parse(s).unwrap().1 as int;
        let n1 = Consumer::parse(s).unwrap().1 as int;
        lemma_take_take(s, n, n1);
        lemma_take_take(other, n, n1);
        Consumer::lemma_local(s, other);
        let n2 = parse_identifier(s.skip(n1)).unwrap().1 as int;
        lemma_window(s, other, n, n1, n2);
        lemma_identifier_local(s.skip(n1), other.skip(n1));
        let n3 = parse_identifier(s.skip(n1 + n2)).unwrap().1 as int;
        lemma_window(s, other, n, n1 + n2, n3);
        lemma_identifier_local(s.skip(n1 + n2), other.skip(n1 + n2));
        let n4 = parse_opt_u32(s.skip(n1 + n2 + n3)).unwrap().1 as int;
        lemma_window(s, other, n, n1 + n2 + n3, n4);
        lemma_opt_u32_local(s.skip(n1 + n2 + n3), other.skip(n1 + n2 + n3));
        let n5 = parse_u64(s.skip(n1 + n2 + n3 + n4)).unwrap().1 as int;
        lemma_window(s, other, n, n1 + n2 + n3 + n4, n5);
        lemma_u64_local(s.skip(n1 + n2 + n3 + n4), other.skip(n1 + n2 + n3 + n4));
    }

    /// An encoded value cut short cannot be read.
    pub proof fn lemma_cut(value: StoreConsumerOffsetView, k: int)
        requires
            value.wf(),
            0 <= k < value.wire().len(),
        ensures
            Self::parse(value.wire().take(k)) is None,
    {
        let w = value.wire();
        let s = w.take(k);
        if Self::parse(s) is Some {
            let n = Self::parse(s).unwrap().1 as int;
            Self::lemma_bound(s);
            lemma_take_take(w, k, n);
            Self::lemma_local(s, w);
            Self::lemma_consumed(value, Seq::empty());
            lemma_concat_empty(w);
        }
    }

    /// The wire form of a value that fits the wire is neither empty nor
    /// longer than 531 bytes.
    pub proof fn lemma_wire_len(value: StoreConsumerOffsetView)
        requires
            value.wf(),
        ensures
            0 < value.wire().len() <= 531,
    {
        Consumer::lemma_wire_len(value.consumer);
    }

    /// A command that fits the wire and is in canonical form survives
    /// encoding and decoding.
    pub proof fn lemma_roundtrip(value: StoreConsumerOffsetView)
        requires
            value.wf(),
            value.canonical(),
        ensures
            Self::decode(value.wire()) == Some(value),
    {
        Self::lemma_parse(value, Seq::empty());
        lemma_concat_empty(value.wire());
    }

    /// An encoded command whose last byte is cut off cannot be decoded.
    pub proof fn lemma_truncated(value: StoreConsumerOffsetView)
        requires
            value.wf(),
        ensures
            value.wire().len() > 0,
            Self::decode(value.wire().drop_last()) is None,
    {
        Self::lemma_cut(value, value.wire().len() - 1);
        lemma_take_take(value.wire(), value.wire().len() as int, 0);
    }

    /// Commands of this kind come straight from a client.
    pub fn get_command_execution_origin(&self) -> (origin: CommandExecution)
        ensures
            origin == CommandExecution::Direct,
    {
        CommandExecution::Direct
    }

    /// Accepts the value where its fields fit the wire.
    pub fn validate(&self) -> (r: Result<(), IggyError>)
        ensures
            r is Ok <==> self@.wf(),
            r is Err ==> r == Err::<(), IggyError>(IggyError::InvalidCommand),
    {
        self.stream_id.validate()?;
        self.topic_id.validate()?;
        if !is_valid_opt_u32(self.partition_id) {
            return Err(IggyError::InvalidCommand);
        }
        Ok(())
    }

    /// The number of bytes of the wire form.
    pub fn size(&self) -> (n: usize)
        requires
            self@.wf(),
        ensures
            n == self@.wire().len(),
            n <= 531,
    {
        5 + self.stream_id.get_size_bytes() as usize + self.topic_id.get_size_bytes() as usize + 4 + 8
    }

    /// Appends the wire form to `buf`.
    pub fn put(&self, buf: &mut BytesMut)
        requires
            self@.wf(),
            bytes_mut_view(*old(buf)).len() + self@.wire().len() <= isize::MAX,
        ensures
            bytes_mut_view(*final(buf)) == bytes_mut_view(*old(buf)) + self@.wire(),
    {
        let ghost before = bytes_mut_view(*buf);
        let ghost w1 = self.consumer.wire();
        let ghost w2 = self.stream_id@.wire();
        let ghost w3 = self.topic_id@.wire();
        let ghost w4 = opt_u32_wire(self.partition_id);
        let ghost w5 = u64_le(self.offset);
        let ghost u2 = w1 + w2;
        let ghost u3 = u2 + w3;
        let ghost u4 = u3 + w4;
        self.consumer.put(buf);
        self.stream_id.put(buf);
        proof {
            lemma_concat_assoc(before, w1, w2);
        }
        self.topic_id.put(buf);
        proof {
            lemma_concat_assoc(before, u2, w3);
        }
        put_opt_u32(buf, self.partition_id);
        proof {
            lemma_concat_assoc(before, u3, w4);
        }
        put_u64_le(buf, self.offset);
        proof {
            lemma_concat_assoc(before, u4, w5);
        }
    }

    /// Decodes the value that starts at `pos` and returns it with the
    /// position just after it.
    pub fn read(s: &[u8], pos: usize) -> (r: Result<(StoreConsumerOffset, usize), IggyError>)
        requires
            pos <= s@.len(),
        ensures
            match r {
                Ok((value, next)) => Self::parse(s@.skip(pos as int)) == Some(
                    (value@, (next - pos) as nat),
                ) && pos < next <= s@.len() && value@.wf() && value@.canonical(),
                Err(e) => e == IggyError::InvalidCommand && Self::parse(s@.skip(pos as int))
                    is None,
            },
    {
        proof {
            reveal(StoreConsumerOffset::parse);
        }
        let (consumer, p1) = Consumer::read(s, pos)?;
        proof {
            lemma_skip_skip(s@, pos as int, p1 - pos);
        }
        let (stream_id, p2) = Identifier::read(s, p1)?;
        proof {
            lemma_skip_skip(s@, pos as int, p2 - pos);
        }
        let (topic_id, p3) = Identifier::read(s, p2)?;
        proof {
            lemma_skip_skip(s@, pos as int, p3 - pos);
        }
        let (partition_id, p4) = read_opt_u32(s, p3)?;
        proof {
            lemma_skip_skip(s@, pos as int, p4 - pos);
        }
        let (offset, p5) = read_u64(s, p4)?;
        Ok((StoreConsumerOffset { consumer, stream_id, topic_id, partition_id, offset }, p5))
    }

    /// Encodes the command.
    pub fn as_bytes(&self) -> (r: Bytes)
        requires
            self@.wf(),
        ensures
            bytes_view(r) == self@.wire(),
    {
        let mut bytes = BytesMut::with_capacity(self.size());
        self.put(&mut bytes);
        proof {
            assert(Seq::<u8>::empty() + self@.wire() =~= self@.wire());
        }
        bytes.freeze()
    }

    /// Decodes the command.  A payload that ends before the last field does
    /// is rejected.
    pub fn from_bytes(bytes: Bytes) -> (r: Result<StoreConsumerOffset, IggyError>)
        ensures
            match r {
                Ok(command) => Self::decode(bytes_view(bytes)) == Some(command@) && command@.wf() && command@.canonical(),
                Err(e) => e == IggyError::InvalidCommand && Self::decode(bytes_view(bytes))
                    is None,
            },
    {
        let s = as_slice(&bytes);
        proof {
            assert(s@.skip(0) =~= s@);
        }
        let (command, _) = StoreConsumerOffset::read(s, 0)?;
        command.validate()?;
        Ok(command)
    }
}

} // verus!
