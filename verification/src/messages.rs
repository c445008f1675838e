//! Commands that append and read messages.

use crate::buffer::as_slice;
use crate::buffer::bytes_mut_view;
use crate::buffer::bytes_view;
use crate::consumer::Consumer;
use crate::error::IggyError;
use crate::identifier::Identifier;
use crate::identifier::IdentifierView;
use crate::identifier::lemma_identifier_local;
use crate::identifier::lemma_identifier_roundtrip;
use crate::identifier::parse_identifier;
use crate::payload::CommandExecution;
use crate::payload::lemma_identifier_consumed;
use crate::payload::lemma_skip_skip;
use crate::polling::PollingStrategy;
use crate::wire::blob_size;
use crate::wire::blob_wire;
use crate::wire::bool_wire;
use crate::wire::is_valid_blob;
use crate::wire::is_valid_opt_blob;
use crate::wire::is_valid_opt_u32;
use crate::wire::lemma_blob_local;
use crate::wire::lemma_blob_parse;
use crate::wire::lemma_bool_local;
use crate::wire::lemma_bool_parse;
use crate::wire::lemma_concat_assoc;
use crate::wire::lemma_concat_empty;
use crate::wire::lemma_opt_blob_local;
use crate::wire::lemma_opt_blob_parse;
use crate::wire::lemma_opt_u32_local;
use crate::wire::lemma_opt_u32_parse;
use crate::wire::lemma_skip_concat;
use crate::wire::lemma_take_take;
use crate::wire::lemma_u128_local;
use crate::wire::lemma_u128_parse;
use crate::wire::lemma_u32_local;
use crate::wire::lemma_u32_parse;
use crate::wire::lemma_window;
use crate::wire::opt_blob_size;
use crate::wire::opt_blob_wire;
use crate::wire::opt_bytes_view;
use crate::wire::opt_u32_wire;
use crate::wire::parse_blob;
use crate::wire::parse_bool;
use crate::wire::parse_opt_blob;
use crate::wire::parse_opt_u32;
use crate::wire::parse_u128;
use crate::wire::parse_u32;
use crate::wire::put_blob;
use crate::wire::put_bool;
use crate::wire::put_opt_blob;
use crate::wire::put_opt_u32;
use crate::wire::put_u128_le;
use crate::wire::put_u32_le;
use crate::wire::read_blob;
use crate::wire::read_bool;
use crate::wire::read_opt_blob;
use crate::wire::read_opt_u32;
use crate::wire::read_u128;
use crate::wire::read_u32;
use crate::wire::u128_le;
use crate::wire::u32_le;
use crate::wire::valid_blob;
use crate::wire::valid_opt_blob;
use crate::wire::valid_opt_u32;
use bytes::Bytes;
use bytes::BytesMut;
use vstd::prelude::*;

verus! {

/// A message as a producer hands it in: an id, optional headers, and the payload.
#[derive(Debug, Clone, PartialEq)]
pub struct AppendableMessage {
    /// Unique 128-bit id of the message.
    pub id: u128,
    /// Headers in their encoded form, where the message has any.
    pub headers: Option<Vec<u8>>,
    /// The payload bytes.
    pub payload: Vec<u8>,
}

/// The mathematical value of a [`AppendableMessage`].
pub struct AppendableMessageView {
    pub id: u128,
    pub headers: Option<Seq<u8>>,
    pub payload: Seq<u8>,
}

impl AppendableMessageView {
    /// The fields fit the wire.
    pub open spec fn wf(self) -> bool {
        valid_opt_blob(self.headers)
            && valid_blob(self.payload)
    }

    /// The wire form: id, length and bytes of the headers (length 0 for
    /// none), length and bytes of the payload.
    pub open spec fn wire(self) -> Seq<u8> {
        u128_le(self.id)
            + opt_blob_wire(self.headers)
            + blob_wire(self.payload)
    }
}

impl View for AppendableMessage {
    type V = AppendableMessageView;

    open spec fn view(&self) -> AppendableMessageView {
        AppendableMessageView {
            id: self.id,
            headers: opt_bytes_view(self.headers),
            payload: self.payload@,
        }
    }
}

impl AppendableMessage {
    /// Reads the fields, one after the other, from the front of `s`; the
    /// count is the number of bytes they took.
    #[verifier::opaque]
    pub open spec fn parse(s: Seq<u8>) -> Option<(AppendableMessageView, nat)> {
        match parse_u128(s) {
            Some((id, n1)) => match parse_opt_blob(s.skip(n1 as int)) {
                Some((headers, n2)) => match parse_blob(s.skip((n1 + n2) as int)) {
                    Some((payload, n3)) => Some(
                        (AppendableMessageView { id, headers, payload }, n1 + n2 + n3),
                    ),
                    None => None,
                },
                None => None,
            },
            None => None,
        }
    }

    /// The decoder never reads past the end of its input.
    pub proof fn lemma_bound(s: Seq<u8>)
        ensures
            match Self::parse(s) {
                Some((_, n)) => 0 < n <= s.len(),
                None => true,
            },
    {
        reveal(AppendableMessage::parse);
    }

    /// Reading back an encoded value gives the value and the length of its
    /// wire form, whatever follows it.
    pub proof fn lemma_parse(value: AppendableMessageView, rest: Seq<u8>)
        requires
            value.wf(),
        ensures
            Self::parse(value.wire() + rest) == Some((value, value.wire().len())),
            (value.wire() + rest).skip(value.wire().len() as int) == rest,
    {
        reveal(AppendableMessage::parse);
        let s = value.wire() + rest;
        let w1 = u128_le(value.id);
        let w2 = opt_blob_wire(value.headers);
        let w3 = blob_wire(value.payload);
        let u2 = w1 + w2;
        let t4 = rest;
        let t3 = w3 + t4;
        let t2 = w2 + t3;
        let t1 = w1 + t2;
        assert(s == t1) by {
            lemma_concat_assoc(u2, w3, t4);
            lemma_concat_assoc(w1, w2, t3);
        }
        assert(parse_u128(s) == Some((value.id, w1.len()))
            && s.skip(w1.len() as int) == t2) by {
            lemma_u128_parse(value.id, t2);
        }
        assert(parse_opt_blob(s.skip(w1.len() as int)) == Some((value.headers, w2.len()))
            && s.skip((w1.len() + w2.len()) as int) == t3) by {
            lemma_opt_blob_parse(value.headers, t3);
            lemma_skip_skip(s, w1.len() as int, w2.len() as int);
        }
        assert(parse_blob(s.skip((w1.len() + w2.len()) as int)) == Some((value.payload, w3.len()))
            && s.skip((w1.len() + w2.len() + w3.len()) as int) == t4) by {
            lemma_blob_parse(value.payload, t4);
            lemma_skip_skip(s, (w1.len() + w2.len()) as int, w3.len() as int);
        }
    }

    /// The decoder looks at nothing beyond the bytes it reads: an input that
    /// starts with the same bytes decodes to the same value.
    pub proof fn lemma_local(s: Seq<u8>, other: Seq<u8>)
        requires
            Self::parse(s) is Some,
            other.len() >= Self::parse(s).unwrap().1,
            other.take(Self::parse(s).unwrap().1 as int) == s.take(
                Self::parse(s).unwrap().1 as int,
            ),
        ensures
            Self::parse(other) == Self::parse(s),
    {
        reveal(AppendableMessage::parse);
        Self::lemma_bound(s);
        let n = Self::parse(s).unwrap().1 as int;
        let n1 = parse_u128(s).unwrap().1 as int;
        lemma_take_take(s, n, n1);
        lemma_take_take(other, n, n1);
        lemma_u128_local(s, other);
        let n2 = parse_opt_blob(s.skip(n1)).unwrap().1 as int;
        lemma_window(s, other, n, n1, n2);
        lemma_opt_blob_local(s.skip(n1), other.skip(n1));
        let n3 = parse_blob(s.skip(n1 + n2)).unwrap().1 as int;
        lemma_window(s, other, n, n1 + n2, n3);
        lemma_blob_local(s.skip(n1 + n2), other.skip(n1 + n2));
    }

    /// An encoded value cut short cannot be read.
    pub proof fn lemma_cut(value: AppendableMessageView, k: int)
        requires
            value.wf(),
            0 <= k < value.wire().len(),
        ensures
            Self::parse(value.wire().take(k)) is None,
    {
        let w = value.wire();
        let s = w.take(k);
        if Self::parse(s) is Some {
            let n = Self::parse(s).unwrap().1 as int;
            Self::lemma_bound(s);
            lemma_take_take(w, k, n);
            Self::lemma_local(s, w);
            Self::lemma_parse(value, Seq::empty());
            lemma_concat_empty(w);
        }
    }

    /// The wire form of a value that fits the wire is neither empty nor
    /// longer than 20000024 bytes.
    pub proof fn lemma_wire_len(value: AppendableMessageView)
        requires
            value.wf(),
        ensures
            0 < value.wire().len() <= 20000024,
    {
    }

    /// Accepts the value where its fields fit the wire.
    pub fn validate(&self) -> (r: Result<(), IggyError>)
        ensures
            r is Ok <==> self@.wf(),
            r is Err ==> r == Err::<(), IggyError>(IggyError::InvalidCommand),
    {
        if !is_valid_opt_blob(&self.headers) {
            return Err(IggyError::InvalidCommand);
        }
        if !is_valid_blob(&self.payload) {
            return Err(IggyError::InvalidCommand);
        }
        Ok(())
    }

    /// The number of bytes of the wire form.
    pub fn size(&self) -> (n: usize)
        requires
            self@.wf(),
        ensures
            n == self@.wire().len(),
            n <= 20000024,
    {
        16 + opt_blob_size(&self.headers) + blob_size(&self.payload)
    }

    /// Appends the wire form to `buf`.
    pub fn put(&self, buf: &mut BytesMut)
        requires
            self@.wf(),
            bytes_mut_view(*old(buf)).len() + self@.wire().len() <= isize::MAX,
        ensures
            bytes_mut_view(*final(buf)) == bytes_mut_view(*old(buf)) + self@.wire(),
    {
        let ghost before = bytes_mut_view(*buf);
        let ghost w1 = u128_le(self.id);
        let ghost w2 = opt_blob_wire(opt_bytes_view(self.headers));
        let ghost w3 = blob_wire(self.payload@);
        let ghost u2 = w1 + w2;
        put_u128_le(buf, self.id);
        put_opt_blob(buf, &self.headers);
        proof {
            lemma_concat_assoc(before, w1, w2);
        }
        put_blob(buf, &self.payload);
        proof {
            lemma_concat_assoc(before, u2, w3);
        }
    }

    /// Decodes the value that starts at `pos` and returns it with the
    /// position just after it.
    pub fn read(s: &[u8], pos: usize) -> (r: Result<(AppendableMessage, usize), IggyError>)
        requires
            pos <= s@.len(),
        ensures
            match r {
                Ok((value, next)) => Self::parse(s@.skip(pos as int)) == Some(
                    (value@, (next - pos) as nat),
                ) && pos < next <= s@.len() && value@.wf(),
                Err(e) => e == IggyError::InvalidCommand && Self::parse(s@.skip(pos as int))
                    is None,
            },
    {
        proof {
            reveal(AppendableMessage::parse);
        }
        let (id, p1) = read_u128(s, pos)?;
        proof {
            lemma_skip_skip(s@, pos as int, p1 - pos);
        }
        let (headers, p2) = read_opt_blob(s, p1)?;
        proof {
            lemma_skip_skip(s@, pos as int, p2 - pos);
        }
        let (payload, p3) = read_blob(s, p2)?;
        Ok((AppendableMessage { id, headers, payload }, p3))
    }
}

/// `PollMessages` command is used to read messages from a partition of a topic.
#[derive(Debug, Clone, PartialEq)]
pub struct PollMessages {
    /// On whose behalf messages are read.
    pub consumer: Consumer,
    /// Unique stream ID (numeric or name).
    pub stream_id: Identifier,
    /// Unique topic ID (numeric or name).
    pub topic_id: Identifier,
    /// Partition ID; `None` where the consumer group assigns it.
    pub partition_id: Option<u32>,
    /// Where in the partition to start.
    pub strategy: PollingStrategy,
    /// Largest number of messages to return.
    pub count: u32,
    /// Whether to store the offset after the last returned message for the consumer.
    pub auto_commit: bool,
}

/// The mathematical value of a [`PollMessages`].
pub struct PollMessagesView {
    pub consumer: Consumer,
    pub stream_id: IdentifierView,
    pub topic_id: IdentifierView,
    pub partition_id: Option<u32>,
    pub strategy: PollingStrategy,
    pub count: u32,
    pub auto_commit: bool,
}

impl PollMessagesView {
    /// The fields fit the wire.
    pub open spec fn wf(self) -> bool {
        self.stream_id.wf()
            && self.topic_id.wf()
            && valid_opt_u32(self.partition_id)
    }

    /// The identifiers come back from the wire unchanged.
    pub open spec fn canonical(self) -> bool {
        self.stream_id.canonical()
            && self.topic_id.canonical()
    }

    /// The wire form: consumer, stream, topic, partition id (0 for none),
    /// strategy, count, auto-commit flag.
    pub open spec fn wire(self) -> Seq<u8> {
        self.consumer.wire()
            + self.stream_id.wire()
            + self.topic_id.wire()
            + opt_u32_wire(self.partition_id)
            + self.strategy.wire()
            + u32_le(self.count)
            + bool_wire(self.auto_commit)
    }
}

impl View for PollMessages {
    type V = PollMessagesView;

    open spec fn view(&self) -> PollMessagesView {
        PollMessagesView {
            consumer: self.consumer,
            stream_id: self.stream_id@,
            topic_id: self.topic_id@,
            partition_id: self.partition_id,
            strategy: self.strategy,
            count: self.count,
            auto_commit: self.auto_commit,
        }
    }
}

impl PollMessages {
    /// Reads the fields, one after the other, from the front of `s`; the
    /// count is the number of bytes they took.
    #[verifier::opaque]
    pub open spec fn parse(s: Seq<u8>) -> Option<(PollMessagesView, nat)> {
        match Consumer::parse(s) {
            Some((consumer, n1)) => match parse_identifier(s.skip(n1 as int)) {
                Some((stream_id, n2)) => match parse_identifier(s.skip((n1 + n2) as int)) {
                    Some((topic_id, n3)) => match parse_opt_u32(s.skip((n1 + n2 + n3) as int)) {
                        Some((partition_id, n4)) => match PollingStrategy::parse(
                            s.skip((n1 + n2 + n3 + n4) as int),
                        ) {
                            Some((strategy, n5)) => match parse_u32(
                                s.skip((n1 + n2 + n3 + n4 + n5) as int),
                            ) {
                                Some((count, n6)) => match parse_bool(
                                    s.skip((n1 + n2 + n3 + n4 + n5 + n6) as int),
                                ) {
                                    Some((auto_commit, n7)) => Some(
                                        (PollMessagesView { consumer, stream_id, topic_id, partition_id, strategy, count, auto_commit }, n1 + n2 + n3 + n4 + n5 + n6 + n7),
                                    ),
                                    None => None,
                                },
                                None => None,
                            },
                            None => None,
                        },
                        None => None,
                    },
                    None => None,
                },
                None => None,
            },
            None => None,
        }
    }

    /// What a payload decodes to.  Bytes after the last field are ignored.
    pub open spec fn decode(s: Seq<u8>) -> Option<PollMessagesView> {
        match Self::parse(s) {
            Some((value, _)) => Some(value),
            None => None,
        }
    }

    /// The decoder never reads past the end of its input.
    pub proof fn lemma_bound(s: Seq<u8>)
        ensures
            match Self::parse(s) {
                Some((_, n)) => 0 < n <= s.len(),
                None => true,
            },
    {
        reveal(PollMessages::parse);
        if Self::parse(s) is Some {
            Consumer::lemma_bound(s);
            let n1 = Consumer::parse(s).unwrap().1 as int;
            let n2 = parse_identifier(s.skip(n1)).unwrap().1 as int;
            let n3 = parse_identifier(s.skip(n1 + n2)).unwrap().1 as int;
            let n4 = parse_opt_u32(s.skip(n1 + n2 + n3)).unwrap().1 as int;
            PollingStrategy::lemma_bound(s.skip(n1 + n2 + n3 + n4));
            let n5 = PollingStrategy::parse(s.skip(n1 + n2 + n3 + n4)).unwrap().1 as int;
            let n6 = parse_u32(s.skip(n1 + n2 + n3 + n4 + n5)).unwrap().1 as int;
            let n7 = parse_bool(s.skip(n1 + n2 + n3 + n4 + n5 + n6)).unwrap().1 as int;
        }
    }

    /// Reading back an encoded value gives the value and the length of its
    /// wire form, whatever follows it.
    pub proof fn lemma_parse(value: PollMessagesView, rest: Seq<u8>)
        requires
            value.wf(),
            value.canonical(),
        ensures
            Self::parse(value.wire() + rest) == Some((value, value.wire().len())),
            (value.wire() + rest).skip(value.wire().len() as int) == rest,
    {
        reveal(PollMessages::parse);
        let s = value.wire() + rest;
        let w1 = value.consumer.wire();
        let w2 = value.stream_id.wire();
        let w3 = value.topic_id.wire();
        let w4 = opt_u32_wire(value.partition_id);
        let w5 = value.strategy.wire();
        let w6 = u32_le(value.count);
        let w7 = bool_wire(value.auto_commit);
        let u2 = w1 + w2;
        let u3 = u2 + w3;
        let u4 = u3 + w4;
        let u5 = u4 + w5;
        let u6 = u5 + w6;
        let t8 = rest;
        let t7 = w7 + t8;
        let t6 = w6 + t7;
        let t5 = w5 + t6;
        let t4 = w4 + t5;
        let t3 = w3 + t4;
        let t2 = w2 + t3;
        let t1 = w1 + t2;
        assert(s == t1) by {
            lemma_concat_assoc(u6, w7, t8);
            lemma_concat_assoc(u5, w6, t7);
            lemma_concat_assoc(u4, w5, t6);
            lemma_concat_assoc(u3, w4, t5);
            lemma_concat_assoc(u2, w3, t4);
            lemma_concat_assoc(w1, w2, t3);
        }
        assert(Consumer::parse(s) == Some((value.consumer, w1.len()))
            && s.skip(w1.len() as int) == t2) by {
            Consumer::lemma_parse(value.consumer, t2);
        }
        assert(parse_identifier(s.skip(w1.len() as int)) == Some((value.stream_id, w2.len()))
            && s.skip((w1.len() + w2.len()) as int) == t3) by {
            lemma_identifier_roundtrip(value.stream_id, t3);
            lemma_skip_skip(s, w1.len() as int, w2.len() as int);
        }
        assert(parse_identifier(s.skip((w1.len() + w2.len()) as int)) == Some((value.topic_id, w3.len()))
            && s.skip((w1.len() + w2.len() + w3.len()) as int) == t4) by {
            lemma_identifier_roundtrip(value.topic_id, t4);
            lemma_skip_skip(s, (w1.len() + w2.len()) as int, w3.len() as int);
        }
        assert(parse_opt_u32(s.skip((w1.len() + w2.len() + w3.len()) as int)) == Some((value.partition_id, w4.len()))
            && s.skip((w1.len() + w2.len() + w3.len() + w4.len()) as int) == t5) by {
            lemma_opt_u32_parse(value.partition_id, t5);
            lemma_skip_skip(s, (w1.len() + w2.len() + w3.len()) as int, w4.len() as int);
        }
        assert(PollingStrategy::parse(s.skip((w1.len() + w2.len() + w3.len() + w4.len()) as int)) == Some((value.strategy, w5.len()))
            && s.skip((w1.len() + w2.len() + w3.len() + w4.len() + w5.len()) as int) == t6) by {
            PollingStrategy::lemma_parse(value.strategy, t6);
            lemma_skip_skip(s, (w1.len() + w2.len() + w3.len() + w4.len()) as int, w5.len() as int);
        }
        assert(parse_u32(s.skip((w1.len() + w2.len() + w3.len() + w4.len() + w5.len()) as int)) == Some((value.count, w6.len()))
            && s.skip((w1.len() + w2.len() + w3.len() + w4.len() + w5.len() + w6.len()) as int) == t7) by {
            lemma_u32_parse(value.count, t7);
            lemma_skip_skip(s, (w1.len() + w2.len() + w3.len() + w4.len() + w5.len()) as int, w6.len() as int);
        }
        assert(parse_bool(s.skip((w1.len() + w2.len() + w3.len() + w4.len() + w5.len() + w6.len()) as int)) == Some((value.auto_commit, w7.len()))
            && s.skip((w1.len() + w2.len() + w3.len() + w4.len() + w5.len() + w6.len() + w7.len()) as int) == t8) by {
            lemma_bool_parse(value.auto_commit, t8);
            lemma_skip_skip(s, (w1.len() + w2.len() + w3.len() + w4.len() + w5.len() + w6.len()) as int, w7.len() as int);
        }
    }

    /// Whatever follows an encoded value, a decoder that accepts it reads
    /// exactly the bytes of that value.
    pub proof fn lemma_consumed(value: PollMessagesView, rest: Seq<u8>)
        requires
            value.wf(),
        ensures
            match Self::parse(value.wire() + rest) {
                Some((_, n)) => n == value.wire().len(),
                None => true,
            },
            (value.wire() + rest).skip(value.wire().len() as int) == rest,
    {
        reveal(PollMessages::parse);
        let s = value.wire() + rest;
        let w1 = value.consumer.wire();
        let w2 = value.stream_id.wire();
        let w3 = value.topic_id.wire();
        let w4 = opt_u32_wire(value.partition_id);
        let w5 = value.strategy.wire();
        let w6 = u32_le(value.count);
        let w7 = bool_wire(value.auto_commit);
        let u2 = w1 + w2;
        let u3 = u2 + w3;
        let u4 = u3 + w4;
        let u5 = u4 + w5;
        let u6 = u5 + w6;
        let t8 = rest;
        let t7 = w7 + t8;
        let t6 = w6 + t7;
        let t5 = w5 + t6;
        let t4 = w4 + t5;
        let t3 = w3 + t4;
        let t2 = w2 + t3;
        let t1 = w1 + t2;
        assert(s == t1) by {
            lemma_concat_assoc(u6, w7, t8);
            lemma_concat_assoc(u5, w6, t7);
            lemma_concat_assoc(u4, w5, t6);
            lemma_concat_assoc(u3, w4, t5);
            lemma_concat_assoc(u2, w3, t4);
            lemma_concat_assoc(w1, w2, t3);
        }
        lemma_skip_concat(value.wire(), rest);
        if Self::parse(s) is Some {
            assert(Consumer::parse(s) is Some);
            assert(Consumer::parse(s).unwrap().1 == w1.len()
                && s.skip(w1.len() as int) == t2) by {
                Consumer::lemma_parse(value.consumer, t2);
            }
            assert(parse_identifier(s.skip(w1.len() as int)) is Some);
            assert(parse_identifier(s.skip(w1.len() as int)).unwrap().1 == w2.len()
                && s.skip((w1.len() + w2.len()) as int) == t3) by {
                lemma_identifier_consumed(value.stream_id, t3);
                lemma_skip_skip(s, w1.len() as int, w2.len() as int);
            }
            assert(parse_identifier(s.skip((w1.len() + w2.len()) as int)) is Some);
            assert(parse_identifier(s.skip((w1.len() + w2.len()) as int)).unwrap().1 == w3.len()
                && s.skip((w1.len() + w2.len() + w3.len()) as int) == t4) by {
                lemma_identifier_consumed(value.topic_id, t4);
                lemma_skip_skip(s, (w1.len() + w2.len()) as int, w3.len() as int);
            }
            assert(parse_opt_u32(s.skip((w1.len() + w2.len() + w3.len()) as int)) is Some);
            assert(parse_opt_u32(s.skip((w1.len() + w2.len() + w3.len()) as int)).unwrap().1 == w4.len()
                && s.skip((w1.len() + w2.len() + w3.len() + w4.len()) as int) == t5) by {
                lemma_opt_u32_parse(value.partition_id, t5);
                lemma_skip_skip(s, (w1.len() + w2.len() + w3.len()) as int, w4.len() as int);
            }
            assert(PollingStrategy::parse(s.skip((w1.len() + w2.len() + w3.len() + w4.len()) as int)) is Some);
            assert(PollingStrategy::parse(s.skip((w1.len() + w2.len() + w3.len() + w4.len()) as int)).unwrap().1 == w5.len()
                && s.skip((w1.len() + w2.len() + w3.len() + w4.len() + w5.len()) as int) == t6) by {
                PollingStrategy::lemma_parse(value.strategy, t6);
                lemma_skip_skip(s, (w1.len() + w2.len() + w3.len() + w4.len()) as int, w5.len() as int);
            }
            assert(parse_u32(s.skip((w1.len() + w2.len() + w3.len() + w4.len() + w5.len()) as int)) is Some);
            assert(parse_u32(s.skip((w1.len() + w2.len() + w3.len() + w4.len() + w5.len()) as int)).unwrap().1 == w6.len()
                && s.skip((w1.len() + w2.len() + w3.len() + w4.len() + w5.len() + w6.len()) as int) == t7) by {
                lemma_u32_parse(value.count, t7);
                lemma_skip_skip(s, (w1.len() + w2.len() + w3.len() + w4.len() + w5.len()) as int, w6.len() as int);
            }
            assert(parse_bool(s.skip((w1.len() + w2.len() + w3.len() + w4.len() + w5.len() + w6.len()) as int)) is Some);
            assert(parse_bool(s.skip((w1.len() + w2.len() + w3.len() + w4.len() + w5.len() + w6.len()) as int)).unwrap().1 == w7.len()
                && s.skip((w1.len() + w2.len() + w3.len() + w4.len() + w5.len() + w6.len() + w7.len()) as int) == t8) by {
                lemma_bool_parse(value.auto_commit, t8);
                lemma_skip_skip(s, (w1.len() + w2.len() + w3.len() + w4.len() + w5.len() + w6.len()) as int, w7.len() as int);
            }
        }
    }

    /// The decoder looks at nothing beyond the bytes it reads: an input that
    /// starts with the same bytes decodes to the same value.
    pub proof fn lemma_local(s: Seq<u8>, other: Seq<u8>)
        requires
            Self::parse(s) is Some,
            other.len() >= Self::parse(s).unwrap().1,
            other.take(Self::parse(s).unwrap().1 as int) == s.take(
                Self::parse(s).unwrap().1 as int,
            ),
        ensures
            Self::parse(other) == Self::parse(s),
    {
        reveal(PollMessages::parse);
        Self::lemma_bound(s);
        let n = Self::parse(s).unwrap().1 as int;
        let n1 = Consumer::parse(s).unwrap().1 as int;
        lemma_take_take(s, n, n1);
        lemma_take_take(other, n, n1);
        Consumer::lemma_local(s, other);
        let n2 = parse_identifier(s.skip(n1)).unwrap().1 as int;
        lemma_window(s, other, n, n1, n2);
        lemma_identifier_local(s.skip(n1), other.skip(n1));
        let n3 = parse_identifier(s.skip(n1 + n2)).unwrap().1 as int;
        lemma_window(s, other, n, n1 + n2, n3);
        lemma_identifier_local(s.skip(n1 + n2), other.skip(n1 + n2));
        let n4 = parse_opt_u32(s.skip(n1 + n2 + n3)).unwrap().1 as int;
        lemma_window(s, other, n, n1 + n2 + n3, n4);
        lemma_opt_u32_local(s.skip(n1 + n2 + n3), other.skip(n1 + n2 + n3));
        let n5 = PollingStrategy::parse(s.skip(n1 + n2 + n3 + n4)).unwrap().1 as int;
        lemma_window(s, other, n, n1 + n2 + n3 + n4, n5);
        PollingStrategy::lemma_local(s.skip(n1 + n2 + n3 + n4), other.skip(n1 + n2 + n3 + n4));
        let n6 = parse_u32(s.skip(n1 + n2 + n3 + n4 + n5)).unwrap().1 as int;
        lemma_window(s, other, n, n1 + n2 + n3 + n4 + n5, n6);
        lemma_u32_local(s.skip(n1 + n2 + n3 + n4 + n5), other.skip(n1 + n2 + n3 + n4 + n5));
        let n7 = parse_bool(s.skip(n1 + n2 + n3 + n4 + n5 + n6)).unwrap().1 as int;
        lemma_window(s, other, n, n1 + n2 + n3 + n4 + n5 + n6, n7);
        lemma_bool_local(s.skip(n1 + n2 + n3 + n4 + n5 + n6), other.skip(n1 + n2 + n3 + n4 + n5 + n6));
    }

    /// An encoded value cut short cannot be read.
    pub proof fn lemma_cut(value: PollMessagesView, k: int)
        requires
            value.wf(),
            0 <= k < value.wire().len(),
        ensures
            Self::parse(value.wire().take(k)) is None,
    {
        let w = value.wire();
        let s = w.take(k);
        if Self::parse(s) is Some {
            let n = Self::parse(s).unwrap().1 as int;
            Self::lemma_bound(s);
            lemma_take_take(w, k, n);
            Self::lemma_local(s, w);
            Self::lemma_consumed(value, Seq::empty());
            lemma_concat_empty(w);
        }
    }

    /// The wire form of a value that fits the wire is neither empty nor
    /// longer than 537 bytes.
    pub proof fn lemma_wire_len(value: PollMessagesView)
        requires
            value.wf(),
        ensures
            0 < value.wire().len() <= 537,
    {
        Consumer::lemma_wire_len(value.consumer);
        PollingStrategy::lemma_wire_len(value.strategy);
    }

    /// A command that fits the wire and is in canonical form survives
    /// encoding and decoding.
    pub proof fn lemma_roundtrip(value: PollMessagesView)
        requires
            value.wf(),
            value.canonical(),
        ensures
            Self::decode(value.wire()) == Some(value),
    {
        Self::lemma_parse(value, Seq::empty());
        lemma_concat_empty(value.wire());
    }

    /// An encoded command whose last byte is cut off cannot be decoded.
    pub proof fn lemma_truncated(value: PollMessagesView)
        requires
            value.wf(),
        ensures
            value.wire().len() > 0,
            Self::decode(value.wire().drop_last()) is None,
    {
        Self::lemma_cut(value, value.wire().len() - 1);
        lemma_take_take(value.wire(), value.wire().len() as int, 0);
    }

    /// Commands of this kind come straight from a client.
    pub fn get_command_execution_origin(&self) -> (origin: CommandExecution)
        ensures
            origin == CommandExecution::Direct,
    {
        CommandExecution::Direct
    }

    /// Accepts the value where its fields fit the wire.
    pub fn validate(&self) -> (r: Result<(), IggyError>)
        ensures
            r is Ok <==> self@.wf(),
            r is Err ==> r == Err::<(), IggyError>(IggyError::InvalidCommand),
    {
        self.stream_id.validate()?;
        self.topic_id.validate()?;
        if !is_valid_opt_u32(self.partition_id) {
            return Err(IggyError::InvalidCommand);
        }
        Ok(())
    }

    /// The number of bytes of the wire form.
    pub fn size(&self) -> (n: usize)
        requires
            self@.wf(),
        ensures
            n == self@.wire().len(),
            n <= 537,
    {
        5 + self.stream_id.get_size_bytes() as usize + self.topic_id.get_size_bytes() as usize + 4 + 9 + 4 + 1
    }

    /// Appends the wire form to `buf`.
    pub fn put(&self, buf: &mut BytesMut)
        requires
            self@.wf(),
            bytes_mut_view(*old(buf)).len() + self@.wire().len() <= isize::MAX,
        ensures
            bytes_mut_view(*final(buf)) == bytes_mut_view(*old(buf)) + self@.wire(),
    {
        let ghost before = bytes_mut_view(*buf);
        let ghost w1 = self.consumer.wire();
        let ghost w2 = self.stream_id@.wire();
        let ghost w3 = self.topic_id@.wire();
        let ghost w4 = opt_u32_wire(self.partition_id);
        let ghost w5 = self.strategy.wire();
        let ghost w6 = u32_le(self.count);
        let ghost w7 = bool_wire(self.auto_commit);
        let ghost u2 = w1 + w2;
        let ghost u3 = u2 + w3;
        let ghost u4 = u3 + w4;
        let ghost u5 = u4 + w5;
        let ghost u6 = u5 + w6;
        self.consumer.put(buf);
        self.stream_id.put(buf);
        proof {
            lemma_concat_assoc(before, w1, w2);
        }
        self.topic_id.put(buf);
        proof {
            lemma_concat_assoc(before, u2, w3);
        }
        put_opt_u32(buf, self.partition_id);
        proof {
            lemma_concat_assoc(before, u3, w4);
        }
        self.strategy.put(buf);
        proof {
            lemma_concat_assoc(before, u4, w5);
        }
        put_u32_le(buf, self.count);
        proof {
            lemma_concat_assoc(before, u5, w6);
        }
        put_bool(buf, self.auto_commit);
        proof {
            lemma_concat_assoc(before, u6, w7);
        }
    }

    /// Decodes the value that starts at `pos` and returns it with the
    /// position just after it.
    pub fn read(s: &[u8], pos: usize) -> (r: Result<(PollMessages, usize), IggyError>)
        requires
            pos <= s@.len(),
        ensures
            match r {
                Ok((value, next)) => Self::parse(s@.skip(pos as int)) == Some(
                    (value@, (next - pos) as nat),
                ) && pos < next <= s@.len() && value@.wf() && value@.canonical(),
                Err(e) => e == IggyError::InvalidCommand && Self::parse(s@.skip(pos as int))
                    is None,
            },
    {
        proof {
            reveal(PollMessages::parse);
        }
        let (consumer, p1) = Consumer::read(s, pos)?;
        proof {
            lemma_skip_skip(s@, pos as int, p1 - pos);
        }
        let (stream_id, p2) = Identifier::read(s, p1)?;
        proof {
            lemma_skip_skip(s@, pos as int, p2 - pos);
        }
        let (topic_id, p3) = Identifier::read(s, p2)?;
        proof {
            lemma_skip_skip(s@, pos as int, p3 - pos);
        }
        let (partition_id, p4) = read_opt_u32(s, p3)?;
        proof {
            lemma_skip_skip(s@, pos as int, p4 - pos);
        }
        let (strategy, p5) = PollingStrategy::read(s, p4)?;
        proof {
            lemma_skip_skip(s@, pos as int, p5 - pos);
        }
        let (count, p6) = read_u32(s, p5)?;
        proof {
            lemma_skip_skip(s@, pos as int, p6 - pos);
        }
        let (auto_commit, p7) = read_bool(s, p6)?;
        Ok((PollMessages { consumer, stream_id, topic_id, partition_id, strategy, count, auto_commit }, p7))
    }

    /// Encodes the command.
    pub fn as_bytes(&self) -> (r: Bytes)
        requires
            self@.wf(),
        ensures
            bytes_view(r) == self@.wire(),
    {
        let mut bytes = BytesMut::with_capacity(self.size());
        self.put(&mut bytes);
        proof {
            assert(Seq::<u8>::empty() + self@.wire() =~= self@.wire());
        }
        bytes.freeze()
    }

    /// Decodes the command.  A payload that ends before the last field does
    /// is rejected.
    pub fn from_bytes(bytes: Bytes) -> (r: Result<PollMessages, IggyError>)
        ensures
            match r {
                Ok(command) => Self::decode(bytes_view(bytes)) == Some(command@) && command@.wf() && command@.canonical(),
                Err(e) => e == IggyError::InvalidCommand && Self::decode(bytes_view(bytes))
                    is None,
            },
    {
        let s = as_slice(&bytes);
        proof {
            assert(s@.skip(0) =~= s@);
        }
        let (command, _) = PollMessages::read(s, 0)?;
        command.validate()?;
        Ok(command)
    }
}

} // verus!
