//! Commands on the consumer groups of a topic.

use crate::buffer::as_slice;
use crate::buffer::bytes_mut_view;
use crate::buffer::bytes_view;
use crate::error::IggyError;
use crate::identifier::Identifier;
use crate::identifier::IdentifierView;
use crate::identifier::lemma_identifier_local;
use crate::identifier::lemma_identifier_roundtrip;
use crate::identifier::parse_identifier;
use crate::payload::CommandExecution;
use crate::payload::GroupPath;
use crate::payload::TopicPath;
use crate::payload::decode_group_path;
use crate::payload::decode_topic_path;
use crate::payload::encode_group_path;
use crate::payload::encode_topic_path;
use crate::payload::lemma_identifier_consumed;
use crate::payload::lemma_skip_skip;
use crate::payload::parse_group_payload;
use crate::payload::parse_topic_payload;
use crate::wire::is_valid_opt_u32;
use crate::wire::is_valid_text;
use crate::wire::lemma_concat_assoc;
use crate::wire::lemma_concat_empty;
use crate::wire::lemma_opt_u32_local;
use crate::wire::lemma_opt_u32_parse;
use crate::wire::lemma_skip_concat;
use crate::wire::lemma_take_take;
use crate::wire::lemma_text_local;
use crate::wire::lemma_text_parse;
use crate::wire::lemma_window;
use crate::wire::opt_u32_wire;
use crate::wire::parse_opt_u32;
use crate::wire::parse_text;
use crate::wire::put_opt_u32;
use crate::wire::put_text;
use crate::wire::read_opt_u32;
use crate::wire::read_text_field;
use crate::wire::text_wire;
use crate::wire::valid_opt_u32;
use crate::wire::valid_text;
use bytes::Bytes;
use bytes::BytesMut;
use vstd::prelude::*;

verus! {

/// `GetConsumerGroup` command retrieves the consumer group from the topic.
#[derive(Debug, Clone, PartialEq, Default)]
pub struct GetConsumerGroup {
    /// Unique stream ID (numeric or name).
    pub stream_id: Identifier,
    /// Unique topic ID (numeric or name).
    pub topic_id: Identifier,
    /// Unique consumer group ID (numeric or name).
    pub group_id: Identifier,
}

impl View for GetConsumerGroup {
    type V = GroupPath;

    open spec fn view(&self) -> GroupPath {
        GroupPath {
            stream_id: self.stream_id@,
            topic_id: self.topic_id@,
            group_id: self.group_id@,
        }
    }
}

impl GetConsumerGroup {
    /// Commands of this kind come straight from a client.
    pub fn get_command_execution_origin(&self) -> (origin: CommandExecution)
        ensures
            origin == CommandExecution::Direct,
    {
        CommandExecution::Direct
    }

    /// There are no field rules beyond those of the identifiers themselves.
    pub fn validate(&self) -> (r: Result<(), IggyError>)
        ensures
            r is Ok,
    {
        Ok(())
    }

    /// Encodes the three identifiers, one after the other.
    pub fn as_bytes(&self) -> (r: Bytes)
        ensures
            bytes_view(r) == self@.wire(),
            self@.wf(),
    {
        encode_group_path(&self.stream_id, &self.topic_id, &self.group_id)
    }

    /// Decodes the three identifiers.  A payload shorter than 9 bytes cannot
    /// hold them and is rejected at once.
    pub fn from_bytes(bytes: Bytes) -> (r: Result<GetConsumerGroup, IggyError>)
        ensures
            match r {
                Ok(command) => parse_group_payload(bytes_view(bytes)) == Some(command@)
                    && command@.wf() && command@.canonical(),
                Err(e) => e == IggyError::InvalidCommand && parse_group_payload(
                    bytes_view(bytes),
                ) is None,
            },
            bytes_view(bytes).len() < 9 ==> r is Err,
    {
        let (stream_id, topic_id, group_id) = decode_group_path(bytes)?;
        let command = GetConsumerGroup { stream_id, topic_id, group_id };
        command.validate()?;
        Ok(command)
    }
}

/// `GetConsumerGroups` command retrieves all the consumer groups of a topic.
#[derive(Debug, Clone, PartialEq, Default)]
pub struct GetConsumerGroups {
    /// Unique stream ID (numeric or name).
    pub stream_id: Identifier,
    /// Unique topic ID (numeric or name).
    pub topic_id: Identifier,
}

impl View for GetConsumerGroups {
    type V = TopicPath;

    open spec fn view(&self) -> TopicPath {
        TopicPath { stream_id: self.stream_id@, topic_id: self.topic_id@ }
    }
}

impl GetConsumerGroups {
    /// Commands of this kind come straight from a client.
    pub fn get_command_execution_origin(&self) -> (origin: CommandExecution)
        ensures
            origin == CommandExecution::Direct,
    {
        CommandExecution::Direct
    }

    /// There are no field rules beyond those of the identifiers themselves.
    pub fn validate(&self) -> (r: Result<(), IggyError>)
        ensures
            r is Ok,
    {
        Ok(())
    }

    /// Encodes the two identifiers, one after the other.
    pub fn as_bytes(&self) -> (r: Bytes)
        ensures
            bytes_view(r) == self@.wire(),
            self@.wf(),
    {
        encode_topic_path(&self.stream_id, &self.topic_id)
    }

    /// Decodes the two identifiers.  A payload shorter than 6 bytes cannot
    /// hold them and is rejected at once.
    pub fn from_bytes(bytes: Bytes) -> (r: Result<GetConsumerGroups, IggyError>)
        ensures
            match r {
                Ok(command) => parse_topic_payload(bytes_view(bytes)) == Some(command@)
                    && command@.wf() && command@.canonical(),
                Err(e) => e == IggyError::InvalidCommand && parse_topic_payload(
                    bytes_view(bytes),
                ) is None,
            },
            bytes_view(bytes).len() < 6 ==> r is Err,
    {
        let (stream_id, topic_id) = decode_topic_path(bytes)?;
        let command = GetConsumerGroups { stream_id, topic_id };
        command.validate()?;
        Ok(command)
    }
}

/// `CreateConsumerGroup` command creates a new consumer group for the topic.
#[derive(Debug, Clone, PartialEq)]
pub struct CreateConsumerGroup {
    /// Unique stream ID (numeric or name).
    pub stream_id: Identifier,
    /// Unique topic ID (numeric or name).
    pub topic_id: Identifier,
    /// Numeric ID of the new group; the broker picks one where this is `None`.
    pub group_id: Option<u32>,
    /// Name of the new group, 1 to 255 bytes of UTF-8 text.
    pub name: Vec<u8>,
}

/// The mathematical value of a [`CreateConsumerGroup`].
pub struct CreateConsumerGroupView {
    pub stream_id: IdentifierView,
    pub topic_id: IdentifierView,
    pub group_id: Option<u32>,
    pub name: Seq<u8>,
}

impl CreateConsumerGroupView {
    /// The fields fit the wire.
    pub open spec fn wf(self) -> bool {
        self.stream_id.wf()
            && self.topic_id.wf()
            && valid_opt_u32(self.group_id)
            && valid_text(self.name)
    }

    /// The identifiers come back from the wire unchanged.
    pub open spec fn canonical(self) -> bool {
        self.stream_id.canonical()
            && self.topic_id.canonical()
    }

    /// The wire form: stream, topic, group id (0 for none), name.
    pub open spec fn wire(self) -> Seq<u8> {
        self.stream_id.wire()
            + self.topic_id.wire()
            + opt_u32_wire(self.group_id)
            + text_wire(self.name)
    }
}

impl View for CreateConsumerGroup {
    type V = CreateConsumerGroupView;

    open spec fn view(&self) -> CreateConsumerGroupView {
        CreateConsumerGroupView {
            stream_id: self.stream_id@,
            topic_id: self.topic_id@,
            group_id: self.group_id,
            name: self.name@,
        }
    }
}

impl CreateConsumerGroup {
    /// Reads the fields, one after the other, from the front of `s`; the
    /// count is the number of bytes they took.
    #[verifier::opaque]
    pub open spec fn parse(s: Seq<u8>) -> Option<(CreateConsumerGroupView, nat)> {
        match parse_identifier(s) {
            Some((stream_id, n1)) => match parse_identifier(s.skip(n1 as int)) {
                Some((topic_id, n2)) => match parse_opt_u32(s.skip((n1 + n2) as int)) {
                    Some((group_id, n3)) => match parse_text(s.skip((n1 + n2 + n3) as int)) {
                        Some((name, n4)) => Some(
                            (CreateConsumerGroupView { stream_id, topic_id, group_id, name }, n1 + n2 + n3 + n4),
                        ),
                        None => None,
                    },
                    None => None,
                },
                None => None,
            },
            None => None,
        }
    }

    /// What a payload decodes to.  Bytes after the last field are ignored.
    pub open spec fn decode(s: Seq<u8>) -> Option<CreateConsumerGroupView> {
        match Self::parse(s) {
            Some((value, _)) => Some(value),
            None => None,
        }
    }

    /// The decoder never reads past the end of its input.
    pub proof fn lemma_bound(s: Seq<u8>)
        ensures
            match Self::parse(s) {
                Some((_, n)) => 0 < n <= s.len(),
                None => true,
            },
    {
        reveal(CreateConsumerGroup::parse);
    }

    /// Reading back an encoded value gives the value and the length of its
    /// wire form, whatever follows it.
    pub proof fn lemma_parse(value: CreateConsumerGroupView, rest: Seq<u8>)
        requires
            value.wf(),
            value.canonical(),
        ensures
            Self::parse(value.wire() + rest) == Some((value, value.wire().len())),
            (value.wire() + rest).skip(value.wire().len() as int) == rest,
    {
        reveal(CreateConsumerGroup::parse);
        let s = value.wire() + rest;
        let w1 = value.stream_id.wire();
        let w2 = value.topic_id.wire();
        let w3 = opt_u32_wire(value.group_id);
        let w4 = text_wire(value.name);
        let u2 = w1 + w2;
        let u3 = u2 + w3;
        let t5 = rest;
        let t4 = w4 + t5;
        let t3 = w3 + t4;
        let t2 = w2 + t3;
        let t1 = w1 + t2;
        assert(s == t1) by {
            lemma_concat_assoc(u3, w4, t5);
            lemma_concat_assoc(u2, w3, t4);
            lemma_concat_assoc(w1, w2, t3);
        }
        assert(parse_identifier(s) == Some((value.stream_id, w1.len()))
            && s.skip(w1.len() as int) == t2) by {
            lemma_identifier_roundtrip(value.stream_id, t2);
        }
        assert(parse_identifier(s.skip(w1.len() as int)) == Some((value.topic_id, w2.len()))
            && s.skip((w1.len() + w2.len()) as int) == t3) by {
            lemma_identifier_roundtrip(value.topic_id, t3);
            lemma_skip_skip(s, w1.len() as int, w2.len() as int);
        }
        assert(parse_opt_u32(s.skip((w1.len() + w2.len()) as int)) == Some((value.group_id, w3.len()))
            && s.skip((w1.len() + w2.len() + w3.len()) as int) == t4) by {
            lemma_opt_u32_parse(value.group_id, t4);
            lemma_skip_skip(s, (w1.len() + w2.len()) as int, w3.len() as int);
        }
        assert(parse_text(s.skip((w1.len() + w2.len() + w3.len()) as int)) == Some((value.name, w4.len()))
            && s.skip((w1.len() + w2.len() + w3.len() + w4.len()) as int) == t5) by {
            lemma_text_parse(value.name, t5);
            lemma_skip_skip(s, (w1.len() + w2.len() + w3.len()) as int, w4.len() as int);
        }
    }

    /// Whatever follows an encoded value, a decoder that accepts it reads
    /// exactly the bytes of that value.
    pub proof fn lemma_consumed(value: CreateConsumerGroupView, rest: Seq<u8>)
        requires
            value.wf(),
        ensures
            match Self::parse(value.wire() + rest) {
                Some((_, n)) => n == value.wire().len(),
                None => true,
            },
            (value.wire() + rest).skip(value.wire().len() as int) == rest,
    {
        reveal(CreateConsumerGroup::parse);
        let s = value.wire() + rest;
        let w1 = value.stream_id.wire();
        let w2 = value.topic_id.wire();
        let w3 = opt_u32_wire(value.group_id);
        let w4 = text_wire(value.name);
        let u2 = w1 + w2;
        let u3 = u2 + w3;
        let t5 = rest;
        let t4 = w4 + t5;
        let t3 = w3 + t4;
        let t2 = w2 + t3;
        let t1 = w1 + t2;
        assert(s == t1) by {
            lemma_concat_assoc(u3, w4, t5);
            lemma_concat_assoc(u2, w3, t4);
            lemma_concat_assoc(w1, w2, t3);
        }
        lemma_skip_concat(value.wire(), rest);
        if Self::parse(s) is Some {
            assert(parse_identifier(s) is Some);
            assert(parse_identifier(s).unwrap().1 == w1.len()
                && s.skip(w1.len() as int) == t2) by {
                lemma_identifier_consumed(value.stream_id, t2);
            }
            assert(parse_identifier(s.skip(w1.len() as int)) is Some);
            assert(parse_identifier(s.skip(w1.len() as int)).unwrap().1 == w2.len()
                && s.skip((w1.len() + w2.len()) as int) == t3) by {
                lemma_identifier_consumed(value.topic_id, t3);
                lemma_skip_skip(s, w1.len() as int, w2.len() as int);
            }
            assert(parse_opt_u32(s.skip((w1.len() + w2.len()) as int)) is Some);
            assert(parse_opt_u32(s.skip((w1.len() + w2.len()) as int)).unwrap().1 == w3.len()
                && s.skip((w1.len() + w2.len() + w3.len()) as int) == t4) by {
                lemma_opt_u32_parse(value.group_id, t4);
                lemma_skip_skip(s, (w1.len() + w2.len()) as int, w3.len() as int);
            }
            assert(parse_text(s.skip((w1.len() + w2.len() + w3.len()) as int)) is Some);
            assert(parse_text(s.skip((w1.len() + w2.len() + w3.len()) as int)).unwrap().1 == w4.len()
                && s.skip((w1.len() + w2.len() + w3.len() + w4.len()) as int) == t5) by {
                lemma_text_parse(value.name, t5);
                lemma_skip_skip(s, (w1.len() + w2.len() + w3.len()) as int, w4.len() as int);
            }
        }
    }

    /// The decoder looks at nothing beyond the bytes it reads: an input that
    /// starts with the same bytes decodes to the same value.
    pub proof fn lemma_local(s: Seq<u8>, other: Seq<u8>)
        requires
            Self::parse(s) is Some,
            other.len() >= Self::parse(s).unwrap().1,
            other.take(Self::parse(s).unwrap().1 as int) == s.take(
                Self::parse(s).unwrap().1 as int,
            ),
        ensures
            Self::parse(other) == Self::parse(s),
    {
        reveal(CreateConsumerGroup::parse);
        Self::lemma_bound(s);
        let n = Self::parse(s).unwrap().1 as int;
        let n1 = parse_identifier(s).unwrap().1 as int;
        lemma_take_take(s, n, n1);
        lemma_take_take(other, n, n1);
        lemma_identifier_local(s, other);
        let n2 = parse_identifier(s.skip(n1)).unwrap().1 as int;
        lemma_window(s, other, n, n1, n2);
        lemma_identifier_local(s.skip(n1), other.skip(n1));
        let n3 = parse_opt_u32(s.skip(n1 + n2)).unwrap().1 as int;
        lemma_window(s, other, n, n1 + n2, n3);
        lemma_opt_u32_local(s.skip(n1 + n2), other.skip(n1 + n2));
        let n4 = parse_text(s.skip(n1 + n2 + n3)).unwrap().1 as int;
        lemma_window(s, other, n, n1 + n2 + n3, n4);
        lemma_text_local(s.skip(n1 + n2 + n3), other.skip(n1 + n2 + n3));
    }

    /// An encoded value cut short cannot be read.
    pub proof fn lemma_cut(value: CreateConsumerGroupView, k: int)
        requires
            value.wf(),
            0 <= k < value.wire().len(),
        ensures
            Self::parse(value.wire().take(k)) is None,
    {
        let w = value.wire();
        let s = w.take(k);
        if Self::parse(s) is Some {
            let n = Self::parse(s).unwrap().1 as int;
            Self::lemma_bound(s);
            lemma_take_take(w, k, n);
            Self::lemma_local(s, w);
            Self::lemma_consumed(value, Seq::empty());
            lemma_concat_empty(w);
        }
    }

    /// The wire form of a value that fits the wire is neither empty nor
    /// longer than 774 bytes.
    pub proof fn lemma_wire_len(value: CreateConsumerGroupView)
        requires
            value.wf(),
        ensures
            0 < value.wire().len() <= 774,
    {
    }

    /// A command that fits the wire and is in canonical form survives
    /// encoding and decoding.
    pub proof fn lemma_roundtrip(value: CreateConsumerGroupView)
        requires
            value.wf(),
            value.canonical(),
        ensures
            Self::decode(value.wire()) == Some(value),
    {
        Self::lemma_parse(value, Seq::empty());
        lemma_concat_empty(value.wire());
    }

    /// An encoded command whose last byte is cut off cannot be decoded.
    pub proof fn lemma_truncated(value: CreateConsumerGroupView)
        requires
            value.wf(),
        ensures
            value.wire().len() > 0,
            Self::decode(value.wire().drop_last()) is None,
    {
        Self::lemma_cut(value, value.wire().len() - 1);
        lemma_take_take(value.wire(), value.wire().len() as int, 0);
    }

    /// Commands of this kind come straight from a client.
    pub fn get_command_execution_origin(&self) -> (origin: CommandExecution)
        ensures
            origin == CommandExecution::Direct,
    {
        CommandExecution::Direct
    }

    /// Accepts the value where its fields fit the wire.
    pub fn validate(&self) -> (r: Result<(), IggyError>)
        ensures
            r is Ok <==> self@.wf(),
            r is Err ==> r == Err::<(), IggyError>(IggyError::InvalidCommand),
    {
        self.stream_id.validate()?;
        self.topic_id.validate()?;
        if !is_valid_opt_u32(self.group_id) {
            return Err(IggyError::InvalidCommand);
        }
        if !is_valid_text(&self.name) {
            return Err(IggyError::InvalidCommand);
        }
        Ok(())
    }

    /// The number of bytes of the wire form.
    pub fn size(&self) -> (n: usize)
        requires
            self@.wf(),
        ensures
            n == self@.wire().len(),
            n <= 774,
    {
        self.stream_id.get_size_bytes() as usize + self.topic_id.get_size_bytes() as usize + 4 + 1 + self.name.len()
    }

    /// Appends the wire form to `buf`.
    pub fn put(&self, buf: &mut BytesMut)
        requires
            self@.wf(),
            bytes_mut_view(*old(buf)).len() + self@.wire().len() <= isize::MAX,
        ensures
            bytes_mut_view(*final(buf)) == bytes_mut_view(*old(buf)) + self@.wire(),
    {
        let ghost before = bytes_mut_view(*buf);
        let ghost w1 = self.stream_id@.wire();
        let ghost w2 = self.topic_id@.wire();
        let ghost w3 = opt_u32_wire(self.group_id);
        let ghost w4 = text_wire(self.name@);
        let ghost u2 = w1 + w2;
        let ghost u3 = u2 + w3;
        self.stream_id.put(buf);
        self.topic_id.put(buf);
        proof {
            lemma_concat_assoc(before, w1, w2);
        }
        put_opt_u32(buf, self.group_id);
        proof {
            lemma_concat_assoc(before, u2, w3);
        }
        put_text(buf, &self.name);
        proof {
            lemma_concat_assoc(before, u3, w4);
        }
    }

    /// Decodes the value that starts at `pos` and returns it with the
    /// position just after it.
    pub fn read(s: &[u8], pos: usize) -> (r: Result<(CreateConsumerGroup, usize), IggyError>)
        requires
            pos <= s@.len(),
        ensures
            match r {
                Ok((value, next)) => Self::parse(s@.skip(pos as int)) == Some(
                    (value@, (next - pos) as nat),
                ) && pos < next <= s@.len() && value@.wf() && value@.canonical(),
                Err(e) => e == IggyError::InvalidCommand && Self::parse(s@.skip(pos as int))
                    is None,
            },
    {
        proof {
            reveal(CreateConsumerGroup::parse);
        }
        let (stream_id, p1) = Identifier::read(s, pos)?;
        proof {
            lemma_skip_skip(s@, pos as int, p1 - pos);
        }
        let (topic_id, p2) = Identifier::read(s, p1)?;
        proof {
            lemma_skip_skip(s@, pos as int, p2 - pos);
        }
        let (group_id, p3) = read_opt_u32(s, p2)?;
        proof {
            lemma_skip_skip(s@, pos as int, p3 - pos);
        }
        let (name, p4) = read_text_field(s, p3)?;
        Ok((CreateConsumerGroup { stream_id, topic_id, group_id, name }, p4))
    }

    /// Encodes the command.
    pub fn as_bytes(&self) -> (r: Bytes)
        requires
            self@.wf(),
        ensures
            bytes_view(r) == self@.wire(),
    {
        let mut bytes = BytesMut::with_capacity(self.size());
        self.put(&mut bytes);
        proof {
            assert(Seq::<u8>::empty() + self@.wire() =~= self@.wire());
        }
        bytes.freeze()
    }

    /// Decodes the command.  A payload that ends before the last field does
    /// is rejected.
    pub fn from_bytes(bytes: Bytes) -> (r: Result<CreateConsumerGroup, IggyError>)
        ensures
            match r {
                Ok(command) => Self::decode(bytes_view(bytes)) == Some(command@) && command@.wf() && command@.canonical(),
                Err(e) => e == IggyError::InvalidCommand && Self::decode(bytes_view(bytes))
                    is None,
            },
    {
        let s = as_slice(&bytes);
        proof {
            assert(s@.skip(0) =~= s@);
        }
        let (command, _) = CreateConsumerGroup::read(s, 0)?;
        command.validate()?;
        Ok(command)
    }
}

/// `DeleteConsumerGroup` command removes a consumer group from the topic.
#[derive(Debug, Clone, PartialEq, Default)]
pub struct DeleteConsumerGroup {
    /// Unique stream ID (numeric or name).
    pub stream_id: Identifier,
    /// Unique topic ID (numeric or name).
    pub topic_id: Identifier,
    /// Unique consumer group ID (numeric or name).
    pub group_id: Identifier,
}

impl View for DeleteConsumerGroup {
    type V = GroupPath;

    open spec fn view(&self) -> GroupPath {
        GroupPath {
            stream_id: self.stream_id@,
            topic_id: self.topic_id@,
            group_id: self.group_id@,
        }
    }
}

impl DeleteConsumerGroup {
    /// Commands of this kind come straight from a client.
    pub fn get_command_execution_origin(&self) -> (origin: CommandExecution)
        ensures
            origin == CommandExecution::Direct,
    {
        CommandExecution::Direct
    }

    /// There are no field rules beyond those of the identifiers themselves.
    pub fn validate(&self) -> (r: Result<(), IggyError>)
        ensures
            r is Ok,
    {
        Ok(())
    }

    /// Encodes the three identifiers, one after the other.
    pub fn as_bytes(&self) -> (r: Bytes)
        ensures
            bytes_view(r) == self@.wire(),
            self@.wf(),
    {
        encode_group_path(&self.stream_id, &self.topic_id, &self.group_id)
    }

    /// Decodes the three identifiers.  A payload shorter than 9 bytes cannot
    /// hold them and is rejected at once.
    pub fn from_bytes(bytes: Bytes) -> (r: Result<DeleteConsumerGroup, IggyError>)
        ensures
            match r {
                Ok(command) => parse_group_payload(bytes_view(bytes)) == Some(command@)
                    && command@.wf() && command@.canonical(),
                Err(e) => e == IggyError::InvalidCommand && parse_group_payload(
                    bytes_view(bytes),
                ) is None,
            },
            bytes_view(bytes).len() < 9 ==> r is Err,
    {
        let (stream_id, topic_id, group_id) = decode_group_path(bytes)?;
        let command = DeleteConsumerGroup { stream_id, topic_id, group_id };
        command.validate()?;
        Ok(command)
    }
}

/// `JoinConsumerGroup` command makes the calling client a member of the consumer group.
#[derive(Debug, Clone, PartialEq, Default)]
pub struct JoinConsumerGroup {
    /// Unique stream ID (numeric or name).
    pub stream_id: Identifier,
    /// Unique topic ID (numeric or name).
    pub topic_id: Identifier,
    /// Unique consumer group ID (numeric or name).
    pub group_id: Identifier,
}

impl View for JoinConsumerGroup {
    type V = GroupPath;

    open spec fn view(&self) -> GroupPath {
        GroupPath {
            stream_id: self.stream_id@,
            topic_id: self.topic_id@,
            group_id: self.group_id@,
        }
    }
}

impl JoinConsumerGroup {
    /// Commands of this kind come straight from a client.
    pub fn get_command_execution_origin(&self) -> (origin: CommandExecution)
        ensures
            origin == CommandExecution::Direct,
    {
        CommandExecution::Direct
    }

    /// There are no field rules beyond those of the identifiers themselves.
    pub fn validate(&self) -> (r: Result<(), IggyError>)
        ensures
            r is Ok,
    {
        Ok(())
    }

    /// Encodes the three identifiers, one after the other.
    pub fn as_bytes(&self) -> (r: Bytes)
        ensures
            bytes_view(r) == self@.wire(),
            self@.wf(),
    {
        encode_group_path(&self.stream_id, &self.topic_id, &self.group_id)
    }

    /// Decodes the three identifiers.  A payload shorter than 9 bytes cannot
    /// hold them and is rejected at once.
    pub fn from_bytes(bytes: Bytes) -> (r: Result<JoinConsumerGroup, IggyError>)
        ensures
            match r {
                Ok(command) => parse_group_payload(bytes_view(bytes)) == Some(command@)
                    && command@.wf() && command@.canonical(),
                Err(e) => e == IggyError::InvalidCommand && parse_group_payload(
                    bytes_view(bytes),
                ) is None,
            },
            bytes_view(bytes).len() < 9 ==> r is Err,
    {
        let (stream_id, topic_id, group_id) = decode_group_path(bytes)?;
        let command = JoinConsumerGroup { stream_id, topic_id, group_id };
        command.validate()?;
        Ok(command)
    }
}

/// `LeaveConsumerGroup` command ends the calling client's membership of the consumer group.
#[derive(Debug, Clone, PartialEq, Default)]
pub struct LeaveConsumerGroup {
    /// Unique stream ID (numeric or name).
    pub stream_id: Identifier,
    /// Unique topic ID (numeric or name).
    pub topic_id: Identifier,
    /// Unique consumer group ID (numeric or name).
    pub group_id: Identifier,
}

impl View for LeaveConsumerGroup {
    type V = GroupPath;

    open spec fn view(&self) -> GroupPath {
        GroupPath {
            stream_id: self.stream_id@,
            topic_id: self.topic_id@,
            group_id: self.group_id@,
        }
    }
}

impl LeaveConsumerGroup {
    /// Commands of this kind come straight from a client.
    pub fn get_command_execution_origin(&self) -> (origin: CommandExecution)
        ensures
            origin == CommandExecution::Direct,
    {
        CommandExecution::Direct
    }

    /// There are no field rules beyond those of the identifiers themselves.
    pub fn validate(&self) -> (r: Result<(), IggyError>)
        ensures
            r is Ok,
    {
        Ok(())
    }

    /// Encodes the three identifiers, one after the other.
    pub fn as_bytes(&self) -> (r: Bytes)
        ensures
            bytes_view(r) == self@.wire(),
            self@.wf(),
    {
        encode_group_path(&self.stream_id, &self.topic_id, &self.group_id)
    }

    /// Decodes the three identifiers.  A payload shorter than 9 bytes cannot
    /// hold them and is rejected at once.
    pub fn from_bytes(bytes: Bytes) -> (r: Result<LeaveConsumerGroup, IggyError>)
        ensures
            match r {
                Ok(command) => parse_group_payload(bytes_view(bytes)) == Some(command@)
                    && command@.wf() && command@.canonical(),
                Err(e) => e == IggyError::InvalidCommand && parse_group_payload(
                    bytes_view(bytes),
                ) is None,
            },
            bytes_view(bytes).len() < 9 ==> r is Err,
    {
        let (stream_id, topic_id, group_id) = decode_group_path(bytes)?;
        let command = LeaveConsumerGroup { stream_id, topic_id, group_id };
        command.validate()?;
        Ok(command)
    }
}

} // verus!
