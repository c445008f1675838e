//! Commands on the topics of a stream.

use crate::buffer::as_slice;
use crate::buffer::bytes_mut_view;
use crate::buffer::bytes_view;
use crate::error::IggyError;
use crate::identifier::Identifier;
use crate::identifier::IdentifierView;
use crate::identifier::lemma_identifier_local;
use crate::identifier::lemma_identifier_roundtrip;
use crate::identifier::parse_identifier;
use crate::payload::CommandExecution;
use crate::payload::TopicPath;
use crate::payload::decode_identifier_payload;
use crate::payload::decode_topic_path;
use crate::payload::encode_topic_path;
use crate::payload::lemma_identifier_consumed;
use crate::payload::lemma_skip_skip;
use crate::payload::parse_identifier_payload;
use crate::payload::parse_topic_payload;
use crate::wire::is_valid_opt_u32;
use crate::wire::is_valid_opt_u64;
use crate::wire::is_valid_text;
use crate::wire::lemma_concat_assoc;
use crate::wire::lemma_concat_empty;
use crate::wire::lemma_opt_u32_local;
use crate::wire::lemma_opt_u32_parse;
use crate::wire::lemma_opt_u64_local;
use crate::wire::lemma_opt_u64_parse;
use crate::wire::lemma_same_front;
use crate::wire::lemma_skip_concat;
use crate::wire::lemma_take_take;
use crate::wire::lemma_text_local;
use crate::wire::lemma_text_parse;
use crate::wire::lemma_u32_local;
use crate::wire::lemma_u32_parse;
use crate::wire::lemma_u8_local;
use crate::wire::lemma_u8_parse;
use crate::wire::lemma_window;
use crate::wire::opt_u32_wire;
use crate::wire::opt_u64_wire;
use crate::wire::parse_opt_u32;
use crate::wire::parse_opt_u64;
use crate::wire::parse_text;
use crate::wire::parse_u32;
use crate::wire::parse_u8;
use crate::wire::put_byte;
use crate::wire::put_opt_u32;
use crate::wire::put_opt_u64;
use crate::wire::put_text;
use crate::wire::put_u32_le;
use crate::wire::read_opt_u32;
use crate::wire::read_opt_u64;
use crate::wire::read_text_field;
use crate::wire::read_u32;
use crate::wire::read_u8;
use crate::wire::text_wire;
use crate::wire::u32_le;
use crate::wire::u8_wire;
use crate::wire::valid_opt_u32;
use crate::wire::valid_opt_u64;
use crate::wire::valid_text;
use bytes::Bytes;
use bytes::BytesMut;
use vstd::prelude::*;

verus! {

/// How the messages of a topic are compressed at rest.
#[derive(Debug, Clone, Copy, PartialEq, Eq, Structural)]
pub enum CompressionAlgorithm {
    /// Messages are stored as they arrive.
    Plain,
    /// Messages are compressed with gzip.
    Gzip,
}

impl CompressionAlgorithm {
    /// The byte that stands for this compression algorithm on the wire.
    pub open spec fn spec_code(self) -> u8 {
        match self {
            CompressionAlgorithm::Plain => 1,
            CompressionAlgorithm::Gzip => 2,
        }
    }

    /// The compression algorithm that a byte stands for, if any.
    pub open spec fn spec_from_code(code: u8) -> Option<CompressionAlgorithm> {
        if code == 1 {
            Some(CompressionAlgorithm::Plain)
        } else if code == 2 {
            Some(CompressionAlgorithm::Gzip)
        } else {
            None
        }
    }

    /// The wire form: one byte.
    pub open spec fn wire(self) -> Seq<u8> {
        seq![self.spec_code()]
    }

    /// Reads a compression algorithm from the front of `s`; an unknown byte is rejected.
    pub open spec fn parse(s: Seq<u8>) -> Option<(CompressionAlgorithm, nat)> {
        if s.len() < 1 {
            None
        } else {
            match Self::spec_from_code(s[0]) {
                Some(value) => Some((value, 1nat)),
                None => None,
            }
        }
    }

    /// Reading back an encoded compression algorithm gives it back, whatever follows it.
    pub proof fn lemma_parse(value: CompressionAlgorithm, rest: Seq<u8>)
        ensures
            Self::parse(value.wire() + rest) == Some((value, value.wire().len())),
            (value.wire() + rest).skip(value.wire().len() as int) == rest,
            value.wire().len() == 1,
    {
        assert((value.wire() + rest)[0] == value.spec_code());
        assert((value.wire() + rest).skip(1) =~= rest);
    }

    /// Reading a compression algorithm looks at nothing beyond its one byte.
    pub proof fn lemma_local(s: Seq<u8>, other: Seq<u8>)
        requires
            Self::parse(s) is Some,
            other.len() >= Self::parse(s).unwrap().1,
            other.take(Self::parse(s).unwrap().1 as int) == s.take(
                Self::parse(s).unwrap().1 as int,
            ),
        ensures
            Self::parse(other) == Self::parse(s),
    {
        lemma_same_front(s, other, 1);
    }

    /// Returns the byte that stands for this compression algorithm on the wire.
    pub fn as_code(&self) -> (code: u8)
        ensures
            code == self.spec_code(),
    {
        match self {
            CompressionAlgorithm::Plain => 1,
            CompressionAlgorithm::Gzip => 2,
        }
    }

    /// Reads a compression algorithm from its byte; an unknown byte is rejected.
    pub fn from_code(code: u8) -> (r: Result<CompressionAlgorithm, IggyError>)
        ensures
            match r {
                Ok(value) => Self::spec_from_code(code) == Some(value),
                Err(e) => e == IggyError::InvalidCommand && Self::spec_from_code(code) is None,
            },
    {
        match code {
            1 => Ok(CompressionAlgorithm::Plain),
            2 => Ok(CompressionAlgorithm::Gzip),
            _ => Err(IggyError::InvalidCommand),
        }
    }

    /// Appends the wire form to `buf`.
    pub fn put(&self, buf: &mut BytesMut)
        requires
            bytes_mut_view(*old(buf)).len() + 1 <= isize::MAX,
        ensures
            bytes_mut_view(*final(buf)) == bytes_mut_view(*old(buf)) + self.wire(),
    {
        put_byte(buf, self.as_code());
    }

    /// Reads the compression algorithm at `pos`.
    pub fn read(s: &[u8], pos: usize) -> (r: Result<(CompressionAlgorithm, usize), IggyError>)
        requires
            pos <= s@.len(),
        ensures
            match r {
                Ok((value, next)) => Self::parse(s@.skip(pos as int)) == Some(
                    (value, (next - pos) as nat),
                ) && pos < next <= s@.len(),
                Err(e) => e == IggyError::InvalidCommand && Self::parse(s@.skip(pos as int))
                    is None,
            },
    {
        if s.len() - pos < 1 {
            return Err(IggyError::InvalidCommand);
        }
        let value = CompressionAlgorithm::from_code(s[pos])?;
        Ok((value, pos + 1))
    }
}

/// `GetTopic` command is used to retrieve the information about a topic by unique ID.
#[derive(Debug, Clone, PartialEq, Default)]
pub struct GetTopic {
    /// Unique stream ID (numeric or name).
    pub stream_id: Identifier,
    /// Unique topic ID (numeric or name).
    pub topic_id: Identifier,
}

impl View for GetTopic {
    type V = TopicPath;

    open spec fn view(&self) -> TopicPath {
        TopicPath { stream_id: self.stream_id@, topic_id: self.topic_id@ }
    }
}

impl GetTopic {
    /// Commands of this kind come straight from a client.
    pub fn get_command_execution_origin(&self) -> (origin: CommandExecution)
        ensures
            origin == CommandExecution::Direct,
    {
        CommandExecution::Direct
    }

    /// There are no field rules beyond those of the identifiers themselves.
    pub fn validate(&self) -> (r: Result<(), IggyError>)
        ensures
            r is Ok,
    {
        Ok(())
    }

    /// Encodes the two identifiers, one after the other.
    pub fn as_bytes(&self) -> (r: Bytes)
        ensures
            bytes_view(r) == self@.wire(),
            self@.wf(),
    {
        encode_topic_path(&self.stream_id, &self.topic_id)
    }

    /// Decodes the two identifiers.  A payload shorter than 6 bytes cannot
    /// hold them and is rejected at once.
    pub fn from_bytes(bytes: Bytes) -> (r: Result<GetTopic, IggyError>)
        ensures
            match r {
                Ok(command) => parse_topic_payload(bytes_view(bytes)) == Some(command@)
                    && command@.wf() && command@.canonical(),
                Err(e) => e == IggyError::InvalidCommand && parse_topic_payload(
                    bytes_view(bytes),
                ) is None,
            },
            bytes_view(bytes).len() < 6 ==> r is Err,
    {
        let (stream_id, topic_id) = decode_topic_path(bytes)?;
        let command = GetTopic { stream_id, topic_id };
        command.validate()?;
        Ok(command)
    }
}

/// `GetTopics` command is used to retrieve the information about all the topics of a stream.
#[derive(Debug, Clone, PartialEq, Default)]
pub struct GetTopics {
    /// Unique stream ID (numeric or name).
    pub stream_id: Identifier,
}

impl View for GetTopics {
    type V = IdentifierView;

    open spec fn view(&self) -> IdentifierView {
        self.stream_id@
    }
}

impl GetTopics {
    /// Commands of this kind come straight from a client.
    pub fn get_command_execution_origin(&self) -> (origin: CommandExecution)
        ensures
            origin == CommandExecution::Direct,
    {
        CommandExecution::Direct
    }

    /// There are no field rules beyond those of the identifiers themselves.
    pub fn validate(&self) -> (r: Result<(), IggyError>)
        ensures
            r is Ok,
    {
        Ok(())
    }

    /// Encodes the identifier.
    pub fn as_bytes(&self) -> (r: Bytes)
        ensures
            bytes_view(r) == self@.wire(),
            self@.wf(),
    {
        self.stream_id.as_bytes()
    }

    /// Decodes the identifier.  A payload shorter than 3 bytes cannot hold
    /// one and is rejected at once.
    pub fn from_bytes(bytes: Bytes) -> (r: Result<GetTopics, IggyError>)
        ensures
            match r {
                Ok(command) => parse_identifier_payload(bytes_view(bytes)) == Some(command@)
                    && command@.wf() && command@.canonical(),
                Err(e) => e == IggyError::InvalidCommand && parse_identifier_payload(
                    bytes_view(bytes),
                ) is None,
            },
            bytes_view(bytes).len() < 3 ==> r is Err,
    {
        let stream_id = decode_identifier_payload(bytes)?;
        let command = GetTopics { stream_id };
        command.validate()?;
        Ok(command)
    }
}

/// `CreateTopic` command is used to create a new topic in a stream.
#[derive(Debug, Clone, PartialEq)]
pub struct CreateTopic {
    /// Unique stream ID (numeric or name).
    pub stream_id: Identifier,
    /// Numeric ID of the new topic; the broker picks the next free one where this is `None`.
    pub topic_id: Option<u32>,
    /// Number of partitions to create the topic with.
    pub partitions_count: u32,
    /// Compression of the stored messages.
    pub compression_algorithm: CompressionAlgorithm,
    /// Seconds after which a message expires; `None` for never.
    pub message_expiry: Option<u32>,
    /// Largest size of the topic in bytes; `None` for unlimited.
    pub max_topic_size: Option<u64>,
    /// Number of copies of each partition.
    pub replication_factor: u8,
    /// Unique topic name, 1 to 255 bytes of UTF-8 text.
    pub name: Vec<u8>,
}

/// The mathematical value of a [`CreateTopic`].
pub struct CreateTopicView {
    pub stream_id: IdentifierView,
    pub topic_id: Option<u32>,
    pub partitions_count: u32,
    pub compression_algorithm: CompressionAlgorithm,
    pub message_expiry: Option<u32>,
    pub max_topic_size: Option<u64>,
    pub replication_factor: u8,
    pub name: Seq<u8>,
}

impl CreateTopicView {
    /// The fields fit the wire.
    pub open spec fn wf(self) -> bool {
        self.stream_id.wf()
            && valid_opt_u32(self.topic_id)
            && valid_opt_u32(self.message_expiry)
            && valid_opt_u64(self.max_topic_size)
            && valid_text(self.name)
    }

    /// The identifiers come back from the wire unchanged.
    pub open spec fn canonical(self) -> bool {
        self.stream_id.canonical()
    }

    /// The wire form: stream, topic id (0 for none), partitions count,
    /// compression, expiry (0 for none), size limit (0 for none), replication
    /// factor, name.
    pub open spec fn wire(self) -> Seq<u8> {
        self.stream_id.wire()
            + opt_u32_wire(self.topic_id)
            + u32_le(self.partitions_count)
            + self.compression_algorithm.wire()
            + opt_u32_wire(self.message_expiry)
            + opt_u64_wire(self.max_topic_size)
            + u8_wire(self.replication_factor)
            + text_wire(self.name)
    }
}

impl View for CreateTopic {
    type V = CreateTopicView;

    open spec fn view(&self) -> CreateTopicView {
        CreateTopicView {
            stream_id: self.stream_id@,
            topic_id: self.topic_id,
            partitions_count: self.partitions_count,
            compression_algorithm: self.compression_algorithm,
            message_expiry: self.message_expiry,
            max_topic_size: self.max_topic_size,
            replication_factor: self.replication_factor,
            name: self.name@,
        }
    }
}

impl CreateTopic {
    /// Reads the fields, one after the other, from the front of `s`; the
    /// count is the number of bytes they took.
    #[verifier::opaque]
    pub open spec fn parse(s: Seq<u8>) -> Option<(CreateTopicView, nat)> {
        match parse_identifier(s) {
            Some((stream_id, n1)) => match parse_opt_u32(s.skip(n1 as int)) {
                Some((topic_id, n2)) => match parse_u32(s.skip((n1 + n2) as int)) {
                    Some((partitions_count, n3)) => match CompressionAlgorithm::parse(
                        s.skip((n1 + n2 + n3) as int),
                    ) {
                        Some((compression_algorithm, n4)) => match parse_opt_u32(
                            s.skip((n1 + n2 + n3 + n4) as int),
                        ) {
                            Some((message_expiry, n5)) => match parse_opt_u64(
                                s.skip((n1 + n2 + n3 + n4 + n5) as int),
                            ) {
                                Some((max_topic_size, n6)) => match parse_u8(
                                    s.skip((n1 + n2 + n3 + n4 + n5 + n6) as int),
                                ) {
                                    Some((replication_factor, n7)) => match parse_text(
                                        s.skip((n1 + n2 + n3 + n4 + n5 + n6 + n7) as int),
                                    ) {
                                        Some((name, n8)) => Some(
                                            (CreateTopicView { stream_id, topic_id, partitions_count, compression_algorithm, message_expiry, max_topic_size, replication_factor, name }, n1 + n2 + n3 + n4 + n5 + n6 + n7 + n8),
                                        ),
                                        None => None,
                                    },
                                    None => None,
                                },
                                None => None,
                            },
                            None => None,
                        },
                        None => None,
                    },
                    None => None,
                },
                None => None,
            },
            None => None,
        }
    }

    /// What a payload decodes to.  Bytes after the last field are ignored.
    pub open spec fn decode(s: Seq<u8>) -> Option<CreateTopicView> {
        match Self::parse(s) {
            Some((value, _)) => Some(value),
            None => None,
        }
    }

    /// The decoder never reads past the end of its input.
    pub proof fn lemma_bound(s: Seq<u8>)
        ensures
            match Self::parse(s) {
                Some((_, n)) => 0 < n <= s.len(),
                None => true,
            },
    {
        reveal(CreateTopic::parse);
    }

    /// Reading back an encoded value gives the value and the length of its
    /// wire form, whatever follows it.
    pub proof fn lemma_parse(value: CreateTopicView, rest: Seq<u8>)
        requires
            value.wf(),
            value.canonical(),
        ensures
            Self::parse(value.wire() + rest) == Some((value, value.wire().len())),
            (value.wire() + rest).skip(value.wire().len() as int) == rest,
    {
        reveal(CreateTopic::parse);
        let s = value.wire() + rest;
        let w1 = value.stream_id.wire();
        let w2 = opt_u32_wire(value.topic_id);
        let w3 = u32_le(value.partitions_count);
        let w4 = value.compression_algorithm.wire();
        let w5 = opt_u32_wire(value.message_expiry);
        let w6 = opt_u64_wire(value.max_topic_size);
        let w7 = u8_wire(value.replication_factor);
        let w8 = text_wire(value.name);
        let u2 = w1 + w2;
        let u3 = u2 + w3;
        let u4 = u3 + w4;
        let u5 = u4 + w5;
        let u6 = u5 + w6;
        let u7 = u6 + w7;
        let t9 = rest;
        let t8 = w8 + t9;
        let t7 = w7 + t8;
        let t6 = w6 + t7;
        let t5 = w5 + t6;
        let t4 = w4 + t5;
        let t3 = w3 + t4;
        let t2 = w2 + t3;
        let t1 = w1 + t2;
        assert(s == t1) by {
            lemma_concat_assoc(u7, w8, t9);
            lemma_concat_assoc(u6, w7, t8);
            lemma_concat_assoc(u5, w6, t7);
            lemma_concat_assoc(u4, w5, t6);
            lemma_concat_assoc(u3, w4, t5);
            lemma_concat_assoc(u2, w3, t4);
            lemma_concat_assoc(w1, w2, t3);
        }
        assert(parse_identifier(s) == Some((value.stream_id, w1.len()))
            && s.skip(w1.len() as int) == t2) by {
            lemma_identifier_roundtrip(value.stream_id, t2);
        }
        assert(parse_opt_u32(s.skip(w1.len() as int)) == Some((value.topic_id, w2.len()))
            && s.skip((w1.len() + w2.len()) as int) == t3) by {
            lemma_opt_u32_parse(value.topic_id, t3);
            lemma_skip_skip(s, w1.len() as int, w2.len() as int);
        }
        assert(parse_u32(s.skip((w1.len() + w2.len()) as int)) == Some((value.partitions_count, w3.len()))
            && s.skip((w1.len() + w2.len() + w3.len()) as int) == t4) by {
            lemma_u32_parse(value.partitions_count, t4);
            lemma_skip_skip(s, (w1.len() + w2.len()) as int, w3.len() as int);
        }
        assert(CompressionAlgorithm::parse(s.skip((w1.len() + w2.len() + w3.len()) as int)) == Some((value.compression_algorithm, w4.len()))
            && s.skip((w1.len() + w2.len() + w3.len() + w4.len()) as int) == t5) by {
            CompressionAlgorithm::lemma_parse(value.compression_algorithm, t5);
            lemma_skip_skip(s, (w1.len() + w2.len() + w3.len()) as int, w4.len() as int);
        }
        assert(parse_opt_u32(s.skip((w1.len() + w2.len() + w3.len() + w4.len()) as int)) == Some((value.message_expiry, w5.len()))
            && s.skip((w1.len() + w2.len() + w3.len() + w4.len() + w5.len()) as int) == t6) by {
            lemma_opt_u32_parse(value.message_expiry, t6);
            lemma_skip_skip(s, (w1.len() + w2.len() + w3.len() + w4.len()) as int, w5.len() as int);
        }
        assert(parse_opt_u64(s.skip((w1.len() + w2.len() + w3.len() + w4.len() + w5.len()) as int)) == Some((value.max_topic_size, w6.len()))
            && s.skip((w1.len() + w2.len() + w3.len() + w4.len() + w5.len() + w6.len()) as int) == t7) by {
            lemma_opt_u64_parse(value.max_topic_size, t7);
            lemma_skip_skip(s, (w1.len() + w2.len() + w3.len() + w4.len() + w5.len()) as int, w6.len() as int);
        }
        assert(parse_u8(s.skip((w1.len() + w2.len() + w3.len() + w4.len() + w5.len() + w6.len()) as int)) == Some((value.replication_factor, w7.len()))
            && s.skip((w1.len() + w2.len() + w3.len() + w4.len() + w5.len() + w6.len() + w7.len()) as int) == t8) by {
            lemma_u8_parse(value.replication_factor, t8);
            lemma_skip_skip(s, (w1.len() + w2.len() + w3.len() + w4.len() + w5.len() + w6.len()) as int, w7.len() as int);
        }
        assert(parse_text(s.skip((w1.len() + w2.len() + w3.len() + w4.len() + w5.len() + w6.len() + w7.len()) as int)) == Some((value.name, w8.len()))
            && s.skip((w1.len() + w2.len() + w3.len() + w4.len() + w5.len() + w6.len() + w7.len() + w8.len()) as int) == t9) by {
            lemma_text_parse(value.name, t9);
            lemma_skip_skip(s, (w1.len() + w2.len() + w3.len() + w4.len() + w5.len() + w6.len() + w7.len()) as int, w8.len() as int);
        }
    }

    /// Whatever follows an encoded value, a decoder that accepts it reads
    /// exactly the bytes of that value.
    pub proof fn lemma_consumed(value: CreateTopicView, rest: Seq<u8>)
        requires
            value.wf(),
        ensures
            match Self::parse(value.wire() + rest) {
                Some((_, n)) => n == value.wire().len(),
                None => true,
            },
            (value.wire() + rest).skip(value.wire().len() as int) == rest,
    {
        reveal(CreateTopic::parse);
        let s = value.wire() + rest;
        let w1 = value.stream_id.wire();
        let w2 = opt_u32_wire(value.topic_id);
        let w3 = u32_le(value.partitions_count);
        let w4 = value.compression_algorithm.wire();
        let w5 = opt_u32_wire(value.message_expiry);
        let w6 = opt_u64_wire(value.max_topic_size);
        let w7 = u8_wire(value.replication_factor);
        let w8 = text_wire(value.name);
        let u2 = w1 + w2;
        let u3 = u2 + w3;
        let u4 = u3 + w4;
        let u5 = u4 + w5;
        let u6 = u5 + w6;
        let u7 = u6 + w7;
        let t9 = rest;
        let t8 = w8 + t9;
        let t7 = w7 + t8;
        let t6 = w6 + t7;
        let t5 = w5 + t6;
        let t4 = w4 + t5;
        let t3 = w3 + t4;
        let t2 = w2 + t3;
        let t1 = w1 + t2;
        assert(s == t1) by {
            lemma_concat_assoc(u7, w8, t9);
            lemma_concat_assoc(u6, w7, t8);
            lemma_concat_assoc(u5, w6, t7);
            lemma_concat_assoc(u4, w5, t6);
            lemma_concat_assoc(u3, w4, t5);
            lemma_concat_assoc(u2, w3, t4);
            lemma_concat_assoc(w1, w2, t3);
        }
        lemma_skip_concat(value.wire(), rest);
        if Self::parse(s) is Some {
            assert(parse_identifier(s) is Some);
            assert(parse_identifier(s).unwrap().1 == w1.len()
                && s.skip(w1.len() as int) == t2) by {
                lemma_identifier_consumed(value.stream_id, t2);
            }
            assert(parse_opt_u32(s.skip(w1.len() as int)) is Some);
            assert(parse_opt_u32(s.skip(w1.len() as int)).unwrap().1 == w2.len()
                && s.skip((w1.len() + w2.len()) as int) == t3) by {
                lemma_opt_u32_parse(value.topic_id, t3);
                lemma_skip_skip(s, w1.len() as int, w2.len() as int);
            }
            assert(parse_u32(s.skip((w1.len() + w2.len()) as int)) is Some);
            assert(parse_u32(s.skip((w1.len() + w2.len()) as int)).unwrap().1 == w3.len()
                && s.skip((w1.len() + w2.len() + w3.len()) as int) == t4) by {
                lemma_u32_parse(value.partitions_count, t4);
                lemma_skip_skip(s, (w1.len() + w2.len()) as int, w3.len() as int);
            }
            assert(CompressionAlgorithm::parse(s.skip((w1.len() + w2.len() + w3.len()) as int)) is Some);
            assert(CompressionAlgorithm::parse(s.skip((w1.len() + w2.len() + w3.len()) as int)).unwrap().1 == w4.len()
                && s.skip((w1.len() + w2.len() + w3.len() + w4.len()) as int) == t5) by {
                CompressionAlgorithm::lemma_parse(value.compression_algorithm, t5);
                lemma_skip_skip(s, (w1.len() + w2.len() + w3.len()) as int, w4.len() as int);
            }
            assert(parse_opt_u32(s.skip((w1.len() + w2.len() + w3.len() + w4.len()) as int)) is Some);
            assert(parse_opt_u32(s.skip((w1.len() + w2.len() + w3.len() + w4.len()) as int)).unwrap().1 == w5.len()
                && s.skip((w1.len() + w2.len() + w3.len() + w4.len() + w5.len()) as int) == t6) by {
                lemma_opt_u32_parse(value.message_expiry, t6);
                lemma_skip_skip(s, (w1.len() + w2.len() + w3.len() + w4.len()) as int, w5.len() as int);
            }
            assert(parse_opt_u64(s.skip((w1.len() + w2.len() + w3.len() + w4.len() + w5.len()) as int)) is Some);
            assert(parse_opt_u64(s.skip((w1.len() + w2.len() + w3.len() + w4.len() + w5.len()) as int)).unwrap().1 == w6.len()
                && s.skip((w1.len() + w2.len() + w3.len() + w4.len() + w5.len() + w6.len()) as int) == t7) by {
                lemma_opt_u64_parse(value.max_topic_size, t7);
                lemma_skip_skip(s, (w1.len() + w2.len() + w3.len() + w4.len() + w5.len()) as int, w6.len() as int);
            }
            assert(parse_u8(s.skip((w1.len() + w2.len() + w3.len() + w4.len() + w5.len() + w6.len()) as int)) is Some);
            assert(parse_u8(s.skip((w1.len() + w2.len() + w3.len() + w4.len() + w5.len() + w6.len()) as int)).unwrap().1 == w7.len()
                && s.skip((w1.len() + w2.len() + w3.len() + w4.len() + w5.len() + w6.len() + w7.len()) as int) == t8) by {
                lemma_u8_parse(value.replication_factor, t8);
                lemma_skip_skip(s, (w1.len() + w2.len() + w3.len() + w4.len() + w5.len() + w6.len()) as int, w7.len() as int);
            }
            assert(parse_text(s.skip((w1.len() + w2.len() + w3.len() + w4.len() + w5.len() + w6.len() + w7.len()) as int)) is Some);
            assert(parse_text(s.skip((w1.len() + w2.len() + w3.len() + w4.len() + w5.len() + w6.len() + w7.len()) as int)).unwrap().1 == w8.len()
                && s.skip((w1.len() + w2.len() + w3.len() + w4.len() + w5.len() + w6.len() + w7.len() + w8.len()) as int) == t9) by {
                lemma_text_parse(value.name, t9);
                lemma_skip_skip(s, (w1.len() + w2.len() + w3.len() + w4.len() + w5.len() + w6.len() + w7.len()) as int, w8.len() as int);
            }
        }
    }

    /// The decoder looks at nothing beyond the bytes it reads: an input that
    /// starts with the same bytes decodes to the same value.
    pub proof fn lemma_local(s: Seq<u8>, other: Seq<u8>)
        requires
            Self::parse(s) is Some,
            other.len() >= Self::parse(s).unwrap().1,
            other.take(Self::parse(s).unwrap().1 as int) == s.take(
                Self::parse(s).unwrap().1 as int,
            ),
        ensures
            Self::parse(other) == Self::parse(s),
    {
        reveal(CreateTopic::parse);
        Self::lemma_bound(s);
        let n = Self::parse(s).unwrap().1 as int;
        let n1 = parse_identifier(s).unwrap().1 as int;
        lemma_take_take(s, n, n1);
        lemma_take_take(other, n, n1);
        lemma_identifier_local(s, other);
        let n2 = parse_opt_u32(s.skip(n1)).unwrap().1 as int;
        lemma_window(s, other, n, n1, n2);
        lemma_opt_u32_local(s.skip(n1), other.skip(n1));
        let n3 = parse_u32(s.skip(n1 + n2)).unwrap().1 as int;
        lemma_window(s, other, n, n1 + n2, n3);
        lemma_u32_local(s.skip(n1 + n2), other.skip(n1 + n2));
        let n4 = CompressionAlgorithm::parse(s.skip(n1 + n2 + n3)).unwrap().1 as int;
        lemma_window(s, other, n, n1 + n2 + n3, n4);
        CompressionAlgorithm::lemma_local(s.skip(n1 + n2 + n3), other.skip(n1 + n2 + n3));
        let n5 = parse_opt_u32(s.skip(n1 + n2 + n3 + n4)).unwrap().1 as int;
        lemma_window(s, other, n, n1 + n2 + n3 + n4, n5);
        lemma_opt_u32_local(s.skip(n1 + n2 + n3 + n4), other.skip(n1 + n2 + n3 + n4));
        let n6 = parse_opt_u64(s.skip(n1 + n2 + n3 + n4 + n5)).unwrap().1 as int;
        lemma_window(s, other, n, n1 + n2 + n3 + n4 + n5, n6);
        lemma_opt_u64_local(s.skip(n1 + n2 + n3 + n4 + n5), other.skip(n1 + n2 + n3 + n4 + n5));
        let n7 = parse_u8(s.skip(n1 + n2 + n3 + n4 + n5 + n6)).unwrap().1 as int;
        lemma_window(s, other, n, n1 + n2 + n3 + n4 + n5 + n6, n7);
        lemma_u8_local(s.skip(n1 + n2 + n3 + n4 + n5 + n6), other.skip(n1 + n2 + n3 + n4 + n5 + n6));
        let n8 = parse_text(s.skip(n1 + n2 + n3 + n4 + n5 + n6 + n7)).unwrap().1 as int;
        lemma_window(s, other, n, n1 + n2 + n3 + n4 + n5 + n6 + n7, n8);
        lemma_text_local(s.skip(n1 + n2 + n3 + n4 + n5 + n6 + n7), other.skip(n1 + n2 + n3 + n4 + n5 + n6 + n7));
    }

    /// An encoded value cut short cannot be read.
    pub proof fn lemma_cut(value: CreateTopicView, k: int)
        requires
            value.wf(),
            0 <= k < value.wire().len(),
        ensures
            Self::parse(value.wire().take(k)) is None,
    {
        let w = value.wire();
        let s = w.take(k);
        if Self::parse(s) is Some {
            let n = Self::parse(s).unwrap().1 as int;
            Self::lemma_bound(s);
            lemma_take_take(w, k, n);
            Self::lemma_local(s, w);
            Self::lemma_consumed(value, Seq::empty());
            lemma_concat_empty(w);
        }
    }

    /// The wire form of a value that fits the wire is neither empty nor
    /// longer than 535 bytes.
    pub proof fn lemma_wire_len(value: CreateTopicView)
        requires
            value.wf(),
        ensures
            0 < value.wire().len() <= 535,
    {
    }

    /// A command that fits the wire and is in canonical form survives
    /// encoding and decoding.
    pub proof fn lemma_roundtrip(value: CreateTopicView)
        requires
            value.wf(),
            value.canonical(),
        ensures
            Self::decode(value.wire()) == Some(value),
    {
        Self::lemma_parse(value, Seq::empty());
        lemma_concat_empty(value.wire());
    }

    /// An encoded command whose last byte is cut off cannot be decoded.
    pub proof fn lemma_truncated(value: CreateTopicView)
        requires
            value.wf(),
        ensures
            value.wire().len() > 0,
            Self::decode(value.wire().drop_last()) is None,
    {
        Self::lemma_cut(value, value.wire().len() - 1);
        lemma_take_take(value.wire(), value.wire().len() as int, 0);
    }

    /// Commands of this kind come straight from a client.
    pub fn get_command_execution_origin(&self) -> (origin: CommandExecution)
        ensures
            origin == CommandExecution::Direct,
    {
        CommandExecution::Direct
    }

    /// Accepts the value where its fields fit the wire.
    pub fn validate(&self) -> (r: Result<(), IggyError>)
        ensures
            r is Ok <==> self@.wf(),
            r is Err ==> r == Err::<(), IggyError>(IggyError::InvalidCommand),
    {
        self.stream_id.validate()?;
        if !is_valid_opt_u32(self.topic_id) {
            return Err(IggyError::InvalidCommand);
        }
        if !is_valid_opt_u32(self.message_expiry) {
            return Err(IggyError::InvalidCommand);
        }
        if !is_valid_opt_u64(self.max_topic_size) {
            return Err(IggyError::InvalidCommand);
        }
        if !is_valid_text(&self.name) {
            return Err(IggyError::InvalidCommand);
        }
        Ok(())
    }

    /// The number of bytes of the wire form.
    pub fn size(&self) -> (n: usize)
        requires
            self@.wf(),
        ensures
            n == self@.wire().len(),
            n <= 535,
    {
        self.stream_id.get_size_bytes() as usize + 4 + 4 + 1 + 4 + 8 + 1 + 1 + self.name.len()
    }

    /// Appends the wire form to `buf`.
    pub fn put(&self, buf: &mut BytesMut)
        requires
            self@.wf(),
            bytes_mut_view(*old(buf)).len() + self@.wire().len() <= isize::MAX,
        ensures
            bytes_mut_view(*final(buf)) == bytes_mut_view(*old(buf)) + self@.wire(),
    {
        let ghost before = bytes_mut_view(*buf);
        let ghost w1 = self.stream_id@.wire();
        let ghost w2 = opt_u32_wire(self.topic_id);
        let ghost w3 = u32_le(self.partitions_count);
        let ghost w4 = self.compression_algorithm.wire();
        let ghost w5 = opt_u32_wire(self.message_expiry);
        let ghost w6 = opt_u64_wire(self.max_topic_size);
        let ghost w7 = u8_wire(self.replication_factor);
        let ghost w8 = text_wire(self.name@);
        let ghost u2 = w1 + w2;
        let ghost u3 = u2 + w3;
        let ghost u4 = u3 + w4;
        let ghost u5 = u4 + w5;
        let ghost u6 = u5 + w6;
        let ghost u7 = u6 + w7;
        self.stream_id.put(buf);
        put_opt_u32(buf, self.topic_id);
        proof {
            lemma_concat_assoc(before, w1, w2);
        }
        put_u32_le(buf, self.partitions_count);
        proof {
            lemma_concat_assoc(before, u2, w3);
        }
        self.compression_algorithm.put(buf);
        proof {
            lemma_concat_assoc(before, u3, w4);
        }
        put_opt_u32(buf, self.message_expiry);
        proof {
            lemma_concat_assoc(before, u4, w5);
        }
        put_opt_u64(buf, self.max_topic_size);
        proof {
            lemma_concat_assoc(before, u5, w6);
        }
        put_byte(buf, self.replication_factor);
        proof {
            lemma_concat_assoc(before, u6, w7);
        }
        put_text(buf, &self.name);
        proof {
            lemma_concat_assoc(before, u7, w8);
        }
    }

    /// Decodes the value that starts at `pos` and returns it with the
    /// position just after it.
    pub fn read(s: &[u8], pos: usize) -> (r: Result<(CreateTopic, usize), IggyError>)
        requires
            pos <= s@.len(),
        ensures
            match r {
                Ok((value, next)) => Self::parse(s@.skip(pos as int)) == Some(
                    (value@, (next - pos) as nat),
                ) && pos < next <= s@.len() && value@.wf() && value@.canonical(),
                Err(e) => e == IggyError::InvalidCommand && Self::parse(s@.skip(pos as int))
                    is None,
            },
    {
        proof {
            reveal(CreateTopic::parse);
        }
        let (stream_id, p1) = Identifier::read(s, pos)?;
        proof {
            lemma_skip_skip(s@, pos as int, p1 - pos);
        }
        let (topic_id, p2) = read_opt_u32(s, p1)?;
        proof {
            lemma_skip_skip(s@, pos as int, p2 - pos);
        }
        let (partitions_count, p3) = read_u32(s, p2)?;
        proof {
            lemma_skip_skip(s@, pos as int, p3 - pos);
        }
        let (compression_algorithm, p4) = CompressionAlgorithm::read(s, p3)?;
        proof {
            lemma_skip_skip(s@, pos as int, p4 - pos);
        }
        let (message_expiry, p5) = read_opt_u32(s, p4)?;
        proof {
            lemma_skip_skip(s@, pos as int, p5 - pos);
        }
        let (max_topic_size, p6) = read_opt_u64(s, p5)?;
        proof {
            lemma_skip_skip(s@, pos as int, p6 - pos);
        }
        let (replication_factor, p7) = read_u8(s, p6)?;
        proof {
            lemma_skip_skip(s@, pos as int, p7 - pos);
        }
        let (name, p8) = read_text_field(s, p7)?;
        Ok((CreateTopic { stream_id, topic_id, partitions_count, compression_algorithm, message_expiry, max_topic_size, replication_factor, name }, p8))
    }

    /// Encodes the command.
    pub fn as_bytes(&self) -> (r: Bytes)
        requires
            self@.wf(),
        ensures
            bytes_view(r) == self@.wire(),
    {
        let mut bytes = BytesMut::with_capacity(self.size());
        self.put(&mut bytes);
        proof {
            assert(Seq::<u8>::empty() + self@.wire() =~= self@.wire());
        }
        bytes.freeze()
    }

    /// Decodes the command.  A payload that ends before the last field does
    /// is rejected.
    pub fn from_bytes(bytes: Bytes) -> (r: Result<CreateTopic, IggyError>)
        ensures
            match r {
                Ok(command) => Self::decode(bytes_view(bytes)) == Some(command@) && command@.wf() && command@.canonical(),
                Err(e) => e == IggyError::InvalidCommand && Self::decode(bytes_view(bytes))
                    is None,
            },
    {
        let s = as_slice(&bytes);
        proof {
            assert(s@.skip(0) =~= s@);
        }
        let (command, _) = CreateTopic::read(s, 0)?;
        command.validate()?;
        Ok(command)
    }
}

/// `DeleteTopic` command is used to delete a topic from a stream.
#[derive(Debug, Clone, PartialEq, Default)]
pub struct DeleteTopic {
    /// Unique stream ID (numeric or name).
    pub stream_id: Identifier,
    /// Unique topic ID (numeric or name).
    pub topic_id: Identifier,
}

impl View for DeleteTopic {
    type V = TopicPath;

    open spec fn view(&self) -> TopicPath {
        TopicPath { stream_id: self.stream_id@, topic_id: self.topic_id@ }
    }
}

impl DeleteTopic {
    /// Commands of this kind come straight from a client.
    pub fn get_command_execution_origin(&self) -> (origin: CommandExecution)
        ensures
            origin == CommandExecution::Direct,
    {
        CommandExecution::Direct
    }

    /// There are no field rules beyond those of the identifiers themselves.
    pub fn validate(&self) -> (r: Result<(), IggyError>)
        ensures
            r is Ok,
    {
        Ok(())
    }

    /// Encodes the two identifiers, one after the other.
    pub fn as_bytes(&self) -> (r: Bytes)
        ensures
            bytes_view(r) == self@.wire(),
            self@.wf(),
    {
        encode_topic_path(&self.stream_id, &self.topic_id)
    }

    /// Decodes the two identifiers.  A payload shorter than 6 bytes cannot
    /// hold them and is rejected at once.
    pub fn from_bytes(bytes: Bytes) -> (r: Result<DeleteTopic, IggyError>)
        ensures
            match r {
                Ok(command) => parse_topic_payload(bytes_view(bytes)) == Some(command@)
                    && command@.wf() && command@.canonical(),
                Err(e) => e == IggyError::InvalidCommand && parse_topic_payload(
                    bytes_view(bytes),
                ) is None,
            },
            bytes_view(bytes).len() < 6 ==> r is Err,
    {
        let (stream_id, topic_id) = decode_topic_path(bytes)?;
        let command = DeleteTopic { stream_id, topic_id };
        command.validate()?;
        Ok(command)
    }
}

/// `UpdateTopic` command is used to change the name and the settings of a topic.
#[derive(Debug, Clone, PartialEq)]
pub struct UpdateTopic {
    /// Unique stream ID (numeric or name).
    pub stream_id: Identifier,
    /// Unique topic ID (numeric or name).
    pub topic_id: Identifier,
    /// Compression of the stored messages.
    pub compression_algorithm: CompressionAlgorithm,
    /// Seconds after which a message expires; `None` for never.
    pub message_expiry: Option<u32>,
    /// Largest size of the topic in bytes; `None` for unlimited.
    pub max_topic_size: Option<u64>,
    /// Number of copies of each partition.
    pub replication_factor: u8,
    /// New topic name, 1 to 255 bytes of UTF-8 text.
    pub name: Vec<u8>,
}

/// The mathematical value of a [`UpdateTopic`].
pub struct UpdateTopicView {
    pub stream_id: IdentifierView,
    pub topic_id: IdentifierView,
    pub compression_algorithm: CompressionAlgorithm,
    pub message_expiry: Option<u32>,
    pub max_topic_size: Option<u64>,
    pub replication_factor: u8,
    pub name: Seq<u8>,
}

impl UpdateTopicView {
    /// The fields fit the wire.
    pub open spec fn wf(self) -> bool {
        self.stream_id.wf()
            && self.topic_id.wf()
            && valid_opt_u32(self.message_expiry)
            && valid_opt_u64(self.max_topic_size)
            && valid_text(self.name)
    }

    /// The identifiers come back from the wire unchanged.
    pub open spec fn canonical(self) -> bool {
        self.stream_id.canonical()
            && self.topic_id.canonical()
    }

    /// The wire form: stream, topic, compression, expiry (0 for none),
    /// size limit (0 for none), replication factor, name.
    pub open spec fn wire(self) -> Seq<u8> {
        self.stream_id.wire()
            + self.topic_id.wire()
            + self.compression_algorithm.wire()
            + opt_u32_wire(self.message_expiry)
            + opt_u64_wire(self.max_topic_size)
            + u8_wire(self.replication_factor)
            + text_wire(self.name)
    }
}

impl View for UpdateTopic {
    type V = UpdateTopicView;

    open spec fn view(&self) -> UpdateTopicView {
        UpdateTopicView {
            stream_id: self.stream_id@,
            topic_id: self.topic_id@,
            compression_algorithm: self.compression_algorithm,
            message_expiry: self.message_expiry,
            max_topic_size: self.max_topic_size,
            replication_factor: self.replication_factor,
            name: self.name@,
        }
    }
}

impl UpdateTopic {
    /// Reads the fields, one after the other, from the front of `s`; the
    /// count is the number of bytes they took.
    #[verifier::opaque]
    pub open spec fn parse(s: Seq<u8>) -> Option<(UpdateTopicView, nat)> {
        match parse_identifier(s) {
            Some((stream_id, n1)) => match parse_identifier(s.skip(n1 as int)) {
                Some((topic_id, n2)) => match CompressionAlgorithm::parse(
                    s.skip((n1 + n2) as int),
                ) {
                    Some((compression_algorithm, n3)) => match parse_opt_u32(
                        s.skip((n1 + n2 + n3) as int),
                    ) {
                        Some((message_expiry, n4)) => match parse_opt_u64(
                            s.skip((n1 + n2 + n3 + n4) as int),
                        ) {
                            Some((max_topic_size, n5)) => match parse_u8(
                                s.skip((n1 + n2 + n3 + n4 + n5) as int),
                            ) {
                                Some((replication_factor, n6)) => match parse_text(
                                    s.skip((n1 + n2 + n3 + n4 + n5 + n6) as int),
                                ) {
                                    Some((name, n7)) => Some(
                                        (UpdateTopicView { stream_id, topic_id, compression_algorithm, message_expiry, max_topic_size, replication_factor, name }, n1 + n2 + n3 + n4 + n5 + n6 + n7),
                                    ),
                                    None => None,
                                },
                                None => None,
                            },
                            None => None,
                        },
                        None => None,
                    },
                    None => None,
                },
                None => None,
            },
            None => None,
        }
    }

    /// What a payload decodes to.  Bytes after the last field are ignored.
    pub open spec fn decode(s: Seq<u8>) -> Option<UpdateTopicView> {
        match Self::parse(s) {
            Some((value, _)) => Some(value),
            None => None,
        }
    }

    /// The decoder never reads past the end of its input.
    pub proof fn lemma_bound(s: Seq<u8>)
        ensures
            match Self::parse(s) {
                Some((_, n)) => 0 < n <= s.len(),
                None => true,
            },
    {
        reveal(UpdateTopic::parse);
    }

    /// Reading back an encoded value gives the value and the length of its
    /// wire form, whatever follows it.
    pub proof fn lemma_parse(value: UpdateTopicView, rest: Seq<u8>)
        requires
            value.wf(),
            value.canonical(),
        ensures
            Self::parse(value.wire() + rest) == Some((value, value.wire().len())),
            (value.wire() + rest).skip(value.wire().len() as int) == rest,
    {
        reveal(UpdateTopic::parse);
        let s = value.wire() + rest;
        let w1 = value.stream_id.wire();
        let w2 = value.topic_id.wire();
        let w3 = value.compression_algorithm.wire();
        let w4 = opt_u32_wire(value.message_expiry);
        let w5 = opt_u64_wire(value.max_topic_size);
        let w6 = u8_wire(value.replication_factor);
        let w7 = text_wire(value.name);
        let u2 = w1 + w2;
        let u3 = u2 + w3;
        let u4 = u3 + w4;
        let u5 = u4 + w5;
        let u6 = u5 + w6;
        let t8 = rest;
        let t7 = w7 + t8;
        let t6 = w6 + t7;
        let t5 = w5 + t6;
        let t4 = w4 + t5;
        let t3 = w3 + t4;
        let t2 = w2 + t3;
        let t1 = w1 + t2;
        assert(s == t1) by {
            lemma_concat_assoc(u6, w7, t8);
            lemma_concat_assoc(u5, w6, t7);
            lemma_concat_assoc(u4, w5, t6);
            lemma_concat_assoc(u3, w4, t5);
            lemma_concat_assoc(u2, w3, t4);
            lemma_concat_assoc(w1, w2, t3);
        }
        assert(parse_identifier(s) == Some((value.stream_id, w1.len()))
            && s.skip(w1.len() as int) == t2) by {
            lemma_identifier_roundtrip(value.stream_id, t2);
        }
        assert(parse_identifier(s.skip(w1.len() as int)) == Some((value.topic_id, w2.len()))
            && s.skip((w1.len() + w2.len()) as int) == t3) by {
            lemma_identifier_roundtrip(value.topic_id, t3);
            lemma_skip_skip(s, w1.len() as int, w2.len() as int);
        }
        assert(CompressionAlgorithm::parse(s.skip((w1.len() + w2.len()) as int)) == Some((value.compression_algorithm, w3.len()))
            && s.skip((w1.len() + w2.len() + w3.len()) as int) == t4) by {
            CompressionAlgorithm::lemma_parse(value.compression_algorithm, t4);
            lemma_skip_skip(s, (w1.len() + w2.len()) as int, w3.len() as int);
        }
        assert(parse_opt_u32(s.skip((w1.len() + w2.len() + w3.len()) as int)) == Some((value.message_expiry, w4.len()))
            && s.skip((w1.len() + w2.len() + w3.len() + w4.len()) as int) == t5) by {
            lemma_opt_u32_parse(value.message_expiry, t5);
            lemma_skip_skip(s, (w1.len() + w2.len() + w3.len()) as int, w4.len() as int);
        }
        assert(parse_opt_u64(s.skip((w1.len() + w2.len() + w3.len() + w4.len()) as int)) == Some((value.max_topic_size, w5.len()))
            && s.skip((w1.len() + w2.len() + w3.len() + w4.len() + w5.len()) as int) == t6) by {
            lemma_opt_u64_parse(value.max_topic_size, t6);
            lemma_skip_skip(s, (w1.len() + w2.len() + w3.len() + w4.len()) as int, w5.len() as int);
        }
        assert(parse_u8(s.skip((w1.len() + w2.len() + w3.len() + w4.len() + w5.len()) as int)) == Some((value.replication_factor, w6.len()))
            && s.skip((w1.len() + w2.len() + w3.len() + w4.len() + w5.len() + w6.len()) as int) == t7) by {
            lemma_u8_parse(value.replication_factor, t7);
            lemma_skip_skip(s, (w1.len() + w2.len() + w3.len() + w4.len() + w5.len()) as int, w6.len() as int);
        }
        assert(parse_text(s.skip((w1.len() + w2.len() + w3.len() + w4.len() + w5.len() + w6.len()) as int)) == Some((value.name, w7.len()))
            && s.skip((w1.len() + w2.len() + w3.len() + w4.len() + w5.len() + w6.len() + w7.len()) as int) == t8) by {
            lemma_text_parse(value.name, t8);
            lemma_skip_skip(s, (w1.len() + w2.len() + w3.len() + w4.len() + w5.len() + w6.len()) as int, w7.len() as int);
        }
    }

    /// Whatever follows an encoded value, a decoder that accepts it reads
    /// exactly the bytes of that value.
    pub proof fn lemma_consumed(value: UpdateTopicView, rest: Seq<u8>)
        requires
            value.wf(),
        ensures
            match Self::parse(value.wire() + rest) {
                Some((_, n)) => n == value.wire().len(),
                None => true,
            },
            (value.wire() + rest).skip(value.wire().len() as int) == rest,
    {
        reveal(UpdateTopic::parse);
        let s = value.wire() + rest;
        let w1 = value.stream_id.wire();
        let w2 = value.topic_id.wire();
        let w3 = value.compression_algorithm.wire();
        let w4 = opt_u32_wire(value.message_expiry);
        let w5 = opt_u64_wire(value.max_topic_size);
        let w6 = u8_wire(value.replication_factor);
        let w7 = text_wire(value.name);
        let u2 = w1 + w2;
        let u3 = u2 + w3;
        let u4 = u3 + w4;
        let u5 = u4 + w5;
        let u6 = u5 + w6;
        let t8 = rest;
        let t7 = w7 + t8;
        let t6 = w6 + t7;
        let t5 = w5 + t6;
        let t4 = w4 + t5;
        let t3 = w3 + t4;
        let t2 = w2 + t3;
        let t1 = w1 + t2;
        assert(s == t1) by {
            lemma_concat_assoc(u6, w7, t8);
            lemma_concat_assoc(u5, w6, t7);
            lemma_concat_assoc(u4, w5, t6);
            lemma_concat_assoc(u3, w4, t5);
            lemma_concat_assoc(u2, w3, t4);
            lemma_concat_assoc(w1, w2, t3);
        }
        lemma_skip_concat(value.wire(), rest);
        if Self::parse(s) is Some {
            assert(parse_identifier(s) is Some);
            assert(parse_identifier(s).unwrap().1 == w1.len()
                && s.skip(w1.len() as int) == t2) by {
                lemma_identifier_consumed(value.stream_id, t2);
            }
            assert(parse_identifier(s.skip(w1.len() as int)) is Some);
            assert(parse_identifier(s.skip(w1.len() as int)).unwrap().1 == w2.len()
                && s.skip((w1.len() + w2.len()) as int) == t3) by {
                lemma_identifier_consumed(value.topic_id, t3);
                lemma_skip_skip(s, w1.len() as int, w2.len() as int);
            }
            assert(CompressionAlgorithm::parse(s.skip((w1.len() + w2.len()) as int)) is Some);
            assert(CompressionAlgorithm::parse(s.skip((w1.len() + w2.len()) as int)).unwrap().1 == w3.len()
                && s.skip((w1.len() + w2.len() + w3.len()) as int) == t4) by {
                CompressionAlgorithm::lemma_parse(value.compression_algorithm, t4);
                lemma_skip_skip(s, (w1.len() + w2.len()) as int, w3.len() as int);
            }
            assert(parse_opt_u32(s.skip((w1.len() + w2.len() + w3.len()) as int)) is Some);
            assert(parse_opt_u32(s.skip((w1.len() + w2.len() + w3.len()) as int)).unwrap().1 == w4.len()
                && s.skip((w1.len() + w2.len() + w3.len() + w4.len()) as int) == t5) by {
                lemma_opt_u32_parse(value.message_expiry, t5);
                lemma_skip_skip(s, (w1.len() + w2.len() + w3.len()) as int, w4.len() as int);
            }
            assert(parse_opt_u64(s.skip((w1.len() + w2.len() + w3.len() + w4.len()) as int)) is Some);
            assert(parse_opt_u64(s.skip((w1.len() + w2.len() + w3.len() + w4.len()) as int)).unwrap().1 == w5.len()
                && s.skip((w1.len() + w2.len() + w3.len() + w4.len() + w5.len()) as int) == t6) by {
                lemma_opt_u64_parse(value.max_topic_size, t6);
                lemma_skip_skip(s, (w1.len() + w2.len() + w3.len() + w4.len()) as int, w5.len() as int);
            }
            assert(parse_u8(s.skip((w1.len() + w2.len() + w3.len() + w4.len() + w5.len()) as int)) is Some);
            assert(parse_u8(s.skip((w1.len() + w2.len() + w3.len() + w4.len() + w5.len()) as int)).unwrap().1 == w6.len()
                && s.skip((w1.len() + w2.len() + w3.len() + w4.len() + w5.len() + w6.len()) as int) == t7) by {
                lemma_u8_parse(value.replication_factor, t7);
                lemma_skip_skip(s, (w1.len() + w2.len() + w3.len() + w4.len() + w5.len()) as int, w6.len() as int);
            }
            assert(parse_text(s.skip((w1.len() + w2.len() + w3.len() + w4.len() + w5.len() + w6.len()) as int)) is Some);
            assert(parse_text(s.skip((w1.len() + w2.len() + w3.len() + w4.len() + w5.len() + w6.len()) as int)).unwrap().1 == w7.len()
                && s.skip((w1.len() + w2.len() + w3.len() + w4.len() + w5.len() + w6.len() + w7.len()) as int) == t8) by {
                lemma_text_parse(value.name, t8);
                lemma_skip_skip(s, (w1.len() + w2.len() + w3.len() + w4.len() + w5.len() + w6.len()) as int, w7.len() as int);
            }
        }
    }

    /// The decoder looks at nothing beyond the bytes it reads: an input that
    /// starts with the same bytes decodes to the same value.
    pub proof fn lemma_local(s: Seq<u8>, other: Seq<u8>)
        requires
            Self::parse(s) is Some,
            other.len() >= Self::parse(s).unwrap().1,
            other.take(Self::parse(s).unwrap().1 as int) == s.take(
                Self::parse(s).unwrap().1 as int,
            ),
        ensures
            Self::parse(other) == Self::parse(s),
    {
        reveal(UpdateTopic::parse);
        Self::lemma_bound(s);
        let n = Self::parse(s).unwrap().1 as int;
        let n1 = parse_identifier(s).unwrap().1 as int;
        lemma_take_take(s, n, n1);
        lemma_take_take(other, n, n1);
        lemma_identifier_local(s, other);
        let n2 = parse_identifier(s.skip(n1)).unwrap().1 as int;
        lemma_window(s, other, n, n1, n2);
        lemma_identifier_local(s.skip(n1), other.skip(n1));
        let n3 = CompressionAlgorithm::parse(s.skip(n1 + n2)).unwrap().1 as int;
        lemma_window(s, other, n, n1 + n2, n3);
        CompressionAlgorithm::lemma_local(s.skip(n1 + n2), other.skip(n1 + n2));
        let n4 = parse_opt_u32(s.skip(n1 + n2 + n3)).unwrap().1 as int;
        lemma_window(s, other, n, n1 + n2 + n3, n4);
        lemma_opt_u32_local(s.skip(n1 + n2 + n3), other.skip(n1 + n2 + n3));
        let n5 = parse_opt_u64(s.skip(n1 + n2 + n3 + n4)).unwrap().1 as int;
        lemma_window(s, other, n, n1 + n2 + n3 + n4, n5);
        lemma_opt_u64_local(s.skip(n1 + n2 + n3 + n4), other.skip(n1 + n2 + n3 + n4));
        let n6 = parse_u8(s.skip(n1 + n2 + n3 + n4 + n5)).unwrap().1 as int;
        lemma_window(s, other, n, n1 + n2 + n3 + n4 + n5, n6);
        lemma_u8_local(s.skip(n1 + n2 + n3 + n4 + n5), other.skip(n1 + n2 + n3 + n4 + n5));
        let n7 = parse_text(s.skip(n1 + n2 + n3 + n4 + n5 + n6)).unwrap().1 as int;
        lemma_window(s, other, n, n1 + n2 + n3 + n4 + n5 + n6, n7);
        lemma_text_local(s.skip(n1 + n2 + n3 + n4 + n5 + n6), other.skip(n1 + n2 + n3 + n4 + n5 + n6));
    }

    /// An encoded value cut short cannot be read.
    pub proof fn lemma_cut(value: UpdateTopicView, k: int)
        requires
            value.wf(),
            0 <= k < value.wire().len(),
        ensures
            Self::parse(value.wire().take(k)) is None,
    {
        let w = value.wire();
        let s = w.take(k);
        if Self::parse(s) is Some {
            let n = Self::parse(s).unwrap().1 as int;
            Self::lemma_bound(s);
            lemma_take_take(w, k, n);
            Self::lemma_local(s, w);
            Self::lemma_consumed(value, Seq::empty());
            lemma_concat_empty(w);
        }
    }

    /// The wire form of a value that fits the wire is neither empty nor
    /// longer than 784 bytes.
    pub proof fn lemma_wire_len(value: UpdateTopicView)
        requires
            value.wf(),
        ensures
            0 < value.wire().len() <= 784,
    {
    }

    /// A command that fits the wire and is in canonical form survives
    /// encoding and decoding.
    pub proof fn lemma_roundtrip(value: UpdateTopicView)
        requires
            value.wf(),
            value.canonical(),
        ensures
            Self::decode(value.wire()) == Some(value),
    {
        Self::lemma_parse(value, Seq::empty());
        lemma_concat_empty(value.wire());
    }

    /// An encoded command whose last byte is cut off cannot be decoded.
    pub proof fn lemma_truncated(value: UpdateTopicView)
        requires
            value.wf(),
        ensures
            value.wire().len() > 0,
            Self::decode(value.wire().drop_last()) is None,
    {
        Self::lemma_cut(value, value.wire().len() - 1);
        lemma_take_take(value.wire(), value.wire().len() as int, 0);
    }

    /// Commands of this kind come straight from a client.
    pub fn get_command_execution_origin(&self) -> (origin: CommandExecution)
        ensures
            origin == CommandExecution::Direct,
    {
        CommandExecution::Direct
    }

    /// Accepts the value where its fields fit the wire.
    pub fn validate(&self) -> (r: Result<(), IggyError>)
        ensures
            r is Ok <==> self@.wf(),
            r is Err ==> r == Err::<(), IggyError>(IggyError::InvalidCommand),
    {
        self.stream_id.validate()?;
        self.topic_id.validate()?;
        if !is_valid_opt_u32(self.message_expiry) {
            return Err(IggyError::InvalidCommand);
        }
        if !is_valid_opt_u64(self.max_topic_size) {
            return Err(IggyError::InvalidCommand);
        }
        if !is_valid_text(&self.name) {
            return Err(IggyError::InvalidCommand);
        }
        Ok(())
    }

    /// The number of bytes of the wire form.
    pub fn size(&self) -> (n: usize)
        requires
            self@.wf(),
        ensures
            n == self@.wire().len(),
            n <= 784,
    {
        self.stream_id.get_size_bytes() as usize + self.topic_id.get_size_bytes() as usize + 1 + 4 + 8 + 1 + 1 + self.name.len()
    }

    /// Appends the wire form to `buf`.
    pub fn put(&self, buf: &mut BytesMut)
        requires
            self@.wf(),
            bytes_mut_view(*old(buf)).len() + self@.wire().len() <= isize::MAX,
        ensures
            bytes_mut_view(*final(buf)) == bytes_mut_view(*old(buf)) + self@.wire(),
    {
        let ghost before = bytes_mut_view(*buf);
        let ghost w1 = self.stream_id@.wire();
        let ghost w2 = self.topic_id@.wire();
        let ghost w3 = self.compression_algorithm.wire();
        let ghost w4 = opt_u32_wire(self.message_expiry);
        let ghost w5 = opt_u64_wire(self.max_topic_size);
        let ghost w6 = u8_wire(self.replication_factor);
        let ghost w7 = text_wire(self.name@);
        let ghost u2 = w1 + w2;
        let ghost u3 = u2 + w3;
        let ghost u4 = u3 + w4;
        let ghost u5 = u4 + w5;
        let ghost u6 = u5 + w6;
        self.stream_id.put(buf);
        self.topic_id.put(buf);
        proof {
            lemma_concat_assoc(before, w1, w2);
        }
        self.compression_algorithm.put(buf);
        proof {
            lemma_concat_assoc(before, u2, w3);
        }
        put_opt_u32(buf, self.message_expiry);
        proof {
            lemma_concat_assoc(before, u3, w4);
        }
        put_opt_u64(buf, self.max_topic_size);
        proof {
            lemma_concat_assoc(before, u4, w5);
        }
        put_byte(buf, self.replication_factor);
        proof {
            lemma_concat_assoc(before, u5, w6);
        }
        put_text(buf, &self.name);
        proof {
            lemma_concat_assoc(before, u6, w7);
        }
    }

    /// Decodes the value that starts at `pos` and returns it with the
    /// position just after it.
    pub fn read(s: &[u8], pos: usize) -> (r: Result<(UpdateTopic, usize), IggyError>)
        requires
            pos <= s@.len(),
        ensures
            match r {
                Ok((value, next)) => Self::parse(s@.skip(pos as int)) == Some(
                    (value@, (next - pos) as nat),
                ) && pos < next <= s@.len() && value@.wf() && value@.canonical(),
                Err(e) => e == IggyError::InvalidCommand && Self::parse(s@.skip(pos as int))
                    is None,
            },
    {
        proof {
            reveal(UpdateTopic::parse);
        }
        let (stream_id, p1) = Identifier::read(s, pos)?;
        proof {
            lemma_skip_skip(s@, pos as int, p1 - pos);
        }
        let (topic_id, p2) = Identifier::read(s, p1)?;
        proof {
            lemma_skip_skip(s@, pos as int, p2 - pos);
        }
        let (compression_algorithm, p3) = CompressionAlgorithm::read(s, p2)?;
        proof {
            lemma_skip_skip(s@, pos as int, p3 - pos);
        }
        let (message_expiry, p4) = read_opt_u32(s, p3)?;
        proof {
            lemma_skip_skip(s@, pos as int, p4 - pos);
        }
        let (max_topic_size, p5) = read_opt_u64(s, p4)?;
        proof {
            lemma_skip_skip(s@, pos as int, p5 - pos);
        }
        let (replication_factor, p6) = read_u8(s, p5)?;
        proof {
            lemma_skip_skip(s@, pos as int, p6 - pos);
        }
        let (name, p7) = read_text_field(s, p6)?;
        Ok((UpdateTopic { stream_id, topic_id, compression_algorithm, message_expiry, max_topic_size, replication_factor, name }, p7))
    }

    /// Encodes the command.
    pub fn as_bytes(&self) -> (r: Bytes)
        requires
            self@.wf(),
        ensures
            bytes_view(r) == self@.wire(),
    {
        let mut bytes = BytesMut::with_capacity(self.size());
        self.put(&mut bytes);
        proof {
            assert(Seq::<u8>::empty() + self@.wire() =~= self@.wire());
        }
        bytes.freeze()
    }

    /// Decodes the command.  A payload that ends before the last field does
    /// is rejected.
    pub fn from_bytes(bytes: Bytes) -> (r: Result<UpdateTopic, IggyError>)
        ensures
            match r {
                Ok(command) => Self::decode(bytes_view(bytes)) == Some(command@) && command@.wf() && command@.canonical(),
                Err(e) => e == IggyError::InvalidCommand && Self::decode(bytes_view(bytes))
                    is None,
            },
    {
        let s = as_slice(&bytes);
        proof {
            assert(s@.skip(0) =~= s@);
        }
        let (command, _) = UpdateTopic::read(s, 0)?;
        command.validate()?;
        Ok(command)
    }
}

/// `PurgeTopic` command is used to purge all the messages of a topic, keeping its partitions.
#[derive(Debug, Clone, PartialEq, Default)]
pub struct PurgeTopic {
    /// Unique stream ID (numeric or name).
    pub stream_id: Identifier,
    /// Unique topic ID (numeric or name).
    pub topic_id: Identifier,
}

impl View for PurgeTopic {
    type V = TopicPath;

    open spec fn view(&self) -> TopicPath {
        TopicPath { stream_id: self.stream_id@, topic_id: self.topic_id@ }
    }
}

impl PurgeTopic {
    /// Commands of this kind come straight from a client.
    pub fn get_command_execution_origin(&self) -> (origin: CommandExecution)
        ensures
            origin == CommandExecution::Direct,
    {
        CommandExecution::Direct
    }

    /// There are no field rules beyond those of the identifiers themselves.
    pub fn validate(&self) -> (r: Result<(), IggyError>)
        ensures
            r is Ok,
    {
        Ok(())
    }

    /// Encodes the two identifiers, one after the other.
    pub fn as_bytes(&self) -> (r: Bytes)
        ensures
            bytes_view(r) == self@.wire(),
            self@.wf(),
    {
        encode_topic_path(&self.stream_id, &self.topic_id)
    }

    /// Decodes the two identifiers.  A payload shorter than 6 bytes cannot
    /// hold them and is rejected at once.
    pub fn from_bytes(bytes: Bytes) -> (r: Result<PurgeTopic, IggyError>)
        ensures
            match r {
                Ok(command) => parse_topic_payload(bytes_view(bytes)) == Some(command@)
                    && command@.wf() && command@.canonical(),
                Err(e) => e == IggyError::InvalidCommand && parse_topic_payload(
                    bytes_view(bytes),
                ) is None,
            },
            bytes_view(bytes).len() < 6 ==> r is Err,
    {
        let (stream_id, topic_id) = decode_topic_path(bytes)?;
        let command = PurgeTopic { stream_id, topic_id };
        command.validate()?;
        Ok(command)
    }
}

} // verus!
