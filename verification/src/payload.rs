//! Shapes shared by many command payloads: the path to a topic, the path to
//! a consumer group, and the tag that says where a command came from.

use crate::buffer::as_slice;
use crate::buffer::bytes_mut_view;
use crate::buffer::bytes_view;
use crate::buffer::slice_from;
use crate::error::IggyError;
use crate::identifier::lemma_identifier_prefix_fails;
use crate::identifier::lemma_identifier_roundtrip;
use crate::identifier::lemma_parse_identifier_wf;
use crate::identifier::parse_identifier;
use crate::identifier::Identifier;
use crate::identifier::IdentifierView;
use bytes::BufMut;
use bytes::Bytes;
use bytes::BytesMut;
use vstd::prelude::*;

verus! {

/// Where a command came from.
#[derive(Debug, Clone, Copy, PartialEq, Eq, Structural)]
pub enum CommandExecution {
    /// Sent by a client over its connection.
    Direct,
    /// Forwarded by another shard on behalf of a client.
    Internal,
}

/// A stream and a topic in it.
pub struct TopicPath {
    pub stream_id: IdentifierView,
    pub topic_id: IdentifierView,
}

/// A stream, a topic in it, and a consumer group of that topic.
pub struct GroupPath {
    pub stream_id: IdentifierView,
    pub topic_id: IdentifierView,
    pub group_id: IdentifierView,
}

impl TopicPath {
    /// Both identifiers are well-formed.
    pub open spec fn wf(self) -> bool {
        self.stream_id.wf() && self.topic_id.wf()
    }

    /// Both identifiers come back from the wire unchanged.
    pub open spec fn canonical(self) -> bool {
        self.stream_id.canonical() && self.topic_id.canonical()
    }

    /// The wire form: the two identifiers, one after the other.
    pub open spec fn wire(self) -> Seq<u8> {
        self.stream_id.wire() + self.topic_id.wire()
    }
}

impl GroupPath {
    /// All three identifiers are well-formed.
    pub open spec fn wf(self) -> bool {
        self.stream_id.wf() && self.topic_id.wf() && self.group_id.wf()
    }

    /// All three identifiers come back from the wire unchanged.
    pub open spec fn canonical(self) -> bool {
        self.stream_id.canonical() && self.topic_id.canonical() && self.group_id.canonical()
    }

    /// The wire form: the three identifiers, one after the other.
    pub open spec fn wire(self) -> Seq<u8> {
        self.stream_id.wire() + self.topic_id.wire() + self.group_id.wire()
    }
}

/// Reads two identifiers from the front of `s`; the count is the number of
/// bytes both took.
pub open spec fn parse_topic_path(s: Seq<u8>) -> Option<(TopicPath, nat)> {
    match parse_identifier(s) {
        Some((stream_id, n1)) => match parse_identifier(s.skip(n1 as int)) {
            Some((topic_id, n2)) => Some((TopicPath { stream_id, topic_id }, n1 + n2)),
            None => None,
        },
        None => None,
    }
}

/// Reads three identifiers from the front of `s`; the count is the number of
/// bytes all three took.
pub open spec fn parse_group_path(s: Seq<u8>) -> Option<(GroupPath, nat)> {
    match parse_topic_path(s) {
        Some((path, n)) => match parse_identifier(s.skip(n as int)) {
            Some((group_id, n3)) => Some(
                (
                    GroupPath {
                        stream_id: path.stream_id,
                        topic_id: path.topic_id,
                        group_id,
                    },
                    n + n3,
                ),
            ),
            None => None,
        },
        None => None,
    }
}

/// Skipping twice is skipping once by the sum.
pub proof fn lemma_skip_skip(s: Seq<u8>, a: int, b: int)
    requires
        0 <= a,
        0 <= b,
        a + b <= s.len(),
    ensures
        s.skip(a).skip(b) == s.skip(a + b),
{
    assert(s.skip(a).skip(b) =~= s.skip(a + b));
}

/// A prefix of a concatenation that ends inside the first part is a prefix
/// of the first part; one that ends inside the second part is the first part
/// followed by a prefix of the second.
pub proof fn lemma_take_concat(a: Seq<u8>, b: Seq<u8>, k: int)
    requires
        0 <= k <= a.len() + b.len(),
    ensures
        k <= a.len() ==> (a + b).take(k) == a.take(k),
        k >= a.len() ==> (a + b).take(k) == a + b.take(k - a.len()),
{
    if k <= a.len() {
        assert((a + b).take(k) =~= a.take(k));
    }
    if k >= a.len() {
        assert((a + b).take(k) =~= a + b.take(k - a.len()));
    }
}

/// Whatever follows an encoded identifier, a decoder that accepts it reads
/// exactly the bytes of that identifier.
pub proof fn lemma_identifier_consumed(id: IdentifierView, rest: Seq<u8>)
    requires
        id.wf(),
    ensures
        match parse_identifier(id.wire() + rest) {
            Some((_, n)) => n == id.size(),
            None => true,
        },
        (id.wire() + rest).skip(id.size() as int) == rest,
{
    let s = id.wire() + rest;
    assert(s[1] == id.value.len() as u8);
    assert(s.skip(id.size() as int) =~= rest);
}

/// What the decoder of a topic path accepts is well-formed and canonical,
/// and it never reads past the end of its input.
pub proof fn lemma_parse_topic_path_wf(s: Seq<u8>)
    ensures
        match parse_topic_path(s) {
            Some((path, n)) => path.wf() && path.canonical() && 6 <= n <= s.len(),
            None => true,
        },
{
    lemma_parse_identifier_wf(s);
    if let Some((_, n1)) = parse_identifier(s) {
        lemma_parse_identifier_wf(s.skip(n1 as int));
    }
}

/// What the decoder of a group path accepts is well-formed and canonical,
/// and it never reads past the end of its input.
pub proof fn lemma_parse_group_path_wf(s: Seq<u8>)
    ensures
        match parse_group_path(s) {
            Some((path, n)) => path.wf() && path.canonical() && 9 <= n <= s.len(),
            None => true,
        },
{
    lemma_parse_topic_path_wf(s);
    if let Some((_, n)) = parse_topic_path(s) {
        lemma_parse_identifier_wf(s.skip(n as int));
    }
}

/// Decoding an encoded topic path gives the path back, whatever follows it.
pub proof fn lemma_topic_path_roundtrip(path: TopicPath, rest: Seq<u8>)
    requires
        path.wf(),
        path.canonical(),
    ensures
        parse_topic_path(path.wire() + rest) == Some((path, path.wire().len())),
        (path.wire() + rest).skip(path.wire().len() as int) == rest,
{
    let s = path.wire() + rest;
    assert(s =~= path.stream_id.wire() + (path.topic_id.wire() + rest));
    lemma_identifier_roundtrip(path.stream_id, path.topic_id.wire() + rest);
    lemma_identifier_roundtrip(path.topic_id, rest);
    assert(s.skip(path.wire().len() as int) =~= rest);
}

/// Decoding an encoded group path gives the path back, whatever follows it.
pub proof fn lemma_group_path_roundtrip(path: GroupPath, rest: Seq<u8>)
    requires
        path.wf(),
        path.canonical(),
    ensures
        parse_group_path(path.wire() + rest) == Some((path, path.wire().len())),
        (path.wire() + rest).skip(path.wire().len() as int) == rest,
{
    let s = path.wire() + rest;
    let front = TopicPath { stream_id: path.stream_id, topic_id: path.topic_id };
    assert(s =~= front.wire() + (path.group_id.wire() + rest));
    lemma_topic_path_roundtrip(front, path.group_id.wire() + rest);
    lemma_identifier_roundtrip(path.group_id, rest);
    assert(s.skip(path.wire().len() as int) =~= rest);
}

/// Whatever follows an encoded topic path, a decoder that accepts it reads
/// exactly the bytes of that path.
pub proof fn lemma_topic_path_consumed(path: TopicPath, rest: Seq<u8>)
    requires
        path.wf(),
    ensures
        match parse_topic_path(path.wire() + rest) {
            Some((_, n)) => n == path.wire().len(),
            None => true,
        },
        (path.wire() + rest).skip(path.wire().len() as int) == rest,
{
    let s = path.wire() + rest;
    assert(s =~= path.stream_id.wire() + (path.topic_id.wire() + rest));
    lemma_identifier_consumed(path.stream_id, path.topic_id.wire() + rest);
    lemma_identifier_consumed(path.topic_id, rest);
    assert(s.skip(path.wire().len() as int) =~= rest);
}

/// An encoded topic path cut short cannot be decoded.
pub proof fn lemma_topic_path_prefix_fails(path: TopicPath, k: int)
    requires
        path.wf(),
        0 <= k < path.wire().len(),
    ensures
        parse_topic_path(path.wire().take(k)) is None,
{
    let a = path.stream_id.wire();
    let b = path.topic_id.wire();
    lemma_take_concat(a, b, k);
    if k < a.len() {
        lemma_identifier_prefix_fails(path.stream_id, k);
    } else {
        lemma_identifier_consumed(path.stream_id, b.take(k - a.len()));
        lemma_identifier_prefix_fails(path.topic_id, k - a.len());
    }
}

/// An encoded group path cut short cannot be decoded.
pub proof fn lemma_group_path_prefix_fails(path: GroupPath, k: int)
    requires
        path.wf(),
        0 <= k < path.wire().len(),
    ensures
        parse_group_path(path.wire().take(k)) is None,
{
    let front = TopicPath { stream_id: path.stream_id, topic_id: path.topic_id };
    let a = front.wire();
    let b = path.group_id.wire();
    lemma_take_concat(a, b, k);
    if k < a.len() {
        lemma_topic_path_prefix_fails(front, k);
    } else {
        lemma_topic_path_consumed(front, b.take(k - a.len()));
        lemma_identifier_prefix_fails(path.group_id, k - a.len());
    }
}

/// Decodes two identifiers that start at `pos` and returns them with the
/// position just after the second.
pub fn read_topic_path(s: &[u8], pos: usize) -> (r: Result<
    (Identifier, Identifier, usize),
    IggyError,
>)
    requires
        pos <= s@.len(),
    ensures
        match r {
            Ok((stream_id, topic_id, next)) => parse_topic_path(s@.skip(pos as int)) == Some(
                (TopicPath { stream_id: stream_id@, topic_id: topic_id@ }, (next - pos) as nat),
            ) && pos + 6 <= next <= s@.len() && stream_id@.wf() && topic_id@.wf()
                && stream_id@.canonical() && topic_id@.canonical(),
            Err(e) => e == IggyError::InvalidCommand && parse_topic_path(s@.skip(pos as int))
                is None,
        },
{
    let (stream_id, mid) = match Identifier::read(s, pos) {
        Ok(found) => found,
        Err(e) => { return Err(e); },
    };
    proof {
        lemma_skip_skip(s@, pos as int, mid - pos);
    }
    let (topic_id, next) = match Identifier::read(s, mid) {
        Ok(found) => found,
        Err(e) => { return Err(e); },
    };
    Ok((stream_id, topic_id, next))
}

/// A payload that is nothing at all: only the empty input decodes.
pub open spec fn parse_empty(s: Seq<u8>) -> Option<()> {
    if s.len() == 0 {
        Some(())
    } else {
        None
    }
}

/// A payload that is one identifier.  Bytes after it are ignored.
#[verifier::opaque]
pub open spec fn parse_identifier_payload(s: Seq<u8>) -> Option<IdentifierView> {
    match parse_identifier(s) {
        Some((id, _)) => Some(id),
        None => None,
    }
}

/// A payload that is a topic path.  Bytes after it are ignored.
#[verifier::opaque]
pub open spec fn parse_topic_payload(s: Seq<u8>) -> Option<TopicPath> {
    match parse_topic_path(s) {
        Some((path, _)) => Some(path),
        None => None,
    }
}

/// A payload that is a group path.  Bytes after it are ignored.
#[verifier::opaque]
pub open spec fn parse_group_payload(s: Seq<u8>) -> Option<GroupPath> {
    match parse_group_path(s) {
        Some((path, _)) => Some(path),
        None => None,
    }
}

/// A payload of one identifier survives encoding and decoding, and cannot
/// be decoded once its last byte is cut off.
pub proof fn lemma_identifier_payload(id: IdentifierView)
    requires
        id.wf(),
    ensures
        id.canonical() ==> parse_identifier_payload(id.wire()) == Some(id),
        parse_identifier_payload(id.wire().drop_last()) is None,
        3 <= id.wire().len() <= 257,
{
    reveal(parse_identifier_payload);
    assert(id.wire() + Seq::<u8>::empty() =~= id.wire());
    if id.canonical() {
        lemma_identifier_roundtrip(id, Seq::empty());
    }
    lemma_identifier_prefix_fails(id, id.size() - 1);
}

/// A payload of two identifiers survives encoding and decoding, and cannot
/// be decoded once its last byte is cut off.
pub proof fn lemma_topic_payload(path: TopicPath)
    requires
        path.wf(),
    ensures
        path.canonical() ==> parse_topic_payload(path.wire()) == Some(path),
        parse_topic_payload(path.wire().drop_last()) is None,
        6 <= path.wire().len() <= 514,
{
    reveal(parse_topic_payload);
    assert(path.wire() + Seq::<u8>::empty() =~= path.wire());
    if path.canonical() {
        lemma_topic_path_roundtrip(path, Seq::empty());
    }
    lemma_topic_path_prefix_fails(path, path.wire().len() - 1);
}

/// A payload of three identifiers survives encoding and decoding, and cannot
/// be decoded once its last byte is cut off.
pub proof fn lemma_group_payload(path: GroupPath)
    requires
        path.wf(),
    ensures
        path.canonical() ==> parse_group_payload(path.wire()) == Some(path),
        parse_group_payload(path.wire().drop_last()) is None,
        9 <= path.wire().len() <= 771,
{
    reveal(parse_group_payload);
    assert(path.wire() + Seq::<u8>::empty() =~= path.wire());
    if path.canonical() {
        lemma_group_path_roundtrip(path, Seq::empty());
    }
    lemma_group_path_prefix_fails(path, path.wire().len() - 1);
}

/// Encodes a payload of two identifiers.
pub fn encode_topic_path(stream_id: &Identifier, topic_id: &Identifier) -> (r: Bytes)
    ensures
        bytes_view(r) == (TopicPath { stream_id: stream_id@, topic_id: topic_id@ }).wire(),
        stream_id@.wf(),
        topic_id@.wf(),
{
    let stream_id_bytes = stream_id.as_bytes();
    let topic_id_bytes = topic_id.as_bytes();
    let mut bytes = BytesMut::with_capacity(stream_id_bytes.len() + topic_id_bytes.len());
    bytes.put_slice(as_slice(&stream_id_bytes));
    bytes.put_slice(as_slice(&topic_id_bytes));
    proof {
        assert(bytes_mut_view(bytes) =~= stream_id@.wire() + topic_id@.wire());
    }
    bytes.freeze()
}

/// Encodes a payload of three identifiers.
pub fn encode_group_path(stream_id: &Identifier, topic_id: &Identifier, group_id: &Identifier) -> (r:
    Bytes)
    ensures
        bytes_view(r) == (GroupPath {
            stream_id: stream_id@,
            topic_id: topic_id@,
            group_id: group_id@,
        }).wire(),
        stream_id@.wf(),
        topic_id@.wf(),
        group_id@.wf(),
{
    let stream_id_bytes = stream_id.as_bytes();
    let topic_id_bytes = topic_id.as_bytes();
    let group_id_bytes = group_id.as_bytes();
    let mut bytes = BytesMut::with_capacity(
        stream_id_bytes.len() + topic_id_bytes.len() + group_id_bytes.len(),
    );
    bytes.put_slice(as_slice(&stream_id_bytes));
    bytes.put_slice(as_slice(&topic_id_bytes));
    bytes.put_slice(as_slice(&group_id_bytes));
    proof {
        assert(bytes_mut_view(bytes) =~= stream_id@.wire() + topic_id@.wire() + group_id@.wire());
    }
    bytes.freeze()
}

/// Decodes a payload of one identifier.
pub fn decode_identifier_payload(bytes: Bytes) -> (r: Result<Identifier, IggyError>)
    ensures
        match r {
            Ok(id) => parse_identifier_payload(bytes_view(bytes)) == Some(id@) && id@.wf()
                && id@.canonical(),
            Err(e) => e == IggyError::InvalidCommand && parse_identifier_payload(
                bytes_view(bytes),
            ) is None,
        },
        bytes_view(bytes).len() < 3 ==> r is Err,
{
    proof {
        reveal(parse_identifier_payload);
    }
    if bytes.len() < 3 {
        proof {
            lemma_parse_identifier_wf(bytes_view(bytes));
        }
        return Err(IggyError::InvalidCommand);
    }
    Identifier::from_bytes(bytes)
}

/// Decodes a payload of two identifiers.
pub fn decode_topic_path(bytes: Bytes) -> (r: Result<(Identifier, Identifier), IggyError>)
    ensures
        match r {
            Ok((stream_id, topic_id)) => parse_topic_payload(bytes_view(bytes)) == Some(
                TopicPath { stream_id: stream_id@, topic_id: topic_id@ },
            ) && stream_id@.wf() && topic_id@.wf() && stream_id@.canonical()
                && topic_id@.canonical(),
            Err(e) => e == IggyError::InvalidCommand && parse_topic_payload(bytes_view(bytes))
                is None,
        },
        bytes_view(bytes).len() < 6 ==> r is Err,
{
    proof {
        reveal(parse_topic_payload);
        lemma_parse_topic_path_wf(bytes_view(bytes));
    }
    if bytes.len() < 6 {
        return Err(IggyError::InvalidCommand);
    }
    let mut position: usize = 0;
    let (stream_id, size) = match Identifier::decode(&bytes.clone()) {
        Ok(found) => found,
        Err(e) => { return Err(e); },
    };
    position += size;
    let (topic_id, _) = match Identifier::decode(&slice_from(&bytes, position)) {
        Ok(found) => found,
        Err(e) => { return Err(e); },
    };
    Ok((stream_id, topic_id))
}

/// Decodes a payload of three identifiers.
pub fn decode_group_path(bytes: Bytes) -> (r: Result<
    (Identifier, Identifier, Identifier),
    IggyError,
>)
    ensures
        match r {
            Ok((stream_id, topic_id, group_id)) => parse_group_payload(bytes_view(bytes)) == Some(
                GroupPath { stream_id: stream_id@, topic_id: topic_id@, group_id: group_id@ },
            ) && stream_id@.wf() && topic_id@.wf() && group_id@.wf() && stream_id@.canonical()
                && topic_id@.canonical() && group_id@.canonical(),
            Err(e) => e == IggyError::InvalidCommand && parse_group_payload(bytes_view(bytes))
                is None,
        },
        bytes_view(bytes).len() < 9 ==> r is Err,
{
    proof {
        reveal(parse_group_payload);
        lemma_parse_group_path_wf(bytes_view(bytes));
    }
    if bytes.len() < 9 {
        return Err(IggyError::InvalidCommand);
    }
    let mut position: usize = 0;
    let (stream_id, size) = match Identifier::decode(&bytes.clone()) {
        Ok(found) => found,
        Err(e) => { return Err(e); },
    };
    position += size;
    let (topic_id, size) = match Identifier::decode(&slice_from(&bytes, position)) {
        Ok(found) => found,
        Err(e) => { return Err(e); },
    };
    position += size;
    let (group_id, _) = match Identifier::decode(&slice_from(&bytes, position)) {
        Ok(found) => found,
        Err(e) => { return Err(e); },
    };
    Ok((stream_id, topic_id, group_id))
}

} // verus!
