//! The command that appends a batch of messages to a topic.

use crate::buffer::as_slice;
use crate::buffer::bytes_mut_view;
use crate::buffer::bytes_view;
use crate::error::IggyError;
use crate::identifier::Identifier;
use crate::identifier::IdentifierView;
use crate::messages::AppendableMessage;
use crate::messages::AppendableMessageView;
use crate::partitioning::Partitioning;
use crate::partitioning::PartitioningView;
use crate::payload::lemma_skip_skip;
use crate::payload::lemma_topic_path_consumed;
use crate::payload::lemma_topic_path_roundtrip;
use crate::payload::parse_topic_path;
use crate::payload::read_topic_path;
use crate::payload::CommandExecution;
use crate::payload::TopicPath;
use crate::wire::lemma_concat_assoc;
use crate::wire::lemma_concat_empty;
use crate::wire::lemma_take_take;
use bytes::Bytes;
use bytes::BytesMut;
use vstd::prelude::*;

verus! {

/// The largest number of bytes that the messages of one batch may take on
/// the wire.
pub const MAX_BATCH_SIZE: usize = 1_000_000_000;

/// The mathematical values of a run of messages.
pub open spec fn messages_view(messages: Seq<AppendableMessage>) -> Seq<AppendableMessageView> {
    messages.map_values(|m: AppendableMessage| m@)
}

/// Every message of the run fits the wire.
pub open spec fn all_wf(messages: Seq<AppendableMessageView>) -> bool {
    forall|i: int| 0 <= i < messages.len() ==> (#[trigger] messages[i]).wf()
}

/// The wire form of a run of messages: the messages one after the other,
/// with no count in front; the run ends where the payload ends.
pub open spec fn messages_wire(messages: Seq<AppendableMessageView>) -> Seq<u8>
    decreases messages.len(),
{
    if messages.len() == 0 {
        Seq::empty()
    } else {
        messages[0].wire() + messages_wire(messages.drop_first())
    }
}

/// Reads messages from `s` until it is used up.  The result is `None` where
/// a message cannot be read, so also where bytes are left over that do not
/// make up a whole message.
pub open spec fn parse_messages(s: Seq<u8>) -> Option<Seq<AppendableMessageView>>
    decreases s.len(),
{
    if s.len() == 0 {
        Some(Seq::empty())
    } else {
        match AppendableMessage::parse(s) {
            Some((message, n)) => if 0 < n <= s.len() {
                match parse_messages(s.skip(n as int)) {
                    Some(rest) => Some(seq![message] + rest),
                    None => None,
                }
            } else {
                None
            },
            None => None,
        }
    }
}

/// The wire form of a run with one more message at its end is the wire form
/// of the run followed by that of the message.
pub proof fn lemma_messages_wire_push(messages: Seq<AppendableMessageView>, last: AppendableMessageView)
    ensures
        messages_wire(messages.push(last)) == messages_wire(messages) + last.wire(),
    decreases messages.len(),
{
    let longer = messages.push(last);
    if messages.len() == 0 {
        assert(longer.drop_first() =~= Seq::<AppendableMessageView>::empty());
        assert(messages_wire(longer.drop_first()) =~= Seq::<u8>::empty());
        lemma_concat_empty(last.wire());
    } else {
        assert(longer.drop_first() =~= messages.drop_first().push(last));
        lemma_messages_wire_push(messages.drop_first(), last);
        lemma_concat_assoc(messages[0].wire(), messages_wire(messages.drop_first()), last.wire());
    }
}

/// A run of messages takes at least as many bytes as any run it starts with.
pub proof fn lemma_messages_wire_grows(messages: Seq<AppendableMessageView>, i: int)
    requires
        0 <= i <= messages.len(),
    ensures
        messages_wire(messages.take(i)).len() <= messages_wire(messages).len(),
    decreases messages.len() - i,
{
    if i < messages.len() {
        lemma_messages_wire_grows(messages, i + 1);
        assert(messages.take(i + 1) =~= messages.take(i).push(messages[i]));
        lemma_messages_wire_push(messages.take(i), messages[i]);
    } else {
        assert(messages.take(i) =~= messages);
    }
}

/// Decoding an encoded run of messages gives the run back.
pub proof fn lemma_messages_roundtrip(messages: Seq<AppendableMessageView>)
    requires
        all_wf(messages),
    ensures
        parse_messages(messages_wire(messages)) == Some(messages),
    decreases messages.len(),
{
    if messages.len() > 0 {
        let first = messages[0];
        let rest = messages.drop_first();
        assert(first.wf());
        assert forall|i: int| 0 <= i < rest.len() implies (#[trigger] rest[i]).wf() by {
            assert(rest[i] == messages[i + 1]);
        }
        AppendableMessage::lemma_parse(first, messages_wire(rest));
        AppendableMessage::lemma_bound(messages_wire(messages));
        lemma_messages_roundtrip(rest);
        assert(seq![first] + rest =~= messages);
    } else {
        assert(messages =~= Seq::<AppendableMessageView>::empty());
    }
}

/// An encoded run of at least one message cannot be decoded once its last
/// byte is cut off.
pub proof fn lemma_messages_truncated(messages: Seq<AppendableMessageView>)
    requires
        all_wf(messages),
        messages.len() > 0,
    ensures
        messages_wire(messages).len() > 0,
        parse_messages(messages_wire(messages).drop_last()) is None,
    decreases messages.len(),
{
    let first = messages[0];
    let rest = messages.drop_first();
    let whole = messages_wire(messages);
    assert(first.wf());
    AppendableMessage::lemma_parse(first, Seq::empty());
    AppendableMessage::lemma_bound(first.wire() + Seq::<u8>::empty());
    lemma_concat_empty(first.wire());
    if rest.len() == 0 {
        assert(messages_wire(rest) =~= Seq::<u8>::empty());
        lemma_take_take(first.wire(), first.wire().len() as int, 0);
        AppendableMessage::lemma_cut(first, first.wire().len() - 1);
        AppendableMessage::lemma_bound(whole.drop_last());
    } else {
        assert forall|i: int| 0 <= i < rest.len() implies (#[trigger] rest[i]).wf() by {
            assert(rest[i] == messages[i + 1]);
        }
        lemma_messages_truncated(rest);
        let cut = messages_wire(rest).drop_last();
        assert(whole.drop_last() =~= first.wire() + cut);
        AppendableMessage::lemma_parse(first, cut);
        AppendableMessage::lemma_bound(whole.drop_last());
    }
}

/// `SendMessages` command is used to append a batch of messages to a topic.
#[derive(Debug, Clone, PartialEq)]
pub struct SendMessages {
    /// Unique stream ID (numeric or name).
    pub stream_id: Identifier,
    /// Unique topic ID (numeric or name).
    pub topic_id: Identifier,
    /// How the partition is chosen.
    pub partitioning: Partitioning,
    /// The messages, in the order in which they are to be appended.
    pub messages: Vec<AppendableMessage>,
}

/// The mathematical value of a [`SendMessages`] command.
pub struct SendMessagesView {
    pub stream_id: IdentifierView,
    pub topic_id: IdentifierView,
    pub partitioning: PartitioningView,
    pub messages: Seq<AppendableMessageView>,
}

impl SendMessagesView {
    /// The stream and topic that the messages go to.
    pub open spec fn path(self) -> TopicPath {
        TopicPath { stream_id: self.stream_id, topic_id: self.topic_id }
    }

    /// The fields fit the wire, there is at least one message, and the
    /// messages together take at most [`MAX_BATCH_SIZE`] bytes.
    pub open spec fn wf(self) -> bool {
        &&& self.path().wf()
        &&& self.partitioning.wf()
        &&& self.messages.len() >= 1
        &&& all_wf(self.messages)
        &&& messages_wire(self.messages).len() <= MAX_BATCH_SIZE
    }

    /// The identifiers come back from the wire unchanged.
    pub open spec fn canonical(self) -> bool {
        self.path().canonical()
    }

    /// The wire form: stream, topic, partitioning, then the messages up to
    /// the end of the payload.
    pub open spec fn wire(self) -> Seq<u8> {
        self.path().wire() + self.partitioning.wire() + messages_wire(self.messages)
    }
}

impl View for SendMessages {
    type V = SendMessagesView;

    open spec fn view(&self) -> SendMessagesView {
        SendMessagesView {
            stream_id: self.stream_id@,
            topic_id: self.topic_id@,
            partitioning: self.partitioning@,
            messages: messages_view(self.messages@),
        }
    }
}

impl SendMessages {
    /// What a payload decodes to: two identifiers, the partitioning, and
    /// then messages up to the last byte.  A payload without a message, or
    /// with more than [`MAX_BATCH_SIZE`] bytes of messages, is rejected.
    #[verifier::opaque]
    pub open spec fn decode(s: Seq<u8>) -> Option<SendMessagesView> {
        match parse_topic_path(s) {
            Some((path, n1)) => match Partitioning::parse(s.skip(n1 as int)) {
                Some((partitioning, n2)) => {
                    let body = s.skip((n1 + n2) as int);
                    match parse_messages(body) {
                        Some(messages) => if messages.len() >= 1 && messages_wire(messages).len()
                            <= MAX_BATCH_SIZE {
                            Some(
                                SendMessagesView {
                                    stream_id: path.stream_id,
                                    topic_id: path.topic_id,
                                    partitioning,
                                    messages,
                                },
                            )
                        } else {
                            None
                        },
                        None => None,
                    }
                },
                None => None,
            },
            None => None,
        }
    }

    /// A command that fits the wire and is in canonical form survives
    /// encoding and decoding.
    pub proof fn lemma_roundtrip(value: SendMessagesView)
        requires
            value.wf(),
            value.canonical(),
        ensures
            Self::decode(value.wire()) == Some(value),
    {
        reveal(SendMessages::decode);
        let s = value.wire();
        let body = messages_wire(value.messages);
        let tail = value.partitioning.wire() + body;
        lemma_concat_assoc(value.path().wire(), value.partitioning.wire(), body);
        lemma_topic_path_roundtrip(value.path(), tail);
        Partitioning::lemma_parse(value.partitioning, body);
        lemma_skip_skip(s, value.path().wire().len() as int, value.partitioning.wire().len() as int);
        lemma_messages_roundtrip(value.messages);
    }

    /// An encoded command whose last byte is cut off cannot be decoded.
    pub proof fn lemma_truncated(value: SendMessagesView)
        requires
            value.wf(),
        ensures
            value.wire().len() > 0,
            Self::decode(value.wire().drop_last()) is None,
    {
        reveal(SendMessages::decode);
        let body = messages_wire(value.messages);
        lemma_messages_truncated(value.messages);
        let cut = body.drop_last();
        let s = value.wire().drop_last();
        let tail = value.partitioning.wire() + cut;
        assert(s =~= value.path().wire() + tail);
        lemma_topic_path_consumed(value.path(), tail);
        Partitioning::lemma_parse(value.partitioning, cut);
        if parse_topic_path(s) is Some {
            lemma_skip_skip(
                s,
                value.path().wire().len() as int,
                value.partitioning.wire().len() as int,
            );
        }
    }

    /// The wire form of a command that fits the wire is neither empty nor
    /// longer than the largest batch and its header.
    pub proof fn lemma_wire_len(value: SendMessagesView)
        requires
            value.wf(),
        ensures
            0 < value.wire().len() <= 1_000_000_771,
    {
    }

    /// Commands of this kind come straight from a client.
    pub fn get_command_execution_origin(&self) -> (origin: CommandExecution)
        ensures
            origin == CommandExecution::Direct,
    {
        CommandExecution::Direct
    }

    /// Accepts the command where its fields fit the wire, it holds at least
    /// one message, and the messages are not too large together.
    pub fn validate(&self) -> (r: Result<(), IggyError>)
        ensures
            r is Ok <==> self@.wf(),
            r is Err ==> r == Err::<(), IggyError>(IggyError::InvalidCommand),
    {
        self.stream_id.validate()?;
        self.topic_id.validate()?;
        self.partitioning.validate()?;
        if self.messages.len() == 0 {
            return Err(IggyError::InvalidCommand);
        }
        match self.batch_size() {
            Some(_) => Ok(()),
            None => Err(IggyError::InvalidCommand),
        }
    }

    /// The number of bytes that the messages take on the wire, or `None`
    /// where a message does not fit the wire or the messages together take
    /// more than [`MAX_BATCH_SIZE`] bytes.
    pub fn batch_size(&self) -> (r: Option<usize>)
        ensures
            match r {
                Some(n) => all_wf(self@.messages) && n == messages_wire(self@.messages).len() && n
                    <= MAX_BATCH_SIZE,
                None => !all_wf(self@.messages) || messages_wire(self@.messages).len()
                    > MAX_BATCH_SIZE,
            },
    {
        let ghost all = messages_view(self.messages@);
        let mut total: usize = 0;
        let mut i: usize = 0;
        while i < self.messages.len()
            invariant
                i <= self.messages@.len(),
                all == messages_view(self.messages@),
                all_wf(all.take(i as int)),
                total == messages_wire(all.take(i as int)).len(),
                total <= MAX_BATCH_SIZE,
            decreases self.messages@.len() - i,
        {
            let message = &self.messages[i];
            proof {
                assert(all[i as int] == message@);
                assert(all.take(i + 1) =~= all.take(i as int).push(message@));
                lemma_messages_wire_push(all.take(i as int), message@);
                lemma_messages_wire_grows(all, i + 1);
            }
            if message.validate().is_err() {
                proof {
                    assert(!all[i as int].wf());
                }
                return None;
            }
            let size = message.size();
            if size > MAX_BATCH_SIZE - total {
                return None;
            }
            total += size;
            i += 1;
            proof {
                assert forall|j: int| 0 <= j < all.take(i as int).len() implies (
                #[trigger] all.take(i as int)[j]).wf() by {
                    if j < i - 1 {
                        assert(all.take(i as int)[j] == all.take(i - 1)[j]);
                    }
                }
            }
        }
        proof {
            assert(all.take(i as int) =~= all);
        }
        Some(total)
    }

    /// Encodes the command.
    pub fn as_bytes(&self) -> (r: Bytes)
        requires
            self@.wf(),
        ensures
            bytes_view(r) == self@.wire(),
    {
        let ghost all = messages_view(self.messages@);
        let mut bytes = BytesMut::with_capacity(
            self.stream_id.get_size_bytes() as usize + self.topic_id.get_size_bytes() as usize
                + self.partitioning.size(),
        );
        self.stream_id.put(&mut bytes);
        self.topic_id.put(&mut bytes);
        self.partitioning.put(&mut bytes);
        let ghost head = self@.path().wire() + self@.partitioning.wire();
        proof {
            lemma_concat_empty(self.stream_id@.wire());
            lemma_concat_empty(head);
            assert(messages_wire(all.take(0)) =~= Seq::<u8>::empty());
        }
        let mut i: usize = 0;
        while i < self.messages.len()
            invariant
                i <= self.messages@.len(),
                all == messages_view(self.messages@),
                all_wf(all),
                messages_wire(all).len() <= MAX_BATCH_SIZE,
                head.len() <= 1000,
                bytes_mut_view(bytes) == head + messages_wire(all.take(i as int)),
            decreases self.messages@.len() - i,
        {
            let message = &self.messages[i];
            proof {
                assert(all[i as int] == message@);
                assert(all.take(i + 1) =~= all.take(i as int).push(message@));
                lemma_messages_wire_push(all.take(i as int), message@);
                lemma_messages_wire_grows(all, i + 1);
                lemma_concat_assoc(head, messages_wire(all.take(i as int)), message@.wire());
            }
            message.put(&mut bytes);
            i += 1;
        }
        proof {
            assert(all.take(i as int) =~= all);
        }
        bytes.freeze()
    }

    /// Decodes the command.  The messages must fill the payload exactly: a
    /// payload that ends inside a message is rejected.
    pub fn from_bytes(bytes: Bytes) -> (r: Result<SendMessages, IggyError>)
        ensures
            match r {
                Ok(command) => Self::decode(bytes_view(bytes)) == Some(command@) && command@.wf()
                    && command@.canonical(),
                Err(e) => e == IggyError::InvalidCommand && Self::decode(bytes_view(bytes))
                    is None,
            },
    {
        let s = as_slice(&bytes);
        proof {
            reveal(SendMessages::decode);
            assert(s@.skip(0) =~= s@);
        }
        let (stream_id, topic_id, p1) = read_topic_path(s, 0)?;
        let (partitioning, p2) = Partitioning::read(s, p1)?;
        let messages = read_messages(s, p2)?;
        if messages.len() == 0 {
            return Err(IggyError::InvalidCommand);
        }
        let command = SendMessages { stream_id, topic_id, partitioning, messages };
        command.validate()?;
        Ok(command)
    }
}

/// Decodes messages from `start` up to the end of `s`.
pub fn read_messages(s: &[u8], start: usize) -> (r: Result<Vec<AppendableMessage>, IggyError>)
    requires
        start <= s@.len(),
    ensures
        match r {
            Ok(messages) => parse_messages(s@.skip(start as int)) == Some(
                messages_view(messages@),
            ) && all_wf(messages_view(messages@)),
            Err(e) => e == IggyError::InvalidCommand && parse_messages(s@.skip(start as int))
                is None,
        },
{
    let ghost body = s@.skip(start as int);
    let mut messages: Vec<AppendableMessage> = Vec::new();
    let mut pos: usize = start;
    proof {
        lemma_parse_messages_append(Seq::empty(), body);
        assert(messages_view(messages@) =~= Seq::<AppendableMessageView>::empty());
    }
    while pos < s.len()
        invariant
            start <= pos <= s@.len(),
            body == s@.skip(start as int),
            all_wf(messages_view(messages@)),
            parse_messages(body) == prepend(
                messages_view(messages@),
                parse_messages(s@.skip(pos as int)),
            ),
        decreases s@.len() - pos,
    {
        let ghost before = messages_view(messages@);
        let ghost here = s@.skip(pos as int);
        proof {
            AppendableMessage::lemma_bound(here);
        }
        let (message, next) = AppendableMessage::read(s, pos)?;
        proof {
            lemma_skip_skip(s@, pos as int, next - pos);
            let after = messages_view(messages@.push(message));
            assert(after =~= before.push(message@));
            lemma_prepend_step(before, message@, parse_messages(s@.skip(next as int)));
            assert forall|j: int| 0 <= j < after.len() implies (#[trigger] after[j]).wf() by {
                if j < before.len() {
                    assert(after[j] == before[j]);
                }
            }
        }
        messages.push(message);
        pos = next;
    }
    proof {
        assert(s@.skip(pos as int) =~= Seq::<u8>::empty());
        lemma_parse_messages_append(messages_view(messages@), Seq::empty());
    }
    Ok(messages)
}

/// The messages `front` followed by what was decoded after them, where that
/// succeeded.
pub open spec fn prepend(
    front: Seq<AppendableMessageView>,
    rest: Option<Seq<AppendableMessageView>>,
) -> Option<Seq<AppendableMessageView>> {
    match rest {
        Some(messages) => Some(front + messages),
        None => None,
    }
}

/// Putting nothing in front changes nothing, and what is decoded from an
/// empty input after `front` is `front`.
pub proof fn lemma_parse_messages_append(front: Seq<AppendableMessageView>, s: Seq<u8>)
    ensures
        prepend(Seq::empty(), parse_messages(s)) == parse_messages(s),
        prepend(front, parse_messages(Seq::empty())) == Some(front),
{
    if parse_messages(s) is Some {
        assert(Seq::<AppendableMessageView>::empty() + parse_messages(s).unwrap()
            =~= parse_messages(s).unwrap());
    }
    assert(front + Seq::<AppendableMessageView>::empty() =~= front);
}

/// Moving one message from the decoded rest to the front changes nothing.
pub proof fn lemma_prepend_step(
    front: Seq<AppendableMessageView>,
    message: AppendableMessageView,
    rest: Option<Seq<AppendableMessageView>>,
)
    ensures
        prepend(front, prepend(seq![message], rest)) == prepend(front.push(message), rest),
{
    if rest is Some {
        assert(front + (seq![message] + rest.unwrap()) =~= front.push(message) + rest.unwrap());
    }
}

} // verus!
