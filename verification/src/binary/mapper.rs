//! The bodies of replies: each entity has a fixed layout, and a list is the number of its items followed by the items.

use crate::buffer::bytes_view;
use crate::buffer::from_vec;
use crate::permissions::Permissions;
use crate::shard::system::Stats;
use crate::streaming::consumer_group::ConsumerGroup;
use crate::streaming::partition::Message;
use crate::streaming::partition::Partition;
use crate::streaming::stream::Stream;
use crate::streaming::topic::ConsumerOffsetInfo;
use crate::streaming::topic::PolledMessages;
use crate::streaming::topic::Topic;
use crate::streaming::topic::polled;
use crate::streaming::user::Client;
use crate::streaming::user::PersonalAccessToken;
use crate::streaming::user::User;
use crate::users::opt_permissions_wire;
use crate::wire::encode_opt_u32;
use crate::wire::encode_opt_u64;
use crate::wire::lemma_concat_assoc;
use crate::wire::lemma_concat_empty;
use crate::wire::opt_u32;
use crate::wire::opt_u32_wire;
use crate::wire::opt_u64;
use crate::wire::opt_u64_wire;
use crate::wire::u128_le;
use crate::wire::u32_le;
use crate::wire::u64_le;
use bytes::Bytes;
use vstd::prelude::*;

verus! {

/// A count as it is written in a reply: at most what 32 bits hold.
pub open spec fn capped(n: nat) -> u32 {
    if n > 0xFFFF_FFFF {
        0xFFFF_FFFFu32
    } else {
        n as u32
    }
}

/// A name as it is written in a reply: one length byte and the name, cut to
/// 255 bytes where it is longer.
pub open spec fn short_text(t: Seq<u8>) -> Seq<u8> {
    if t.len() > 255 {
        seq![255u8] + t.take(255)
    } else {
        seq![t.len() as u8] + t
    }
}

/// A run of bytes as it is written in a reply: its length in four bytes and
/// the bytes, cut to what the length can say where there are more.
pub open spec fn long_bytes(b: Seq<u8>) -> Seq<u8> {
    if b.len() > 0xFFFF_FFFF {
        u32_le(0xFFFF_FFFFu32) + b.take(0xFFFF_FFFF)
    } else {
        u32_le(b.len() as u32) + b
    }
}

/// Appends one byte.
pub fn push_u8(out: &mut Vec<u8>, x: u8)
    ensures
        final(out)@ == old(out)@ + seq![x],
{
    out.push(x);
    proof {
        assert(out@ =~= old(out)@ + seq![x]);
    }
}

/// Appends a `u32`, least significant byte first.
pub fn push_u32(out: &mut Vec<u8>, x: u32)
    ensures
        final(out)@ == old(out)@ + u32_le(x),
{
    out.push((x % 256) as u8);
    out.push((x / 256 % 256) as u8);
    out.push((x / 65536 % 256) as u8);
    out.push((x / 16777216) as u8);
    proof {
        assert(out@ =~= old(out)@ + u32_le(x));
    }
}

/// Appends a `u64`, least significant byte first.
pub fn push_u64(out: &mut Vec<u8>, x: u64)
    ensures
        final(out)@ == old(out)@ + u64_le(x),
{
    push_u32(out, (x % 0x1_0000_0000) as u32);
    push_u32(out, (x / 0x1_0000_0000) as u32);
    proof {
        assert(out@ =~= old(out)@ + u64_le(x));
    }
}

/// Appends a `u128`, least significant byte first.
pub fn push_u128(out: &mut Vec<u8>, x: u128)
    ensures
        final(out)@ == old(out)@ + u128_le(x),
{
    push_u64(out, (x % 0x1_0000_0000_0000_0000) as u64);
    push_u64(out, (x / 0x1_0000_0000_0000_0000) as u64);
    proof {
        assert(out@ =~= old(out)@ + u128_le(x));
    }
}

/// Appends the first `n` bytes of `bytes`.
pub fn push_front(out: &mut Vec<u8>, bytes: &Vec<u8>, n: usize)
    requires
        n <= bytes@.len(),
    ensures
        final(out)@ == old(out)@ + bytes@.take(n as int),
{
    let mut i: usize = 0;
    while i < n
        invariant
            i <= n,
            n <= bytes@.len(),
            out@ == old(out)@ + bytes@.take(i as int),
        decreases n - i,
    {
        out.push(bytes[i]);
        i += 1;
        proof {
            assert(out@ =~= old(out)@ + bytes@.take(i as int));
        }
    }
}

/// Appends a count.
pub fn push_count(out: &mut Vec<u8>, n: usize)
    ensures
        final(out)@ == old(out)@ + u32_le(capped(n as nat)),
{
    if n > 0xFFFF_FFFF {
        push_u32(out, 0xFFFF_FFFF);
    } else {
        push_u32(out, n as u32);
    }
}

/// Appends a name.
pub fn push_short_text(out: &mut Vec<u8>, text: &Vec<u8>)
    ensures
        final(out)@ == old(out)@ + short_text(text@),
{
    let ghost before = out@;
    if text.len() > 255 {
        push_u8(out, 255);
        push_front(out, text, 255);
        proof {
            lemma_concat_assoc(before, seq![255u8], text@.take(255));
        }
    } else {
        push_u8(out, text.len() as u8);
        push_front(out, text, text.len());
        proof {
            assert(text@.take(text@.len() as int) =~= text@);
            lemma_concat_assoc(before, seq![text@.len() as u8], text@);
        }
    }
}

/// Appends a run of bytes.
pub fn push_long_bytes(out: &mut Vec<u8>, bytes: &Vec<u8>)
    ensures
        final(out)@ == old(out)@ + long_bytes(bytes@),
{
    let ghost before = out@;
    if bytes.len() > 0xFFFF_FFFF {
        push_u32(out, 0xFFFF_FFFF);
        push_front(out, bytes, 0xFFFF_FFFF);
        proof {
            lemma_concat_assoc(before, u32_le(0xFFFF_FFFFu32), bytes@.take(0xFFFF_FFFF));
        }
    } else {
        push_u32(out, bytes.len() as u32);
        push_front(out, bytes, bytes.len());
        proof {
            assert(bytes@.take(bytes@.len() as int) =~= bytes@);
            lemma_concat_assoc(before, u32_le(bytes@.len() as u32), bytes@);
        }
    }
}

/// The body of the reply to a login: the id of the user.
pub open spec fn identity_reply(user_id: u32) -> Seq<u8> {
    u32_le(user_id)
}

/// Lays out the reply to a login.
pub fn map_identity_info(user_id: u32) -> (r: Bytes)
    ensures
        bytes_view(r) == identity_reply(user_id),
{
    let mut out: Vec<u8> = Vec::new();
    push_u32(&mut out, user_id);
    proof {
        lemma_concat_empty(u32_le(user_id));
    }
    from_vec(out)
}

/// The body of the reply with the figures about a shard: the numbers of
/// streams, users, tokens and clients.
pub open spec fn stats_reply(stats: Stats) -> Seq<u8> {
    u64_le(stats.streams_count) + u64_le(stats.users_count) + u64_le(stats.tokens_count) + u64_le(
        stats.clients_count,
    )
}

/// Lays out the figures about a shard.
pub fn map_stats(stats: &Stats) -> (r: Bytes)
    ensures
        bytes_view(r) == stats_reply(*stats),
{
    let mut out: Vec<u8> = Vec::new();
    push_u64(&mut out, stats.streams_count);
    push_u64(&mut out, stats.users_count);
    push_u64(&mut out, stats.tokens_count);
    push_u64(&mut out, stats.clients_count);
    proof {
        lemma_concat_empty(u64_le(stats.streams_count));
    }
    from_vec(out)
}

/// The entry of a client: its id, and the id of the user that is logged in
/// on its connection, or 0.
pub open spec fn client_entry(client: Client) -> Seq<u8> {
    u32_le(client.client_id) + u32_le(opt_u32(client.user_id))
}

/// Appends the entry of a client.
pub fn push_client(out: &mut Vec<u8>, client: &Client)
    ensures
        final(out)@ == old(out)@ + client_entry(*client),
{
    let ghost before = out@;
    push_u32(out, client.client_id);
    push_u32(out, encode_opt_u32(client.user_id));
    proof {
        lemma_concat_assoc(before, u32_le(client.client_id), u32_le(opt_u32(client.user_id)));
    }
}

/// Lays out what is known of one client.
pub fn map_client(client: &Client) -> (r: Bytes)
    ensures
        bytes_view(r) == client_entry(*client),
{
    let mut out: Vec<u8> = Vec::new();
    push_client(&mut out, client);
    proof {
        lemma_concat_empty(client_entry(*client));
    }
    from_vec(out)
}

/// The entries of clients, one after the other.
pub open spec fn client_entries(clients: Seq<Client>) -> Seq<u8>
    decreases clients.len(),
{
    if clients.len() == 0 {
        Seq::empty()
    } else {
        client_entries(clients.drop_last()) + client_entry(clients.last())
    }
}

/// The body of the reply that lists clients: their number, then one entry
/// for each.
pub open spec fn clients_reply(clients: Seq<Client>) -> Seq<u8> {
    u32_le(capped(clients.len())) + client_entries(clients)
}

/// Lays out the list of clients.
pub fn map_clients(clients: &Vec<Client>) -> (r: Bytes)
    ensures
        bytes_view(r) == clients_reply(clients@),
{
    let mut out: Vec<u8> = Vec::new();
    push_count(&mut out, clients.len());
    let ghost head = out@;
    let mut i: usize = 0;
    while i < clients.len()
        invariant
            i <= clients@.len(),
            head == u32_le(capped(clients@.len())),
            out@ == head + client_entries(clients@.take(i as int)),
        decreases clients@.len() - i,
    {
        let ghost before = client_entries(clients@.take(i as int));
        proof {
            assert(clients@.take(i + 1).drop_last() =~= clients@.take(i as int));
            lemma_concat_assoc(head, before, client_entry(clients@[i as int]));
        }
        push_client(&mut out, &clients[i]);
        i += 1;
    }
    proof {
        assert(clients@.take(i as int) =~= clients@);
    }
    from_vec(out)
}

/// The entry of a user in a list: id, status and name.
pub open spec fn user_header(user: User) -> Seq<u8> {
    u32_le(user.id) + seq![user.status.spec_code()] + short_text(user.username@)
}

/// The body of the reply about one user: its entry, then a flag byte and
/// the permissions where it has any.
pub open spec fn user_reply(user: User) -> Seq<u8> {
    user_header(user) + opt_permissions_wire(user.permissions)
}

/// Appends the entry of a user.
pub fn push_user(out: &mut Vec<u8>, user: &User)
    ensures
        final(out)@ == old(out)@ + user_header(*user),
{
    let ghost before = out@;
    push_u32(out, user.id);
    push_u8(out, user.status.as_code());
    push_short_text(out, &user.username);
    proof {
        lemma_concat_assoc(before, u32_le(user.id), seq![user.status.spec_code()]);
        lemma_concat_assoc(
            before,
            u32_le(user.id) + seq![user.status.spec_code()],
            short_text(user.username@),
        );
    }
}

/// Lays out what is known of one user.
pub fn map_user(user: &User) -> (r: Bytes)
    ensures
        bytes_view(r) == user_reply(*user),
{
    let mut out: Vec<u8> = Vec::new();
    push_user(&mut out, user);
    proof {
        lemma_concat_empty(user_header(*user));
    }
    match user.permissions {
        Some(permissions) => {
            push_u8(&mut out, 1);
            push_permissions(&mut out, &permissions);
            proof {
                lemma_concat_assoc(user_header(*user), seq![1u8], permissions.wire());
            }
        },
        None => {
            push_u8(&mut out, 0);
        },
    }
    from_vec(out)
}

/// Appends the flags of a set of permissions.
pub fn push_permissions(out: &mut Vec<u8>, permissions: &Permissions)
    ensures
        final(out)@ == old(out)@ + permissions.wire(),
{
    out.push(if permissions.manage_servers { 1 } else { 0 });
    out.push(if permissions.read_servers { 1 } else { 0 });
    out.push(if permissions.manage_users { 1 } else { 0 });
    out.push(if permissions.read_users { 1 } else { 0 });
    out.push(if permissions.manage_streams { 1 } else { 0 });
    out.push(if permissions.read_streams { 1 } else { 0 });
    out.push(if permissions.manage_topics { 1 } else { 0 });
    out.push(if permissions.read_topics { 1 } else { 0 });
    out.push(if permissions.poll_messages { 1 } else { 0 });
    out.push(if permissions.send_messages { 1 } else { 0 });
    proof {
        assert(out@ =~= old(out)@ + permissions.wire());
    }
}

/// The entries of users, one after the other.
pub open spec fn user_entries(users: Seq<User>) -> Seq<u8>
    decreases users.len(),
{
    if users.len() == 0 {
        Seq::empty()
    } else {
        user_entries(users.drop_last()) + user_header(users.last())
    }
}

/// The body of the reply that lists users: their number, then one entry
/// for each.
pub open spec fn users_reply(users: Seq<User>) -> Seq<u8> {
    u32_le(capped(users.len())) + user_entries(users)
}

/// Lays out the list of users.
pub fn map_users(users: &Vec<User>) -> (r: Bytes)
    ensures
        bytes_view(r) == users_reply(users@),
{
    let mut out: Vec<u8> = Vec::new();
    push_count(&mut out, users.len());
    let ghost head = out@;
    let mut i: usize = 0;
    while i < users.len()
        invariant
            i <= users@.len(),
            head == u32_le(capped(users@.len())),
            out@ == head + user_entries(users@.take(i as int)),
        decreases users@.len() - i,
    {
        let ghost before = user_entries(users@.take(i as int));
        proof {
            assert(users@.take(i + 1).drop_last() =~= users@.take(i as int));
            lemma_concat_assoc(head, before, user_header(users@[i as int]));
        }
        push_user(&mut out, &users[i]);
        i += 1;
    }
    proof {
        assert(users@.take(i as int) =~= users@);
    }
    from_vec(out)
}

/// The entry of a personal access token: its name, and the time at which it
/// expires, or 0.
pub open spec fn token_entry(token: PersonalAccessToken) -> Seq<u8> {
    short_text(token.name@) + u64_le(opt_u64(token.expiry))
}

/// The number of tokens that belong to the user.
pub open spec fn tokens_count(tokens: Seq<PersonalAccessToken>, user_id: u32) -> nat
    decreases tokens.len(),
{
    if tokens.len() == 0 {
        0
    } else {
        tokens_count(tokens.drop_last(), user_id) + if tokens.last().user_id == user_id {
            1nat
        } else {
            0nat
        }
    }
}

/// The entries of the tokens that belong to the user, one after the other.
pub open spec fn token_entries(tokens: Seq<PersonalAccessToken>, user_id: u32) -> Seq<u8>
    decreases tokens.len(),
{
    if tokens.len() == 0 {
        Seq::empty()
    } else if tokens.last().user_id == user_id {
        token_entries(tokens.drop_last(), user_id) + token_entry(tokens.last())
    } else {
        token_entries(tokens.drop_last(), user_id)
    }
}

/// The body of the reply that lists the personal access tokens of a user:
/// their number, then one entry for each.  The secrets are not part of it.
pub open spec fn tokens_reply(tokens: Seq<PersonalAccessToken>, user_id: u32) -> Seq<u8> {
    u32_le(capped(tokens_count(tokens, user_id))) + token_entries(tokens, user_id)
}

/// Lays out the list of the personal access tokens of a user.
pub fn map_personal_access_tokens(tokens: &Vec<PersonalAccessToken>, user_id: u32) -> (r: Bytes)
    ensures
        bytes_view(r) == tokens_reply(tokens@, user_id),
{
    let mut count: usize = 0;
    let mut i: usize = 0;
    while i < tokens.len()
        invariant
            i <= tokens@.len(),
            count <= i,
            count == tokens_count(tokens@.take(i as int), user_id),
        decreases tokens@.len() - i,
    {
        proof {
            assert(tokens@.take(i + 1).drop_last() =~= tokens@.take(i as int));
        }
        if tokens[i].user_id == user_id {
            count += 1;
        }
        i += 1;
    }
    proof {
        assert(tokens@.take(i as int) =~= tokens@);
    }
    let mut out: Vec<u8> = Vec::new();
    push_count(&mut out, count);
    let ghost head = out@;
    let mut i: usize = 0;
    while i < tokens.len()
        invariant
            i <= tokens@.len(),
            head == u32_le(capped(tokens_count(tokens@, user_id))),
            out@ == head + token_entries(tokens@.take(i as int), user_id),
        decreases tokens@.len() - i,
    {
        let ghost before = token_entries(tokens@.take(i as int), user_id);
        proof {
            assert(tokens@.take(i + 1).drop_last() =~= tokens@.take(i as int));
        }
        if tokens[i].user_id == user_id {
            let ghost mid = out@;
            push_short_text(&mut out, &tokens[i].name);
            push_u64(&mut out, encode_opt_u64(tokens[i].expiry));
            proof {
                lemma_concat_assoc(
                    mid,
                    short_text(tokens@[i as int].name@),
                    u64_le(opt_u64(tokens@[i as int].expiry)),
                );
                lemma_concat_assoc(head, before, token_entry(tokens@[i as int]));
            }
        }
        i += 1;
    }
    proof {
        assert(tokens@.take(i as int) =~= tokens@);
    }
    from_vec(out)
}

/// The body of the reply to the creation of a personal access token: the
/// secret.
pub open spec fn raw_token_reply(secret: Seq<u8>) -> Seq<u8> {
    short_text(secret)
}

/// Lays out the secret of a new personal access token.
pub fn map_raw_pat(secret: &Vec<u8>) -> (r: Bytes)
    ensures
        bytes_view(r) == raw_token_reply(secret@),
{
    let mut out: Vec<u8> = Vec::new();
    push_short_text(&mut out, secret);
    proof {
        lemma_concat_empty(short_text(secret@));
    }
    from_vec(out)
}

/// The entry of a message: offset, timestamp, id, headers and payload.
pub open spec fn message_entry(message: Message) -> Seq<u8> {
    u64_le(message.offset) + u64_le(message.timestamp) + u128_le(message.id) + long_bytes(
        match message@.headers {
            Some(headers) => headers,
            None => Seq::empty(),
        },
    ) + long_bytes(message.payload@)
}

/// Appends the entry of a message.
pub fn push_message(out: &mut Vec<u8>, message: &Message)
    ensures
        final(out)@ == old(out)@ + message_entry(*message),
{
    let ghost before = out@;
    let ghost a = u64_le(message.offset);
    let ghost b = u64_le(message.timestamp);
    let ghost c = u128_le(message.id);
    let ghost d = long_bytes(
        match message@.headers {
            Some(headers) => headers,
            None => Seq::empty(),
        },
    );
    let ghost e = long_bytes(message.payload@);
    push_u64(out, message.offset);
    push_u64(out, message.timestamp);
    push_u128(out, message.id);
    match &message.headers {
        Some(headers) => {
            push_long_bytes(out, headers);
        },
        None => {
            let none: Vec<u8> = Vec::new();
            push_long_bytes(out, &none);
            proof {
                assert(none@ =~= Seq::<u8>::empty());
            }
        },
    }
    push_long_bytes(out, &message.payload);
    proof {
        lemma_concat_assoc(before, a, b);
        lemma_concat_assoc(before, a + b, c);
        lemma_concat_assoc(before, a + b + c, d);
        lemma_concat_assoc(before, a + b + c + d, e);
    }
}

/// The entries of messages, one after the other.
pub open spec fn message_entries(messages: Seq<Message>) -> Seq<u8>
    decreases messages.len(),
{
    if messages.len() == 0 {
        Seq::empty()
    } else {
        message_entries(messages.drop_last()) + message_entry(messages.last())
    }
}

/// The body of the reply to a poll: the id of the partition, the offset of
/// its last message, the number of messages returned, and one entry for each
/// of them.
pub open spec fn polled_reply(polled: PolledMessages) -> Seq<u8> {
    u32_le(polled.partition_id) + u64_le(polled.current_offset) + u32_le(
        capped(polled.messages@.len()),
    ) + message_entries(polled.messages@)
}

/// Lays out the result of a poll.
pub fn map_polled_messages(polled: &PolledMessages) -> (r: Bytes)
    ensures
        bytes_view(r) == polled_reply(*polled),
{
    let mut out: Vec<u8> = Vec::new();
    push_u32(&mut out, polled.partition_id);
    push_u64(&mut out, polled.current_offset);
    push_count(&mut out, polled.messages.len());
    let ghost head = out@;
    proof {
        lemma_concat_empty(u32_le(polled.partition_id));
    }
    let mut i: usize = 0;
    while i < polled.messages.len()
        invariant
            i <= polled.messages@.len(),
            head == u32_le(polled.partition_id) + u64_le(polled.current_offset) + u32_le(
                capped(polled.messages@.len()),
            ),
            out@ == head + message_entries(polled.messages@.take(i as int)),
        decreases polled.messages@.len() - i,
    {
        let ghost before = message_entries(polled.messages@.take(i as int));
        proof {
            assert(polled.messages@.take(i + 1).drop_last() =~= polled.messages@.take(i as int));
            lemma_concat_assoc(head, before, message_entry(polled.messages@[i as int]));
        }
        push_message(&mut out, &polled.messages[i]);
        i += 1;
    }
    proof {
        assert(polled.messages@.take(i as int) =~= polled.messages@);
    }
    from_vec(out)
}

/// The body of the reply about a consumer's progress: the id of the
/// partition, the offset of its last message, and the stored offset.
pub open spec fn consumer_offset_reply(info: ConsumerOffsetInfo) -> Seq<u8> {
    u32_le(info.partition_id) + u64_le(info.current_offset) + u64_le(info.stored_offset)
}

/// Lays out what is known of a consumer's progress.
pub fn map_consumer_offset(info: &ConsumerOffsetInfo) -> (r: Bytes)
    ensures
        bytes_view(r) == consumer_offset_reply(*info),
{
    let mut out: Vec<u8> = Vec::new();
    push_u32(&mut out, info.partition_id);
    push_u64(&mut out, info.current_offset);
    push_u64(&mut out, info.stored_offset);
    proof {
        lemma_concat_empty(u32_le(info.partition_id));
    }
    from_vec(out)
}

/// The entry of a topic in a list: id, number of partitions, name.
pub open spec fn topic_header(topic: Topic) -> Seq<u8> {
    u32_le(topic.id) + u32_le(capped(topic.partitions@.len())) + short_text(topic.name@)
}

/// Appends the entry of a topic.
pub fn push_topic(out: &mut Vec<u8>, topic: &Topic)
    ensures
        final(out)@ == old(out)@ + topic_header(*topic),
{
    let ghost before = out@;
    push_u32(out, topic.id);
    push_count(out, topic.partitions.len());
    push_short_text(out, &topic.name);
    proof {
        lemma_concat_assoc(before, u32_le(topic.id), u32_le(capped(topic.partitions@.len())));
        lemma_concat_assoc(
            before,
            u32_le(topic.id) + u32_le(capped(topic.partitions@.len())),
            short_text(topic.name@),
        );
    }
}

/// The entries of topics, one after the other.
pub open spec fn topic_entries(topics: Seq<Topic>) -> Seq<u8>
    decreases topics.len(),
{
    if topics.len() == 0 {
        Seq::empty()
    } else {
        topic_entries(topics.drop_last()) + topic_header(topics.last())
    }
}

/// The body of the reply that lists topics: their number, then one entry
/// for each.
pub open spec fn topics_reply(topics: Seq<Topic>) -> Seq<u8> {
    u32_le(capped(topics.len())) + topic_entries(topics)
}

/// Lays out the list of the topics of a stream.
pub fn map_topics(topics: &Vec<Topic>) -> (r: Bytes)
    ensures
        bytes_view(r) == topics_reply(topics@),
{
    let mut out: Vec<u8> = Vec::new();
    push_count(&mut out, topics.len());
    let ghost head = out@;
    let mut i: usize = 0;
    while i < topics.len()
        invariant
            i <= topics@.len(),
            head == u32_le(capped(topics@.len())),
            out@ == head + topic_entries(topics@.take(i as int)),
        decreases topics@.len() - i,
    {
        let ghost before = topic_entries(topics@.take(i as int));
        proof {
            assert(topics@.take(i + 1).drop_last() =~= topics@.take(i as int));
            lemma_concat_assoc(head, before, topic_header(topics@[i as int]));
        }
        push_topic(&mut out, &topics[i]);
        i += 1;
    }
    proof {
        assert(topics@.take(i as int) =~= topics@);
    }
    from_vec(out)
}

/// The entry of a stream in a list: id, number of topics, name.
pub open spec fn stream_header(stream: Stream) -> Seq<u8> {
    u32_le(stream.id) + u32_le(capped(stream.topics@.len())) + short_text(stream.name@)
}

/// Appends the entry of a stream.
pub fn push_stream(out: &mut Vec<u8>, stream: &Stream)
    ensures
        final(out)@ == old(out)@ + stream_header(*stream),
{
    let ghost before = out@;
    push_u32(out, stream.id);
    push_count(out, stream.topics.len());
    push_short_text(out, &stream.name);
    proof {
        lemma_concat_assoc(before, u32_le(stream.id), u32_le(capped(stream.topics@.len())));
        lemma_concat_assoc(
            before,
            u32_le(stream.id) + u32_le(capped(stream.topics@.len())),
            short_text(stream.name@),
        );
    }
}

/// The entries of streams, one after the other.
pub open spec fn stream_entries(streams: Seq<Stream>) -> Seq<u8>
    decreases streams.len(),
{
    if streams.len() == 0 {
        Seq::empty()
    } else {
        stream_entries(streams.drop_last()) + stream_header(streams.last())
    }
}

/// The body of the reply that lists streams: their number, then one entry
/// for each.
pub open spec fn streams_reply(streams: Seq<Stream>) -> Seq<u8> {
    u32_le(capped(streams.len())) + stream_entries(streams)
}

/// Lays out the list of streams.
pub fn map_streams(streams: &Vec<Stream>) -> (r: Bytes)
    ensures
        bytes_view(r) == streams_reply(streams@),
{
    let mut out: Vec<u8> = Vec::new();
    push_count(&mut out, streams.len());
    let ghost head = out@;
    let mut i: usize = 0;
    while i < streams.len()
        invariant
            i <= streams@.len(),
            head == u32_le(capped(streams@.len())),
            out@ == head + stream_entries(streams@.take(i as int)),
        decreases streams@.len() - i,
    {
        let ghost before = stream_entries(streams@.take(i as int));
        proof {
            assert(streams@.take(i + 1).drop_last() =~= streams@.take(i as int));
            lemma_concat_assoc(head, before, stream_header(streams@[i as int]));
        }
        push_stream(&mut out, &streams[i]);
        i += 1;
    }
    proof {
        assert(streams@.take(i as int) =~= streams@);
    }
    from_vec(out)
}

/// The body of the reply about one stream: its entry, then the entries of
/// its topics.
pub open spec fn stream_reply(stream: Stream) -> Seq<u8> {
    stream_header(stream) + topic_entries(stream.topics@)
}

/// Lays out what is known of one stream.
pub fn map_stream(stream: &Stream) -> (r: Bytes)
    ensures
        bytes_view(r) == stream_reply(*stream),
{
    let mut out: Vec<u8> = Vec::new();
    push_stream(&mut out, stream);
    let ghost head = out@;
    proof {
        lemma_concat_empty(stream_header(*stream));
    }
    let mut i: usize = 0;
    while i < stream.topics.len()
        invariant
            i <= stream.topics@.len(),
            head == stream_header(*stream),
            out@ == head + topic_entries(stream.topics@.take(i as int)),
        decreases stream.topics@.len() - i,
    {
        let ghost before = topic_entries(stream.topics@.take(i as int));
        proof {
            assert(stream.topics@.take(i + 1).drop_last() =~= stream.topics@.take(i as int));
            lemma_concat_assoc(head, before, topic_header(stream.topics@[i as int]));
        }
        push_topic(&mut out, &stream.topics[i]);
        i += 1;
    }
    proof {
        assert(stream.topics@.take(i as int) =~= stream.topics@);
    }
    from_vec(out)
}

/// The settings of a topic: expiry of messages or 0, compression, size
/// limit or 0, replication factor.
pub open spec fn topic_settings(topic: Topic) -> Seq<u8> {
    opt_u32_wire(topic.message_expiry) + seq![topic.compression_algorithm.spec_code()]
        + opt_u64_wire(topic.max_topic_size) + seq![topic.replication_factor]
}

/// The entry of a partition: its id and the number of its messages.
pub open spec fn partition_entry(partition: Partition) -> Seq<u8> {
    u32_le(partition.id) + u64_le(partition.messages@.len() as u64)
}

/// The entries of partitions, one after the other.
pub open spec fn partition_entries(partitions: Seq<Partition>) -> Seq<u8>
    decreases partitions.len(),
{
    if partitions.len() == 0 {
        Seq::empty()
    } else {
        partition_entries(partitions.drop_last()) + partition_entry(partitions.last())
    }
}

/// The body of the reply about one topic: its entry, its settings, and the
/// entries of its partitions.
pub open spec fn topic_reply(topic: Topic) -> Seq<u8> {
    topic_header(topic) + topic_settings(topic) + partition_entries(topic.partitions@)
}

/// Lays out what is known of one topic.
pub fn map_topic(topic: &Topic) -> (r: Bytes)
    ensures
        bytes_view(r) == topic_reply(*topic),
{
    let mut out: Vec<u8> = Vec::new();
    push_topic(&mut out, topic);
    proof {
        lemma_concat_empty(topic_header(*topic));
    }
    let ghost h = out@;
    push_u32(&mut out, encode_opt_u32(topic.message_expiry));
    push_u8(&mut out, topic.compression_algorithm.as_code());
    push_u64(&mut out, encode_opt_u64(topic.max_topic_size));
    push_u8(&mut out, topic.replication_factor);
    proof {
        let a = opt_u32_wire(topic.message_expiry);
        let b = seq![topic.compression_algorithm.spec_code()];
        let c = opt_u64_wire(topic.max_topic_size);
        let d = seq![topic.replication_factor];
        lemma_concat_assoc(h, a, b);
        lemma_concat_assoc(h, a + b, c);
        lemma_concat_assoc(h, a + b + c, d);
    }
    let ghost head = out@;
    let mut i: usize = 0;
    while i < topic.partitions.len()
        invariant
            i <= topic.partitions@.len(),
            head == topic_header(*topic) + topic_settings(*topic),
            out@ == head + partition_entries(topic.partitions@.take(i as int)),
        decreases topic.partitions@.len() - i,
    {
        let ghost before = partition_entries(topic.partitions@.take(i as int));
        let ghost mid = out@;
        proof {
            assert(topic.partitions@.take(i + 1).drop_last() =~= topic.partitions@.take(i as int));
        }
        let partition = &topic.partitions[i];
        push_u32(&mut out, partition.id);
        push_u64(&mut out, partition.messages.len() as u64);
        proof {
            lemma_concat_assoc(
                mid,
                u32_le(partition.id),
                u64_le(partition.messages@.len() as u64),
            );
            lemma_concat_assoc(head, before, partition_entry(*partition));
        }
        i += 1;
    }
    proof {
        assert(topic.partitions@.take(i as int) =~= topic.partitions@);
    }
    from_vec(out)
}

/// The entry of a consumer group in a list: id, number of partitions,
/// number of members, name.
pub open spec fn group_header(group: ConsumerGroup) -> Seq<u8> {
    u32_le(group.id) + u32_le(group.partitions_count) + u32_le(capped(group.members@.len()))
        + short_text(group.name@)
}

/// Appends the entry of a consumer group.
pub fn push_group(out: &mut Vec<u8>, group: &ConsumerGroup)
    ensures
        final(out)@ == old(out)@ + group_header(*group),
{
    let ghost before = out@;
    let ghost a = u32_le(group.id);
    let ghost b = u32_le(group.partitions_count);
    let ghost c = u32_le(capped(group.members@.len()));
    push_u32(out, group.id);
    push_u32(out, group.partitions_count);
    push_count(out, group.members.len());
    push_short_text(out, &group.name);
    proof {
        lemma_concat_assoc(before, a, b);
        lemma_concat_assoc(before, a + b, c);
        lemma_concat_assoc(before, a + b + c, short_text(group.name@));
    }
}

/// The entries of consumer groups, one after the other.
pub open spec fn group_entries(groups: Seq<ConsumerGroup>) -> Seq<u8>
    decreases groups.len(),
{
    if groups.len() == 0 {
        Seq::empty()
    } else {
        group_entries(groups.drop_last()) + group_header(groups.last())
    }
}

/// The body of the reply that lists consumer groups: their number, then one entry
/// for each.
pub open spec fn groups_reply(groups: Seq<ConsumerGroup>) -> Seq<u8> {
    u32_le(capped(groups.len())) + group_entries(groups)
}

/// Lays out the list of the consumer groups of a topic.
pub fn map_consumer_groups(groups: &Vec<ConsumerGroup>) -> (r: Bytes)
    ensures
        bytes_view(r) == groups_reply(groups@),
{
    let mut out: Vec<u8> = Vec::new();
    push_count(&mut out, groups.len());
    let ghost head = out@;
    let mut i: usize = 0;
    while i < groups.len()
        invariant
            i <= groups@.len(),
            head == u32_le(capped(groups@.len())),
            out@ == head + group_entries(groups@.take(i as int)),
        decreases groups@.len() - i,
    {
        let ghost before = group_entries(groups@.take(i as int));
        proof {
            assert(groups@.take(i + 1).drop_last() =~= groups@.take(i as int));
            lemma_concat_assoc(head, before, group_header(groups@[i as int]));
        }
        push_group(&mut out, &groups[i]);
        i += 1;
    }
    proof {
        assert(groups@.take(i as int) =~= groups@);
    }
    from_vec(out)
}

/// The ids of members, four bytes each, one after the other.
pub open spec fn member_entries(members: Seq<u32>) -> Seq<u8>
    decreases members.len(),
{
    if members.len() == 0 {
        Seq::empty()
    } else {
        member_entries(members.drop_last()) + u32_le(members.last())
    }
}

/// The body of the reply about one consumer group: its entry, then the ids
/// of its members in ascending order.
pub open spec fn group_reply(group: ConsumerGroup) -> Seq<u8> {
    group_header(group) + member_entries(group.members@)
}

/// Lays out what is known of one consumer group.
pub fn map_consumer_group(group: &ConsumerGroup) -> (r: Bytes)
    ensures
        bytes_view(r) == group_reply(*group),
{
    let mut out: Vec<u8> = Vec::new();
    push_group(&mut out, group);
    let ghost head = out@;
    proof {
        lemma_concat_empty(group_header(*group));
    }
    let mut i: usize = 0;
    while i < group.members.len()
        invariant
            i <= group.members@.len(),
            head == group_header(*group),
            out@ == head + member_entries(group.members@.take(i as int)),
        decreases group.members@.len() - i,
    {
        let ghost before = member_entries(group.members@.take(i as int));
        proof {
            assert(group.members@.take(i + 1).drop_last() =~= group.members@.take(i as int));
            lemma_concat_assoc(head, before, u32_le(group.members@[i as int]));
        }
        push_u32(&mut out, group.members[i]);
        i += 1;
    }
    proof {
        assert(group.members@.take(i as int) =~= group.members@);
    }
    from_vec(out)
}

} // verus!
