//! The executor: one command in, one answer out.

use crate::binary::mapper::client_entry;
use crate::binary::mapper::clients_reply;
use crate::binary::mapper::consumer_offset_reply;
use crate::binary::mapper::group_reply;
use crate::binary::mapper::groups_reply;
use crate::binary::mapper::identity_reply;
use crate::binary::mapper::map_client;
use crate::binary::mapper::map_clients;
use crate::binary::mapper::map_consumer_group;
use crate::binary::mapper::map_consumer_groups;
use crate::binary::mapper::map_consumer_offset;
use crate::binary::mapper::map_identity_info;
use crate::binary::mapper::map_personal_access_tokens;
use crate::binary::mapper::map_polled_messages;
use crate::binary::mapper::map_raw_pat;
use crate::binary::mapper::map_stats;
use crate::binary::mapper::map_stream;
use crate::binary::mapper::map_streams;
use crate::binary::mapper::map_topic;
use crate::binary::mapper::map_topics;
use crate::binary::mapper::map_user;
use crate::binary::mapper::map_users;
use crate::binary::mapper::polled_reply;
use crate::binary::mapper::raw_token_reply;
use crate::binary::mapper::stats_reply;
use crate::binary::mapper::stream_reply;
use crate::binary::mapper::streams_reply;
use crate::binary::mapper::tokens_reply;
use crate::binary::mapper::topic_reply;
use crate::binary::mapper::topics_reply;
use crate::binary::mapper::user_reply;
use crate::binary::mapper::users_reply;
use crate::buffer::bytes_view;
use crate::command::Command;
use crate::consumer_groups::CreateConsumerGroup;
use crate::consumer_groups::DeleteConsumerGroup;
use crate::consumer_groups::GetConsumerGroup;
use crate::consumer_groups::GetConsumerGroups;
use crate::consumer_groups::JoinConsumerGroup;
use crate::consumer_groups::LeaveConsumerGroup;
use crate::consumer_offsets::GetConsumerOffset;
use crate::consumer_offsets::StoreConsumerOffset;
use crate::error::IggyError;
use crate::messages::PollMessages;
use crate::partitions::CreatePartitions;
use crate::partitions::DeletePartitions;
use crate::permissions::Action;
use crate::personal_access_tokens::CreatePersonalAccessToken;
use crate::personal_access_tokens::DeletePersonalAccessToken;
use crate::personal_access_tokens::LoginWithPersonalAccessToken;
use crate::send_messages::SendMessages;
use crate::shard::Environment;
use crate::shard::IggyShard;
use crate::shard::groups::created_consumer_group;
use crate::shard::groups::deleted_consumer_group;
use crate::shard::groups::joined_consumer_group;
use crate::shard::groups::left_consumer_group;
use crate::shard::messages::PollingArgs;
use crate::shard::messages::appended_messages;
use crate::shard::messages::polled_messages;
use crate::shard::messages::stored_consumer_offset;
use crate::shard::streams::created_stream;
use crate::shard::streams::deleted_stream;
use crate::shard::streams::purged_stream;
use crate::shard::streams::updated_stream;
use crate::shard::topics::created_partitions_in;
use crate::shard::topics::created_topic_in;
use crate::shard::topics::deleted_partitions_in;
use crate::shard::topics::deleted_topic_in;
use crate::shard::topics::purged_topic_in;
use crate::shard::topics::updated_topic_in;
use crate::shard::unchanged;
use crate::shard::users::changed_password;
use crate::shard::users::created_token;
use crate::shard::users::created_user;
use crate::shard::users::deleted_token;
use crate::shard::users::deleted_user;
use crate::shard::users::logged_in;
use crate::shard::users::logged_in_with_token;
use crate::shard::users::logged_out;
use crate::shard::users::session_user;
use crate::shard::users::updated_permissions;
use crate::shard::users::updated_user;
use crate::streaming::polling_consumer::PollingConsumer;
use crate::streaming::registry::locate;
use crate::streaming::session::Session;
use crate::streaming::stream::TopicSettings;
use crate::streaming::topic::PolledMessages;
use crate::streaming::topic::polled;
use crate::streaming::user::has_client;
use crate::streaming::user::index_of_client;
use crate::streams::CreateStream;
use crate::streams::DeleteStream;
use crate::streams::GetStream;
use crate::streams::PurgeStream;
use crate::streams::UpdateStream;
use crate::system::GetClient;
use crate::system::Ping;
use crate::topics::CreateTopic;
use crate::topics::DeleteTopic;
use crate::topics::GetTopic;
use crate::topics::GetTopics;
use crate::topics::PurgeTopic;
use crate::topics::UpdateTopic;
use crate::users::ChangePassword;
use crate::users::CreateUser;
use crate::users::DeleteUser;
use crate::users::GetUser;
use crate::users::LoginUser;
use crate::users::UpdatePermissions;
use crate::users::UpdateUser;
use crate::wire::opt_bytes_view;
use bytes::Bytes;
use vstd::prelude::*;

verus! {

/// What the executor answers.
#[derive(Debug)]
pub enum ShardResponse {
    /// The command succeeded; the bytes are the body of the reply, empty for
    /// commands that are only acknowledged.
    BinaryResponse(Bytes),
    /// The command failed.  The executor itself reports failures as errors
    /// and never answers with this variant; it is for those who pass the
    /// answer on.
    ErrorResponse(IggyError),
}

/// The body of a successful answer.
pub open spec fn body_of(r: Result<ShardResponse, IggyError>) -> Option<Seq<u8>> {
    match r {
        Ok(ShardResponse::BinaryResponse(bytes)) => Some(bytes_view(bytes)),
        _ => None,
    }
}

/// Success or the error, without the body.
pub open spec fn outcome(r: Result<ShardResponse, IggyError>) -> Result<(), IggyError> {
    match r {
        Ok(_) => Ok(()),
        Err(e) => Err(e),
    }
}

/// The answer is a success with the given body.
pub open spec fn answers(r: Result<ShardResponse, IggyError>, body: Seq<u8>) -> bool {
    body_of(r) == Some(body)
}

/// The answer, where it is a success, has an empty body.
pub open spec fn acknowledges(r: Result<ShardResponse, IggyError>) -> bool {
    r is Ok ==> body_of(r) == Some(Seq::<u8>::empty())
}

/// The answer is a success with the expected body, or the expected error.
pub open spec fn answers_or(
    r: Result<ShardResponse, IggyError>,
    expected: Result<Seq<u8>, IggyError>,
) -> bool {
    match expected {
        Ok(body) => answers(r, body),
        Err(e) => r is Err && r->Err_0 == e,
    }
}

/// What is answered to a question about a client: with a permission given
/// the session needs it, without one a logged-in user is enough; then the
/// client must be connected.
pub open spec fn client_answer(
    shard: IggyShard,
    session: Session,
    needed: Option<Action>,
    client_id: u32,
) -> Result<Seq<u8>, IggyError> {
    match session.verdict(needed) {
        Err(e) => Err(e),
        Ok(_) => if has_client(shard.clients@, client_id) {
            Ok(client_entry(shard.clients@[index_of_client(shard.clients@, client_id)]))
        } else {
            Err(IggyError::NotFound)
        },
    }
}

/// Turns the result of an operation without a result value into an answer
/// with an empty body.
pub fn acknowledge(done: Result<(), IggyError>) -> (r: Result<ShardResponse, IggyError>)
    ensures
        outcome(r) == done,
        acknowledges(r),
        r is Ok ==> r->Ok_0 is BinaryResponse,
{
    match done {
        Ok(unit) => {
            proof {
                assert(unit == ());
            }
            Ok(ShardResponse::BinaryResponse(Bytes::new()))
        },
        Err(e) => Err(e),
    }
}

/// What the executor does with `Ping`.
pub open spec fn handled_ping(
    before: IggyShard,
    session_before: Session,
    env: Environment,
    after: IggyShard,
    session_after: Session,
    r: Result<ShardResponse, IggyError>,
) -> bool {
    answers(r, Seq::empty())
        && after == before
        && session_after == session_before
}

/// What the executor does with `GetStats`.
pub open spec fn handled_get_stats(
    before: IggyShard,
    session_before: Session,
    env: Environment,
    after: IggyShard,
    session_after: Session,
    r: Result<ShardResponse, IggyError>,
) -> bool {
    answers_or(
        r,
        match session_before.verdict(Some(Action::ReadServers)) {
            Ok(_) => Ok(stats_reply(before.spec_stats())),
            Err(e) => Err(e),
        },
    )
        && after == before
        && session_after == session_before
}

/// What the executor does with `GetMe`.
pub open spec fn handled_get_me(
    before: IggyShard,
    session_before: Session,
    env: Environment,
    after: IggyShard,
    session_after: Session,
    r: Result<ShardResponse, IggyError>,
) -> bool {
    answers_or(r, client_answer(before, session_before, None, session_before.client_id))
        && after == before
        && session_after == session_before
}

/// What the executor does with `GetClient`.
pub open spec fn handled_get_client(
    before: IggyShard,
    session_before: Session,
    c: GetClient,
    env: Environment,
    after: IggyShard,
    session_after: Session,
    r: Result<ShardResponse, IggyError>,
) -> bool {
    answers_or(
        r,
        client_answer(before, session_before, Some(Action::ReadServers), c.client_id),
    )
        && after == before
        && session_after == session_before
}

/// What the executor does with `GetClients`.
pub open spec fn handled_get_clients(
    before: IggyShard,
    session_before: Session,
    env: Environment,
    after: IggyShard,
    session_after: Session,
    r: Result<ShardResponse, IggyError>,
) -> bool {
    answers_or(
        r,
        match session_before.verdict(Some(Action::ReadServers)) {
            Ok(_) => Ok(clients_reply(before.clients@)),
            Err(e) => Err(e),
        },
    )
        && after == before
        && session_after == session_before
}

/// What the executor does with `GetUser`.
pub open spec fn handled_get_user(
    before: IggyShard,
    session_before: Session,
    c: GetUser,
    env: Environment,
    after: IggyShard,
    session_after: Session,
    r: Result<ShardResponse, IggyError>,
) -> bool {
    answers_or(
        r,
        match session_before.verdict(Some(Action::ReadUsers)) {
            Err(e) => Err(e),
            Ok(_) => match locate(before.users@, c.user_id@) {
                Some(i) => Ok(user_reply(before.users@[i])),
                None => Err(IggyError::NotFound),
            },
        },
    )
        && after == before
        && session_after == session_before
}

/// What the executor does with `GetUsers`.
pub open spec fn handled_get_users(
    before: IggyShard,
    session_before: Session,
    env: Environment,
    after: IggyShard,
    session_after: Session,
    r: Result<ShardResponse, IggyError>,
) -> bool {
    answers_or(
        r,
        match session_before.verdict(Some(Action::ReadUsers)) {
            Ok(_) => Ok(users_reply(before.users@)),
            Err(e) => Err(e),
        },
    )
        && after == before
        && session_after == session_before
}

/// What the executor does with `CreateUser`.
pub open spec fn handled_create_user(
    before: IggyShard,
    session_before: Session,
    c: CreateUser,
    env: Environment,
    after: IggyShard,
    session_after: Session,
    r: Result<ShardResponse, IggyError>,
) -> bool {
    session_after == session_before && match r {
        Ok(_) => answers(r, Seq::empty()) && exists|id: u32|
            #[trigger] created_user(
                before,
                after,
                session_before,
                c.username@,
                c.password@,
                c.status,
                c.permissions,
                Ok::<u32, IggyError>(id),
            ),
        Err(e) => created_user(
                before,
                after,
                session_before,
                c.username@,
                c.password@,
                c.status,
                c.permissions,
                Err::<u32, IggyError>(e),
            ),
    }
}

/// What the executor does with `DeleteUser`.
pub open spec fn handled_delete_user(
    before: IggyShard,
    session_before: Session,
    c: DeleteUser,
    env: Environment,
    after: IggyShard,
    session_after: Session,
    r: Result<ShardResponse, IggyError>,
) -> bool {
    session_after == session_before
        && acknowledges(r)
        && deleted_user(before, after, session_before, c.user_id@, outcome(r))
}

/// What the executor does with `UpdateUser`.
pub open spec fn handled_update_user(
    before: IggyShard,
    session_before: Session,
    c: UpdateUser,
    env: Environment,
    after: IggyShard,
    session_after: Session,
    r: Result<ShardResponse, IggyError>,
) -> bool {
    session_after == session_before
        && acknowledges(r)
        && updated_user(
        before,
        after,
        session_before,
        c.user_id@,
        opt_bytes_view(c.username),
        c.status,
        outcome(r),
    )
}

/// What the executor does with `UpdatePermissions`.
pub open spec fn handled_update_permissions(
    before: IggyShard,
    session_before: Session,
    c: UpdatePermissions,
    env: Environment,
    after: IggyShard,
    session_after: Session,
    r: Result<ShardResponse, IggyError>,
) -> bool {
    session_after == session_before
        && acknowledges(r)
        && updated_permissions(before, after, session_before, c.user_id@, c.permissions, outcome(r))
}

/// What the executor does with `ChangePassword`.
pub open spec fn handled_change_password(
    before: IggyShard,
    session_before: Session,
    c: ChangePassword,
    env: Environment,
    after: IggyShard,
    session_after: Session,
    r: Result<ShardResponse, IggyError>,
) -> bool {
    session_after == session_before
        && acknowledges(r)
        && changed_password(
        before,
        after,
        session_before,
        c.user_id@,
        c.current_password@,
        c.new_password@,
        outcome(r),
    )
}

/// What the executor does with `LoginUser`.
pub open spec fn handled_login_user(
    before: IggyShard,
    session_before: Session,
    c: LoginUser,
    env: Environment,
    after: IggyShard,
    session_after: Session,
    r: Result<ShardResponse, IggyError>,
) -> bool {
    match r {
        Ok(_) => exists|id: u32|
            answers(r, identity_reply(id)) && #[trigger] logged_in(
                before,
                after,
                session_before,
                session_after,
                c.username@,
                c.password@,
                Ok::<u32, IggyError>(id),
            ),
        Err(e) => logged_in(
            before,
            after,
            session_before,
            session_after,
            c.username@,
            c.password@,
            Err::<u32, IggyError>(e),
        ),
    }
}

/// What the executor does with `LogoutUser`.
pub open spec fn handled_logout_user(
    before: IggyShard,
    session_before: Session,
    env: Environment,
    after: IggyShard,
    session_after: Session,
    r: Result<ShardResponse, IggyError>,
) -> bool {
    acknowledges(r) && logged_out(before, after, session_before, outcome(r)) && session_after == if r is Ok {
        Session::anonymous(session_before.client_id)
    } else {
        session_before
    }
}

/// What the executor does with `GetPersonalAccessTokens`.
pub open spec fn handled_get_personal_access_tokens(
    before: IggyShard,
    session_before: Session,
    env: Environment,
    after: IggyShard,
    session_after: Session,
    r: Result<ShardResponse, IggyError>,
) -> bool {
    answers_or(
        r,
        match session_before.verdict(None) {
            Ok(_) => Ok(tokens_reply(before.tokens@, session_user(session_before))),
            Err(e) => Err(e),
        },
    )
        && after == before
        && session_after == session_before
}

/// What the executor does with `CreatePersonalAccessToken`.
pub open spec fn handled_create_personal_access_token(
    before: IggyShard,
    session_before: Session,
    c: CreatePersonalAccessToken,
    env: Environment,
    after: IggyShard,
    session_after: Session,
    r: Result<ShardResponse, IggyError>,
) -> bool {
    session_after == session_before && created_token(
        before,
        after,
        session_before,
        c.name@,
        c.expiry,
        env.token@,
        env.now,
        outcome(r),
    ) && (r is Ok ==> answers(r, raw_token_reply(env.token@)))
}

/// What the executor does with `DeletePersonalAccessToken`.
pub open spec fn handled_delete_personal_access_token(
    before: IggyShard,
    session_before: Session,
    c: DeletePersonalAccessToken,
    env: Environment,
    after: IggyShard,
    session_after: Session,
    r: Result<ShardResponse, IggyError>,
) -> bool {
    session_after == session_before
        && acknowledges(r)
        && deleted_token(before, after, session_before, c.name@, outcome(r))
}

/// What the executor does with `LoginWithPersonalAccessToken`.
pub open spec fn handled_login_with_personal_access_token(
    before: IggyShard,
    session_before: Session,
    c: LoginWithPersonalAccessToken,
    env: Environment,
    after: IggyShard,
    session_after: Session,
    r: Result<ShardResponse, IggyError>,
) -> bool {
    match r {
        Ok(_) => exists|id: u32|
            answers(r, identity_reply(id)) && #[trigger] logged_in_with_token(
                before,
                after,
                session_before,
                session_after,
                c.token@,
                env.now,
                Ok::<u32, IggyError>(id),
            ),
        Err(e) => logged_in_with_token(
            before,
            after,
            session_before,
            session_after,
            c.token@,
            env.now,
            Err::<u32, IggyError>(e),
        ),
    }
}

/// What the executor does with `SendMessages`.
pub open spec fn handled_send_messages(
    before: IggyShard,
    session_before: Session,
    c: SendMessages,
    env: Environment,
    after: IggyShard,
    session_after: Session,
    r: Result<ShardResponse, IggyError>,
) -> bool {
    session_after == session_before && match r {
        Ok(_) => answers(r, Seq::empty()) && exists|at: (u32, u64)|
            #[trigger] appended_messages(
                before,
                after,
                session_before,
                c.stream_id@,
                c.topic_id@,
                c.partitioning@,
                c.messages@,
                env.now,
                Ok::<(u32, u64), IggyError>(at),
            ),
        Err(e) => appended_messages(
                before,
                after,
                session_before,
                c.stream_id@,
                c.topic_id@,
                c.partitioning@,
                c.messages@,
                env.now,
                Err::<(u32, u64), IggyError>(e),
            ),
    }
}

/// What the executor does with `PollMessages`.
pub open spec fn handled_poll_messages(
    before: IggyShard,
    session_before: Session,
    c: PollMessages,
    env: Environment,
    after: IggyShard,
    session_after: Session,
    r: Result<ShardResponse, IggyError>,
) -> bool {
    session_after == session_before && match r {
        Ok(_) => exists|polled: PolledMessages|
            answers(r, polled_reply(polled)) && #[trigger] polled_messages(
                before,
                after,
                session_before,
                PollingConsumer::spec_from_consumer(c.consumer, session_before.client_id, c.partition_id),
                c.stream_id@,
                c.topic_id@,
                PollingArgs { strategy: c.strategy, count: c.count, auto_commit: c.auto_commit },
                Ok::<PolledMessages, IggyError>(polled),
            ),
        Err(e) => polled_messages(
            before,
            after,
            session_before,
            PollingConsumer::spec_from_consumer(c.consumer, session_before.client_id, c.partition_id),
            c.stream_id@,
            c.topic_id@,
            PollingArgs { strategy: c.strategy, count: c.count, auto_commit: c.auto_commit },
            Err::<PolledMessages, IggyError>(e),
        ),
    }
}

/// What the executor does with `GetConsumerOffset`.
pub open spec fn handled_get_consumer_offset(
    before: IggyShard,
    session_before: Session,
    c: GetConsumerOffset,
    env: Environment,
    after: IggyShard,
    session_after: Session,
    r: Result<ShardResponse, IggyError>,
) -> bool {
    answers_or(
        r,
        match before.consumer_offset(
            session_before,
            PollingConsumer::spec_from_consumer(c.consumer, session_before.client_id, c.partition_id),
            c.stream_id@,
            c.topic_id@,
        ) {
            Ok(info) => Ok(consumer_offset_reply(info)),
            Err(e) => Err(e),
        },
    )
        && after == before
        && session_after == session_before
}

/// What the executor does with `StoreConsumerOffset`.
pub open spec fn handled_store_consumer_offset(
    before: IggyShard,
    session_before: Session,
    c: StoreConsumerOffset,
    env: Environment,
    after: IggyShard,
    session_after: Session,
    r: Result<ShardResponse, IggyError>,
) -> bool {
    session_after == session_before && acknowledges(r) && stored_consumer_offset(
        before,
        after,
        session_before,
        PollingConsumer::spec_from_consumer(c.consumer, session_before.client_id, c.partition_id),
        c.stream_id@,
        c.topic_id@,
        c.offset,
        outcome(r),
    )
}

/// What the executor does with `GetStream`.
pub open spec fn handled_get_stream(
    before: IggyShard,
    session_before: Session,
    c: GetStream,
    env: Environment,
    after: IggyShard,
    session_after: Session,
    r: Result<ShardResponse, IggyError>,
) -> bool {
    answers_or(
        r,
        match before.admit_stream(session_before, Action::ReadStreams, c.stream_id@) {
            Ok(si) => Ok(stream_reply(before.streams@[si])),
            Err(e) => Err(e),
        },
    )
        && after == before
        && session_after == session_before
}

/// What the executor does with `GetStreams`.
pub open spec fn handled_get_streams(
    before: IggyShard,
    session_before: Session,
    env: Environment,
    after: IggyShard,
    session_after: Session,
    r: Result<ShardResponse, IggyError>,
) -> bool {
    answers_or(
        r,
        match session_before.verdict(Some(Action::ReadStreams)) {
            Ok(_) => Ok(streams_reply(before.streams@)),
            Err(e) => Err(e),
        },
    )
        && after == before
        && session_after == session_before
}

/// What the executor does with `CreateStream`.
pub open spec fn handled_create_stream(
    before: IggyShard,
    session_before: Session,
    c: CreateStream,
    env: Environment,
    after: IggyShard,
    session_after: Session,
    r: Result<ShardResponse, IggyError>,
) -> bool {
    session_after == session_before && match r {
        Ok(_) => answers(r, Seq::empty()) && exists|id: u32|
            #[trigger] created_stream(before, after, session_before, c.stream_id, c.name@, Ok::<u32, IggyError>(id)),
        Err(e) => created_stream(before, after, session_before, c.stream_id, c.name@, Err::<u32, IggyError>(e)),
    }
}

/// What the executor does with `DeleteStream`.
pub open spec fn handled_delete_stream(
    before: IggyShard,
    session_before: Session,
    c: DeleteStream,
    env: Environment,
    after: IggyShard,
    session_after: Session,
    r: Result<ShardResponse, IggyError>,
) -> bool {
    session_after == session_before
        && acknowledges(r)
        && deleted_stream(before, after, session_before, c.stream_id@, outcome(r))
}

/// What the executor does with `UpdateStream`.
pub open spec fn handled_update_stream(
    before: IggyShard,
    session_before: Session,
    c: UpdateStream,
    env: Environment,
    after: IggyShard,
    session_after: Session,
    r: Result<ShardResponse, IggyError>,
) -> bool {
    session_after == session_before
        && acknowledges(r)
        && updated_stream(before, after, session_before, c.stream_id@, c.name@, outcome(r))
}

/// What the executor does with `PurgeStream`.
pub open spec fn handled_purge_stream(
    before: IggyShard,
    session_before: Session,
    c: PurgeStream,
    env: Environment,
    after: IggyShard,
    session_after: Session,
    r: Result<ShardResponse, IggyError>,
) -> bool {
    session_after == session_before
        && acknowledges(r)
        && purged_stream(before, after, session_before, c.stream_id@, outcome(r))
}

/// What the executor does with `GetTopic`.
pub open spec fn handled_get_topic(
    before: IggyShard,
    session_before: Session,
    c: GetTopic,
    env: Environment,
    after: IggyShard,
    session_after: Session,
    r: Result<ShardResponse, IggyError>,
) -> bool {
    answers_or(
        r,
        match before.admit_topic(session_before, Action::ReadTopics, c.stream_id@, c.topic_id@) {
            Ok((si, ti)) => Ok(topic_reply(before.streams@[si].topics@[ti])),
            Err(e) => Err(e),
        },
    )
        && after == before
        && session_after == session_before
}

/// What the executor does with `GetTopics`.
pub open spec fn handled_get_topics(
    before: IggyShard,
    session_before: Session,
    c: GetTopics,
    env: Environment,
    after: IggyShard,
    session_after: Session,
    r: Result<ShardResponse, IggyError>,
) -> bool {
    answers_or(
        r,
        match before.admit_stream(session_before, Action::ReadTopics, c.stream_id@) {
            Ok(si) => Ok(topics_reply(before.streams@[si].topics@)),
            Err(e) => Err(e),
        },
    )
        && after == before
        && session_after == session_before
}

/// What the executor does with `CreateTopic`.
pub open spec fn handled_create_topic(
    before: IggyShard,
    session_before: Session,
    c: CreateTopic,
    env: Environment,
    after: IggyShard,
    session_after: Session,
    r: Result<ShardResponse, IggyError>,
) -> bool {
    session_after == session_before && match r {
        Ok(_) => answers(r, Seq::empty()) && exists|id: u32|
            #[trigger] created_topic_in(
                before,
                after,
                session_before,
                c.stream_id@,
                c.topic_id,
                c.name@,
                c.partitions_count,
                TopicSettings {
                    message_expiry: c.message_expiry,
                    compression_algorithm: c.compression_algorithm,
                    max_topic_size: c.max_topic_size,
                    replication_factor: c.replication_factor,
                },
                Ok::<u32, IggyError>(id),
            ),
        Err(e) => created_topic_in(
                before,
                after,
                session_before,
                c.stream_id@,
                c.topic_id,
                c.name@,
                c.partitions_count,
                TopicSettings {
                    message_expiry: c.message_expiry,
                    compression_algorithm: c.compression_algorithm,
                    max_topic_size: c.max_topic_size,
                    replication_factor: c.replication_factor,
                },
                Err::<u32, IggyError>(e),
            ),
    }
}

/// What the executor does with `DeleteTopic`.
pub open spec fn handled_delete_topic(
    before: IggyShard,
    session_before: Session,
    c: DeleteTopic,
    env: Environment,
    after: IggyShard,
    session_after: Session,
    r: Result<ShardResponse, IggyError>,
) -> bool {
    session_after == session_before
        && acknowledges(r)
        && deleted_topic_in(before, after, session_before, c.stream_id@, c.topic_id@, outcome(r))
}

/// What the executor does with `UpdateTopic`.
pub open spec fn handled_update_topic(
    before: IggyShard,
    session_before: Session,
    c: UpdateTopic,
    env: Environment,
    after: IggyShard,
    session_after: Session,
    r: Result<ShardResponse, IggyError>,
) -> bool {
    session_after == session_before
        && acknowledges(r)
        && updated_topic_in(
        before,
        after,
        session_before,
        c.stream_id@,
        c.topic_id@,
        c.name@,
        TopicSettings {
            message_expiry: c.message_expiry,
            compression_algorithm: c.compression_algorithm,
            max_topic_size: c.max_topic_size,
            replication_factor: c.replication_factor,
        },
        outcome(r),
    )
}

/// What the executor does with `PurgeTopic`.
pub open spec fn handled_purge_topic(
    before: IggyShard,
    session_before: Session,
    c: PurgeTopic,
    env: Environment,
    after: IggyShard,
    session_after: Session,
    r: Result<ShardResponse, IggyError>,
) -> bool {
    session_after == session_before
        && acknowledges(r)
        && purged_topic_in(before, after, session_before, c.stream_id@, c.topic_id@, outcome(r))
}

/// What the executor does with `CreatePartitions`.
pub open spec fn handled_create_partitions(
    before: IggyShard,
    session_before: Session,
    c: CreatePartitions,
    env: Environment,
    after: IggyShard,
    session_after: Session,
    r: Result<ShardResponse, IggyError>,
) -> bool {
    session_after == session_before
        && acknowledges(r)
        && created_partitions_in(
        before,
        after,
        session_before,
        c.stream_id@,
        c.topic_id@,
        c.partitions_count,
        outcome(r),
    )
}

/// What the executor does with `DeletePartitions`.
pub open spec fn handled_delete_partitions(
    before: IggyShard,
    session_before: Session,
    c: DeletePartitions,
    env: Environment,
    after: IggyShard,
    session_after: Session,
    r: Result<ShardResponse, IggyError>,
) -> bool {
    session_after == session_before
        && acknowledges(r)
        && deleted_partitions_in(
        before,
        after,
        session_before,
        c.stream_id@,
        c.topic_id@,
        c.partitions_count,
        outcome(r),
    )
}

/// What the executor does with `GetConsumerGroup`.
pub open spec fn handled_get_consumer_group(
    before: IggyShard,
    session_before: Session,
    c: GetConsumerGroup,
    env: Environment,
    after: IggyShard,
    session_after: Session,
    r: Result<ShardResponse, IggyError>,
) -> bool {
    answers_or(
        r,
        match before.admit_topic(session_before, Action::ReadTopics, c.stream_id@, c.topic_id@) {
            Ok((si, ti)) => match locate(before.streams@[si].topics@[ti].groups@, c.group_id@) {
                Some(g) => Ok(group_reply(before.streams@[si].topics@[ti].groups@[g])),
                None => Err(IggyError::NotFound),
            },
            Err(e) => Err(e),
        },
    )
        && after == before
        && session_after == session_before
}

/// What the executor does with `GetConsumerGroups`.
pub open spec fn handled_get_consumer_groups(
    before: IggyShard,
    session_before: Session,
    c: GetConsumerGroups,
    env: Environment,
    after: IggyShard,
    session_after: Session,
    r: Result<ShardResponse, IggyError>,
) -> bool {
    answers_or(
        r,
        match before.admit_topic(session_before, Action::ReadTopics, c.stream_id@, c.topic_id@) {
            Ok((si, ti)) => Ok(groups_reply(before.streams@[si].topics@[ti].groups@)),
            Err(e) => Err(e),
        },
    )
        && after == before
        && session_after == session_before
}

/// What the executor does with `CreateConsumerGroup`.
pub open spec fn handled_create_consumer_group(
    before: IggyShard,
    session_before: Session,
    c: CreateConsumerGroup,
    env: Environment,
    after: IggyShard,
    session_after: Session,
    r: Result<ShardResponse, IggyError>,
) -> bool {
    session_after == session_before && match r {
        Ok(_) => answers(r, Seq::empty()) && exists|id: u32|
            #[trigger] created_consumer_group(
                before,
                after,
                session_before,
                c.stream_id@,
                c.topic_id@,
                c.group_id,
                c.name@,
                Ok::<u32, IggyError>(id),
            ),
        Err(e) => created_consumer_group(
                before,
                after,
                session_before,
                c.stream_id@,
                c.topic_id@,
                c.group_id,
                c.name@,
                Err::<u32, IggyError>(e),
            ),
    }
}

/// What the executor does with `DeleteConsumerGroup`.
pub open spec fn handled_delete_consumer_group(
    before: IggyShard,
    session_before: Session,
    c: DeleteConsumerGroup,
    env: Environment,
    after: IggyShard,
    session_after: Session,
    r: Result<ShardResponse, IggyError>,
) -> bool {
    session_after == session_before
        && acknowledges(r)
        && deleted_consumer_group(
        before,
        after,
        session_before,
        c.stream_id@,
        c.topic_id@,
        c.group_id@,
        outcome(r),
    )
}

/// What the executor does with `JoinConsumerGroup`.
pub open spec fn handled_join_consumer_group(
    before: IggyShard,
    session_before: Session,
    c: JoinConsumerGroup,
    env: Environment,
    after: IggyShard,
    session_after: Session,
    r: Result<ShardResponse, IggyError>,
) -> bool {
    session_after == session_before
        && acknowledges(r)
        && joined_consumer_group(
        before,
        after,
        session_before,
        c.stream_id@,
        c.topic_id@,
        c.group_id@,
        outcome(r),
    )
}

/// What the executor does with `LeaveConsumerGroup`.
pub open spec fn handled_leave_consumer_group(
    before: IggyShard,
    session_before: Session,
    c: LeaveConsumerGroup,
    env: Environment,
    after: IggyShard,
    session_after: Session,
    r: Result<ShardResponse, IggyError>,
) -> bool {
    session_after == session_before
        && acknowledges(r)
        && left_consumer_group(
        before,
        after,
        session_before,
        c.stream_id@,
        c.topic_id@,
        c.group_id@,
        outcome(r),
    )
}

/// Tells whether a command is executed without a login: `Ping`, and the
/// two commands that log in.
pub open spec fn needs_no_login(command: Command) -> bool {
    command is Ping || command is LoginUser || command is LoginWithPersonalAccessToken
}

/// What the executor does with a command.
///
/// A command whose payload does not fit the wire is refused as
/// `InvalidCommand` before anything else happens.  Every other command is
/// handed to the one operation that belongs to its kind.
pub open spec fn handled(
    before: IggyShard,
    session_before: Session,
    command: Command,
    env: Environment,
    after: IggyShard,
    session_after: Session,
    r: Result<ShardResponse, IggyError>,
) -> bool {
    if !command@.wf() {
        r is Err && r->Err_0 == IggyError::InvalidCommand && after == before && session_after
            == session_before
    } else {
        match command {
            Command::Ping(_) => handled_ping(
                before,
                session_before,
                env,
                after,
                session_after,
                r,
            ),
            Command::GetStats(_) => handled_get_stats(
                before,
                session_before,
                env,
                after,
                session_after,
                r,
            ),
            Command::GetMe(_) => handled_get_me(
                before,
                session_before,
                env,
                after,
                session_after,
                r,
            ),
            Command::GetClient(c) => handled_get_client(
                before,
                session_before, c,
                env,
                after,
                session_after,
                r,
            ),
            Command::GetClients(_) => handled_get_clients(
                before,
                session_before,
                env,
                after,
                session_after,
                r,
            ),
            Command::GetUser(c) => handled_get_user(
                before,
                session_before, c,
                env,
                after,
                session_after,
                r,
            ),
            Command::GetUsers(_) => handled_get_users(
                before,
                session_before,
                env,
                after,
                session_after,
                r,
            ),
            Command::CreateUser(c) => handled_create_user(
                before,
                session_before, c,
                env,
                after,
                session_after,
                r,
            ),
            Command::DeleteUser(c) => handled_delete_user(
                before,
                session_before, c,
                env,
                after,
                session_after,
                r,
            ),
            Command::UpdateUser(c) => handled_update_user(
                before,
                session_before, c,
                env,
                after,
                session_after,
                r,
            ),
            Command::UpdatePermissions(c) => handled_update_permissions(
                before,
                session_before, c,
                env,
                after,
                session_after,
                r,
            ),
            Command::ChangePassword(c) => handled_change_password(
                before,
                session_before, c,
                env,
                after,
                session_after,
                r,
            ),
            Command::LoginUser(c) => handled_login_user(
                before,
                session_before, c,
                env,
                after,
                session_after,
                r,
            ),
            Command::LogoutUser(_) => handled_logout_user(
                before,
                session_before,
                env,
                after,
                session_after,
                r,
            ),
            Command::GetPersonalAccessTokens(_) => handled_get_personal_access_tokens(
                before,
                session_before,
                env,
                after,
                session_after,
                r,
            ),
            Command::CreatePersonalAccessToken(c) => handled_create_personal_access_token(
                before,
                session_before, c,
                env,
                after,
                session_after,
                r,
            ),
            Command::DeletePersonalAccessToken(c) => handled_delete_personal_access_token(
                before,
                session_before, c,
                env,
                after,
                session_after,
                r,
            ),
            Command::LoginWithPersonalAccessToken(c) => handled_login_with_personal_access_token(
                before,
                session_before, c,
                env,
                after,
                session_after,
                r,
            ),
            Command::SendMessages(c) => handled_send_messages(
                before,
                session_before, c,
                env,
                after,
                session_after,
                r,
            ),
            Command::PollMessages(c) => handled_poll_messages(
                before,
                session_before, c,
                env,
                after,
                session_after,
                r,
            ),
            Command::GetConsumerOffset(c) => handled_get_consumer_offset(
                before,
                session_before, c,
                env,
                after,
                session_after,
                r,
            ),
            Command::StoreConsumerOffset(c) => handled_store_consumer_offset(
                before,
                session_before, c,
                env,
                after,
                session_after,
                r,
            ),
            Command::GetStream(c) => handled_get_stream(
                before,
                session_before, c,
                env,
                after,
                session_after,
                r,
            ),
            Command::GetStreams(_) => handled_get_streams(
                before,
                session_before,
                env,
                after,
                session_after,
                r,
            ),
            Command::CreateStream(c) => handled_create_stream(
                before,
                session_before, c,
                env,
                after,
                session_after,
                r,
            ),
            Command::DeleteStream(c) => handled_delete_stream(
                before,
                session_before, c,
                env,
                after,
                session_after,
                r,
            ),
            Command::UpdateStream(c) => handled_update_stream(
                before,
                session_before, c,
                env,
                after,
                session_after,
                r,
            ),
            Command::PurgeStream(c) => handled_purge_stream(
                before,
                session_before, c,
                env,
                after,
                session_after,
                r,
            ),
            Command::GetTopic(c) => handled_get_topic(
                before,
                session_before, c,
                env,
                after,
                session_after,
                r,
            ),
            Command::GetTopics(c) => handled_get_topics(
                before,
                session_before, c,
                env,
                after,
                session_after,
                r,
            ),
            Command::CreateTopic(c) => handled_create_topic(
                before,
                session_before, c,
                env,
                after,
                session_after,
                r,
            ),
            Command::DeleteTopic(c) => handled_delete_topic(
                before,
                session_before, c,
                env,
                after,
                session_after,
                r,
            ),
            Command::UpdateTopic(c) => handled_update_topic(
                before,
                session_before, c,
                env,
                after,
                session_after,
                r,
            ),
            Command::PurgeTopic(c) => handled_purge_topic(
                before,
                session_before, c,
                env,
                after,
                session_after,
                r,
            ),
            Command::CreatePartitions(c) => handled_create_partitions(
                before,
                session_before, c,
                env,
                after,
                session_after,
                r,
            ),
            Command::DeletePartitions(c) => handled_delete_partitions(
                before,
                session_before, c,
                env,
                after,
                session_after,
                r,
            ),
            Command::GetConsumerGroup(c) => handled_get_consumer_group(
                before,
                session_before, c,
                env,
                after,
                session_after,
                r,
            ),
            Command::GetConsumerGroups(c) => handled_get_consumer_groups(
                before,
                session_before, c,
                env,
                after,
                session_after,
                r,
            ),
            Command::CreateConsumerGroup(c) => handled_create_consumer_group(
                before,
                session_before, c,
                env,
                after,
                session_after,
                r,
            ),
            Command::DeleteConsumerGroup(c) => handled_delete_consumer_group(
                before,
                session_before, c,
                env,
                after,
                session_after,
                r,
            ),
            Command::JoinConsumerGroup(c) => handled_join_consumer_group(
                before,
                session_before, c,
                env,
                after,
                session_after,
                r,
            ),
            Command::LeaveConsumerGroup(c) => handled_leave_consumer_group(
                before,
                session_before, c,
                env,
                after,
                session_after,
                r,
            ),
        }
    }
}

/// Without a login nothing but `Ping` and the logins is executed: every
/// other command is refused as `Unauthenticated`, and neither the shard nor
/// the session changes.
pub proof fn lemma_login_is_required(
    before: IggyShard,
    session_before: Session,
    command: Command,
    env: Environment,
    after: IggyShard,
    session_after: Session,
    r: Result<ShardResponse, IggyError>,
)
    requires
        handled(before, session_before, command, env, after, session_after, r),
        command@.wf(),
        !session_before.authenticated,
        !needs_no_login(command),
    ensures
        r is Err,
        r->Err_0 == IggyError::Unauthenticated,
        unchanged(before, after),
        session_after == session_before,
{
    match command {
        Command::Ping(_) => {},
        Command::GetStats(_) => {},
        Command::GetMe(_) => {},
        Command::GetClient(_) => {},
        Command::GetClients(_) => {},
        Command::GetUser(_) => {},
        Command::GetUsers(_) => {},
        Command::CreateUser(_) => {},
        Command::DeleteUser(_) => {},
        Command::UpdateUser(_) => {},
        Command::UpdatePermissions(_) => {},
        Command::ChangePassword(_) => {},
        Command::LoginUser(_) => {},
        Command::LogoutUser(_) => {},
        Command::GetPersonalAccessTokens(_) => {},
        Command::CreatePersonalAccessToken(_) => {},
        Command::DeletePersonalAccessToken(_) => {},
        Command::LoginWithPersonalAccessToken(_) => {},
        Command::SendMessages(_) => {},
        Command::PollMessages(_) => {},
        Command::GetConsumerOffset(_) => {},
        Command::StoreConsumerOffset(_) => {},
        Command::GetStream(_) => {},
        Command::GetStreams(_) => {},
        Command::CreateStream(_) => {},
        Command::DeleteStream(_) => {},
        Command::UpdateStream(_) => {},
        Command::PurgeStream(_) => {},
        Command::GetTopic(_) => {},
        Command::GetTopics(_) => {},
        Command::CreateTopic(_) => {},
        Command::DeleteTopic(_) => {},
        Command::UpdateTopic(_) => {},
        Command::PurgeTopic(_) => {},
        Command::CreatePartitions(_) => {},
        Command::DeletePartitions(_) => {},
        Command::GetConsumerGroup(_) => {},
        Command::GetConsumerGroups(_) => {},
        Command::CreateConsumerGroup(_) => {},
        Command::DeleteConsumerGroup(_) => {},
        Command::JoinConsumerGroup(_) => {},
        Command::LeaveConsumerGroup(_) => {},
    }
}

impl IggyShard {
    /// Executes one command on behalf of a session and answers it.
    ///
    /// Every kind of command has exactly one arm here, and every arm ends in
    /// a binary response or in an error.
    pub fn handle_command(&mut self, session: &mut Session, command: Command, env: &Environment) -> (r:
        Result<ShardResponse, IggyError>)
        requires
            old(self).wf(),
            old(session).wf(),
        ensures
            final(self).wf(),
            final(session).wf(),
            r is Ok ==> r->Ok_0 is BinaryResponse,
            handled(*old(self), *old(session), command, *env, *final(self), *final(session), r),
    {
        if command.validate().is_err() {
            return Err(IggyError::InvalidCommand);
        }
        match command {
            Command::Ping(_) => self.handle_ping(session, env),
            Command::GetStats(_) => self.handle_get_stats(session, env),
            Command::GetMe(_) => self.handle_get_me(session, env),
            Command::GetClient(c) => self.handle_get_client(session, &c, env),
            Command::GetClients(_) => self.handle_get_clients(session, env),
            Command::GetUser(c) => self.handle_get_user(session, &c, env),
            Command::GetUsers(_) => self.handle_get_users(session, env),
            Command::CreateUser(c) => self.handle_create_user(session, &c, env),
            Command::DeleteUser(c) => self.handle_delete_user(session, &c, env),
            Command::UpdateUser(c) => self.handle_update_user(session, &c, env),
            Command::UpdatePermissions(c) => self.handle_update_permissions(session, &c, env),
            Command::ChangePassword(c) => self.handle_change_password(session, &c, env),
            Command::LoginUser(c) => self.handle_login_user(session, &c, env),
            Command::LogoutUser(_) => self.handle_logout_user(session, env),
            Command::GetPersonalAccessTokens(_) => self.handle_get_personal_access_tokens(session, env),
            Command::CreatePersonalAccessToken(c) => self.handle_create_personal_access_token(session, &c, env),
            Command::DeletePersonalAccessToken(c) => self.handle_delete_personal_access_token(session, &c, env),
            Command::LoginWithPersonalAccessToken(c) => self.handle_login_with_personal_access_token(session, &c, env),
            Command::SendMessages(c) => self.handle_send_messages(session, &c, env),
            Command::PollMessages(c) => self.handle_poll_messages(session, &c, env),
            Command::GetConsumerOffset(c) => self.handle_get_consumer_offset(session, &c, env),
            Command::StoreConsumerOffset(c) => self.handle_store_consumer_offset(session, &c, env),
            Command::GetStream(c) => self.handle_get_stream(session, &c, env),
            Command::GetStreams(_) => self.handle_get_streams(session, env),
            Command::CreateStream(c) => self.handle_create_stream(session, &c, env),
            Command::DeleteStream(c) => self.handle_delete_stream(session, &c, env),
            Command::UpdateStream(c) => self.handle_update_stream(session, &c, env),
            Command::PurgeStream(c) => self.handle_purge_stream(session, &c, env),
            Command::GetTopic(c) => self.handle_get_topic(session, &c, env),
            Command::GetTopics(c) => self.handle_get_topics(session, &c, env),
            Command::CreateTopic(c) => self.handle_create_topic(session, &c, env),
            Command::DeleteTopic(c) => self.handle_delete_topic(session, &c, env),
            Command::UpdateTopic(c) => self.handle_update_topic(session, &c, env),
            Command::PurgeTopic(c) => self.handle_purge_topic(session, &c, env),
            Command::CreatePartitions(c) => self.handle_create_partitions(session, &c, env),
            Command::DeletePartitions(c) => self.handle_delete_partitions(session, &c, env),
            Command::GetConsumerGroup(c) => self.handle_get_consumer_group(session, &c, env),
            Command::GetConsumerGroups(c) => self.handle_get_consumer_groups(session, &c, env),
            Command::CreateConsumerGroup(c) => self.handle_create_consumer_group(session, &c, env),
            Command::DeleteConsumerGroup(c) => self.handle_delete_consumer_group(session, &c, env),
            Command::JoinConsumerGroup(c) => self.handle_join_consumer_group(session, &c, env),
            Command::LeaveConsumerGroup(c) => self.handle_leave_consumer_group(session, &c, env),
        }
    }

    /// Executes `Ping`.
    fn handle_ping(&mut self, session: &mut Session, env: &Environment) -> (r: Result<
        ShardResponse,
        IggyError,
    >)
        requires
            old(self).wf(),
            old(session).wf(),
        ensures
            final(self).wf(),
            final(session).wf(),
            r is Ok ==> r->Ok_0 is BinaryResponse,
            handled_ping(
                *old(self),
                *old(session),
                *env,
                *final(self),
                *final(session),
                r,
            ),
    {
        Ok(ShardResponse::BinaryResponse(Bytes::new()))
    }

    /// Executes `GetStats`.
    fn handle_get_stats(&mut self, session: &mut Session, env: &Environment) -> (r: Result<
        ShardResponse,
        IggyError,
    >)
        requires
            old(self).wf(),
            old(session).wf(),
        ensures
            final(self).wf(),
            final(session).wf(),
            r is Ok ==> r->Ok_0 is BinaryResponse,
            handled_get_stats(
                *old(self),
                *old(session),
                *env,
                *final(self),
                *final(session),
                r,
            ),
    {
        let stats = self.get_stats(session)?;
        Ok(ShardResponse::BinaryResponse(map_stats(&stats)))
    }

    /// Executes `GetMe`.
    fn handle_get_me(&mut self, session: &mut Session, env: &Environment) -> (r: Result<
        ShardResponse,
        IggyError,
    >)
        requires
            old(self).wf(),
            old(session).wf(),
        ensures
            final(self).wf(),
            final(session).wf(),
            r is Ok ==> r->Ok_0 is BinaryResponse,
            handled_get_me(
                *old(self),
                *old(session),
                *env,
                *final(self),
                *final(session),
                r,
            ),
    {
        let client = self.get_client(session, None, session.client_id)?;
        Ok(ShardResponse::BinaryResponse(map_client(&client)))
    }

    /// Executes `GetClient`.
    fn handle_get_client(&mut self, session: &mut Session, c: &GetClient, env: &Environment) -> (r: Result<
        ShardResponse,
        IggyError,
    >)
        requires
            old(self).wf(),
            old(session).wf(),
        ensures
            final(self).wf(),
            final(session).wf(),
            r is Ok ==> r->Ok_0 is BinaryResponse,
            handled_get_client(
                *old(self),
                *old(session), *c,
                *env,
                *final(self),
                *final(session),
                r,
            ),
    {
        let client = self.get_client(session, Some(Action::ReadServers), c.client_id)?;
        Ok(ShardResponse::BinaryResponse(map_client(&client)))
    }

    /// Executes `GetClients`.
    fn handle_get_clients(&mut self, session: &mut Session, env: &Environment) -> (r: Result<
        ShardResponse,
        IggyError,
    >)
        requires
            old(self).wf(),
            old(session).wf(),
        ensures
            final(self).wf(),
            final(session).wf(),
            r is Ok ==> r->Ok_0 is BinaryResponse,
            handled_get_clients(
                *old(self),
                *old(session),
                *env,
                *final(self),
                *final(session),
                r,
            ),
    {
        self.get_clients(session)?;
        Ok(ShardResponse::BinaryResponse(map_clients(&self.clients)))
    }

    /// Executes `GetUser`.
    fn handle_get_user(&mut self, session: &mut Session, c: &GetUser, env: &Environment) -> (r: Result<
        ShardResponse,
        IggyError,
    >)
        requires
            old(self).wf(),
            old(session).wf(),
        ensures
            final(self).wf(),
            final(session).wf(),
            r is Ok ==> r->Ok_0 is BinaryResponse,
            handled_get_user(
                *old(self),
                *old(session), *c,
                *env,
                *final(self),
                *final(session),
                r,
            ),
    {
        let i = self.find_user(session, &c.user_id)?;
        Ok(ShardResponse::BinaryResponse(map_user(&self.users[i])))
    }

    /// Executes `GetUsers`.
    fn handle_get_users(&mut self, session: &mut Session, env: &Environment) -> (r: Result<
        ShardResponse,
        IggyError,
    >)
        requires
            old(self).wf(),
            old(session).wf(),
        ensures
            final(self).wf(),
            final(session).wf(),
            r is Ok ==> r->Ok_0 is BinaryResponse,
            handled_get_users(
                *old(self),
                *old(session),
                *env,
                *final(self),
                *final(session),
                r,
            ),
    {
        self.get_users(session)?;
        Ok(ShardResponse::BinaryResponse(map_users(&self.users)))
    }

    /// Executes `CreateUser`.
    fn handle_create_user(&mut self, session: &mut Session, c: &CreateUser, env: &Environment) -> (r: Result<
        ShardResponse,
        IggyError,
    >)
        requires
            old(self).wf(),
            old(session).wf(),
        ensures
            final(self).wf(),
            final(session).wf(),
            r is Ok ==> r->Ok_0 is BinaryResponse,
            handled_create_user(
                *old(self),
                *old(session), *c,
                *env,
                *final(self),
                *final(session),
                r,
            ),
    {
        match self.create_user(session, &c.username, &c.password, c.status, c.permissions) {
            Ok(_) => Ok(ShardResponse::BinaryResponse(Bytes::new())),
            Err(e) => Err(e),
        }
    }

    /// Executes `DeleteUser`.
    fn handle_delete_user(&mut self, session: &mut Session, c: &DeleteUser, env: &Environment) -> (r: Result<
        ShardResponse,
        IggyError,
    >)
        requires
            old(self).wf(),
            old(session).wf(),
        ensures
            final(self).wf(),
            final(session).wf(),
            r is Ok ==> r->Ok_0 is BinaryResponse,
            handled_delete_user(
                *old(self),
                *old(session), *c,
                *env,
                *final(self),
                *final(session),
                r,
            ),
    {
        acknowledge(self.delete_user(session, &c.user_id))
    }

    /// Executes `UpdateUser`.
    fn handle_update_user(&mut self, session: &mut Session, c: &UpdateUser, env: &Environment) -> (r: Result<
        ShardResponse,
        IggyError,
    >)
        requires
            old(self).wf(),
            old(session).wf(),
        ensures
            final(self).wf(),
            final(session).wf(),
            r is Ok ==> r->Ok_0 is BinaryResponse,
            handled_update_user(
                *old(self),
                *old(session), *c,
                *env,
                *final(self),
                *final(session),
                r,
            ),
    {
        acknowledge(self.update_user(session, &c.user_id, &c.username, c.status))
    }

    /// Executes `UpdatePermissions`.
    fn handle_update_permissions(&mut self, session: &mut Session, c: &UpdatePermissions, env: &Environment) -> (r: Result<
        ShardResponse,
        IggyError,
    >)
        requires
            old(self).wf(),
            old(session).wf(),
        ensures
            final(self).wf(),
            final(session).wf(),
            r is Ok ==> r->Ok_0 is BinaryResponse,
            handled_update_permissions(
                *old(self),
                *old(session), *c,
                *env,
                *final(self),
                *final(session),
                r,
            ),
    {
        acknowledge(self.update_permissions(session, &c.user_id, c.permissions))
    }

    /// Executes `ChangePassword`.
    fn handle_change_password(&mut self, session: &mut Session, c: &ChangePassword, env: &Environment) -> (r: Result<
        ShardResponse,
        IggyError,
    >)
        requires
            old(self).wf(),
            old(session).wf(),
        ensures
            final(self).wf(),
            final(session).wf(),
            r is Ok ==> r->Ok_0 is BinaryResponse,
            handled_change_password(
                *old(self),
                *old(session), *c,
                *env,
                *final(self),
                *final(session),
                r,
            ),
    {
        acknowledge(self.change_password(session, &c.user_id, &c.current_password, &c.new_password))
    }

    /// Executes `LoginUser`.
    fn handle_login_user(&mut self, session: &mut Session, c: &LoginUser, env: &Environment) -> (r: Result<
        ShardResponse,
        IggyError,
    >)
        requires
            old(self).wf(),
            old(session).wf(),
        ensures
            final(self).wf(),
            final(session).wf(),
            r is Ok ==> r->Ok_0 is BinaryResponse,
            handled_login_user(
                *old(self),
                *old(session), *c,
                *env,
                *final(self),
                *final(session),
                r,
            ),
    {
        let id = self.login_user(&c.username, &c.password, session)?;
        Ok(ShardResponse::BinaryResponse(map_identity_info(id)))
    }

    /// Executes `LogoutUser`.
    fn handle_logout_user(&mut self, session: &mut Session, env: &Environment) -> (r: Result<
        ShardResponse,
        IggyError,
    >)
        requires
            old(self).wf(),
            old(session).wf(),
        ensures
            final(self).wf(),
            final(session).wf(),
            r is Ok ==> r->Ok_0 is BinaryResponse,
            handled_logout_user(
                *old(self),
                *old(session),
                *env,
                *final(self),
                *final(session),
                r,
            ),
    {
        self.logout_user(session)?;
        session.clear_user_id();
        Ok(ShardResponse::BinaryResponse(Bytes::new()))
    }

    /// Executes `GetPersonalAccessTokens`.
    fn handle_get_personal_access_tokens(&mut self, session: &mut Session, env: &Environment) -> (r: Result<
        ShardResponse,
        IggyError,
    >)
        requires
            old(self).wf(),
            old(session).wf(),
        ensures
            final(self).wf(),
            final(session).wf(),
            r is Ok ==> r->Ok_0 is BinaryResponse,
            handled_get_personal_access_tokens(
                *old(self),
                *old(session),
                *env,
                *final(self),
                *final(session),
                r,
            ),
    {
        let owner = self.get_personal_access_tokens(session)?;
        Ok(ShardResponse::BinaryResponse(map_personal_access_tokens(&self.tokens, owner)))
    }

    /// Executes `CreatePersonalAccessToken`.
    fn handle_create_personal_access_token(&mut self, session: &mut Session, c: &CreatePersonalAccessToken, env: &Environment) -> (r: Result<
        ShardResponse,
        IggyError,
    >)
        requires
            old(self).wf(),
            old(session).wf(),
        ensures
            final(self).wf(),
            final(session).wf(),
            r is Ok ==> r->Ok_0 is BinaryResponse,
            handled_create_personal_access_token(
                *old(self),
                *old(session), *c,
                *env,
                *final(self),
                *final(session),
                r,
            ),
    {
        self.create_personal_access_token(session, &c.name, c.expiry, &env.token, env.now)?;
        Ok(ShardResponse::BinaryResponse(map_raw_pat(&env.token)))
    }

    /// Executes `DeletePersonalAccessToken`.
    fn handle_delete_personal_access_token(&mut self, session: &mut Session, c: &DeletePersonalAccessToken, env: &Environment) -> (r: Result<
        ShardResponse,
        IggyError,
    >)
        requires
            old(self).wf(),
            old(session).wf(),
        ensures
            final(self).wf(),
            final(session).wf(),
            r is Ok ==> r->Ok_0 is BinaryResponse,
            handled_delete_personal_access_token(
                *old(self),
                *old(session), *c,
                *env,
                *final(self),
                *final(session),
                r,
            ),
    {
        acknowledge(self.delete_personal_access_token(session, &c.name))
    }

    /// Executes `LoginWithPersonalAccessToken`.
    fn handle_login_with_personal_access_token(&mut self, session: &mut Session, c: &LoginWithPersonalAccessToken, env: &Environment) -> (r: Result<
        ShardResponse,
        IggyError,
    >)
        requires
            old(self).wf(),
            old(session).wf(),
        ensures
            final(self).wf(),
            final(session).wf(),
            r is Ok ==> r->Ok_0 is BinaryResponse,
            handled_login_with_personal_access_token(
                *old(self),
                *old(session), *c,
                *env,
                *final(self),
                *final(session),
                r,
            ),
    {
        let id = self.login_with_personal_access_token(&c.token, session, env.now)?;
        Ok(ShardResponse::BinaryResponse(map_identity_info(id)))
    }

    /// Executes `SendMessages`.
    fn handle_send_messages(&mut self, session: &mut Session, c: &SendMessages, env: &Environment) -> (r: Result<
        ShardResponse,
        IggyError,
    >)
        requires
            old(self).wf(),
            old(session).wf(),
        ensures
            final(self).wf(),
            final(session).wf(),
            r is Ok ==> r->Ok_0 is BinaryResponse,
            handled_send_messages(
                *old(self),
                *old(session), *c,
                *env,
                *final(self),
                *final(session),
                r,
            ),
    {
        match self.append_messages(
            session,
            &c.stream_id,
            &c.topic_id,
            &c.partitioning,
            &c.messages,
            env.now,
        ) {
            Ok(_) => Ok(ShardResponse::BinaryResponse(Bytes::new())),
            Err(e) => Err(e),
        }
    }

    /// Executes `PollMessages`.
    fn handle_poll_messages(&mut self, session: &mut Session, c: &PollMessages, env: &Environment) -> (r: Result<
        ShardResponse,
        IggyError,
    >)
        requires
            old(self).wf(),
            old(session).wf(),
        ensures
            final(self).wf(),
            final(session).wf(),
            r is Ok ==> r->Ok_0 is BinaryResponse,
            handled_poll_messages(
                *old(self),
                *old(session), *c,
                *env,
                *final(self),
                *final(session),
                r,
            ),
    {
        let consumer = PollingConsumer::from_consumer(c.consumer, session.client_id, c.partition_id);
        let polled = self.poll_messages(
            session,
            consumer,
            &c.stream_id,
            &c.topic_id,
            PollingArgs::new(c.strategy, c.count, c.auto_commit),
        )?;
        Ok(ShardResponse::BinaryResponse(map_polled_messages(&polled)))
    }

    /// Executes `GetConsumerOffset`.
    fn handle_get_consumer_offset(&mut self, session: &mut Session, c: &GetConsumerOffset, env: &Environment) -> (r: Result<
        ShardResponse,
        IggyError,
    >)
        requires
            old(self).wf(),
            old(session).wf(),
        ensures
            final(self).wf(),
            final(session).wf(),
            r is Ok ==> r->Ok_0 is BinaryResponse,
            handled_get_consumer_offset(
                *old(self),
                *old(session), *c,
                *env,
                *final(self),
                *final(session),
                r,
            ),
    {
        let consumer = PollingConsumer::from_consumer(c.consumer, session.client_id, c.partition_id);
        let info = self.get_consumer_offset(session, consumer, &c.stream_id, &c.topic_id)?;
        Ok(ShardResponse::BinaryResponse(map_consumer_offset(&info)))
    }

    /// Executes `StoreConsumerOffset`.
    fn handle_store_consumer_offset(&mut self, session: &mut Session, c: &StoreConsumerOffset, env: &Environment) -> (r: Result<
        ShardResponse,
        IggyError,
    >)
        requires
            old(self).wf(),
            old(session).wf(),
        ensures
            final(self).wf(),
            final(session).wf(),
            r is Ok ==> r->Ok_0 is BinaryResponse,
            handled_store_consumer_offset(
                *old(self),
                *old(session), *c,
                *env,
                *final(self),
                *final(session),
                r,
            ),
    {
        let consumer = PollingConsumer::from_consumer(c.consumer, session.client_id, c.partition_id);
        acknowledge(self.store_consumer_offset(session, consumer, &c.stream_id, &c.topic_id, c.offset))
    }

    /// Executes `GetStream`.
    fn handle_get_stream(&mut self, session: &mut Session, c: &GetStream, env: &Environment) -> (r: Result<
        ShardResponse,
        IggyError,
    >)
        requires
            old(self).wf(),
            old(session).wf(),
        ensures
            final(self).wf(),
            final(session).wf(),
            r is Ok ==> r->Ok_0 is BinaryResponse,
            handled_get_stream(
                *old(self),
                *old(session), *c,
                *env,
                *final(self),
                *final(session),
                r,
            ),
    {
        let si = self.find_stream(session, &c.stream_id)?;
        Ok(ShardResponse::BinaryResponse(map_stream(&self.streams[si])))
    }

    /// Executes `GetStreams`.
    fn handle_get_streams(&mut self, session: &mut Session, env: &Environment) -> (r: Result<
        ShardResponse,
        IggyError,
    >)
        requires
            old(self).wf(),
            old(session).wf(),
        ensures
            final(self).wf(),
            final(session).wf(),
            r is Ok ==> r->Ok_0 is BinaryResponse,
            handled_get_streams(
                *old(self),
                *old(session),
                *env,
                *final(self),
                *final(session),
                r,
            ),
    {
        self.get_streams(session)?;
        Ok(ShardResponse::BinaryResponse(map_streams(&self.streams)))
    }

    /// Executes `CreateStream`.
    fn handle_create_stream(&mut self, session: &mut Session, c: &CreateStream, env: &Environment) -> (r: Result<
        ShardResponse,
        IggyError,
    >)
        requires
            old(self).wf(),
            old(session).wf(),
        ensures
            final(self).wf(),
            final(session).wf(),
            r is Ok ==> r->Ok_0 is BinaryResponse,
            handled_create_stream(
                *old(self),
                *old(session), *c,
                *env,
                *final(self),
                *final(session),
                r,
            ),
    {
        match self.create_stream(session, c.stream_id, &c.name) {
            Ok(_) => Ok(ShardResponse::BinaryResponse(Bytes::new())),
            Err(e) => Err(e),
        }
    }

    /// Executes `DeleteStream`.
    fn handle_delete_stream(&mut self, session: &mut Session, c: &DeleteStream, env: &Environment) -> (r: Result<
        ShardResponse,
        IggyError,
    >)
        requires
            old(self).wf(),
            old(session).wf(),
        ensures
            final(self).wf(),
            final(session).wf(),
            r is Ok ==> r->Ok_0 is BinaryResponse,
            handled_delete_stream(
                *old(self),
                *old(session), *c,
                *env,
                *final(self),
                *final(session),
                r,
            ),
    {
        acknowledge(self.delete_stream(session, &c.stream_id))
    }

    /// Executes `UpdateStream`.
    fn handle_update_stream(&mut self, session: &mut Session, c: &UpdateStream, env: &Environment) -> (r: Result<
        ShardResponse,
        IggyError,
    >)
        requires
            old(self).wf(),
            old(session).wf(),
        ensures
            final(self).wf(),
            final(session).wf(),
            r is Ok ==> r->Ok_0 is BinaryResponse,
            handled_update_stream(
                *old(self),
                *old(session), *c,
                *env,
                *final(self),
                *final(session),
                r,
            ),
    {
        acknowledge(self.update_stream(session, &c.stream_id, &c.name))
    }

    /// Executes `PurgeStream`.
    fn handle_purge_stream(&mut self, session: &mut Session, c: &PurgeStream, env: &Environment) -> (r: Result<
        ShardResponse,
        IggyError,
    >)
        requires
            old(self).wf(),
            old(session).wf(),
        ensures
            final(self).wf(),
            final(session).wf(),
            r is Ok ==> r->Ok_0 is BinaryResponse,
            handled_purge_stream(
                *old(self),
                *old(session), *c,
                *env,
                *final(self),
                *final(session),
                r,
            ),
    {
        acknowledge(self.purge_stream(session, &c.stream_id))
    }

    /// Executes `GetTopic`.
    fn handle_get_topic(&mut self, session: &mut Session, c: &GetTopic, env: &Environment) -> (r: Result<
        ShardResponse,
        IggyError,
    >)
        requires
            old(self).wf(),
            old(session).wf(),
        ensures
            final(self).wf(),
            final(session).wf(),
            r is Ok ==> r->Ok_0 is BinaryResponse,
            handled_get_topic(
                *old(self),
                *old(session), *c,
                *env,
                *final(self),
                *final(session),
                r,
            ),
    {
        let (si, ti) = self.find_topic(session, &c.stream_id, &c.topic_id)?;
        Ok(ShardResponse::BinaryResponse(map_topic(&self.streams[si].topics[ti])))
    }

    /// Executes `GetTopics`.
    fn handle_get_topics(&mut self, session: &mut Session, c: &GetTopics, env: &Environment) -> (r: Result<
        ShardResponse,
        IggyError,
    >)
        requires
            old(self).wf(),
            old(session).wf(),
        ensures
            final(self).wf(),
            final(session).wf(),
            r is Ok ==> r->Ok_0 is BinaryResponse,
            handled_get_topics(
                *old(self),
                *old(session), *c,
                *env,
                *final(self),
                *final(session),
                r,
            ),
    {
        let si = self.find_topics(session, &c.stream_id)?;
        Ok(ShardResponse::BinaryResponse(map_topics(&self.streams[si].topics)))
    }

    /// Executes `CreateTopic`.
    fn handle_create_topic(&mut self, session: &mut Session, c: &CreateTopic, env: &Environment) -> (r: Result<
        ShardResponse,
        IggyError,
    >)
        requires
            old(self).wf(),
            old(session).wf(),
        ensures
            final(self).wf(),
            final(session).wf(),
            r is Ok ==> r->Ok_0 is BinaryResponse,
            handled_create_topic(
                *old(self),
                *old(session), *c,
                *env,
                *final(self),
                *final(session),
                r,
            ),
    {
        match self.create_topic(
            session,
            &c.stream_id,
            c.topic_id,
            &c.name,
            c.partitions_count,
            c.message_expiry,
            c.compression_algorithm,
            c.max_topic_size,
            c.replication_factor,
        ) {
            Ok(_) => Ok(ShardResponse::BinaryResponse(Bytes::new())),
            Err(e) => Err(e),
        }
    }

    /// Executes `DeleteTopic`.
    fn handle_delete_topic(&mut self, session: &mut Session, c: &DeleteTopic, env: &Environment) -> (r: Result<
        ShardResponse,
        IggyError,
    >)
        requires
            old(self).wf(),
            old(session).wf(),
        ensures
            final(self).wf(),
            final(session).wf(),
            r is Ok ==> r->Ok_0 is BinaryResponse,
            handled_delete_topic(
                *old(self),
                *old(session), *c,
                *env,
                *final(self),
                *final(session),
                r,
            ),
    {
        acknowledge(self.delete_topic(session, &c.stream_id, &c.topic_id))
    }

    /// Executes `UpdateTopic`.
    fn handle_update_topic(&mut self, session: &mut Session, c: &UpdateTopic, env: &Environment) -> (r: Result<
        ShardResponse,
        IggyError,
    >)
        requires
            old(self).wf(),
            old(session).wf(),
        ensures
            final(self).wf(),
            final(session).wf(),
            r is Ok ==> r->Ok_0 is BinaryResponse,
            handled_update_topic(
                *old(self),
                *old(session), *c,
                *env,
                *final(self),
                *final(session),
                r,
            ),
    {
        acknowledge(self.update_topic(
            session,
            &c.stream_id,
            &c.topic_id,
            &c.name,
            c.message_expiry,
            c.compression_algorithm,
            c.max_topic_size,
            c.replication_factor,
        ))
    }

    /// Executes `PurgeTopic`.
    fn handle_purge_topic(&mut self, session: &mut Session, c: &PurgeTopic, env: &Environment) -> (r: Result<
        ShardResponse,
        IggyError,
    >)
        requires
            old(self).wf(),
            old(session).wf(),
        ensures
            final(self).wf(),
            final(session).wf(),
            r is Ok ==> r->Ok_0 is BinaryResponse,
            handled_purge_topic(
                *old(self),
                *old(session), *c,
                *env,
                *final(self),
                *final(session),
                r,
            ),
    {
        acknowledge(self.purge_topic(session, &c.stream_id, &c.topic_id))
    }

    /// Executes `CreatePartitions`.
    fn handle_create_partitions(&mut self, session: &mut Session, c: &CreatePartitions, env: &Environment) -> (r: Result<
        ShardResponse,
        IggyError,
    >)
        requires
            old(self).wf(),
            old(session).wf(),
        ensures
            final(self).wf(),
            final(session).wf(),
            r is Ok ==> r->Ok_0 is BinaryResponse,
            handled_create_partitions(
                *old(self),
                *old(session), *c,
                *env,
                *final(self),
                *final(session),
                r,
            ),
    {
        acknowledge(self.create_partitions(session, &c.stream_id, &c.topic_id, c.partitions_count))
    }

    /// Executes `DeletePartitions`.
    fn handle_delete_partitions(&mut self, session: &mut Session, c: &DeletePartitions, env: &Environment) -> (r: Result<
        ShardResponse,
        IggyError,
    >)
        requires
            old(self).wf(),
            old(session).wf(),
        ensures
            final(self).wf(),
            final(session).wf(),
            r is Ok ==> r->Ok_0 is BinaryResponse,
            handled_delete_partitions(
                *old(self),
                *old(session), *c,
                *env,
                *final(self),
                *final(session),
                r,
            ),
    {
        acknowledge(self.delete_partitions(session, &c.stream_id, &c.topic_id, c.partitions_count))
    }

    /// Executes `GetConsumerGroup`.
    fn handle_get_consumer_group(&mut self, session: &mut Session, c: &GetConsumerGroup, env: &Environment) -> (r: Result<
        ShardResponse,
        IggyError,
    >)
        requires
            old(self).wf(),
            old(session).wf(),
        ensures
            final(self).wf(),
            final(session).wf(),
            r is Ok ==> r->Ok_0 is BinaryResponse,
            handled_get_consumer_group(
                *old(self),
                *old(session), *c,
                *env,
                *final(self),
                *final(session),
                r,
            ),
    {
        let (si, ti, g) = self.get_consumer_group(session, &c.stream_id, &c.topic_id, &c.group_id)?;
        Ok(ShardResponse::BinaryResponse(map_consumer_group(&self.streams[si].topics[ti].groups[g])))
    }

    /// Executes `GetConsumerGroups`.
    fn handle_get_consumer_groups(&mut self, session: &mut Session, c: &GetConsumerGroups, env: &Environment) -> (r: Result<
        ShardResponse,
        IggyError,
    >)
        requires
            old(self).wf(),
            old(session).wf(),
        ensures
            final(self).wf(),
            final(session).wf(),
            r is Ok ==> r->Ok_0 is BinaryResponse,
            handled_get_consumer_groups(
                *old(self),
                *old(session), *c,
                *env,
                *final(self),
                *final(session),
                r,
            ),
    {
        let (si, ti) = self.get_consumer_groups(session, &c.stream_id, &c.topic_id)?;
        Ok(ShardResponse::BinaryResponse(map_consumer_groups(&self.streams[si].topics[ti].groups)))
    }

    /// Executes `CreateConsumerGroup`.
    fn handle_create_consumer_group(&mut self, session: &mut Session, c: &CreateConsumerGroup, env: &Environment) -> (r: Result<
        ShardResponse,
        IggyError,
    >)
        requires
            old(self).wf(),
            old(session).wf(),
        ensures
            final(self).wf(),
            final(session).wf(),
            r is Ok ==> r->Ok_0 is BinaryResponse,
            handled_create_consumer_group(
                *old(self),
                *old(session), *c,
                *env,
                *final(self),
                *final(session),
                r,
            ),
    {
        match self.create_consumer_group(session, &c.stream_id, &c.topic_id, c.group_id, &c.name) {
            Ok(_) => Ok(ShardResponse::BinaryResponse(Bytes::new())),
            Err(e) => Err(e),
        }
    }

    /// Executes `DeleteConsumerGroup`.
    fn handle_delete_consumer_group(&mut self, session: &mut Session, c: &DeleteConsumerGroup, env: &Environment) -> (r: Result<
        ShardResponse,
        IggyError,
    >)
        requires
            old(self).wf(),
            old(session).wf(),
        ensures
            final(self).wf(),
            final(session).wf(),
            r is Ok ==> r->Ok_0 is BinaryResponse,
            handled_delete_consumer_group(
                *old(self),
                *old(session), *c,
                *env,
                *final(self),
                *final(session),
                r,
            ),
    {
        acknowledge(self.delete_consumer_group(session, &c.stream_id, &c.topic_id, &c.group_id))
    }

    /// Executes `JoinConsumerGroup`.
    fn handle_join_consumer_group(&mut self, session: &mut Session, c: &JoinConsumerGroup, env: &Environment) -> (r: Result<
        ShardResponse,
        IggyError,
    >)
        requires
            old(self).wf(),
            old(session).wf(),
        ensures
            final(self).wf(),
            final(session).wf(),
            r is Ok ==> r->Ok_0 is BinaryResponse,
            handled_join_consumer_group(
                *old(self),
                *old(session), *c,
                *env,
                *final(self),
                *final(session),
                r,
            ),
    {
        acknowledge(self.join_consumer_group(session, &c.stream_id, &c.topic_id, &c.group_id))
    }

    /// Executes `LeaveConsumerGroup`.
    fn handle_leave_consumer_group(&mut self, session: &mut Session, c: &LeaveConsumerGroup, env: &Environment) -> (r: Result<
        ShardResponse,
        IggyError,
    >)
        requires
            old(self).wf(),
            old(session).wf(),
        ensures
            final(self).wf(),
            final(session).wf(),
            r is Ok ==> r->Ok_0 is BinaryResponse,
            handled_leave_consumer_group(
                *old(self),
                *old(session), *c,
                *env,
                *final(self),
                *final(session),
                r,
            ),
    {
        acknowledge(self.leave_consumer_group(session, &c.stream_id, &c.topic_id, &c.group_id))
    }
}

} // verus!
