//! The closed set of commands, their opcodes, and the frame codec.

use crate::buffer::as_slice;
use crate::buffer::bytes_view;
use crate::buffer::slice_from;
use crate::consumer_groups::CreateConsumerGroup;
use crate::consumer_groups::CreateConsumerGroupView;
use crate::consumer_groups::DeleteConsumerGroup;
use crate::consumer_groups::GetConsumerGroup;
use crate::consumer_groups::GetConsumerGroups;
use crate::consumer_groups::JoinConsumerGroup;
use crate::consumer_groups::LeaveConsumerGroup;
use crate::consumer_offsets::GetConsumerOffset;
use crate::consumer_offsets::GetConsumerOffsetView;
use crate::consumer_offsets::StoreConsumerOffset;
use crate::consumer_offsets::StoreConsumerOffsetView;
use crate::error::IggyError;
use crate::identifier::IdentifierView;
use crate::messages::PollMessages;
use crate::messages::PollMessagesView;
use crate::partitions::CreatePartitions;
use crate::partitions::CreatePartitionsView;
use crate::partitions::DeletePartitions;
use crate::partitions::DeletePartitionsView;
use crate::payload::CommandExecution;
use crate::payload::GroupPath;
use crate::payload::TopicPath;
use crate::payload::lemma_group_payload;
use crate::payload::lemma_identifier_payload;
use crate::payload::lemma_topic_payload;
use crate::payload::parse_empty;
use crate::payload::parse_group_payload;
use crate::payload::parse_identifier_payload;
use crate::payload::parse_topic_payload;
use crate::personal_access_tokens::CreatePersonalAccessToken;
use crate::personal_access_tokens::CreatePersonalAccessTokenView;
use crate::personal_access_tokens::DeletePersonalAccessToken;
use crate::personal_access_tokens::DeletePersonalAccessTokenView;
use crate::personal_access_tokens::GetPersonalAccessTokens;
use crate::personal_access_tokens::LoginWithPersonalAccessToken;
use crate::personal_access_tokens::LoginWithPersonalAccessTokenView;
use crate::send_messages::SendMessages;
use crate::send_messages::SendMessagesView;
use crate::streams::CreateStream;
use crate::streams::CreateStreamView;
use crate::streams::DeleteStream;
use crate::streams::GetStream;
use crate::streams::GetStreams;
use crate::streams::PurgeStream;
use crate::streams::UpdateStream;
use crate::streams::UpdateStreamView;
use crate::system::GetClient;
use crate::system::GetClients;
use crate::system::GetMe;
use crate::system::GetStats;
use crate::system::Ping;
use crate::topics::CreateTopic;
use crate::topics::CreateTopicView;
use crate::topics::DeleteTopic;
use crate::topics::GetTopic;
use crate::topics::GetTopics;
use crate::topics::PurgeTopic;
use crate::topics::UpdateTopic;
use crate::topics::UpdateTopicView;
use crate::users::ChangePassword;
use crate::users::ChangePasswordView;
use crate::users::CreateUser;
use crate::users::CreateUserView;
use crate::users::DeleteUser;
use crate::users::GetUser;
use crate::users::GetUsers;
use crate::users::LoginUser;
use crate::users::LoginUserView;
use crate::users::LogoutUser;
use crate::users::UpdatePermissions;
use crate::users::UpdatePermissionsView;
use crate::users::UpdateUser;
use crate::users::UpdateUserView;
use crate::wire::le_u32;
use crate::wire::lemma_concat_empty;
use crate::wire::lemma_u32_roundtrip;
use crate::wire::put_u32_le;
use crate::wire::read_u32_le;
use crate::wire::u32_le;
use bytes::BufMut;
use bytes::Bytes;
use bytes::BytesMut;
use vstd::prelude::*;

verus! {

/// The opcode of `Ping`.
pub const PING_CODE: u32 = 1;

/// The opcode of `GetStats`.
pub const GET_STATS_CODE: u32 = 10;

/// The opcode of `GetMe`.
pub const GET_ME_CODE: u32 = 20;

/// The opcode of `GetClient`.
pub const GET_CLIENT_CODE: u32 = 21;

/// The opcode of `GetClients`.
pub const GET_CLIENTS_CODE: u32 = 22;

/// The opcode of `GetUser`.
pub const GET_USER_CODE: u32 = 31;

/// The opcode of `GetUsers`.
pub const GET_USERS_CODE: u32 = 32;

/// The opcode of `CreateUser`.
pub const CREATE_USER_CODE: u32 = 33;

/// The opcode of `DeleteUser`.
pub const DELETE_USER_CODE: u32 = 34;

/// The opcode of `UpdateUser`.
pub const UPDATE_USER_CODE: u32 = 35;

/// The opcode of `UpdatePermissions`.
pub const UPDATE_PERMISSIONS_CODE: u32 = 36;

/// The opcode of `ChangePassword`.
pub const CHANGE_PASSWORD_CODE: u32 = 37;

/// The opcode of `LoginUser`.
pub const LOGIN_USER_CODE: u32 = 38;

/// The opcode of `LogoutUser`.
pub const LOGOUT_USER_CODE: u32 = 39;

/// The opcode of `GetPersonalAccessTokens`.
pub const GET_PERSONAL_ACCESS_TOKENS_CODE: u32 = 41;

/// The opcode of `CreatePersonalAccessToken`.
pub const CREATE_PERSONAL_ACCESS_TOKEN_CODE: u32 = 42;

/// The opcode of `DeletePersonalAccessToken`.
pub const DELETE_PERSONAL_ACCESS_TOKEN_CODE: u32 = 43;

/// The opcode of `LoginWithPersonalAccessToken`.
pub const LOGIN_WITH_PERSONAL_ACCESS_TOKEN_CODE: u32 = 44;

/// The opcode of `PollMessages`.
pub const POLL_MESSAGES_CODE: u32 = 100;

/// The opcode of `SendMessages`.
pub const SEND_MESSAGES_CODE: u32 = 101;

/// The opcode of `GetConsumerOffset`.
pub const GET_CONSUMER_OFFSET_CODE: u32 = 120;

/// The opcode of `StoreConsumerOffset`.
pub const STORE_CONSUMER_OFFSET_CODE: u32 = 121;

/// The opcode of `GetStream`.
pub const GET_STREAM_CODE: u32 = 200;

/// The opcode of `GetStreams`.
pub const GET_STREAMS_CODE: u32 = 201;

/// The opcode of `CreateStream`.
pub const CREATE_STREAM_CODE: u32 = 202;

/// The opcode of `DeleteStream`.
pub const DELETE_STREAM_CODE: u32 = 203;

/// The opcode of `UpdateStream`.
pub const UPDATE_STREAM_CODE: u32 = 204;

/// The opcode of `PurgeStream`.
pub const PURGE_STREAM_CODE: u32 = 205;

/// The opcode of `GetTopic`.
pub const GET_TOPIC_CODE: u32 = 300;

/// The opcode of `GetTopics`.
pub const GET_TOPICS_CODE: u32 = 301;

/// The opcode of `CreateTopic`.
pub const CREATE_TOPIC_CODE: u32 = 302;

/// The opcode of `DeleteTopic`.
pub const DELETE_TOPIC_CODE: u32 = 303;

/// The opcode of `UpdateTopic`.
pub const UPDATE_TOPIC_CODE: u32 = 304;

/// The opcode of `PurgeTopic`.
pub const PURGE_TOPIC_CODE: u32 = 305;

/// The opcode of `CreatePartitions`.
pub const CREATE_PARTITIONS_CODE: u32 = 402;

/// The opcode of `DeletePartitions`.
pub const DELETE_PARTITIONS_CODE: u32 = 403;

/// The opcode of `GetConsumerGroup`.
pub const GET_CONSUMER_GROUP_CODE: u32 = 600;

/// The opcode of `GetConsumerGroups`.
pub const GET_CONSUMER_GROUPS_CODE: u32 = 601;

/// The opcode of `CreateConsumerGroup`.
pub const CREATE_CONSUMER_GROUP_CODE: u32 = 602;

/// The opcode of `DeleteConsumerGroup`.
pub const DELETE_CONSUMER_GROUP_CODE: u32 = 603;

/// The opcode of `JoinConsumerGroup`.
pub const JOIN_CONSUMER_GROUP_CODE: u32 = 604;

/// The opcode of `LeaveConsumerGroup`.
pub const LEAVE_CONSUMER_GROUP_CODE: u32 = 605;

/// One request of a client: the operation and its payload.
///
/// The set is closed: every opcode of the protocol has exactly one variant.
#[derive(Debug, Clone, PartialEq)]
pub enum Command {
    Ping(Ping),
    GetStats(GetStats),
    GetMe(GetMe),
    GetClient(GetClient),
    GetClients(GetClients),
    GetUser(GetUser),
    GetUsers(GetUsers),
    CreateUser(CreateUser),
    DeleteUser(DeleteUser),
    UpdateUser(UpdateUser),
    UpdatePermissions(UpdatePermissions),
    ChangePassword(ChangePassword),
    LoginUser(LoginUser),
    LogoutUser(LogoutUser),
    GetPersonalAccessTokens(GetPersonalAccessTokens),
    CreatePersonalAccessToken(CreatePersonalAccessToken),
    DeletePersonalAccessToken(DeletePersonalAccessToken),
    LoginWithPersonalAccessToken(LoginWithPersonalAccessToken),
    PollMessages(PollMessages),
    SendMessages(SendMessages),
    GetConsumerOffset(GetConsumerOffset),
    StoreConsumerOffset(StoreConsumerOffset),
    GetStream(GetStream),
    GetStreams(GetStreams),
    CreateStream(CreateStream),
    DeleteStream(DeleteStream),
    UpdateStream(UpdateStream),
    PurgeStream(PurgeStream),
    GetTopic(GetTopic),
    GetTopics(GetTopics),
    CreateTopic(CreateTopic),
    DeleteTopic(DeleteTopic),
    UpdateTopic(UpdateTopic),
    PurgeTopic(PurgeTopic),
    CreatePartitions(CreatePartitions),
    DeletePartitions(DeletePartitions),
    GetConsumerGroup(GetConsumerGroup),
    GetConsumerGroups(GetConsumerGroups),
    CreateConsumerGroup(CreateConsumerGroup),
    DeleteConsumerGroup(DeleteConsumerGroup),
    JoinConsumerGroup(JoinConsumerGroup),
    LeaveConsumerGroup(LeaveConsumerGroup),
}

/// The mathematical value of a [`Command`].
pub enum CommandView {
    Ping,
    GetStats,
    GetMe,
    GetClient(GetClient),
    GetClients,
    GetUser(IdentifierView),
    GetUsers,
    CreateUser(CreateUserView),
    DeleteUser(IdentifierView),
    UpdateUser(UpdateUserView),
    UpdatePermissions(UpdatePermissionsView),
    ChangePassword(ChangePasswordView),
    LoginUser(LoginUserView),
    LogoutUser,
    GetPersonalAccessTokens,
    CreatePersonalAccessToken(CreatePersonalAccessTokenView),
    DeletePersonalAccessToken(DeletePersonalAccessTokenView),
    LoginWithPersonalAccessToken(LoginWithPersonalAccessTokenView),
    PollMessages(PollMessagesView),
    SendMessages(SendMessagesView),
    GetConsumerOffset(GetConsumerOffsetView),
    StoreConsumerOffset(StoreConsumerOffsetView),
    GetStream(IdentifierView),
    GetStreams,
    CreateStream(CreateStreamView),
    DeleteStream(IdentifierView),
    UpdateStream(UpdateStreamView),
    PurgeStream(IdentifierView),
    GetTopic(TopicPath),
    GetTopics(IdentifierView),
    CreateTopic(CreateTopicView),
    DeleteTopic(TopicPath),
    UpdateTopic(UpdateTopicView),
    PurgeTopic(TopicPath),
    CreatePartitions(CreatePartitionsView),
    DeletePartitions(DeletePartitionsView),
    GetConsumerGroup(GroupPath),
    GetConsumerGroups(TopicPath),
    CreateConsumerGroup(CreateConsumerGroupView),
    DeleteConsumerGroup(GroupPath),
    JoinConsumerGroup(GroupPath),
    LeaveConsumerGroup(GroupPath),
}

impl CommandView {
    /// The opcode of the command.
    pub open spec fn code(self) -> u32 {
        match self {
            CommandView::Ping => PING_CODE,
            CommandView::GetStats => GET_STATS_CODE,
            CommandView::GetMe => GET_ME_CODE,
            CommandView::GetClient(_) => GET_CLIENT_CODE,
            CommandView::GetClients => GET_CLIENTS_CODE,
            CommandView::GetUser(_) => GET_USER_CODE,
            CommandView::GetUsers => GET_USERS_CODE,
            CommandView::CreateUser(_) => CREATE_USER_CODE,
            CommandView::DeleteUser(_) => DELETE_USER_CODE,
            CommandView::UpdateUser(_) => UPDATE_USER_CODE,
            CommandView::UpdatePermissions(_) => UPDATE_PERMISSIONS_CODE,
            CommandView::ChangePassword(_) => CHANGE_PASSWORD_CODE,
            CommandView::LoginUser(_) => LOGIN_USER_CODE,
            CommandView::LogoutUser => LOGOUT_USER_CODE,
            CommandView::GetPersonalAccessTokens => GET_PERSONAL_ACCESS_TOKENS_CODE,
            CommandView::CreatePersonalAccessToken(_) => CREATE_PERSONAL_ACCESS_TOKEN_CODE,
            CommandView::DeletePersonalAccessToken(_) => DELETE_PERSONAL_ACCESS_TOKEN_CODE,
            CommandView::LoginWithPersonalAccessToken(_) => LOGIN_WITH_PERSONAL_ACCESS_TOKEN_CODE,
            CommandView::PollMessages(_) => POLL_MESSAGES_CODE,
            CommandView::SendMessages(_) => SEND_MESSAGES_CODE,
            CommandView::GetConsumerOffset(_) => GET_CONSUMER_OFFSET_CODE,
            CommandView::StoreConsumerOffset(_) => STORE_CONSUMER_OFFSET_CODE,
            CommandView::GetStream(_) => GET_STREAM_CODE,
            CommandView::GetStreams => GET_STREAMS_CODE,
            CommandView::CreateStream(_) => CREATE_STREAM_CODE,
            CommandView::DeleteStream(_) => DELETE_STREAM_CODE,
            CommandView::UpdateStream(_) => UPDATE_STREAM_CODE,
            CommandView::PurgeStream(_) => PURGE_STREAM_CODE,
            CommandView::GetTopic(_) => GET_TOPIC_CODE,
            CommandView::GetTopics(_) => GET_TOPICS_CODE,
            CommandView::CreateTopic(_) => CREATE_TOPIC_CODE,
            CommandView::DeleteTopic(_) => DELETE_TOPIC_CODE,
            CommandView::UpdateTopic(_) => UPDATE_TOPIC_CODE,
            CommandView::PurgeTopic(_) => PURGE_TOPIC_CODE,
            CommandView::CreatePartitions(_) => CREATE_PARTITIONS_CODE,
            CommandView::DeletePartitions(_) => DELETE_PARTITIONS_CODE,
            CommandView::GetConsumerGroup(_) => GET_CONSUMER_GROUP_CODE,
            CommandView::GetConsumerGroups(_) => GET_CONSUMER_GROUPS_CODE,
            CommandView::CreateConsumerGroup(_) => CREATE_CONSUMER_GROUP_CODE,
            CommandView::DeleteConsumerGroup(_) => DELETE_CONSUMER_GROUP_CODE,
            CommandView::JoinConsumerGroup(_) => JOIN_CONSUMER_GROUP_CODE,
            CommandView::LeaveConsumerGroup(_) => LEAVE_CONSUMER_GROUP_CODE,
        }
    }

    /// The payload fits the wire.
    pub open spec fn wf(self) -> bool {
        match self {
            CommandView::Ping => true,
            CommandView::GetStats => true,
            CommandView::GetMe => true,
            CommandView::GetClient(c) => c.wf(),
            CommandView::GetClients => true,
            CommandView::GetUser(c) => c.wf(),
            CommandView::GetUsers => true,
            CommandView::CreateUser(c) => c.wf(),
            CommandView::DeleteUser(c) => c.wf(),
            CommandView::UpdateUser(c) => c.wf(),
            CommandView::UpdatePermissions(c) => c.wf(),
            CommandView::ChangePassword(c) => c.wf(),
            CommandView::LoginUser(c) => c.wf(),
            CommandView::LogoutUser => true,
            CommandView::GetPersonalAccessTokens => true,
            CommandView::CreatePersonalAccessToken(c) => c.wf(),
            CommandView::DeletePersonalAccessToken(c) => c.wf(),
            CommandView::LoginWithPersonalAccessToken(c) => c.wf(),
            CommandView::PollMessages(c) => c.wf(),
            CommandView::SendMessages(c) => c.wf(),
            CommandView::GetConsumerOffset(c) => c.wf(),
            CommandView::StoreConsumerOffset(c) => c.wf(),
            CommandView::GetStream(c) => c.wf(),
            CommandView::GetStreams => true,
            CommandView::CreateStream(c) => c.wf(),
            CommandView::DeleteStream(c) => c.wf(),
            CommandView::UpdateStream(c) => c.wf(),
            CommandView::PurgeStream(c) => c.wf(),
            CommandView::GetTopic(c) => c.wf(),
            CommandView::GetTopics(c) => c.wf(),
            CommandView::CreateTopic(c) => c.wf(),
            CommandView::DeleteTopic(c) => c.wf(),
            CommandView::UpdateTopic(c) => c.wf(),
            CommandView::PurgeTopic(c) => c.wf(),
            CommandView::CreatePartitions(c) => c.wf(),
            CommandView::DeletePartitions(c) => c.wf(),
            CommandView::GetConsumerGroup(c) => c.wf(),
            CommandView::GetConsumerGroups(c) => c.wf(),
            CommandView::CreateConsumerGroup(c) => c.wf(),
            CommandView::DeleteConsumerGroup(c) => c.wf(),
            CommandView::JoinConsumerGroup(c) => c.wf(),
            CommandView::LeaveConsumerGroup(c) => c.wf(),
        }
    }

    /// The identifiers of the payload come back from the wire unchanged.
    pub open spec fn canonical(self) -> bool {
        match self {
            CommandView::GetUser(c) => c.canonical(),
            CommandView::DeleteUser(c) => c.canonical(),
            CommandView::UpdateUser(c) => c.canonical(),
            CommandView::UpdatePermissions(c) => c.canonical(),
            CommandView::ChangePassword(c) => c.canonical(),
            CommandView::PollMessages(c) => c.canonical(),
            CommandView::SendMessages(c) => c.canonical(),
            CommandView::GetConsumerOffset(c) => c.canonical(),
            CommandView::StoreConsumerOffset(c) => c.canonical(),
            CommandView::GetStream(c) => c.canonical(),
            CommandView::DeleteStream(c) => c.canonical(),
            CommandView::UpdateStream(c) => c.canonical(),
            CommandView::PurgeStream(c) => c.canonical(),
            CommandView::GetTopic(c) => c.canonical(),
            CommandView::GetTopics(c) => c.canonical(),
            CommandView::CreateTopic(c) => c.canonical(),
            CommandView::DeleteTopic(c) => c.canonical(),
            CommandView::UpdateTopic(c) => c.canonical(),
            CommandView::PurgeTopic(c) => c.canonical(),
            CommandView::CreatePartitions(c) => c.canonical(),
            CommandView::DeletePartitions(c) => c.canonical(),
            CommandView::GetConsumerGroup(c) => c.canonical(),
            CommandView::GetConsumerGroups(c) => c.canonical(),
            CommandView::CreateConsumerGroup(c) => c.canonical(),
            CommandView::DeleteConsumerGroup(c) => c.canonical(),
            CommandView::JoinConsumerGroup(c) => c.canonical(),
            CommandView::LeaveConsumerGroup(c) => c.canonical(),
            _ => true,
        }
    }

    /// The wire form of the payload.
    pub open spec fn payload(self) -> Seq<u8> {
        match self {
            CommandView::Ping => Seq::empty(),
            CommandView::GetStats => Seq::empty(),
            CommandView::GetMe => Seq::empty(),
            CommandView::GetClient(c) => c.wire(),
            CommandView::GetClients => Seq::empty(),
            CommandView::GetUser(c) => c.wire(),
            CommandView::GetUsers => Seq::empty(),
            CommandView::CreateUser(c) => c.wire(),
            CommandView::DeleteUser(c) => c.wire(),
            CommandView::UpdateUser(c) => c.wire(),
            CommandView::UpdatePermissions(c) => c.wire(),
            CommandView::ChangePassword(c) => c.wire(),
            CommandView::LoginUser(c) => c.wire(),
            CommandView::LogoutUser => Seq::empty(),
            CommandView::GetPersonalAccessTokens => Seq::empty(),
            CommandView::CreatePersonalAccessToken(c) => c.wire(),
            CommandView::DeletePersonalAccessToken(c) => c.wire(),
            CommandView::LoginWithPersonalAccessToken(c) => c.wire(),
            CommandView::PollMessages(c) => c.wire(),
            CommandView::SendMessages(c) => c.wire(),
            CommandView::GetConsumerOffset(c) => c.wire(),
            CommandView::StoreConsumerOffset(c) => c.wire(),
            CommandView::GetStream(c) => c.wire(),
            CommandView::GetStreams => Seq::empty(),
            CommandView::CreateStream(c) => c.wire(),
            CommandView::DeleteStream(c) => c.wire(),
            CommandView::UpdateStream(c) => c.wire(),
            CommandView::PurgeStream(c) => c.wire(),
            CommandView::GetTopic(c) => c.wire(),
            CommandView::GetTopics(c) => c.wire(),
            CommandView::CreateTopic(c) => c.wire(),
            CommandView::DeleteTopic(c) => c.wire(),
            CommandView::UpdateTopic(c) => c.wire(),
            CommandView::PurgeTopic(c) => c.wire(),
            CommandView::CreatePartitions(c) => c.wire(),
            CommandView::DeletePartitions(c) => c.wire(),
            CommandView::GetConsumerGroup(c) => c.wire(),
            CommandView::GetConsumerGroups(c) => c.wire(),
            CommandView::CreateConsumerGroup(c) => c.wire(),
            CommandView::DeleteConsumerGroup(c) => c.wire(),
            CommandView::JoinConsumerGroup(c) => c.wire(),
            CommandView::LeaveConsumerGroup(c) => c.wire(),
        }
    }

    /// The frame of the command: its opcode as four little-endian bytes,
    /// then the payload.
    pub open spec fn frame(self) -> Seq<u8> {
        u32_le(self.code()) + self.payload()
    }
}

/// What a payload decodes to under a given opcode.  An opcode that the
/// protocol does not know decodes to nothing.
pub open spec fn decode_payload(code: u32, s: Seq<u8>) -> Option<CommandView> {
    if code == PING_CODE {
        match parse_empty(s) {
            Some(_) => Some(CommandView::Ping),
            None => None,
        }
    } else if code == GET_STATS_CODE {
        match parse_empty(s) {
            Some(_) => Some(CommandView::GetStats),
            None => None,
        }
    } else if code == GET_ME_CODE {
        match parse_empty(s) {
            Some(_) => Some(CommandView::GetMe),
            None => None,
        }
    } else if code == GET_CLIENT_CODE {
        match GetClient::decode(s) {
            Some(c) => Some(CommandView::GetClient(c)),
            None => None,
        }
    } else if code == GET_CLIENTS_CODE {
        match parse_empty(s) {
            Some(_) => Some(CommandView::GetClients),
            None => None,
        }
    } else if code == GET_USER_CODE {
        match parse_identifier_payload(s) {
            Some(c) => Some(CommandView::GetUser(c)),
            None => None,
        }
    } else if code == GET_USERS_CODE {
        match parse_empty(s) {
            Some(_) => Some(CommandView::GetUsers),
            None => None,
        }
    } else if code == CREATE_USER_CODE {
        match CreateUser::decode(s) {
            Some(c) => Some(CommandView::CreateUser(c)),
            None => None,
        }
    } else if code == DELETE_USER_CODE {
        match parse_identifier_payload(s) {
            Some(c) => Some(CommandView::DeleteUser(c)),
            None => None,
        }
    } else if code == UPDATE_USER_CODE {
        match UpdateUser::decode(s) {
            Some(c) => Some(CommandView::UpdateUser(c)),
            None => None,
        }
    } else if code == UPDATE_PERMISSIONS_CODE {
        match UpdatePermissions::decode(s) {
            Some(c) => Some(CommandView::UpdatePermissions(c)),
            None => None,
        }
    } else if code == CHANGE_PASSWORD_CODE {
        match ChangePassword::decode(s) {
            Some(c) => Some(CommandView::ChangePassword(c)),
            None => None,
        }
    } else if code == LOGIN_USER_CODE {
        match LoginUser::decode(s) {
            Some(c) => Some(CommandView::LoginUser(c)),
            None => None,
        }
    } else if code == LOGOUT_USER_CODE {
        match parse_empty(s) {
            Some(_) => Some(CommandView::LogoutUser),
            None => None,
        }
    } else if code == GET_PERSONAL_ACCESS_TOKENS_CODE {
        match parse_empty(s) {
            Some(_) => Some(CommandView::GetPersonalAccessTokens),
            None => None,
        }
    } else if code == CREATE_PERSONAL_ACCESS_TOKEN_CODE {
        match CreatePersonalAccessToken::decode(s) {
            Some(c) => Some(CommandView::CreatePersonalAccessToken(c)),
            None => None,
        }
    } else if code == DELETE_PERSONAL_ACCESS_TOKEN_CODE {
        match DeletePersonalAccessToken::decode(s) {
            Some(c) => Some(CommandView::DeletePersonalAccessToken(c)),
            None => None,
        }
    } else if code == LOGIN_WITH_PERSONAL_ACCESS_TOKEN_CODE {
        match LoginWithPersonalAccessToken::decode(s) {
            Some(c) => Some(CommandView::LoginWithPersonalAccessToken(c)),
            None => None,
        }
    } else if code == POLL_MESSAGES_CODE {
        match PollMessages::decode(s) {
            Some(c) => Some(CommandView::PollMessages(c)),
            None => None,
        }
    } else if code == SEND_MESSAGES_CODE {
        match SendMessages::decode(s) {
            Some(c) => Some(CommandView::SendMessages(c)),
            None => None,
        }
    } else if code == GET_CONSUMER_OFFSET_CODE {
        match GetConsumerOffset::decode(s) {
            Some(c) => Some(CommandView::GetConsumerOffset(c)),
            None => None,
        }
    } else if code == STORE_CONSUMER_OFFSET_CODE {
        match StoreConsumerOffset::decode(s) {
            Some(c) => Some(CommandView::StoreConsumerOffset(c)),
            None => None,
        }
    } else if code == GET_STREAM_CODE {
        match parse_identifier_payload(s) {
            Some(c) => Some(CommandView::GetStream(c)),
            None => None,
        }
    } else if code == GET_STREAMS_CODE {
        match parse_empty(s) {
            Some(_) => Some(CommandView::GetStreams),
            None => None,
        }
    } else if code == CREATE_STREAM_CODE {
        match CreateStream::decode(s) {
            Some(c) => Some(CommandView::CreateStream(c)),
            None => None,
        }
    } else if code == DELETE_STREAM_CODE {
        match parse_identifier_payload(s) {
            Some(c) => Some(CommandView::DeleteStream(c)),
            None => None,
        }
    } else if code == UPDATE_STREAM_CODE {
        match UpdateStream::decode(s) {
            Some(c) => Some(CommandView::UpdateStream(c)),
            None => None,
        }
    } else if code == PURGE_STREAM_CODE {
        match parse_identifier_payload(s) {
            Some(c) => Some(CommandView::PurgeStream(c)),
            None => None,
        }
    } else if code == GET_TOPIC_CODE {
        match parse_topic_payload(s) {
            Some(c) => Some(CommandView::GetTopic(c)),
            None => None,
        }
    } else if code == GET_TOPICS_CODE {
        match parse_identifier_payload(s) {
            Some(c) => Some(CommandView::GetTopics(c)),
            None => None,
        }
    } else if code == CREATE_TOPIC_CODE {
        match CreateTopic::decode(s) {
            Some(c) => Some(CommandView::CreateTopic(c)),
            None => None,
        }
    } else if code == DELETE_TOPIC_CODE {
        match parse_topic_payload(s) {
            Some(c) => Some(CommandView::DeleteTopic(c)),
            None => None,
        }
    } else if code == UPDATE_TOPIC_CODE {
        match UpdateTopic::decode(s) {
            Some(c) => Some(CommandView::UpdateTopic(c)),
            None => None,
        }
    } else if code == PURGE_TOPIC_CODE {
        match parse_topic_payload(s) {
            Some(c) => Some(CommandView::PurgeTopic(c)),
            None => None,
        }
    } else if code == CREATE_PARTITIONS_CODE {
        match CreatePartitions::decode(s) {
            Some(c) => Some(CommandView::CreatePartitions(c)),
            None => None,
        }
    } else if code == DELETE_PARTITIONS_CODE {
        match DeletePartitions::decode(s) {
            Some(c) => Some(CommandView::DeletePartitions(c)),
            None => None,
        }
    } else if code == GET_CONSUMER_GROUP_CODE {
        match parse_group_payload(s) {
            Some(c) => Some(CommandView::GetConsumerGroup(c)),
            None => None,
        }
    } else if code == GET_CONSUMER_GROUPS_CODE {
        match parse_topic_payload(s) {
            Some(c) => Some(CommandView::GetConsumerGroups(c)),
            None => None,
        }
    } else if code == CREATE_CONSUMER_GROUP_CODE {
        match CreateConsumerGroup::decode(s) {
            Some(c) => Some(CommandView::CreateConsumerGroup(c)),
            None => None,
        }
    } else if code == DELETE_CONSUMER_GROUP_CODE {
        match parse_group_payload(s) {
            Some(c) => Some(CommandView::DeleteConsumerGroup(c)),
            None => None,
        }
    } else if code == JOIN_CONSUMER_GROUP_CODE {
        match parse_group_payload(s) {
            Some(c) => Some(CommandView::JoinConsumerGroup(c)),
            None => None,
        }
    } else if code == LEAVE_CONSUMER_GROUP_CODE {
        match parse_group_payload(s) {
            Some(c) => Some(CommandView::LeaveConsumerGroup(c)),
            None => None,
        }
    } else {
        None
    }
}

/// What a frame decodes to: the opcode is read from its first four bytes,
/// the rest is the payload.
pub open spec fn decode_frame(s: Seq<u8>) -> Option<CommandView> {
    if s.len() < 4 {
        None
    } else {
        decode_payload(le_u32(s), s.skip(4))
    }
}

/// Tells whether commands with this opcode carry no payload.
pub open spec fn has_empty_payload(code: u32) -> bool {
    code == PING_CODE
        || code == GET_STATS_CODE
        || code == GET_ME_CODE
        || code == GET_CLIENTS_CODE
        || code == GET_USERS_CODE
        || code == LOGOUT_USER_CODE
        || code == GET_PERSONAL_ACCESS_TOKENS_CODE
        || code == GET_STREAMS_CODE
}

/// A decoded command carries the opcode it was decoded under: no opcode
/// stands for two kinds of command, and no kind of command for two opcodes.
pub proof fn lemma_opcode_bijection(code: u32, s: Seq<u8>)
    ensures
        match decode_payload(code, s) {
            Some(command) => command.code() == code,
            None => true,
        },
{
}

/// Two commands with the same opcode are of the same kind.
pub proof fn lemma_opcode_injective(a: CommandView, b: CommandView)
    requires
        a.code() == b.code(),
    ensures
        a is Ping <==> b is Ping,
        a is GetStats <==> b is GetStats,
        a is GetMe <==> b is GetMe,
        a is GetClient <==> b is GetClient,
        a is GetClients <==> b is GetClients,
        a is GetUser <==> b is GetUser,
        a is GetUsers <==> b is GetUsers,
        a is CreateUser <==> b is CreateUser,
        a is DeleteUser <==> b is DeleteUser,
        a is UpdateUser <==> b is UpdateUser,
        a is UpdatePermissions <==> b is UpdatePermissions,
        a is ChangePassword <==> b is ChangePassword,
        a is LoginUser <==> b is LoginUser,
        a is LogoutUser <==> b is LogoutUser,
        a is GetPersonalAccessTokens <==> b is GetPersonalAccessTokens,
        a is CreatePersonalAccessToken <==> b is CreatePersonalAccessToken,
        a is DeletePersonalAccessToken <==> b is DeletePersonalAccessToken,
        a is LoginWithPersonalAccessToken <==> b is LoginWithPersonalAccessToken,
        a is PollMessages <==> b is PollMessages,
        a is SendMessages <==> b is SendMessages,
        a is GetConsumerOffset <==> b is GetConsumerOffset,
        a is StoreConsumerOffset <==> b is StoreConsumerOffset,
        a is GetStream <==> b is GetStream,
        a is GetStreams <==> b is GetStreams,
        a is CreateStream <==> b is CreateStream,
        a is DeleteStream <==> b is DeleteStream,
        a is UpdateStream <==> b is UpdateStream,
        a is PurgeStream <==> b is PurgeStream,
        a is GetTopic <==> b is GetTopic,
        a is GetTopics <==> b is GetTopics,
        a is CreateTopic <==> b is CreateTopic,
        a is DeleteTopic <==> b is DeleteTopic,
        a is UpdateTopic <==> b is UpdateTopic,
        a is PurgeTopic <==> b is PurgeTopic,
        a is CreatePartitions <==> b is CreatePartitions,
        a is DeletePartitions <==> b is DeletePartitions,
        a is GetConsumerGroup <==> b is GetConsumerGroup,
        a is GetConsumerGroups <==> b is GetConsumerGroups,
        a is CreateConsumerGroup <==> b is CreateConsumerGroup,
        a is DeleteConsumerGroup <==> b is DeleteConsumerGroup,
        a is JoinConsumerGroup <==> b is JoinConsumerGroup,
        a is LeaveConsumerGroup <==> b is LeaveConsumerGroup,
{
}

/// A payload that fits the wire and is in canonical form survives encoding
/// and decoding under its opcode.
pub proof fn lemma_payload_roundtrip(command: CommandView)
    requires
        command.wf(),
        command.canonical(),
    ensures
        decode_payload(command.code(), command.payload()) == Some(command),
{
    match command {
        CommandView::GetClient(c) => {
            GetClient::lemma_roundtrip(c);
        },
        CommandView::GetUser(c) => {
            lemma_identifier_payload(c);
        },
        CommandView::CreateUser(c) => {
            CreateUser::lemma_roundtrip(c);
        },
        CommandView::DeleteUser(c) => {
            lemma_identifier_payload(c);
        },
        CommandView::UpdateUser(c) => {
            UpdateUser::lemma_roundtrip(c);
        },
        CommandView::UpdatePermissions(c) => {
            UpdatePermissions::lemma_roundtrip(c);
        },
        CommandView::ChangePassword(c) => {
            ChangePassword::lemma_roundtrip(c);
        },
        CommandView::LoginUser(c) => {
            LoginUser::lemma_roundtrip(c);
        },
        CommandView::CreatePersonalAccessToken(c) => {
            CreatePersonalAccessToken::lemma_roundtrip(c);
        },
        CommandView::DeletePersonalAccessToken(c) => {
            DeletePersonalAccessToken::lemma_roundtrip(c);
        },
        CommandView::LoginWithPersonalAccessToken(c) => {
            LoginWithPersonalAccessToken::lemma_roundtrip(c);
        },
        CommandView::PollMessages(c) => {
            PollMessages::lemma_roundtrip(c);
        },
        CommandView::SendMessages(c) => {
            SendMessages::lemma_roundtrip(c);
        },
        CommandView::GetConsumerOffset(c) => {
            GetConsumerOffset::lemma_roundtrip(c);
        },
        CommandView::StoreConsumerOffset(c) => {
            StoreConsumerOffset::lemma_roundtrip(c);
        },
        CommandView::GetStream(c) => {
            lemma_identifier_payload(c);
        },
        CommandView::CreateStream(c) => {
            CreateStream::lemma_roundtrip(c);
        },
        CommandView::DeleteStream(c) => {
            lemma_identifier_payload(c);
        },
        CommandView::UpdateStream(c) => {
            UpdateStream::lemma_roundtrip(c);
        },
        CommandView::PurgeStream(c) => {
            lemma_identifier_payload(c);
        },
        CommandView::GetTopic(c) => {
            lemma_topic_payload(c);
        },
        CommandView::GetTopics(c) => {
            lemma_identifier_payload(c);
        },
        CommandView::CreateTopic(c) => {
            CreateTopic::lemma_roundtrip(c);
        },
        CommandView::DeleteTopic(c) => {
            lemma_topic_payload(c);
        },
        CommandView::UpdateTopic(c) => {
            UpdateTopic::lemma_roundtrip(c);
        },
        CommandView::PurgeTopic(c) => {
            lemma_topic_payload(c);
        },
        CommandView::CreatePartitions(c) => {
            CreatePartitions::lemma_roundtrip(c);
        },
        CommandView::DeletePartitions(c) => {
            DeletePartitions::lemma_roundtrip(c);
        },
        CommandView::GetConsumerGroup(c) => {
            lemma_group_payload(c);
        },
        CommandView::GetConsumerGroups(c) => {
            lemma_topic_payload(c);
        },
        CommandView::CreateConsumerGroup(c) => {
            CreateConsumerGroup::lemma_roundtrip(c);
        },
        CommandView::DeleteConsumerGroup(c) => {
            lemma_group_payload(c);
        },
        CommandView::JoinConsumerGroup(c) => {
            lemma_group_payload(c);
        },
        CommandView::LeaveConsumerGroup(c) => {
            lemma_group_payload(c);
        },
        _ => {},
    }
}

/// A payload whose last byte is cut off cannot be decoded under its opcode.
pub proof fn lemma_payload_truncated(command: CommandView)
    requires
        command.wf(),
        command.payload().len() > 0,
    ensures
        decode_payload(command.code(), command.payload().drop_last()) is None,
{
    match command {
        CommandView::GetClient(c) => {
            GetClient::lemma_truncated(c);
        },
        CommandView::GetUser(c) => {
            lemma_identifier_payload(c);
        },
        CommandView::CreateUser(c) => {
            CreateUser::lemma_truncated(c);
        },
        CommandView::DeleteUser(c) => {
            lemma_identifier_payload(c);
        },
        CommandView::UpdateUser(c) => {
            UpdateUser::lemma_truncated(c);
        },
        CommandView::UpdatePermissions(c) => {
            UpdatePermissions::lemma_truncated(c);
        },
        CommandView::ChangePassword(c) => {
            ChangePassword::lemma_truncated(c);
        },
        CommandView::LoginUser(c) => {
            LoginUser::lemma_truncated(c);
        },
        CommandView::CreatePersonalAccessToken(c) => {
            CreatePersonalAccessToken::lemma_truncated(c);
        },
        CommandView::DeletePersonalAccessToken(c) => {
            DeletePersonalAccessToken::lemma_truncated(c);
        },
        CommandView::LoginWithPersonalAccessToken(c) => {
            LoginWithPersonalAccessToken::lemma_truncated(c);
        },
        CommandView::PollMessages(c) => {
            PollMessages::lemma_truncated(c);
        },
        CommandView::SendMessages(c) => {
            SendMessages::lemma_truncated(c);
        },
        CommandView::GetConsumerOffset(c) => {
            GetConsumerOffset::lemma_truncated(c);
        },
        CommandView::StoreConsumerOffset(c) => {
            StoreConsumerOffset::lemma_truncated(c);
        },
        CommandView::GetStream(c) => {
            lemma_identifier_payload(c);
        },
        CommandView::CreateStream(c) => {
            CreateStream::lemma_truncated(c);
        },
        CommandView::DeleteStream(c) => {
            lemma_identifier_payload(c);
        },
        CommandView::UpdateStream(c) => {
            UpdateStream::lemma_truncated(c);
        },
        CommandView::PurgeStream(c) => {
            lemma_identifier_payload(c);
        },
        CommandView::GetTopic(c) => {
            lemma_topic_payload(c);
        },
        CommandView::GetTopics(c) => {
            lemma_identifier_payload(c);
        },
        CommandView::CreateTopic(c) => {
            CreateTopic::lemma_truncated(c);
        },
        CommandView::DeleteTopic(c) => {
            lemma_topic_payload(c);
        },
        CommandView::UpdateTopic(c) => {
            UpdateTopic::lemma_truncated(c);
        },
        CommandView::PurgeTopic(c) => {
            lemma_topic_payload(c);
        },
        CommandView::CreatePartitions(c) => {
            CreatePartitions::lemma_truncated(c);
        },
        CommandView::DeletePartitions(c) => {
            DeletePartitions::lemma_truncated(c);
        },
        CommandView::GetConsumerGroup(c) => {
            lemma_group_payload(c);
        },
        CommandView::GetConsumerGroups(c) => {
            lemma_topic_payload(c);
        },
        CommandView::CreateConsumerGroup(c) => {
            CreateConsumerGroup::lemma_truncated(c);
        },
        CommandView::DeleteConsumerGroup(c) => {
            lemma_group_payload(c);
        },
        CommandView::JoinConsumerGroup(c) => {
            lemma_group_payload(c);
        },
        CommandView::LeaveConsumerGroup(c) => {
            lemma_group_payload(c);
        },
        _ => {},
    }
}

/// A frame of a command that fits the wire and is in canonical form
/// survives encoding and decoding.
pub proof fn lemma_frame_roundtrip(command: CommandView)
    requires
        command.wf(),
        command.canonical(),
    ensures
        decode_frame(command.frame()) == Some(command),
{
    lemma_u32_roundtrip(command.code(), command.payload());
    lemma_payload_roundtrip(command);
}

/// A frame whose last byte is cut off cannot be decoded, whatever the
/// command: where the payload is empty the opcode itself is cut.
pub proof fn lemma_frame_truncated(command: CommandView)
    requires
        command.wf(),
    ensures
        decode_frame(command.frame().drop_last()) is None,
{
    let payload = command.payload();
    if payload.len() > 0 {
        assert(command.frame().drop_last() =~= u32_le(command.code()) + payload.drop_last());
        lemma_u32_roundtrip(command.code(), payload.drop_last());
        lemma_payload_truncated(command);
    }
}

/// Under the opcode of a command without payload, only the empty payload
/// decodes.
pub proof fn lemma_empty_payload_only(code: u32, s: Seq<u8>)
    requires
        has_empty_payload(code),
        s.len() > 0,
    ensures
        decode_payload(code, s) is None,
{
}

impl View for Command {
    type V = CommandView;

    open spec fn view(&self) -> CommandView {
        match self {
            Command::Ping(_) => CommandView::Ping,
            Command::GetStats(_) => CommandView::GetStats,
            Command::GetMe(_) => CommandView::GetMe,
            Command::GetClient(c) => CommandView::GetClient(*c),
            Command::GetClients(_) => CommandView::GetClients,
            Command::GetUser(c) => CommandView::GetUser(c@),
            Command::GetUsers(_) => CommandView::GetUsers,
            Command::CreateUser(c) => CommandView::CreateUser(c@),
            Command::DeleteUser(c) => CommandView::DeleteUser(c@),
            Command::UpdateUser(c) => CommandView::UpdateUser(c@),
            Command::UpdatePermissions(c) => CommandView::UpdatePermissions(c@),
            Command::ChangePassword(c) => CommandView::ChangePassword(c@),
            Command::LoginUser(c) => CommandView::LoginUser(c@),
            Command::LogoutUser(_) => CommandView::LogoutUser,
            Command::GetPersonalAccessTokens(_) => CommandView::GetPersonalAccessTokens,
            Command::CreatePersonalAccessToken(c) => CommandView::CreatePersonalAccessToken(c@),
            Command::DeletePersonalAccessToken(c) => CommandView::DeletePersonalAccessToken(c@),
            Command::LoginWithPersonalAccessToken(c) => CommandView::LoginWithPersonalAccessToken(c@),
            Command::PollMessages(c) => CommandView::PollMessages(c@),
            Command::SendMessages(c) => CommandView::SendMessages(c@),
            Command::GetConsumerOffset(c) => CommandView::GetConsumerOffset(c@),
            Command::StoreConsumerOffset(c) => CommandView::StoreConsumerOffset(c@),
            Command::GetStream(c) => CommandView::GetStream(c@),
            Command::GetStreams(_) => CommandView::GetStreams,
            Command::CreateStream(c) => CommandView::CreateStream(c@),
            Command::DeleteStream(c) => CommandView::DeleteStream(c@),
            Command::UpdateStream(c) => CommandView::UpdateStream(c@),
            Command::PurgeStream(c) => CommandView::PurgeStream(c@),
            Command::GetTopic(c) => CommandView::GetTopic(c@),
            Command::GetTopics(c) => CommandView::GetTopics(c@),
            Command::CreateTopic(c) => CommandView::CreateTopic(c@),
            Command::DeleteTopic(c) => CommandView::DeleteTopic(c@),
            Command::UpdateTopic(c) => CommandView::UpdateTopic(c@),
            Command::PurgeTopic(c) => CommandView::PurgeTopic(c@),
            Command::CreatePartitions(c) => CommandView::CreatePartitions(c@),
            Command::DeletePartitions(c) => CommandView::DeletePartitions(c@),
            Command::GetConsumerGroup(c) => CommandView::GetConsumerGroup(c@),
            Command::GetConsumerGroups(c) => CommandView::GetConsumerGroups(c@),
            Command::CreateConsumerGroup(c) => CommandView::CreateConsumerGroup(c@),
            Command::DeleteConsumerGroup(c) => CommandView::DeleteConsumerGroup(c@),
            Command::JoinConsumerGroup(c) => CommandView::JoinConsumerGroup(c@),
            Command::LeaveConsumerGroup(c) => CommandView::LeaveConsumerGroup(c@),
        }
    }
}

/// Puts the opcode in front of an encoded payload.
pub fn frame_of(code: u32, payload: &Bytes) -> (r: Bytes)
    requires
        bytes_view(*payload).len() <= 1_100_000_000,
    ensures
        bytes_view(r) == u32_le(code) + bytes_view(*payload),
{
    let mut bytes = BytesMut::with_capacity(4 + payload.len());
    put_u32_le(&mut bytes, code);
    bytes.put_slice(as_slice(payload));
    proof {
        lemma_concat_empty(u32_le(code));
    }
    bytes.freeze()
}

impl Command {
    /// The opcode of the command.
    pub fn code(&self) -> (code: u32)
        ensures
            code == self@.code(),
    {
        match self {
            Command::Ping(_) => PING_CODE,
            Command::GetStats(_) => GET_STATS_CODE,
            Command::GetMe(_) => GET_ME_CODE,
            Command::GetClient(_) => GET_CLIENT_CODE,
            Command::GetClients(_) => GET_CLIENTS_CODE,
            Command::GetUser(_) => GET_USER_CODE,
            Command::GetUsers(_) => GET_USERS_CODE,
            Command::CreateUser(_) => CREATE_USER_CODE,
            Command::DeleteUser(_) => DELETE_USER_CODE,
            Command::UpdateUser(_) => UPDATE_USER_CODE,
            Command::UpdatePermissions(_) => UPDATE_PERMISSIONS_CODE,
            Command::ChangePassword(_) => CHANGE_PASSWORD_CODE,
            Command::LoginUser(_) => LOGIN_USER_CODE,
            Command::LogoutUser(_) => LOGOUT_USER_CODE,
            Command::GetPersonalAccessTokens(_) => GET_PERSONAL_ACCESS_TOKENS_CODE,
            Command::CreatePersonalAccessToken(_) => CREATE_PERSONAL_ACCESS_TOKEN_CODE,
            Command::DeletePersonalAccessToken(_) => DELETE_PERSONAL_ACCESS_TOKEN_CODE,
            Command::LoginWithPersonalAccessToken(_) => LOGIN_WITH_PERSONAL_ACCESS_TOKEN_CODE,
            Command::PollMessages(_) => POLL_MESSAGES_CODE,
            Command::SendMessages(_) => SEND_MESSAGES_CODE,
            Command::GetConsumerOffset(_) => GET_CONSUMER_OFFSET_CODE,
            Command::StoreConsumerOffset(_) => STORE_CONSUMER_OFFSET_CODE,
            Command::GetStream(_) => GET_STREAM_CODE,
            Command::GetStreams(_) => GET_STREAMS_CODE,
            Command::CreateStream(_) => CREATE_STREAM_CODE,
            Command::DeleteStream(_) => DELETE_STREAM_CODE,
            Command::UpdateStream(_) => UPDATE_STREAM_CODE,
            Command::PurgeStream(_) => PURGE_STREAM_CODE,
            Command::GetTopic(_) => GET_TOPIC_CODE,
            Command::GetTopics(_) => GET_TOPICS_CODE,
            Command::CreateTopic(_) => CREATE_TOPIC_CODE,
            Command::DeleteTopic(_) => DELETE_TOPIC_CODE,
            Command::UpdateTopic(_) => UPDATE_TOPIC_CODE,
            Command::PurgeTopic(_) => PURGE_TOPIC_CODE,
            Command::CreatePartitions(_) => CREATE_PARTITIONS_CODE,
            Command::DeletePartitions(_) => DELETE_PARTITIONS_CODE,
            Command::GetConsumerGroup(_) => GET_CONSUMER_GROUP_CODE,
            Command::GetConsumerGroups(_) => GET_CONSUMER_GROUPS_CODE,
            Command::CreateConsumerGroup(_) => CREATE_CONSUMER_GROUP_CODE,
            Command::DeleteConsumerGroup(_) => DELETE_CONSUMER_GROUP_CODE,
            Command::JoinConsumerGroup(_) => JOIN_CONSUMER_GROUP_CODE,
            Command::LeaveConsumerGroup(_) => LEAVE_CONSUMER_GROUP_CODE,
        }
    }

    /// Commands that arrive in a frame come straight from a client.
    pub fn get_command_execution_origin(&self) -> (origin: CommandExecution)
        ensures
            origin == CommandExecution::Direct,
    {
        CommandExecution::Direct
    }

    /// Accepts the command where its payload fits the wire.
    pub fn validate(&self) -> (r: Result<(), IggyError>)
        ensures
            r is Ok <==> self@.wf(),
            r is Err ==> r == Err::<(), IggyError>(IggyError::InvalidCommand),
    {
        match self {
            Command::Ping(c) => c.validate(),
            Command::GetStats(c) => c.validate(),
            Command::GetMe(c) => c.validate(),
            Command::GetClient(c) => c.validate(),
            Command::GetClients(c) => c.validate(),
            Command::GetUser(c) => c.user_id.validate(),
            Command::GetUsers(c) => c.validate(),
            Command::CreateUser(c) => c.validate(),
            Command::DeleteUser(c) => c.user_id.validate(),
            Command::UpdateUser(c) => c.validate(),
            Command::UpdatePermissions(c) => c.validate(),
            Command::ChangePassword(c) => c.validate(),
            Command::LoginUser(c) => c.validate(),
            Command::LogoutUser(c) => c.validate(),
            Command::GetPersonalAccessTokens(c) => c.validate(),
            Command::CreatePersonalAccessToken(c) => c.validate(),
            Command::DeletePersonalAccessToken(c) => c.validate(),
            Command::LoginWithPersonalAccessToken(c) => c.validate(),
            Command::PollMessages(c) => c.validate(),
            Command::SendMessages(c) => c.validate(),
            Command::GetConsumerOffset(c) => c.validate(),
            Command::StoreConsumerOffset(c) => c.validate(),
            Command::GetStream(c) => c.stream_id.validate(),
            Command::GetStreams(c) => c.validate(),
            Command::CreateStream(c) => c.validate(),
            Command::DeleteStream(c) => c.stream_id.validate(),
            Command::UpdateStream(c) => c.validate(),
            Command::PurgeStream(c) => c.stream_id.validate(),
            Command::GetTopic(c) => {
                c.stream_id.validate()?;
                c.topic_id.validate()
            },
            Command::GetTopics(c) => c.stream_id.validate(),
            Command::CreateTopic(c) => c.validate(),
            Command::DeleteTopic(c) => {
                c.stream_id.validate()?;
                c.topic_id.validate()
            },
            Command::UpdateTopic(c) => c.validate(),
            Command::PurgeTopic(c) => {
                c.stream_id.validate()?;
                c.topic_id.validate()
            },
            Command::CreatePartitions(c) => c.validate(),
            Command::DeletePartitions(c) => c.validate(),
            Command::GetConsumerGroup(c) => {
                c.stream_id.validate()?;
                c.topic_id.validate()?;
                c.group_id.validate()
            },
            Command::GetConsumerGroups(c) => {
                c.stream_id.validate()?;
                c.topic_id.validate()
            },
            Command::CreateConsumerGroup(c) => c.validate(),
            Command::DeleteConsumerGroup(c) => {
                c.stream_id.validate()?;
                c.topic_id.validate()?;
                c.group_id.validate()
            },
            Command::JoinConsumerGroup(c) => {
                c.stream_id.validate()?;
                c.topic_id.validate()?;
                c.group_id.validate()
            },
            Command::LeaveConsumerGroup(c) => {
                c.stream_id.validate()?;
                c.topic_id.validate()?;
                c.group_id.validate()
            },
        }
    }

    /// Encodes the payload of the command, without the opcode.
    pub fn payload_bytes(&self) -> (r: Bytes)
        requires
            self@.wf(),
        ensures
            bytes_view(r) == self@.payload(),
    {
        match self {
            Command::Ping(c) => c.as_bytes(),
            Command::GetStats(c) => c.as_bytes(),
            Command::GetMe(c) => c.as_bytes(),
            Command::GetClient(c) => c.as_bytes(),
            Command::GetClients(c) => c.as_bytes(),
            Command::GetUser(c) => c.as_bytes(),
            Command::GetUsers(c) => c.as_bytes(),
            Command::CreateUser(c) => c.as_bytes(),
            Command::DeleteUser(c) => c.as_bytes(),
            Command::UpdateUser(c) => c.as_bytes(),
            Command::UpdatePermissions(c) => c.as_bytes(),
            Command::ChangePassword(c) => c.as_bytes(),
            Command::LoginUser(c) => c.as_bytes(),
            Command::LogoutUser(c) => c.as_bytes(),
            Command::GetPersonalAccessTokens(c) => c.as_bytes(),
            Command::CreatePersonalAccessToken(c) => c.as_bytes(),
            Command::DeletePersonalAccessToken(c) => c.as_bytes(),
            Command::LoginWithPersonalAccessToken(c) => c.as_bytes(),
            Command::PollMessages(c) => c.as_bytes(),
            Command::SendMessages(c) => c.as_bytes(),
            Command::GetConsumerOffset(c) => c.as_bytes(),
            Command::StoreConsumerOffset(c) => c.as_bytes(),
            Command::GetStream(c) => c.as_bytes(),
            Command::GetStreams(c) => c.as_bytes(),
            Command::CreateStream(c) => c.as_bytes(),
            Command::DeleteStream(c) => c.as_bytes(),
            Command::UpdateStream(c) => c.as_bytes(),
            Command::PurgeStream(c) => c.as_bytes(),
            Command::GetTopic(c) => c.as_bytes(),
            Command::GetTopics(c) => c.as_bytes(),
            Command::CreateTopic(c) => c.as_bytes(),
            Command::DeleteTopic(c) => c.as_bytes(),
            Command::UpdateTopic(c) => c.as_bytes(),
            Command::PurgeTopic(c) => c.as_bytes(),
            Command::CreatePartitions(c) => c.as_bytes(),
            Command::DeletePartitions(c) => c.as_bytes(),
            Command::GetConsumerGroup(c) => c.as_bytes(),
            Command::GetConsumerGroups(c) => c.as_bytes(),
            Command::CreateConsumerGroup(c) => c.as_bytes(),
            Command::DeleteConsumerGroup(c) => c.as_bytes(),
            Command::JoinConsumerGroup(c) => c.as_bytes(),
            Command::LeaveConsumerGroup(c) => c.as_bytes(),
        }
    }

    /// Encodes the command as a frame: opcode, then payload.
    pub fn as_bytes(&self) -> (r: Bytes)
        requires
            self@.wf(),
        ensures
            bytes_view(r) == self@.frame(),
    {
        let payload = self.payload_bytes();
        proof {
            lemma_payload_bounded(self@);
        }
        frame_of(self.code(), &payload)
    }

    /// Decodes the payload of a command under the given opcode.  An unknown
    /// opcode is rejected, and so is a payload that its decoder rejects.
    pub fn decode(code: u32, payload: Bytes) -> (r: Result<Command, IggyError>)
        ensures
            match r {
                Ok(command) => decode_payload(code, bytes_view(payload)) == Some(command@)
                    && command@.wf() && command@.canonical(),
                Err(e) => e == IggyError::InvalidCommand && decode_payload(
                    code,
                    bytes_view(payload),
                ) is None,
            },
    {
        if code < 30 {
            decode_system_command(code, payload)
        } else if code < 40 {
            decode_user_command(code, payload)
        } else if code < 100 {
            decode_token_command(code, payload)
        } else if code < 200 {
            decode_message_command(code, payload)
        } else if code < 300 {
            decode_stream_command(code, payload)
        } else if code < 600 {
            decode_topic_command(code, payload)
        } else {
            decode_group_command(code, payload)
        }
    }

    /// Decodes a frame: the opcode from its first four bytes, the payload
    /// from the rest.
    pub fn from_bytes(bytes: Bytes) -> (r: Result<Command, IggyError>)
        ensures
            match r {
                Ok(command) => decode_frame(bytes_view(bytes)) == Some(command@) && command@.wf()
                    && command@.canonical(),
                Err(e) => e == IggyError::InvalidCommand && decode_frame(bytes_view(bytes))
                    is None,
            },
    {
        if bytes.len() < 4 {
            return Err(IggyError::InvalidCommand);
        }
        let s = as_slice(&bytes);
        proof {
            assert(s@.skip(0) =~= s@);
        }
        let code = read_u32_le(s, 0);
        Command::decode(code, slice_from(&bytes, 4))
    }
}

/// Decodes a command on the broker and its clients.
fn decode_system_command(code: u32, payload: Bytes) -> (r: Result<Command, IggyError>)
    requires
        code < 30,
    ensures
        match r {
            Ok(command) => decode_payload(code, bytes_view(payload)) == Some(command@)
                && command@.wf() && command@.canonical(),
            Err(e) => e == IggyError::InvalidCommand && decode_payload(code, bytes_view(payload))
                is None,
        },
{
    match code {
        PING_CODE => Ok(Command::Ping(Ping::from_bytes(payload)?)),
        GET_STATS_CODE => Ok(Command::GetStats(GetStats::from_bytes(payload)?)),
        GET_ME_CODE => Ok(Command::GetMe(GetMe::from_bytes(payload)?)),
        GET_CLIENT_CODE => Ok(Command::GetClient(GetClient::from_bytes(payload)?)),
        GET_CLIENTS_CODE => Ok(Command::GetClients(GetClients::from_bytes(payload)?)),
        _ => Err(IggyError::InvalidCommand),
    }
}

/// Decodes a command on users.
fn decode_user_command(code: u32, payload: Bytes) -> (r: Result<Command, IggyError>)
    requires
        code >= 30, code < 40,
    ensures
        match r {
            Ok(command) => decode_payload(code, bytes_view(payload)) == Some(command@)
                && command@.wf() && command@.canonical(),
            Err(e) => e == IggyError::InvalidCommand && decode_payload(code, bytes_view(payload))
                is None,
        },
{
    match code {
        GET_USER_CODE => Ok(Command::GetUser(GetUser::from_bytes(payload)?)),
        GET_USERS_CODE => Ok(Command::GetUsers(GetUsers::from_bytes(payload)?)),
        CREATE_USER_CODE => Ok(Command::CreateUser(CreateUser::from_bytes(payload)?)),
        DELETE_USER_CODE => Ok(Command::DeleteUser(DeleteUser::from_bytes(payload)?)),
        UPDATE_USER_CODE => Ok(Command::UpdateUser(UpdateUser::from_bytes(payload)?)),
        UPDATE_PERMISSIONS_CODE => Ok(Command::UpdatePermissions(UpdatePermissions::from_bytes(payload)?)),
        CHANGE_PASSWORD_CODE => Ok(Command::ChangePassword(ChangePassword::from_bytes(payload)?)),
        LOGIN_USER_CODE => Ok(Command::LoginUser(LoginUser::from_bytes(payload)?)),
        LOGOUT_USER_CODE => Ok(Command::LogoutUser(LogoutUser::from_bytes(payload)?)),
        _ => Err(IggyError::InvalidCommand),
    }
}

/// Decodes a command on personal access tokens.
fn decode_token_command(code: u32, payload: Bytes) -> (r: Result<Command, IggyError>)
    requires
        code >= 40, code < 100,
    ensures
        match r {
            Ok(command) => decode_payload(code, bytes_view(payload)) == Some(command@)
                && command@.wf() && command@.canonical(),
            Err(e) => e == IggyError::InvalidCommand && decode_payload(code, bytes_view(payload))
                is None,
        },
{
    match code {
        GET_PERSONAL_ACCESS_TOKENS_CODE => Ok(Command::GetPersonalAccessTokens(GetPersonalAccessTokens::from_bytes(payload)?)),
        CREATE_PERSONAL_ACCESS_TOKEN_CODE => Ok(Command::CreatePersonalAccessToken(CreatePersonalAccessToken::from_bytes(payload)?)),
        DELETE_PERSONAL_ACCESS_TOKEN_CODE => Ok(Command::DeletePersonalAccessToken(DeletePersonalAccessToken::from_bytes(payload)?)),
        LOGIN_WITH_PERSONAL_ACCESS_TOKEN_CODE => Ok(Command::LoginWithPersonalAccessToken(LoginWithPersonalAccessToken::from_bytes(payload)?)),
        _ => Err(IggyError::InvalidCommand),
    }
}

/// Decodes a command on messages and consumer offsets.
fn decode_message_command(code: u32, payload: Bytes) -> (r: Result<Command, IggyError>)
    requires
        code >= 100, code < 200,
    ensures
        match r {
            Ok(command) => decode_payload(code, bytes_view(payload)) == Some(command@)
                && command@.wf() && command@.canonical(),
            Err(e) => e == IggyError::InvalidCommand && decode_payload(code, bytes_view(payload))
                is None,
        },
{
    match code {
        POLL_MESSAGES_CODE => Ok(Command::PollMessages(PollMessages::from_bytes(payload)?)),
        SEND_MESSAGES_CODE => Ok(Command::SendMessages(SendMessages::from_bytes(payload)?)),
        GET_CONSUMER_OFFSET_CODE => Ok(Command::GetConsumerOffset(GetConsumerOffset::from_bytes(payload)?)),
        STORE_CONSUMER_OFFSET_CODE => Ok(Command::StoreConsumerOffset(StoreConsumerOffset::from_bytes(payload)?)),
        _ => Err(IggyError::InvalidCommand),
    }
}

/// Decodes a command on streams.
fn decode_stream_command(code: u32, payload: Bytes) -> (r: Result<Command, IggyError>)
    requires
        code >= 200, code < 300,
    ensures
        match r {
            Ok(command) => decode_payload(code, bytes_view(payload)) == Some(command@)
                && command@.wf() && command@.canonical(),
            Err(e) => e == IggyError::InvalidCommand && decode_payload(code, bytes_view(payload))
                is None,
        },
{
    match code {
        GET_STREAM_CODE => Ok(Command::GetStream(GetStream::from_bytes(payload)?)),
        GET_STREAMS_CODE => Ok(Command::GetStreams(GetStreams::from_bytes(payload)?)),
        CREATE_STREAM_CODE => Ok(Command::CreateStream(CreateStream::from_bytes(payload)?)),
        DELETE_STREAM_CODE => Ok(Command::DeleteStream(DeleteStream::from_bytes(payload)?)),
        UPDATE_STREAM_CODE => Ok(Command::UpdateStream(UpdateStream::from_bytes(payload)?)),
        PURGE_STREAM_CODE => Ok(Command::PurgeStream(PurgeStream::from_bytes(payload)?)),
        _ => Err(IggyError::InvalidCommand),
    }
}

/// Decodes a command on topics and partitions.
fn decode_topic_command(code: u32, payload: Bytes) -> (r: Result<Command, IggyError>)
    requires
        code >= 300, code < 600,
    ensures
        match r {
            Ok(command) => decode_payload(code, bytes_view(payload)) == Some(command@)
                && command@.wf() && command@.canonical(),
            Err(e) => e == IggyError::InvalidCommand && decode_payload(code, bytes_view(payload))
                is None,
        },
{
    match code {
        GET_TOPIC_CODE => Ok(Command::GetTopic(GetTopic::from_bytes(payload)?)),
        GET_TOPICS_CODE => Ok(Command::GetTopics(GetTopics::from_bytes(payload)?)),
        CREATE_TOPIC_CODE => Ok(Command::CreateTopic(CreateTopic::from_bytes(payload)?)),
        DELETE_TOPIC_CODE => Ok(Command::DeleteTopic(DeleteTopic::from_bytes(payload)?)),
        UPDATE_TOPIC_CODE => Ok(Command::UpdateTopic(UpdateTopic::from_bytes(payload)?)),
        PURGE_TOPIC_CODE => Ok(Command::PurgeTopic(PurgeTopic::from_bytes(payload)?)),
        CREATE_PARTITIONS_CODE => Ok(Command::CreatePartitions(CreatePartitions::from_bytes(payload)?)),
        DELETE_PARTITIONS_CODE => Ok(Command::DeletePartitions(DeletePartitions::from_bytes(payload)?)),
        _ => Err(IggyError::InvalidCommand),
    }
}

/// Decodes a command on consumer groups.
fn decode_group_command(code: u32, payload: Bytes) -> (r: Result<Command, IggyError>)
    requires
        code >= 600,
    ensures
        match r {
            Ok(command) => decode_payload(code, bytes_view(payload)) == Some(command@)
                && command@.wf() && command@.canonical(),
            Err(e) => e == IggyError::InvalidCommand && decode_payload(code, bytes_view(payload))
                is None,
        },
{
    match code {
        GET_CONSUMER_GROUP_CODE => Ok(Command::GetConsumerGroup(GetConsumerGroup::from_bytes(payload)?)),
        GET_CONSUMER_GROUPS_CODE => Ok(Command::GetConsumerGroups(GetConsumerGroups::from_bytes(payload)?)),
        CREATE_CONSUMER_GROUP_CODE => Ok(Command::CreateConsumerGroup(CreateConsumerGroup::from_bytes(payload)?)),
        DELETE_CONSUMER_GROUP_CODE => Ok(Command::DeleteConsumerGroup(DeleteConsumerGroup::from_bytes(payload)?)),
        JOIN_CONSUMER_GROUP_CODE => Ok(Command::JoinConsumerGroup(JoinConsumerGroup::from_bytes(payload)?)),
        LEAVE_CONSUMER_GROUP_CODE => Ok(Command::LeaveConsumerGroup(LeaveConsumerGroup::from_bytes(payload)?)),
        _ => Err(IggyError::InvalidCommand),
    }
}

/// No payload that fits the wire is longer than a batch of messages and
/// its header can be.
pub proof fn lemma_payload_bounded(command: CommandView)
    requires
        command.wf(),
    ensures
        command.payload().len() <= 1_000_001_000,
{
    match command {
        CommandView::GetClient(c) => {
            GetClient::lemma_wire_len(c);
        },
        CommandView::GetUser(c) => {
            lemma_identifier_payload(c);
        },
        CommandView::CreateUser(c) => {
            CreateUser::lemma_wire_len(c);
        },
        CommandView::DeleteUser(c) => {
            lemma_identifier_payload(c);
        },
        CommandView::UpdateUser(c) => {
            UpdateUser::lemma_wire_len(c);
        },
        CommandView::UpdatePermissions(c) => {
            UpdatePermissions::lemma_wire_len(c);
        },
        CommandView::ChangePassword(c) => {
            ChangePassword::lemma_wire_len(c);
        },
        CommandView::LoginUser(c) => {
            LoginUser::lemma_wire_len(c);
        },
        CommandView::CreatePersonalAccessToken(c) => {
            CreatePersonalAccessToken::lemma_wire_len(c);
        },
        CommandView::DeletePersonalAccessToken(c) => {
            DeletePersonalAccessToken::lemma_wire_len(c);
        },
        CommandView::LoginWithPersonalAccessToken(c) => {
            LoginWithPersonalAccessToken::lemma_wire_len(c);
        },
        CommandView::PollMessages(c) => {
            PollMessages::lemma_wire_len(c);
        },
        CommandView::SendMessages(c) => {
            SendMessages::lemma_wire_len(c);
        },
        CommandView::GetConsumerOffset(c) => {
            GetConsumerOffset::lemma_wire_len(c);
        },
        CommandView::StoreConsumerOffset(c) => {
            StoreConsumerOffset::lemma_wire_len(c);
        },
        CommandView::GetStream(c) => {
            lemma_identifier_payload(c);
        },
        CommandView::CreateStream(c) => {
            CreateStream::lemma_wire_len(c);
        },
        CommandView::DeleteStream(c) => {
            lemma_identifier_payload(c);
        },
        CommandView::UpdateStream(c) => {
            UpdateStream::lemma_wire_len(c);
        },
        CommandView::PurgeStream(c) => {
            lemma_identifier_payload(c);
        },
        CommandView::GetTopic(c) => {
            lemma_topic_payload(c);
        },
        CommandView::GetTopics(c) => {
            lemma_identifier_payload(c);
        },
        CommandView::CreateTopic(c) => {
            CreateTopic::lemma_wire_len(c);
        },
        CommandView::DeleteTopic(c) => {
            lemma_topic_payload(c);
        },
        CommandView::UpdateTopic(c) => {
            UpdateTopic::lemma_wire_len(c);
        },
        CommandView::PurgeTopic(c) => {
            lemma_topic_payload(c);
        },
        CommandView::CreatePartitions(c) => {
            CreatePartitions::lemma_wire_len(c);
        },
        CommandView::DeletePartitions(c) => {
            DeletePartitions::lemma_wire_len(c);
        },
        CommandView::GetConsumerGroup(c) => {
            lemma_group_payload(c);
        },
        CommandView::GetConsumerGroups(c) => {
            lemma_topic_payload(c);
        },
        CommandView::CreateConsumerGroup(c) => {
            CreateConsumerGroup::lemma_wire_len(c);
        },
        CommandView::DeleteConsumerGroup(c) => {
            lemma_group_payload(c);
        },
        CommandView::JoinConsumerGroup(c) => {
            lemma_group_payload(c);
        },
        CommandView::LeaveConsumerGroup(c) => {
            lemma_group_payload(c);
        },
        _ => {},
    }
}

} // verus!
