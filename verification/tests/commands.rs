use bytes::Bytes;
use iggy::command::Command;
use iggy::consumer::{Consumer, ConsumerKind};
use iggy::consumer_groups::{
    CreateConsumerGroup, DeleteConsumerGroup, GetConsumerGroup, GetConsumerGroups,
    JoinConsumerGroup, LeaveConsumerGroup,
};
use iggy::consumer_offsets::{GetConsumerOffset, StoreConsumerOffset};
use iggy::error::IggyError;
use iggy::identifier::{IdKind, Identifier};
use iggy::messages::{AppendableMessage, PollMessages};
use iggy::partitioning::Partitioning;
use iggy::partitions::{CreatePartitions, DeletePartitions};
use iggy::payload::CommandExecution;
use iggy::permissions::Permissions;
use iggy::personal_access_tokens::{
    CreatePersonalAccessToken, DeletePersonalAccessToken, GetPersonalAccessTokens,
    LoginWithPersonalAccessToken,
};
use iggy::polling::{PollingKind, PollingStrategy};
use iggy::send_messages::SendMessages;
use iggy::shard::handler::ShardResponse;
use iggy::shard::{Environment, IggyShard};
use iggy::streams::{CreateStream, DeleteStream, GetStream, GetStreams, PurgeStream, UpdateStream};
use iggy::system::{GetClient, GetClients, GetMe, GetStats, Ping};
use iggy::topics::{
    CompressionAlgorithm, CreateTopic, DeleteTopic, GetTopic, GetTopics, PurgeTopic, UpdateTopic,
};
use iggy::users::{
    ChangePassword, CreateUser, DeleteUser, GetUser, GetUsers, LoginUser, LogoutUser,
    UpdatePermissions, UpdateUser, UserStatus,
};

fn num(n: u32) -> Identifier {
    Identifier::numeric(n).unwrap()
}

fn name(s: &str) -> Identifier {
    Identifier::named(s).unwrap()
}

fn text(s: &str) -> Vec<u8> {
    s.as_bytes().to_vec()
}

fn message(id: u128, payload: &str) -> AppendableMessage {
    AppendableMessage { id, headers: None, payload: text(payload) }
}

fn every_command() -> Vec<Command> {
    let consumer = Consumer { kind: ConsumerKind::ConsumerGroup, id: 7 };
    let strategy = PollingStrategy { kind: PollingKind::Offset, value: 42 };
    let permissions = Permissions {
        manage_servers: false,
        read_servers: true,
        manage_users: false,
        read_users: true,
        manage_streams: true,
        read_streams: false,
        manage_topics: true,
        read_topics: false,
        poll_messages: true,
        send_messages: false,
    };
    vec![
        Command::Ping(Ping {}),
        Command::GetStats(GetStats {}),
        Command::GetMe(GetMe {}),
        Command::GetClient(GetClient { client_id: 0x01020304 }),
        Command::GetClients(GetClients {}),
        Command::GetUser(GetUser { user_id: name("alice") }),
        Command::GetUsers(GetUsers {}),
        Command::CreateUser(CreateUser {
            username: text("alice"),
            password: text("secret"),
            status: UserStatus::Inactive,
            permissions: Some(permissions),
        }),
        Command::DeleteUser(DeleteUser { user_id: num(3) }),
        Command::UpdateUser(UpdateUser {
            user_id: num(3),
            username: Some(text("bob")),
            status: Some(UserStatus::Active),
        }),
        Command::UpdatePermissions(UpdatePermissions { user_id: num(3), permissions: None }),
        Command::ChangePassword(ChangePassword {
            user_id: name("alice"),
            current_password: text("old"),
            new_password: text("new"),
        }),
        Command::LoginUser(LoginUser { username: text("alice"), password: text("secret") }),
        Command::LogoutUser(LogoutUser {}),
        Command::GetPersonalAccessTokens(GetPersonalAccessTokens {}),
        Command::CreatePersonalAccessToken(CreatePersonalAccessToken {
            name: text("ci"),
            expiry: Some(3600),
        }),
        Command::DeletePersonalAccessToken(DeletePersonalAccessToken { name: text("ci") }),
        Command::LoginWithPersonalAccessToken(LoginWithPersonalAccessToken {
            token: text("0123456789abcdef"),
        }),
        Command::PollMessages(PollMessages {
            consumer,
            stream_id: num(1),
            topic_id: name("orders"),
            partition_id: Some(2),
            strategy,
            count: 10,
            auto_commit: true,
        }),
        Command::SendMessages(SendMessages {
            stream_id: num(1),
            topic_id: num(2),
            partitioning: Partitioning::messages_key(b"key").unwrap(),
            messages: vec![
                AppendableMessage { id: 1, headers: Some(text("h")), payload: text("first") },
                message(2, "second"),
            ],
        }),
        Command::GetConsumerOffset(GetConsumerOffset {
            consumer,
            stream_id: num(1),
            topic_id: num(2),
            partition_id: None,
        }),
        Command::StoreConsumerOffset(StoreConsumerOffset {
            consumer,
            stream_id: num(1),
            topic_id: num(2),
            partition_id: Some(1),
            offset: 0x0102030405060708,
        }),
        Command::GetStream(GetStream { stream_id: num(1) }),
        Command::GetStreams(GetStreams {}),
        Command::CreateStream(CreateStream { stream_id: None, name: text("s") }),
        Command::DeleteStream(DeleteStream { stream_id: name("s") }),
        Command::UpdateStream(UpdateStream { stream_id: num(1), name: text("renamed") }),
        Command::PurgeStream(PurgeStream { stream_id: num(1) }),
        Command::GetTopic(GetTopic { stream_id: num(1), topic_id: num(2) }),
        Command::GetTopics(GetTopics { stream_id: num(1) }),
        Command::CreateTopic(CreateTopic {
            stream_id: num(1),
            topic_id: Some(5),
            partitions_count: 4,
            compression_algorithm: CompressionAlgorithm::Gzip,
            message_expiry: None,
            max_topic_size: Some(1 << 40),
            replication_factor: 1,
            name: text("orders"),
        }),
        Command::DeleteTopic(DeleteTopic { stream_id: num(1), topic_id: num(2) }),
        Command::UpdateTopic(UpdateTopic {
            stream_id: num(1),
            topic_id: num(2),
            compression_algorithm: CompressionAlgorithm::Plain,
            message_expiry: Some(60),
            max_topic_size: None,
            replication_factor: 1,
            name: text("orders"),
        }),
        Command::PurgeTopic(PurgeTopic { stream_id: num(1), topic_id: num(2) }),
        Command::CreatePartitions(CreatePartitions {
            stream_id: num(1),
            topic_id: num(2),
            partitions_count: 3,
        }),
        Command::DeletePartitions(DeletePartitions {
            stream_id: num(1),
            topic_id: num(2),
            partitions_count: 1,
        }),
        Command::GetConsumerGroup(GetConsumerGroup {
            stream_id: num(1),
            topic_id: num(2),
            group_id: num(3),
        }),
        Command::GetConsumerGroups(GetConsumerGroups { stream_id: num(1), topic_id: num(2) }),
        Command::CreateConsumerGroup(CreateConsumerGroup {
            stream_id: num(1),
            topic_id: num(2),
            group_id: Some(3),
            name: text("workers"),
        }),
        Command::DeleteConsumerGroup(DeleteConsumerGroup {
            stream_id: num(1),
            topic_id: num(2),
            group_id: num(3),
        }),
        Command::JoinConsumerGroup(JoinConsumerGroup {
            stream_id: num(1),
            topic_id: num(2),
            group_id: name("workers"),
        }),
        Command::LeaveConsumerGroup(LeaveConsumerGroup {
            stream_id: num(1),
            topic_id: num(2),
            group_id: num(3),
        }),
    ]
}

#[test]
fn every_command_survives_its_payload_codec() {
    let commands = every_command();
    assert_eq!(commands.len(), 42);
    for command in commands {
        assert!(command.validate().is_ok());
        let payload = command.payload_bytes();
        let decoded = Command::decode(command.code(), payload).unwrap();
        assert_eq!(decoded, command);
    }
}

#[test]
fn every_command_survives_its_frame() {
    for command in every_command() {
        let frame = command.as_bytes();
        let decoded = Command::from_bytes(frame).unwrap();
        assert_eq!(decoded, command);
    }
}

#[test]
fn every_frame_cut_by_one_byte_is_invalid() {
    for command in every_command() {
        let frame = command.as_bytes();
        let cut = frame.slice(..frame.len() - 1);
        assert_eq!(Command::from_bytes(cut), Err(IggyError::InvalidCommand));
    }
}

#[test]
fn every_payload_cut_by_one_byte_is_invalid() {
    for command in every_command() {
        let payload = command.payload_bytes();
        if payload.is_empty() {
            continue;
        }
        let cut = payload.slice(..payload.len() - 1);
        assert_eq!(Command::decode(command.code(), cut), Err(IggyError::InvalidCommand));
    }
}

#[test]
fn opcodes_are_those_of_the_protocol() {
    let expected: Vec<u32> = vec![
        1, 10, 20, 21, 22, 31, 32, 33, 34, 35, 36, 37, 38, 39, 41, 42, 43, 44, 100, 101, 120, 121,
        200, 201, 202, 203, 204, 205, 300, 301, 302, 303, 304, 305, 402, 403, 600, 601, 602, 603,
        604, 605,
    ];
    let codes: Vec<u32> = every_command().iter().map(|c| c.code()).collect();
    assert_eq!(codes, expected);
}

#[test]
fn unknown_opcode_is_invalid() {
    assert_eq!(Command::decode(2, Bytes::new()), Err(IggyError::InvalidCommand));
    assert_eq!(Command::decode(606, Bytes::new()), Err(IggyError::InvalidCommand));
    assert_eq!(
        Command::from_bytes(Bytes::from_static(&[0xFF, 0xFF, 0xFF, 0xFF])),
        Err(IggyError::InvalidCommand)
    );
}

#[test]
fn frame_starts_with_the_opcode_in_little_endian() {
    let frame = Command::GetConsumerGroup(GetConsumerGroup {
        stream_id: num(1),
        topic_id: num(2),
        group_id: num(3),
    })
    .as_bytes();
    assert_eq!(&frame[..4], &[0x58, 0x02, 0x00, 0x00]);
    assert_eq!(frame.len(), 22);
    let ping = Command::Ping(Ping {}).as_bytes();
    assert_eq!(ping.as_ref(), &[1u8, 0, 0, 0][..]);
}

#[test]
fn empty_payload_commands_reject_any_byte() {
    let one = Bytes::from_static(&[0x00]);
    assert_eq!(GetClients::from_bytes(one.clone()), Err(IggyError::InvalidCommand));
    assert_eq!(Ping::from_bytes(one.clone()), Err(IggyError::InvalidCommand));
    assert_eq!(LogoutUser::from_bytes(one.clone()), Err(IggyError::InvalidCommand));
    assert_eq!(GetStats::from_bytes(one.clone()), Err(IggyError::InvalidCommand));
    assert_eq!(GetMe::from_bytes(one.clone()), Err(IggyError::InvalidCommand));
    assert_eq!(GetUsers::from_bytes(one.clone()), Err(IggyError::InvalidCommand));
    assert_eq!(GetStreams::from_bytes(one.clone()), Err(IggyError::InvalidCommand));
    assert_eq!(GetPersonalAccessTokens::from_bytes(one), Err(IggyError::InvalidCommand));
    assert_eq!(Ping::from_bytes(Bytes::new()), Ok(Ping {}));
    assert_eq!(LogoutUser::from_bytes(Bytes::new()), Ok(LogoutUser {}));
    assert!(Ping {}.as_bytes().is_empty());
    for code in [1u32, 10, 20, 22, 32, 39, 41, 201] {
        assert_eq!(
            Command::decode(code, Bytes::from_static(&[7, 7])),
            Err(IggyError::InvalidCommand)
        );
    }
}

#[test]
fn commands_come_straight_from_the_client() {
    assert_eq!(GetClients {}.get_command_execution_origin(), CommandExecution::Direct);
    let command =
        GetConsumerGroup { stream_id: num(1), topic_id: num(2), group_id: num(3) };
    assert_eq!(command.get_command_execution_origin(), CommandExecution::Direct);
    assert_eq!(command.validate(), Ok(()));
    assert_eq!(GetClients {}.validate(), Ok(()));
    assert_eq!(Command::Ping(Ping {}).get_command_execution_origin(), CommandExecution::Direct);
}

#[test]
fn three_identifier_payload_needs_nine_bytes() {
    let short = Bytes::from_static(&[1, 4, 1, 0, 0, 0, 1, 4]);
    assert_eq!(GetConsumerGroup::from_bytes(short), Err(IggyError::InvalidCommand));
    // Nine bytes are enough for three one-byte names.
    let names = Bytes::from_static(&[2, 1, b'a', 2, 1, b'b', 2, 1, b'c']);
    let decoded = GetConsumerGroup::from_bytes(names).unwrap();
    assert_eq!(decoded.stream_id, name("a"));
    assert_eq!(decoded.topic_id, name("b"));
    assert_eq!(decoded.group_id, name("c"));
}

#[test]
fn trailing_bytes_after_identifiers_are_ignored() {
    let bytes = Bytes::from_static(&[1, 4, 9, 0, 0, 0, 0xAA, 0xBB]);
    let decoded = GetStream::from_bytes(bytes).unwrap();
    assert_eq!(decoded.stream_id, num(9));
}

#[test]
fn create_stream_has_the_documented_layout() {
    let command = CreateStream { stream_id: Some(0x0A0B0C0D), name: text("ab") };
    assert_eq!(command.as_bytes().as_ref(), &[0x0D, 0x0C, 0x0B, 0x0A, 2, b'a', b'b'][..]);
    let auto = CreateStream { stream_id: None, name: text("s") };
    assert_eq!(auto.as_bytes().as_ref(), &[0, 0, 0, 0, 1, b's'][..]);
    assert_eq!(CreateStream::from_bytes(auto.as_bytes()), Ok(auto));
}

#[test]
fn validation_rejects_what_does_not_fit_the_wire() {
    let empty_name = CreateStream { stream_id: None, name: Vec::new() };
    assert_eq!(empty_name.validate(), Err(IggyError::InvalidCommand));
    let long_name = CreateStream { stream_id: None, name: vec![b'x'; 256] };
    assert_eq!(long_name.validate(), Err(IggyError::InvalidCommand));
    let zero_id = CreateStream { stream_id: Some(0), name: text("s") };
    assert_eq!(zero_id.validate(), Err(IggyError::InvalidCommand));
    let longest = CreateStream { stream_id: Some(1), name: vec![b'x'; 255] };
    assert_eq!(longest.validate(), Ok(()));
    assert_eq!(CreateStream::from_bytes(longest.as_bytes()), Ok(longest));
    let no_messages = SendMessages {
        stream_id: num(1),
        topic_id: num(1),
        partitioning: Partitioning::balanced(),
        messages: Vec::new(),
    };
    assert_eq!(no_messages.validate(), Err(IggyError::InvalidCommand));
}

#[test]
fn send_messages_has_the_documented_layout() {
    let command = SendMessages {
        stream_id: num(1),
        topic_id: num(2),
        partitioning: Partitioning::partition_id(3),
        messages: vec![message(5, "hi")],
    };
    let mut expected: Vec<u8> = vec![1, 4, 1, 0, 0, 0, 1, 4, 2, 0, 0, 0, 2, 4, 3, 0, 0, 0];
    expected.extend_from_slice(&5u128.to_le_bytes());
    expected.extend_from_slice(&[0, 0, 0, 0]);
    expected.extend_from_slice(&[2, 0, 0, 0, b'h', b'i']);
    assert_eq!(command.as_bytes().as_ref(), &expected[..]);
    assert_eq!(command.batch_size(), Some(16 + 4 + 4 + 2));
}

#[test]
fn send_messages_rejects_leftover_bytes() {
    let command = SendMessages {
        stream_id: num(1),
        topic_id: num(2),
        partitioning: Partitioning::balanced(),
        messages: vec![message(5, "hi")],
    };
    let mut bytes = command.as_bytes().to_vec();
    bytes.push(0);
    assert_eq!(SendMessages::from_bytes(Bytes::from(bytes)), Err(IggyError::InvalidCommand));
    // Header without any message.
    let header = Bytes::from_static(&[1, 4, 1, 0, 0, 0, 1, 4, 2, 0, 0, 0, 1, 0]);
    assert_eq!(SendMessages::from_bytes(header), Err(IggyError::InvalidCommand));
}

#[test]
fn partitioning_kinds_have_their_forms() {
    let balanced = Partitioning::balanced();
    assert_eq!((balanced.length, balanced.value.len()), (0, 0));
    let by_id = Partitioning::partition_id(0x01020304);
    assert_eq!(by_id.value, vec![4, 3, 2, 1]);
    assert_eq!(Partitioning::messages_key(b""), Err(IggyError::InvalidCommand));
    assert_eq!(Partitioning::messages_key(&[0u8; 256]), Err(IggyError::InvalidCommand));
    let key = Partitioning::messages_key(b"k").unwrap();
    assert_eq!(key.validate(), Ok(()));
    let broken = Partitioning { kind: key.kind, length: 2, value: vec![1] };
    assert_eq!(broken.validate(), Err(IggyError::InvalidCommand));
}

#[test]
fn poll_messages_rejects_unknown_tags() {
    let good = PollMessages {
        consumer: Consumer { kind: ConsumerKind::Consumer, id: 1 },
        stream_id: num(1),
        topic_id: num(1),
        partition_id: Some(1),
        strategy: PollingStrategy { kind: PollingKind::Next, value: 0 },
        count: 1,
        auto_commit: false,
    };
    let bytes = good.as_bytes().to_vec();
    assert_eq!(bytes.len(), 5 + 6 + 6 + 4 + 9 + 4 + 1);
    let mut bad_consumer = bytes.clone();
    bad_consumer[0] = 3;
    assert_eq!(PollMessages::from_bytes(Bytes::from(bad_consumer)), Err(IggyError::InvalidCommand));
    let mut bad_strategy = bytes.clone();
    bad_strategy[21] = 6;
    assert_eq!(PollMessages::from_bytes(Bytes::from(bad_strategy)), Err(IggyError::InvalidCommand));
    let mut bad_flag = bytes.clone();
    bad_flag[34] = 2;
    assert_eq!(PollMessages::from_bytes(Bytes::from(bad_flag)), Err(IggyError::InvalidCommand));
    assert_eq!(PollMessages::from_bytes(Bytes::from(bytes)), Ok(good));
}

#[test]
fn identifier_kind_codes() {
    assert_eq!(IdKind::Numeric.as_code(), 1);
    assert_eq!(IdKind::String.as_code(), 2);
    assert_eq!(IdKind::from_code(1), Ok(IdKind::Numeric));
    assert_eq!(IdKind::from_code(2), Ok(IdKind::String));
    assert_eq!(IdKind::from_code(0), Err(IggyError::InvalidCommand));
    assert_eq!(IdKind::from_code(3), Err(IggyError::InvalidCommand));
}

#[test]
fn every_command_gets_a_binary_response_or_an_error() {
    let mut shard = IggyShard::new(0);
    shard.create_root_user(&text("alice"), &text("secret")).unwrap();
    let mut session = shard.add_client().unwrap();
    let environment = Environment { now: 1, token: text("token") };
    let mut answered = 0;
    let mut refused = 0;
    // First as they come, then each with a login in front of it.
    for round in 0..2 {
        for command in every_command() {
            if round == 1 && !session.is_authenticated() {
                shard.login_user(&text("alice"), &text("secret"), &mut session).unwrap();
            }
            match shard.handle_command(&mut session, command, &environment) {
                Ok(ShardResponse::BinaryResponse(_)) => answered += 1,
                Ok(ShardResponse::ErrorResponse(e)) => panic!("unexpected answer {:?}", e),
                Err(_) => refused += 1,
            }
            assert!(shard.is_valid());
            assert!(session.is_valid());
        }
    }
    assert_eq!(answered + refused, 84);
    assert!(answered > 10);
    assert!(refused > 10);
}

#[test]
fn without_a_login_only_ping_and_logins_are_executed() {
    let mut shard = IggyShard::new(0);
    shard.create_root_user(&text("root"), &text("pw")).unwrap();
    let environment = Environment { now: 1, token: text("token") };
    for command in every_command() {
        let mut session = shard.add_client().unwrap();
        let open = matches!(
            command,
            Command::Ping(_) | Command::LoginUser(_) | Command::LoginWithPersonalAccessToken(_)
        );
        let answer = shard.handle_command(&mut session, command, &environment);
        if !open {
            assert_eq!(answer.err(), Some(IggyError::Unauthenticated));
            assert!(!session.is_authenticated());
        }
    }
    assert!(shard.streams.is_empty());
    assert_eq!(shard.users.len(), 1);
    assert!(shard.tokens.is_empty());
    assert!(shard.outbox.is_empty());
}
