use bytes::Bytes;
use iggy::binary::handlers::consumer_groups::join_consumer_group_handler;
use iggy::binary::handlers::users::create_user_handler;
use iggy::binary::handlers::users::update_permissions_handler;
use iggy::binary::mapper::{map_consumer_group, map_identity_info, map_streams, map_topic};
use iggy::binary::sender::{
    empty_ok_response, error_response, ok_response, read_request, request, response,
};
use iggy::command::Command;
use iggy::consumer::{Consumer, ConsumerKind};
use iggy::consumer_groups::{CreateConsumerGroup, GetConsumerGroup, JoinConsumerGroup};
use iggy::error::IggyError;
use iggy::identifier::Identifier;
use iggy::messages::{AppendableMessage, PollMessages};
use iggy::partitioning::Partitioning;
use iggy::permissions::Permissions;
use iggy::personal_access_tokens::{
    CreatePersonalAccessToken, GetPersonalAccessTokens, LoginWithPersonalAccessToken,
};
use iggy::polling::{PollingKind, PollingStrategy};
use iggy::send_messages::SendMessages;
use iggy::shard::handler::ShardResponse;
use iggy::shard::router::ShardRouter;
use iggy::shard::{Environment, IggyShard};
use iggy::streaming::session::Session;
use iggy::streams::{CreateStream, DeleteStream, GetStream, GetStreams};
use iggy::system::{GetClient, GetClients, GetMe, GetStats, Ping};
use iggy::tcp::tcp_server::server_name;
use iggy::topics::{CompressionAlgorithm, CreateTopic, GetTopic};
use iggy::users::{CreateUser, GetUser, GetUsers, LoginUser, LogoutUser, UpdatePermissions, UserStatus};

fn num(n: u32) -> Identifier {
    Identifier::numeric(n).unwrap()
}

fn text(s: &str) -> Vec<u8> {
    s.as_bytes().to_vec()
}

fn env() -> Environment {
    Environment { now: 500, token: text("fresh-token") }
}

fn body(answer: Result<ShardResponse, IggyError>) -> Vec<u8> {
    match answer {
        Ok(ShardResponse::BinaryResponse(bytes)) => bytes.to_vec(),
        Ok(ShardResponse::ErrorResponse(e)) => panic!("error response {:?}", e),
        Err(e) => panic!("error {:?}", e),
    }
}

fn error(answer: Result<ShardResponse, IggyError>) -> IggyError {
    match answer {
        Err(e) => e,
        Ok(_) => panic!("no error"),
    }
}

fn broker() -> (IggyShard, Session) {
    let mut shard = IggyShard::new(0);
    shard.create_root_user(&text("root"), &text("secret")).unwrap();
    let mut session = shard.add_client().unwrap();
    let login = Command::LoginUser(LoginUser { username: text("root"), password: text("secret") });
    assert_eq!(body(shard.handle_command(&mut session, login, &env())), vec![1, 0, 0, 0]);
    (shard, session)
}

fn create_topic(partitions_count: u32, replication_factor: u8) -> Command {
    Command::CreateTopic(CreateTopic {
        stream_id: num(1),
        topic_id: None,
        partitions_count,
        compression_algorithm: CompressionAlgorithm::Plain,
        message_expiry: None,
        max_topic_size: None,
        replication_factor,
        name: text("t"),
    })
}

#[test]
fn ping_is_answered_without_a_login() {
    let mut shard = IggyShard::new(0);
    let mut session = shard.add_client().unwrap();
    assert!(body(shard.handle_command(&mut session, Command::Ping(Ping {}), &env())).is_empty());
    let stats = shard.handle_command(&mut session, Command::GetStats(GetStats {}), &env());
    assert_eq!(error(stats), IggyError::Unauthenticated);
    let me = shard.handle_command(&mut session, Command::GetMe(GetMe {}), &env());
    assert_eq!(error(me), IggyError::Unauthenticated);
}

#[test]
fn create_stream_through_the_executor() {
    let (mut shard, mut session) = broker();
    let create = Command::CreateStream(CreateStream { stream_id: None, name: text("s") });
    assert!(body(shard.handle_command(&mut session, create.clone(), &env())).is_empty());
    assert_eq!(shard.streams[0].id, 1);
    assert_eq!(error(shard.handle_command(&mut session, create, &env())), IggyError::AlreadyExists);
    let delete = Command::DeleteStream(DeleteStream { stream_id: num(1) });
    assert!(body(shard.handle_command(&mut session, delete.clone(), &env())).is_empty());
    assert_eq!(error(shard.handle_command(&mut session, delete, &env())), IggyError::NotFound);
    assert!(shard.streams.is_empty());
}

#[test]
fn create_topic_through_the_executor() {
    let (mut shard, mut session) = broker();
    let create = Command::CreateStream(CreateStream { stream_id: None, name: text("s") });
    assert!(body(shard.handle_command(&mut session, create, &env())).is_empty());
    assert_eq!(
        error(shard.handle_command(&mut session, create_topic(0, 1), &env())),
        IggyError::InvalidConfiguration
    );
    assert_eq!(
        error(shard.handle_command(&mut session, create_topic(1, 2), &env())),
        IggyError::InvalidConfiguration
    );
    assert!(body(shard.handle_command(&mut session, create_topic(2, 1), &env())).is_empty());
    let get = Command::GetTopic(GetTopic { stream_id: num(1), topic_id: num(1) });
    let reply = body(shard.handle_command(&mut session, get, &env()));
    let mut expected: Vec<u8> = vec![1, 0, 0, 0, 2, 0, 0, 0, 1, b't'];
    expected.extend_from_slice(&[0, 0, 0, 0, 1, 0, 0, 0, 0, 0, 0, 0, 0, 1]);
    expected.extend_from_slice(&[1, 0, 0, 0, 0, 0, 0, 0, 0, 0, 0, 0]);
    expected.extend_from_slice(&[2, 0, 0, 0, 0, 0, 0, 0, 0, 0, 0, 0]);
    assert_eq!(reply, expected);
    assert_eq!(map_topic(&shard.streams[0].topics[0]).to_vec(), expected);
}

#[test]
fn invalid_commands_are_refused_before_dispatch() {
    let (mut shard, mut session) = broker();
    let create = Command::CreateStream(CreateStream { stream_id: None, name: Vec::new() });
    assert_eq!(error(shard.handle_command(&mut session, create, &env())), IggyError::InvalidCommand);
    let empty = Command::SendMessages(SendMessages {
        stream_id: num(1),
        topic_id: num(1),
        partitioning: Partitioning::balanced(),
        messages: Vec::new(),
    });
    assert_eq!(error(shard.handle_command(&mut session, empty, &env())), IggyError::InvalidCommand);
    assert!(shard.streams.is_empty());
}

#[test]
fn messages_go_in_and_come_out() {
    let (mut shard, mut session) = broker();
    let create = Command::CreateStream(CreateStream { stream_id: None, name: text("s") });
    assert!(body(shard.handle_command(&mut session, create, &env())).is_empty());
    assert!(body(shard.handle_command(&mut session, create_topic(1, 1), &env())).is_empty());
    let send = Command::SendMessages(SendMessages {
        stream_id: num(1),
        topic_id: num(1),
        partitioning: Partitioning::balanced(),
        messages: vec![
            AppendableMessage { id: 7, headers: None, payload: text("ab") },
            AppendableMessage { id: 8, headers: Some(text("h")), payload: text("c") },
        ],
    });
    assert!(body(shard.handle_command(&mut session, send, &env())).is_empty());
    let poll = Command::PollMessages(PollMessages {
        consumer: Consumer { kind: ConsumerKind::Consumer, id: 1 },
        stream_id: num(1),
        topic_id: num(1),
        partition_id: Some(1),
        strategy: PollingStrategy { kind: PollingKind::Offset, value: 1 },
        count: 10,
        auto_commit: false,
    });
    let reply = body(shard.handle_command(&mut session, poll, &env()));
    let mut expected: Vec<u8> = vec![1, 0, 0, 0];
    expected.extend_from_slice(&1u64.to_le_bytes());
    expected.extend_from_slice(&1u32.to_le_bytes());
    expected.extend_from_slice(&1u64.to_le_bytes());
    expected.extend_from_slice(&500u64.to_le_bytes());
    expected.extend_from_slice(&8u128.to_le_bytes());
    expected.extend_from_slice(&[1, 0, 0, 0, b'h']);
    expected.extend_from_slice(&[1, 0, 0, 0, b'c']);
    assert_eq!(reply, expected);
}

#[test]
fn every_kind_of_command_is_answered_or_refused() {
    let (mut shard, mut session) = broker();
    let commands = vec![
        Command::Ping(Ping {}),
        Command::GetStats(GetStats {}),
        Command::GetMe(GetMe {}),
        Command::GetClient(GetClient { client_id: 99 }),
        Command::GetClients(GetClients {}),
        Command::GetUser(GetUser { user_id: num(1) }),
        Command::GetUsers(GetUsers {}),
        Command::GetStreams(GetStreams {}),
        Command::GetStream(GetStream { stream_id: num(1) }),
        Command::GetPersonalAccessTokens(GetPersonalAccessTokens {}),
        Command::GetConsumerGroup(GetConsumerGroup {
            stream_id: num(1),
            topic_id: num(1),
            group_id: num(1),
        }),
    ];
    for command in commands {
        match shard.handle_command(&mut session, command, &env()) {
            Ok(ShardResponse::BinaryResponse(_)) => {},
            Ok(ShardResponse::ErrorResponse(_)) => panic!("the executor answered with an error"),
            Err(e) => assert_eq!(e, IggyError::NotFound),
        }
    }
}

#[test]
fn replies_have_their_layouts() {
    let (mut shard, mut session) = broker();
    let stats = body(shard.handle_command(&mut session, Command::GetStats(GetStats {}), &env()));
    let mut expected = Vec::new();
    for n in [0u64, 1, 0, 1] {
        expected.extend_from_slice(&n.to_le_bytes());
    }
    assert_eq!(stats, expected);
    let me = body(shard.handle_command(&mut session, Command::GetMe(GetMe {}), &env()));
    assert_eq!(me, vec![1, 0, 0, 0, 1, 0, 0, 0]);
    let clients = body(shard.handle_command(&mut session, Command::GetClients(GetClients {}), &env()));
    assert_eq!(clients, vec![1, 0, 0, 0, 1, 0, 0, 0, 1, 0, 0, 0]);
    let user = body(shard.handle_command(
        &mut session,
        Command::GetUser(GetUser { user_id: num(1) }),
        &env(),
    ));
    assert_eq!(user, vec![1, 0, 0, 0, 1, 4, b'r', b'o', b'o', b't', 1, 1, 1, 1, 1, 1, 1, 1, 1, 1, 1]);
    let users = body(shard.handle_command(&mut session, Command::GetUsers(GetUsers {}), &env()));
    assert_eq!(users, vec![1, 0, 0, 0, 1, 0, 0, 0, 1, 4, b'r', b'o', b'o', b't']);
    for name in ["b", "a"] {
        let create = Command::CreateStream(CreateStream { stream_id: None, name: text(name) });
        assert!(body(shard.handle_command(&mut session, create, &env())).is_empty());
    }
    let streams = body(shard.handle_command(&mut session, Command::GetStreams(GetStreams {}), &env()));
    assert_eq!(
        streams,
        vec![2, 0, 0, 0, 1, 0, 0, 0, 0, 0, 0, 0, 1, b'b', 2, 0, 0, 0, 0, 0, 0, 0, 1, b'a']
    );
    assert_eq!(map_streams(&shard.streams).to_vec(), streams);
    assert_eq!(map_identity_info(0x01020304).as_ref(), &[4, 3, 2, 1][..]);
}

#[test]
fn tokens_through_the_executor() {
    let (mut shard, mut session) = broker();
    let create = Command::CreatePersonalAccessToken(CreatePersonalAccessToken {
        name: text("ci"),
        expiry: Some(10),
    });
    let raw = body(shard.handle_command(&mut session, create, &env()));
    assert_eq!(raw[0] as usize, "fresh-token".len());
    assert_eq!(&raw[1..], b"fresh-token");
    let list = Command::GetPersonalAccessTokens(GetPersonalAccessTokens {});
    let listed = body(shard.handle_command(&mut session, list, &env()));
    let mut expected: Vec<u8> = vec![1, 0, 0, 0, 2, b'c', b'i'];
    expected.extend_from_slice(&510u64.to_le_bytes());
    assert_eq!(listed, expected);
    let logout = Command::LogoutUser(LogoutUser {});
    assert!(body(shard.handle_command(&mut session, logout.clone(), &env())).is_empty());
    assert!(!session.is_authenticated());
    assert_eq!(session.permissions, None);
    assert_eq!(error(shard.handle_command(&mut session, logout, &env())), IggyError::Unauthenticated);
    let login = Command::LoginWithPersonalAccessToken(LoginWithPersonalAccessToken {
        token: text("fresh-token"),
    });
    assert_eq!(body(shard.handle_command(&mut session, login.clone(), &env())), vec![1, 0, 0, 0]);
    assert_eq!(session.user_id, Some(1));
    let late = Environment { now: 510, token: Vec::new() };
    let mut other = shard.add_client().unwrap();
    assert_eq!(error(shard.handle_command(&mut other, login, &late)), IggyError::Unauthenticated);
}

#[test]
fn consumer_groups_through_the_executor() {
    let (mut shard, mut session) = broker();
    let create = Command::CreateStream(CreateStream { stream_id: None, name: text("s") });
    assert!(body(shard.handle_command(&mut session, create, &env())).is_empty());
    assert!(body(shard.handle_command(&mut session, create_topic(5, 1), &env())).is_empty());
    let group = Command::CreateConsumerGroup(CreateConsumerGroup {
        stream_id: num(1),
        topic_id: num(1),
        group_id: None,
        name: text("g"),
    });
    assert!(body(shard.handle_command(&mut session, group, &env())).is_empty());
    let join = Command::JoinConsumerGroup(JoinConsumerGroup {
        stream_id: num(1),
        topic_id: num(1),
        group_id: num(1),
    });
    assert!(body(shard.handle_command(&mut session, join, &env())).is_empty());
    let get = Command::GetConsumerGroup(GetConsumerGroup {
        stream_id: num(1),
        topic_id: num(1),
        group_id: num(1),
    });
    let reply = body(shard.handle_command(&mut session, get, &env()));
    assert_eq!(reply, vec![1, 0, 0, 0, 5, 0, 0, 0, 1, 0, 0, 0, 1, b'g', 1, 0, 0, 0]);
    assert_eq!(map_consumer_group(&shard.streams[0].topics[0].groups[0]).to_vec(), reply);
}

#[test]
fn single_command_handlers_answer_with_an_empty_ok_frame() {
    let (mut shard, session) = broker();
    let ok = vec![0u8; 8];
    let create = CreateUser {
        username: text("u"),
        password: text("pw"),
        status: UserStatus::Active,
        permissions: None,
    };
    assert_eq!(create_user_handler::handle(&create, &session, &mut shard).unwrap().to_vec(), ok);
    assert_eq!(
        create_user_handler::handle(&create, &session, &mut shard),
        Err(IggyError::AlreadyExists)
    );
    assert_eq!(shard.users.len(), 2);
    let update = UpdatePermissions { user_id: num(2), permissions: Some(Permissions::all()) };
    assert_eq!(
        update_permissions_handler::handle(&update, &session, &mut shard).unwrap().to_vec(),
        ok
    );
    assert_eq!(shard.users[1].permissions, Some(Permissions::all()));
    let missing = UpdatePermissions { user_id: num(3), permissions: None };
    assert_eq!(
        update_permissions_handler::handle(&missing, &session, &mut shard),
        Err(IggyError::NotFound)
    );
    let join = JoinConsumerGroup { stream_id: num(1), topic_id: num(1), group_id: num(1) };
    assert_eq!(
        join_consumer_group_handler::handle(&join, &session, &mut shard),
        Err(IggyError::NotFound)
    );
    let anonymous = Session::new(77);
    assert_eq!(
        create_user_handler::handle(&create, &anonymous, &mut shard),
        Err(IggyError::Unauthenticated)
    );
}

#[test]
fn reply_frames_carry_status_length_and_body() {
    assert_eq!(empty_ok_response().as_ref(), &[0u8; 8][..]);
    assert_eq!(error_response(IggyError::NotFound).as_ref(), &[4, 0, 0, 0, 0, 0, 0, 0][..]);
    assert_eq!(
        ok_response(&Bytes::from_static(b"abc")).as_ref(),
        &[0, 0, 0, 0, 3, 0, 0, 0, b'a', b'b', b'c'][..]
    );
    let answer = Ok(ShardResponse::BinaryResponse(Bytes::from_static(&[9])));
    assert_eq!(response(&answer).as_ref(), &[0, 0, 0, 0, 1, 0, 0, 0, 9][..]);
    let refused = Err(IggyError::Unauthorized);
    assert_eq!(response(&refused).as_ref(), &[3, 0, 0, 0, 0, 0, 0, 0][..]);
    let passed_on = Ok(ShardResponse::ErrorResponse(IggyError::StorageFailure));
    assert_eq!(response(&passed_on).as_ref(), &[8, 0, 0, 0, 0, 0, 0, 0][..]);
}

#[test]
fn request_frames_are_length_prefixed() {
    let command = Command::GetClient(GetClient { client_id: 5 });
    let frame = request(&command);
    assert_eq!(frame.as_ref(), &[8, 0, 0, 0, 21, 0, 0, 0, 5, 0, 0, 0][..]);
    assert_eq!(read_request(frame.clone()), Ok(command));
    assert_eq!(read_request(frame.slice(..11)), Err(IggyError::InvalidCommand));
    let mut longer = frame.to_vec();
    longer.push(0);
    assert_eq!(read_request(Bytes::from(longer)), Err(IggyError::InvalidCommand));
    assert_eq!(read_request(Bytes::from_static(&[0, 0, 0])), Err(IggyError::InvalidCommand));
    assert_eq!(read_request(Bytes::from_static(&[0, 0, 0, 0])), Err(IggyError::InvalidCommand));
    let ping = request(&Command::Ping(Ping {}));
    assert_eq!(ping.as_ref(), &[4, 0, 0, 0, 1, 0, 0, 0][..]);
    assert_eq!(read_request(ping), Ok(Command::Ping(Ping {})));
}

#[test]
fn the_router_sends_commands_to_their_shards() {
    assert_eq!(ShardRouter::new(0).err(), Some(IggyError::InvalidConfiguration));
    let mut router = ShardRouter::new(4).unwrap();
    let by_number = Command::GetStream(GetStream { stream_id: num(6) });
    assert_eq!(router.route(&by_number, 3), Ok(2));
    let by_name =
        Command::GetStream(GetStream { stream_id: Identifier::named("orders").unwrap() });
    assert_eq!(router.route(&by_name, 3), Err(IggyError::NotFound));
    router.learn_stream(&text("orders"), 7);
    assert_eq!(router.route(&by_name, 3), Ok(3));
    router.learn_stream(&text("orders"), 9);
    assert_eq!(router.route(&by_name, 3), Ok(1));
    assert_eq!(router.names.len(), 1);
    router.forget_stream(&text("orders"));
    assert_eq!(router.route(&by_name, 3), Err(IggyError::NotFound));
    let create = Command::CreateStream(CreateStream { stream_id: Some(5), name: text("s") });
    assert_eq!(router.route(&create, 3), Ok(1));
    let auto = Command::CreateStream(CreateStream { stream_id: None, name: text("s") });
    assert_eq!(router.route(&auto, 3), Ok(0));
    assert_eq!(router.route(&Command::GetStats(GetStats {}), 3), Ok(0));
    assert_eq!(router.route(&Command::GetUsers(GetUsers {}), 3), Ok(0));
    assert_eq!(router.route(&Command::Ping(Ping {}), 3), Ok(3));
    assert_eq!(router.route(&Command::GetMe(GetMe {}), 2), Ok(2));
    let client = Command::GetClient(GetClient { client_id: 11 });
    assert_eq!(router.route(&client, 3), Err(IggyError::NotFound));
    assert_eq!(router.learn_client(11, 4), Err(IggyError::InvalidConfiguration));
    assert_eq!(router.learn_client(11, 2), Ok(()));
    assert_eq!(router.route(&client, 3), Ok(2));
    assert_eq!(router.learn_client(11, 1), Ok(()));
    assert_eq!(router.route(&client, 3), Ok(1));
    let send = Command::SendMessages(SendMessages {
        stream_id: num(10),
        topic_id: num(1),
        partitioning: Partitioning::balanced(),
        messages: vec![AppendableMessage { id: 1, headers: None, payload: text("x") }],
    });
    assert_eq!(router.route(&send, 0), Ok(2));
}

#[test]
fn the_tcp_server_is_named_after_its_transport() {
    assert_eq!(server_name(true), "Iggy TCP TLS");
    assert_eq!(server_name(false), "Iggy TCP");
}
