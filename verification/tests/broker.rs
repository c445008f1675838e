use iggy::consumer::{Consumer, ConsumerKind};
use iggy::error::IggyError;
use iggy::identifier::Identifier;
use iggy::messages::AppendableMessage;
use iggy::partitioning::Partitioning;
use iggy::permissions::{Action, Permissions};
use iggy::polling::{PollingKind, PollingStrategy};
use iggy::shard::messages::PollingArgs;
use iggy::shard::IggyShard;
use iggy::streaming::consumer_group::ConsumerGroup;
use iggy::streaming::partition::Partition;
use iggy::streaming::polling_consumer::PollingConsumer;
use iggy::streaming::session::Session;
use iggy::streaming::topic::{hash_key, Topic};
use iggy::topics::CompressionAlgorithm;
use iggy::users::UserStatus;

fn num(n: u32) -> Identifier {
    Identifier::numeric(n).unwrap()
}

fn name(s: &str) -> Identifier {
    Identifier::named(s).unwrap()
}

fn text(s: &str) -> Vec<u8> {
    s.as_bytes().to_vec()
}

fn message(id: u128, payload: &str) -> AppendableMessage {
    AppendableMessage { id, headers: None, payload: text(payload) }
}

/// A broker with a root user, and the session of that user.
fn broker() -> (IggyShard, Session) {
    let mut shard = IggyShard::new(0);
    assert_eq!(shard.create_root_user(&text("root"), &text("secret")), Ok(1));
    let mut session = shard.add_client().unwrap();
    assert_eq!(shard.login_user(&text("root"), &text("secret"), &mut session), Ok(1));
    (shard, session)
}

fn topic_with(shard: &mut IggyShard, session: &Session, partitions: u32) {
    assert_eq!(shard.create_stream(session, None, &text("s")), Ok(1));
    assert_eq!(
        shard.create_topic(
            session,
            &num(1),
            None,
            &text("t"),
            partitions,
            None,
            CompressionAlgorithm::Plain,
            None,
            1
        ),
        Ok(1)
    );
}

#[test]
fn create_stream_assigns_one_then_refuses_the_same_name() {
    let (mut shard, session) = broker();
    assert_eq!(shard.create_stream(&session, None, &text("s")), Ok(1));
    assert_eq!(shard.create_stream(&session, None, &text("s")), Err(IggyError::AlreadyExists));
    assert_eq!(shard.streams.len(), 1);
    assert_eq!(shard.streams[0].id, 1);
    assert_eq!(shard.streams[0].name, text("s"));
    assert!(shard.streams[0].topics.is_empty());
}

#[test]
fn create_stream_picks_the_next_id_and_refuses_taken_ids() {
    let (mut shard, session) = broker();
    assert_eq!(shard.create_stream(&session, Some(7), &text("a")), Ok(7));
    assert_eq!(shard.create_stream(&session, None, &text("b")), Ok(8));
    assert_eq!(shard.create_stream(&session, Some(7), &text("c")), Err(IggyError::AlreadyExists));
    assert_eq!(shard.create_stream(&session, Some(3), &text("c")), Ok(3));
    assert_eq!(shard.create_stream(&session, None, &text("d")), Ok(9));
    assert_eq!(shard.create_stream(&session, Some(u32::MAX), &text("e")), Ok(u32::MAX));
    assert_eq!(shard.create_stream(&session, None, &text("f")), Err(IggyError::ResourceBusy));
    assert_eq!(shard.streams.len(), 5);
}

#[test]
fn deleting_a_stream_twice_reports_not_found_and_changes_nothing() {
    let (mut shard, session) = broker();
    assert_eq!(shard.create_stream(&session, None, &text("a")), Ok(1));
    assert_eq!(shard.create_stream(&session, None, &text("b")), Ok(2));
    assert_eq!(shard.delete_stream(&session, &num(1)), Ok(()));
    assert_eq!(shard.streams.len(), 1);
    assert_eq!(shard.streams[0].id, 2);
    assert_eq!(shard.delete_stream(&session, &num(1)), Err(IggyError::NotFound));
    assert_eq!(shard.delete_stream(&session, &name("a")), Err(IggyError::NotFound));
    assert_eq!(shard.streams.len(), 1);
    assert_eq!(shard.streams[0].id, 2);
    assert_eq!(shard.streams[0].name, text("b"));
    assert_eq!(shard.delete_stream(&session, &name("b")), Ok(()));
    assert!(shard.streams.is_empty());
}

#[test]
fn create_topic_refuses_bad_configuration() {
    let (mut shard, session) = broker();
    assert_eq!(shard.create_stream(&session, None, &text("s")), Ok(1));
    let plain = CompressionAlgorithm::Plain;
    assert_eq!(
        shard.create_topic(&session, &num(1), None, &text("t"), 0, None, plain, None, 1),
        Err(IggyError::InvalidConfiguration)
    );
    assert_eq!(
        shard.create_topic(&session, &num(1), None, &text("t"), 1, None, plain, None, 2),
        Err(IggyError::InvalidConfiguration)
    );
    assert_eq!(
        shard.create_topic(&session, &num(1), None, &text("t"), 1, None, plain, None, 0),
        Err(IggyError::InvalidConfiguration)
    );
    assert!(shard.streams[0].topics.is_empty());
    assert_eq!(
        shard.create_topic(&session, &num(1), None, &text("t"), 3, Some(60), plain, Some(9), 1),
        Ok(1)
    );
    assert_eq!(
        shard.create_topic(&session, &num(1), None, &text("t"), 3, None, plain, None, 1),
        Err(IggyError::AlreadyExists)
    );
    assert_eq!(
        shard.create_topic(&session, &num(2), None, &text("u"), 3, None, plain, None, 1),
        Err(IggyError::NotFound)
    );
    let topic = &shard.streams[0].topics[0];
    assert_eq!(topic.partitions.len(), 3);
    assert_eq!(topic.partitions[2].id, 3);
    assert_eq!(topic.message_expiry, Some(60));
    assert_eq!(topic.max_topic_size, Some(9));
}

#[test]
fn balanced_appends_go_round_the_partitions() {
    let (mut shard, session) = broker();
    topic_with(&mut shard, &session, 4);
    for i in 0..100u32 {
        let batch = vec![message(i as u128, "m")];
        let placed = shard.append_messages(
            &session,
            &num(1),
            &name("t"),
            &Partitioning::balanced(),
            &batch,
            1000 + i as u64,
        );
        assert_eq!(placed, Ok((i % 4 + 1, (i / 4) as u64)));
    }
    let topic = &shard.streams[0].topics[0];
    for (index, partition) in topic.partitions.iter().enumerate() {
        assert_eq!(partition.messages.len(), 25);
        for (offset, stored) in partition.messages.iter().enumerate() {
            assert_eq!(stored.offset, offset as u64);
            assert_eq!(stored.id, (offset * 4 + index) as u128);
            assert_eq!(stored.timestamp, 1000 + (offset * 4 + index) as u64);
        }
    }
}

#[test]
fn a_batch_is_appended_in_order_with_contiguous_offsets() {
    let (mut shard, session) = broker();
    topic_with(&mut shard, &session, 2);
    let first = vec![message(10, "a"), message(11, "b"), message(12, "c")];
    let second = vec![
        AppendableMessage { id: 13, headers: Some(text("h")), payload: text("d") },
        message(14, "e"),
    ];
    let by_id = Partitioning::partition_id(2);
    assert_eq!(shard.append_messages(&session, &num(1), &num(1), &by_id, &first, 5), Ok((2, 0)));
    assert_eq!(shard.append_messages(&session, &num(1), &num(1), &by_id, &second, 6), Ok((2, 3)));
    let partition = &shard.streams[0].topics[0].partitions[1];
    let ids: Vec<u128> = partition.messages.iter().map(|m| m.id).collect();
    let offsets: Vec<u64> = partition.messages.iter().map(|m| m.offset).collect();
    assert_eq!(ids, vec![10, 11, 12, 13, 14]);
    assert_eq!(offsets, vec![0, 1, 2, 3, 4]);
    assert_eq!(partition.messages[3].headers, Some(text("h")));
    assert_eq!(partition.messages[3].payload, text("d"));
    assert_eq!(partition.messages[3].timestamp, 6);
    assert!(shard.streams[0].topics[0].partitions[0].messages.is_empty());
    assert_eq!(
        shard.append_messages(&session, &num(1), &num(1), &Partitioning::partition_id(3), &first, 7),
        Err(IggyError::NotFound)
    );
    assert_eq!(
        shard.append_messages(&session, &num(1), &num(1), &Partitioning::partition_id(0), &first, 7),
        Err(IggyError::NotFound)
    );
    assert_eq!(shard.streams[0].topics[0].partitions[1].messages.len(), 5);
}

#[test]
fn a_messages_key_selects_the_partition_by_its_hash() {
    assert_eq!(hash_key(b""), 5381);
    assert_eq!(hash_key(b"a"), 177670);
    assert_eq!(hash_key(b"ab"), 5863208);
    let (mut shard, session) = broker();
    topic_with(&mut shard, &session, 3);
    let key = Partitioning::messages_key(b"ab").unwrap();
    let batch = vec![message(1, "x")];
    let expected = 5863208 % 3 + 1;
    assert_eq!(shard.append_messages(&session, &num(1), &num(1), &key, &batch, 0), Ok((expected, 0)));
    assert_eq!(shard.append_messages(&session, &num(1), &num(1), &key, &batch, 0), Ok((expected, 1)));
    let broken = Partitioning { kind: key.kind, length: 9, value: text("ab") };
    assert_eq!(
        shard.append_messages(&session, &num(1), &num(1), &broken, &batch, 0),
        Err(IggyError::InvalidCommand)
    );
}

#[test]
fn three_members_share_five_partitions() {
    let mut group = ConsumerGroup::new(1, text("g"), 5);
    group.join(20);
    group.join(10);
    group.join(30);
    assert_eq!(group.members, vec![10, 20, 30]);
    assert_eq!(group.assigned_partitions(10), Some(vec![0, 1]));
    assert_eq!(group.assigned_partitions(20), Some(vec![2, 3]));
    assert_eq!(group.assigned_partitions(30), Some(vec![4]));
    assert_eq!(group.assigned_partitions(40), None);
    assert_eq!(group.leave(20), Ok(()));
    assert_eq!(group.members, vec![10, 30]);
    assert_eq!(group.assigned_partitions(10), Some(vec![0, 1, 2]));
    assert_eq!(group.assigned_partitions(30), Some(vec![3, 4]));
    assert_eq!(group.assigned_partitions(20), None);
    assert_eq!(group.leave(20), Err(IggyError::NotFound));
    group.join(10);
    assert_eq!(group.members, vec![10, 30]);
    assert!(group.is_assigned(10, 2));
    assert!(!group.is_assigned(10, 3));
    assert!(!group.is_assigned(20, 0));
    assert_eq!(group.first_assigned(30), Some(3));
}

#[test]
fn every_assignment_is_a_partition_of_the_partitions() {
    for partitions in 0..12u32 {
        let mut group = ConsumerGroup::new(1, text("g"), partitions);
        for member in 1..=7u32 {
            group.join(member * 3);
            let mut seen = vec![0u32; partitions as usize];
            let mut sizes = Vec::new();
            for &m in &group.members {
                let assigned = group.assigned_partitions(m).unwrap();
                sizes.push(assigned.len());
                for p in assigned {
                    seen[p as usize] += 1;
                }
            }
            assert!(seen.iter().all(|&n| n == 1));
            let largest = *sizes.iter().max().unwrap();
            let smallest = *sizes.iter().min().unwrap();
            assert!(largest - smallest <= 1);
            assert!(sizes.windows(2).all(|w| w[0] >= w[1]));
        }
        assert_eq!(group.leave(9), Ok(()));
        let total: usize =
            group.members.iter().map(|&m| group.assigned_partitions(m).unwrap().len()).sum();
        assert_eq!(total, partitions as usize);
    }
    let mut more_members = ConsumerGroup::new(1, text("g"), 1);
    more_members.join(1);
    more_members.join(2);
    assert_eq!(more_members.assigned_partitions(2), Some(vec![]));
    assert_eq!(more_members.first_assigned(2), None);
}

#[test]
fn group_membership_through_the_shard() {
    let (mut shard, root) = broker();
    topic_with(&mut shard, &root, 5);
    assert_eq!(shard.create_consumer_group(&root, &num(1), &num(1), None, &text("g")), Ok(1));
    assert_eq!(
        shard.create_consumer_group(&root, &num(1), &num(1), Some(1), &text("h")),
        Err(IggyError::AlreadyExists)
    );
    assert_eq!(
        shard.create_consumer_group(&root, &num(1), &num(1), None, &text("g")),
        Err(IggyError::AlreadyExists)
    );
    assert_eq!(shard.join_consumer_group(&root, &num(1), &num(1), &name("g")), Ok(()));
    assert_eq!(
        shard.join_consumer_group(&root, &num(1), &num(1), &name("x")),
        Err(IggyError::NotFound)
    );
    assert_eq!(shard.get_consumer_group(&root, &num(1), &num(1), &num(1)), Ok((0, 0, 0)));
    let group = &shard.streams[0].topics[0].groups[0];
    assert_eq!(group.members, vec![root.client_id]);
    assert_eq!(group.partitions_count, 5);
    assert_eq!(shard.create_partitions(&root, &num(1), &num(1), 2), Ok(()));
    assert_eq!(shard.streams[0].topics[0].groups[0].partitions_count, 7);
    assert_eq!(shard.delete_partitions(&root, &num(1), &num(1), 6), Ok(()));
    assert_eq!(shard.streams[0].topics[0].groups[0].partitions_count, 1);
    assert_eq!(
        shard.delete_partitions(&root, &num(1), &num(1), 2),
        Err(IggyError::InvalidConfiguration)
    );
    assert_eq!(
        shard.create_partitions(&root, &num(1), &num(1), 0),
        Err(IggyError::InvalidConfiguration)
    );
    assert_eq!(shard.leave_consumer_group(&root, &num(1), &num(1), &num(1)), Ok(()));
    assert_eq!(
        shard.leave_consumer_group(&root, &num(1), &num(1), &num(1)),
        Err(IggyError::NotFound)
    );
    assert_eq!(shard.delete_consumer_group(&root, &num(1), &num(1), &name("g")), Ok(()));
    assert_eq!(
        shard.delete_consumer_group(&root, &num(1), &num(1), &name("g")),
        Err(IggyError::NotFound)
    );
}

#[test]
fn polling_strategies_select_the_start() {
    let mut partition = Partition::new(1);
    let batch: Vec<AppendableMessage> = (0..10).map(|i| message(i, "m")).collect();
    for (i, one) in batch.iter().enumerate() {
        assert_eq!(partition.append(&vec![one.clone()], 100 + 10 * i as u64), i as u64);
    }
    let reader = Consumer { kind: ConsumerKind::Consumer, id: 1 };
    let at = |kind, value| PollingStrategy { kind, value };
    assert_eq!(partition.resolve_start(reader, at(PollingKind::Offset, 4), 3), 4);
    assert_eq!(partition.resolve_start(reader, at(PollingKind::First, 9), 3), 0);
    assert_eq!(partition.resolve_start(reader, at(PollingKind::Last, 0), 3), 7);
    assert_eq!(partition.resolve_start(reader, at(PollingKind::Last, 0), 30), 0);
    assert_eq!(partition.resolve_start(reader, at(PollingKind::Timestamp, 125), 3), 3);
    assert_eq!(partition.resolve_start(reader, at(PollingKind::Timestamp, 130), 3), 3);
    assert_eq!(partition.resolve_start(reader, at(PollingKind::Timestamp, 0), 3), 0);
    assert_eq!(partition.resolve_start(reader, at(PollingKind::Timestamp, 999), 3), 10);
    assert_eq!(partition.resolve_start(reader, at(PollingKind::Next, 0), 3), 0);
    partition.store_offset(reader, 6);
    assert_eq!(partition.resolve_start(reader, at(PollingKind::Next, 0), 3), 6);
    assert_eq!(partition.get_offset(reader), Some(6));
    partition.store_offset(reader, 8);
    assert_eq!(partition.get_offset(reader), Some(8));
    assert_eq!(partition.offsets.len(), 1);
    let other = Consumer { kind: ConsumerKind::ConsumerGroup, id: 1 };
    assert_eq!(partition.get_offset(other), None);

    let got: Vec<u64> = partition.poll(7, 5).iter().map(|m| m.offset).collect();
    assert_eq!(got, vec![7, 8, 9]);
    let got: Vec<u64> = partition.poll(2, 2).iter().map(|m| m.offset).collect();
    assert_eq!(got, vec![2, 3]);
    assert!(partition.poll(10, 5).is_empty());
    assert!(partition.poll(3, 0).is_empty());
    assert_eq!(partition.next_offset(), 10);
    partition.purge();
    assert_eq!(partition.next_offset(), 0);
    assert_eq!(partition.get_offset(reader), None);
}

#[test]
fn auto_commit_stores_the_offset_after_the_last_message() {
    let (mut shard, session) = broker();
    topic_with(&mut shard, &session, 1);
    let batch: Vec<AppendableMessage> = (0..5).map(|i| message(i, "m")).collect();
    let balanced = Partitioning::balanced();
    assert_eq!(shard.append_messages(&session, &num(1), &num(1), &balanced, &batch, 1), Ok((1, 0)));
    let reader = PollingConsumer::Consumer { consumer_id: 9, partition_id: 1 };
    let next = PollingStrategy { kind: PollingKind::Next, value: 0 };
    let polled = shard
        .poll_messages(&session, reader, &num(1), &num(1), PollingArgs::new(next, 2, true))
        .unwrap();
    assert_eq!(polled.partition_id, 1);
    assert_eq!(polled.current_offset, 4);
    assert_eq!(polled.messages.iter().map(|m| m.offset).collect::<Vec<_>>(), vec![0, 1]);
    let info = shard.get_consumer_offset(&session, reader, &num(1), &num(1)).unwrap();
    assert_eq!((info.partition_id, info.current_offset, info.stored_offset), (1, 4, 2));
    let polled = shard
        .poll_messages(&session, reader, &num(1), &num(1), PollingArgs::new(next, 10, false))
        .unwrap();
    assert_eq!(polled.messages.iter().map(|m| m.offset).collect::<Vec<_>>(), vec![2, 3, 4]);
    let info = shard.get_consumer_offset(&session, reader, &num(1), &num(1)).unwrap();
    assert_eq!(info.stored_offset, 2);
    assert_eq!(shard.store_consumer_offset(&session, reader, &num(1), &num(1), 5), Ok(()));
    let polled = shard
        .poll_messages(&session, reader, &num(1), &num(1), PollingArgs::new(next, 10, true))
        .unwrap();
    assert!(polled.messages.is_empty());
    let info = shard.get_consumer_offset(&session, reader, &num(1), &num(1)).unwrap();
    assert_eq!(info.stored_offset, 5);
    let elsewhere = PollingConsumer::Consumer { consumer_id: 9, partition_id: 2 };
    assert_eq!(
        shard.get_consumer_offset(&session, elsewhere, &num(1), &num(1)),
        Err(IggyError::NotFound)
    );
}

#[test]
fn group_members_read_only_their_own_partitions() {
    let (mut shard, root) = broker();
    topic_with(&mut shard, &root, 4);
    assert_eq!(shard.create_consumer_group(&root, &num(1), &num(1), None, &text("g")), Ok(1));
    // A second client, logged in as root too.
    let mut second = shard.add_client().unwrap();
    assert_eq!(shard.login_user(&text("root"), &text("secret"), &mut second), Ok(1));
    assert_ne!(second.client_id, root.client_id);
    assert_eq!(shard.join_consumer_group(&root, &num(1), &num(1), &num(1)), Ok(()));
    assert_eq!(shard.join_consumer_group(&second, &num(1), &num(1), &num(1)), Ok(()));
    let first = PollingStrategy { kind: PollingKind::First, value: 0 };
    let args = PollingArgs::new(first, 1, false);
    let as_member = |session: &Session, partition_id| {
        PollingConsumer::from_consumer(
            Consumer { kind: ConsumerKind::ConsumerGroup, id: 1 },
            session.client_id,
            partition_id,
        )
    };
    // Members 1 and 2 hold partitions {1, 2} and {3, 4}.
    let own = shard.poll_messages(&root, as_member(&root, None), &num(1), &num(1), args).unwrap();
    assert_eq!(own.partition_id, 1);
    let own = shard
        .poll_messages(&second, as_member(&second, None), &num(1), &num(1), args)
        .unwrap();
    assert_eq!(own.partition_id, 3);
    let own = shard
        .poll_messages(&second, as_member(&second, Some(4)), &num(1), &num(1), args)
        .unwrap();
    assert_eq!(own.partition_id, 4);
    assert_eq!(
        shard.poll_messages(&second, as_member(&second, Some(1)), &num(1), &num(1), args).err(),
        Some(IggyError::Unauthorized)
    );
    assert_eq!(shard.leave_consumer_group(&second, &num(1), &num(1), &num(1)), Ok(()));
    assert_eq!(
        shard.poll_messages(&second, as_member(&second, None), &num(1), &num(1), args).err(),
        Some(IggyError::Unauthorized)
    );
    let missing = PollingConsumer::ConsumerGroup { group_id: 5, member_id: 1, partition_id: None };
    assert_eq!(
        shard.poll_messages(&root, missing, &num(1), &num(1), args).err(),
        Some(IggyError::NotFound)
    );
}

#[test]
fn operations_need_a_login_and_a_permission() {
    let (mut shard, root) = broker();
    let anonymous = shard.add_client().unwrap();
    assert!(!anonymous.is_authenticated());
    assert_eq!(
        shard.create_stream(&anonymous, None, &text("s")),
        Err(IggyError::Unauthenticated)
    );
    let reader = Permissions { read_streams: true, ..Permissions::none() };
    assert_eq!(
        shard.create_user(&root, &text("reader"), &text("pw"), UserStatus::Active, Some(reader)),
        Ok(2)
    );
    let mut session = shard.add_client().unwrap();
    assert_eq!(shard.login_user(&text("reader"), &text("pw"), &mut session), Ok(2));
    assert_eq!(session.user_id, Some(2));
    assert_eq!(session.permissions, Some(reader));
    assert_eq!(shard.create_stream(&session, None, &text("s")), Err(IggyError::Unauthorized));
    assert_eq!(shard.get_streams(&session), Ok(()));
    assert_eq!(shard.get_users(&session), Err(IggyError::Unauthorized));
    assert_eq!(session.authorize(Some(Action::ReadStreams)), Ok(()));
    assert_eq!(session.authorize(Some(Action::SendMessages)), Err(IggyError::Unauthorized));
    assert_eq!(session.authorize(None), Ok(()));
    assert!(shard.streams.is_empty());
    // Managing includes reading.
    let manager = Permissions { manage_topics: true, ..Permissions::none() };
    assert!(manager.can(Action::ReadTopics));
    assert!(!manager.can(Action::ReadStreams));
    assert!(Permissions::all().can(Action::ManageServers));
    assert!(!Permissions::none().can(Action::PollMessages));
}

#[test]
fn logins_need_the_right_credentials() {
    let (mut shard, root) = broker();
    assert_eq!(
        shard.create_user(&root, &text("u"), &text("pw"), UserStatus::Inactive, None),
        Ok(2)
    );
    assert_eq!(
        shard.create_user(&root, &text("u"), &text("pw"), UserStatus::Active, None),
        Err(IggyError::AlreadyExists)
    );
    let mut session = shard.add_client().unwrap();
    assert_eq!(
        shard.login_user(&text("nobody"), &text("pw"), &mut session),
        Err(IggyError::Unauthenticated)
    );
    assert_eq!(
        shard.login_user(&text("root"), &text("wrong"), &mut session),
        Err(IggyError::Unauthenticated)
    );
    assert_eq!(
        shard.login_user(&text("u"), &text("pw"), &mut session),
        Err(IggyError::Unauthenticated)
    );
    assert_eq!(session, Session::new(session.client_id));
    assert_eq!(shard.update_user(&root, &name("u"), &None, Some(UserStatus::Active)), Ok(()));
    assert_eq!(shard.login_user(&text("u"), &text("pw"), &mut session), Ok(2));
    assert_eq!(shard.clients.iter().find(|c| c.client_id == session.client_id).unwrap().user_id, Some(2));
    // A user may change its own password, given the current one.
    assert_eq!(
        shard.change_password(&session, &num(2), &text("nope"), &text("new")),
        Err(IggyError::Unauthenticated)
    );
    assert_eq!(
        shard.change_password(&session, &num(1), &text("secret"), &text("new")),
        Err(IggyError::Unauthorized)
    );
    assert_eq!(shard.change_password(&session, &num(2), &text("pw"), &text("new")), Ok(()));
    assert_eq!(shard.users[1].password, text("new"));
    assert_eq!(shard.logout_user(&session), Ok(()));
    session.clear_user_id();
    assert_eq!(shard.logout_user(&session), Err(IggyError::Unauthenticated));
    assert_eq!(shard.clients.iter().find(|c| c.client_id == session.client_id).unwrap().user_id, None);
    assert_eq!(shard.update_user(&root, &num(2), &Some(text("root")), None), Err(IggyError::AlreadyExists));
    assert_eq!(shard.update_user(&root, &num(2), &Some(text("v")), None), Ok(()));
    assert_eq!(shard.users[1].username, text("v"));
    assert_eq!(shard.update_permissions(&root, &name("v"), Some(Permissions::all())), Ok(()));
    assert_eq!(shard.users[1].permissions, Some(Permissions::all()));
    assert_eq!(shard.update_permissions(&root, &num(9), None), Err(IggyError::NotFound));
    assert_eq!(shard.create_root_user(&text("again"), &text("x")), Err(IggyError::AlreadyExists));
}

#[test]
fn personal_access_tokens_log_their_owner_in_until_they_expire() {
    let (mut shard, root) = broker();
    assert_eq!(
        shard.create_personal_access_token(&root, &text("ci"), Some(100), &text("s3cr3t"), 1000),
        Ok(())
    );
    assert_eq!(
        shard.create_personal_access_token(&root, &text("forever"), None, &text("0ther"), 1000),
        Ok(())
    );
    assert_eq!(
        shard.create_personal_access_token(&root, &text("ci"), None, &text("third"), 1000),
        Err(IggyError::AlreadyExists)
    );
    assert_eq!(
        shard.create_personal_access_token(&root, &text("dup"), None, &text("s3cr3t"), 1000),
        Err(IggyError::AlreadyExists)
    );
    assert_eq!(
        shard.create_personal_access_token(&root, &text("empty"), None, &Vec::new(), 1000),
        Err(IggyError::InvalidConfiguration)
    );
    assert_eq!(shard.tokens[0].expiry, Some(1100));
    assert_eq!(shard.tokens[1].expiry, None);
    assert_eq!(shard.get_personal_access_tokens(&root), Ok(1));
    let mut session = shard.add_client().unwrap();
    assert_eq!(
        shard.login_with_personal_access_token(&text("nope"), &mut session, 1001),
        Err(IggyError::Unauthenticated)
    );
    assert_eq!(shard.login_with_personal_access_token(&text("s3cr3t"), &mut session, 1099), Ok(1));
    assert!(session.is_authenticated());
    let mut late = shard.add_client().unwrap();
    assert_eq!(
        shard.login_with_personal_access_token(&text("s3cr3t"), &mut late, 1100),
        Err(IggyError::Unauthenticated)
    );
    assert_eq!(shard.login_with_personal_access_token(&text("0ther"), &mut late, u64::MAX), Ok(1));
    assert_eq!(shard.delete_personal_access_token(&root, &text("ci")), Ok(()));
    assert_eq!(shard.delete_personal_access_token(&root, &text("ci")), Err(IggyError::NotFound));
    assert_eq!(shard.tokens.len(), 1);
    // Deleting a user takes its tokens along.
    assert_eq!(shard.create_user(&root, &text("u"), &text("pw"), UserStatus::Active, None), Ok(2));
    let mut user = shard.add_client().unwrap();
    assert_eq!(shard.login_user(&text("u"), &text("pw"), &mut user), Ok(2));
    assert_eq!(shard.create_personal_access_token(&user, &text("a"), None, &text("aa"), 0), Ok(()));
    assert_eq!(shard.create_personal_access_token(&user, &text("b"), None, &text("bb"), 0), Ok(()));
    assert_eq!(shard.tokens.len(), 3);
    assert_eq!(shard.delete_user(&root, &name("u")), Ok(()));
    assert_eq!(shard.tokens.len(), 1);
    assert_eq!(shard.tokens[0].name, text("forever"));
    assert_eq!(shard.delete_user(&root, &name("u")), Err(IggyError::NotFound));
}

#[test]
fn streams_and_topics_can_be_renamed_and_purged() {
    let (mut shard, session) = broker();
    topic_with(&mut shard, &session, 2);
    assert_eq!(shard.create_stream(&session, None, &text("other")), Ok(2));
    assert_eq!(
        shard.update_stream(&session, &num(1), &text("other")),
        Err(IggyError::AlreadyExists)
    );
    assert_eq!(shard.update_stream(&session, &num(1), &text("s")), Ok(()));
    assert_eq!(shard.update_stream(&session, &name("s"), &text("renamed")), Ok(()));
    assert_eq!(shard.find_stream(&session, &name("renamed")), Ok(0));
    assert_eq!(shard.find_stream(&session, &name("s")), Err(IggyError::NotFound));
    let gzip = CompressionAlgorithm::Gzip;
    assert_eq!(
        shard.update_topic(&session, &num(1), &num(1), &text("t2"), Some(5), gzip, None, 2),
        Err(IggyError::InvalidConfiguration)
    );
    assert_eq!(
        shard.update_topic(&session, &num(1), &num(1), &text("t2"), Some(5), gzip, None, 1),
        Ok(())
    );
    assert_eq!(shard.find_topic(&session, &num(1), &name("t2")), Ok((0, 0)));
    assert_eq!(shard.find_topics(&session, &num(2)), Ok(1));
    let topic = &shard.streams[0].topics[0];
    assert_eq!(topic.compression_algorithm, gzip);
    assert_eq!(topic.message_expiry, Some(5));
    let batch = vec![message(1, "x")];
    let balanced = Partitioning::balanced();
    assert_eq!(shard.append_messages(&session, &num(1), &num(1), &balanced, &batch, 0), Ok((1, 0)));
    assert_eq!(shard.purge_topic(&session, &num(1), &num(1)), Ok(()));
    assert!(shard.streams[0].topics[0].partitions[0].messages.is_empty());
    assert_eq!(shard.append_messages(&session, &num(1), &num(1), &balanced, &batch, 0), Ok((2, 0)));
    assert_eq!(shard.purge_stream(&session, &num(1)), Ok(()));
    assert!(shard.streams[0].topics[0].partitions[1].messages.is_empty());
    assert_eq!(shard.streams[0].topics[0].partitions.len(), 2);
    assert_eq!(shard.delete_topic(&session, &num(1), &name("t2")), Ok(()));
    assert_eq!(shard.delete_topic(&session, &num(1), &name("t2")), Err(IggyError::NotFound));
    assert_eq!(shard.purge_stream(&session, &num(9)), Err(IggyError::NotFound));
}

#[test]
fn topic_partitions_are_numbered_from_one() {
    let mut topic = Topic::new(3, text("t"), 2, None, CompressionAlgorithm::Plain, None, 1);
    assert_eq!(topic.partitions.iter().map(|p| p.id).collect::<Vec<_>>(), vec![1, 2]);
    assert_eq!(topic.add_partitions(2), Ok(()));
    assert_eq!(topic.partitions.iter().map(|p| p.id).collect::<Vec<_>>(), vec![1, 2, 3, 4]);
    assert_eq!(topic.choose_partition(&Partitioning::partition_id(4)), Some(3));
    assert_eq!(topic.choose_partition(&Partitioning::partition_id(5)), None);
    assert_eq!(topic.remove_partitions(4), Ok(()));
    assert_eq!(topic.choose_partition(&Partitioning::balanced()), None);
    assert_eq!(
        topic.append_messages(&Partitioning::balanced(), &vec![message(1, "x")], 0),
        Err(IggyError::NotFound)
    );
}

#[test]
fn clients_come_and_go() {
    let mut shard = IggyShard::new(3);
    let first = shard.add_client().unwrap();
    let second = shard.add_client().unwrap();
    assert_eq!((first.client_id, second.client_id), (1, 2));
    assert_eq!(first, Session::new(1));
    assert_eq!(shard.delete_client(1), Ok(()));
    assert_eq!(shard.delete_client(1), Err(IggyError::NotFound));
    assert_eq!(shard.add_client().unwrap().client_id, 3);
    assert_eq!(shard.find_client(2), Some(0));
    assert_eq!(shard.id, 3);
}

#[test]
fn validity_can_be_tested_at_run_time() {
    let (mut shard, session) = broker();
    topic_with(&mut shard, &session, 3);
    assert_eq!(shard.create_consumer_group(&session, &num(1), &num(1), None, &text("g")), Ok(1));
    assert_eq!(shard.join_consumer_group(&session, &num(1), &num(1), &num(1)), Ok(()));
    let batch = vec![message(1, "x"), message(2, "y")];
    let balanced = Partitioning::balanced();
    assert_eq!(shard.append_messages(&session, &num(1), &num(1), &balanced, &batch, 0), Ok((1, 0)));
    assert!(shard.is_valid());
    assert!(session.is_valid());
    assert!(shard.streams[0].is_valid());
    assert!(shard.streams[0].topics[0].is_valid());
    assert!(shard.streams[0].topics[0].groups[0].is_valid());
    assert!(shard.streams[0].topics[0].partitions[0].is_valid());

    // Damage of each kind is found.
    shard.streams[0].topics[0].partitions[0].messages[1].offset = 5;
    assert!(!shard.is_valid());
    shard.streams[0].topics[0].partitions[0].messages[1].offset = 1;
    assert!(shard.is_valid());
    shard.streams[0].topics[0].partitions[2].id = 7;
    assert!(!shard.streams[0].topics[0].is_valid());
    shard.streams[0].topics[0].partitions[2].id = 3;
    shard.streams[0].topics[0].next_partition = 3;
    assert!(!shard.streams[0].is_valid());
    shard.streams[0].topics[0].next_partition = 0;
    shard.streams[0].topics[0].groups[0].partitions_count = 2;
    assert!(!shard.is_valid());
    shard.streams[0].topics[0].groups[0].partitions_count = 3;
    shard.streams[0].topics[0].groups[0].members = vec![2, 1];
    assert!(!shard.is_valid());
    shard.streams[0].topics[0].groups[0].members = vec![1, 2];
    assert!(shard.is_valid());
    let twin = shard.clients[0];
    shard.clients.push(twin);
    assert!(!shard.is_valid());
    shard.clients.pop();
    assert!(shard.is_valid());
    let broken = Session { authenticated: true, ..Session::new(1) };
    assert!(!broken.is_valid());
}
