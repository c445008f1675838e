use iggy::consumer::{Consumer, ConsumerKind};
use iggy::error::IggyError;
use iggy::identifier::Identifier;
use iggy::messages::AppendableMessage;
use iggy::partitioning::Partitioning;
use iggy::polling::{PollingKind, PollingStrategy};
use iggy::shard::messages::PollingArgs;
use iggy::shard::storage::StorageRequest;
use iggy::shard::IggyShard;
use iggy::streaming::polling_consumer::PollingConsumer;
use iggy::streaming::session::Session;
use iggy::topics::CompressionAlgorithm;

fn num(n: u32) -> Identifier {
    Identifier::numeric(n).unwrap()
}

fn text(s: &str) -> Vec<u8> {
    s.as_bytes().to_vec()
}

fn message(id: u128) -> AppendableMessage {
    AppendableMessage { id, headers: None, payload: text("m") }
}

fn broker() -> (IggyShard, Session) {
    let mut shard = IggyShard::new(0);
    shard.create_root_user(&text("root"), &text("secret")).unwrap();
    let mut session = shard.add_client().unwrap();
    shard.login_user(&text("root"), &text("secret"), &mut session).unwrap();
    (shard, session)
}

fn with_topic() -> (IggyShard, Session) {
    let (mut shard, session) = broker();
    assert_eq!(shard.create_stream(&session, Some(4), &text("s")), Ok(4));
    let plain = CompressionAlgorithm::Plain;
    assert_eq!(
        shard.create_topic(&session, &num(4), Some(6), &text("t"), 2, None, plain, None, 1),
        Ok(6)
    );
    assert_eq!(
        shard.take_storage_requests(),
        vec![StorageRequest::CreateStreamDir { stream_id: 4 }]
    );
    (shard, session)
}

#[test]
fn storage_is_asked_after_the_index_has_changed() {
    let (mut shard, session) = broker();
    assert!(shard.take_storage_requests().is_empty());
    assert_eq!(shard.create_stream(&session, None, &text("a")), Ok(1));
    assert_eq!(shard.create_stream(&session, None, &text("a")), Err(IggyError::AlreadyExists));
    assert_eq!(shard.create_stream(&session, None, &text("b")), Ok(2));
    assert_eq!(shard.delete_stream(&session, &num(1)), Ok(()));
    assert_eq!(shard.delete_stream(&session, &num(1)), Err(IggyError::NotFound));
    assert_eq!(
        shard.take_storage_requests(),
        vec![
            StorageRequest::CreateStreamDir { stream_id: 1 },
            StorageRequest::CreateStreamDir { stream_id: 2 },
            StorageRequest::DeleteStreamDir { stream_id: 1 },
        ]
    );
    assert!(shard.outbox.is_empty());
    assert!(shard.take_storage_requests().is_empty());
}

#[test]
fn a_failed_create_is_rolled_back() {
    let (mut shard, session) = broker();
    assert_eq!(shard.create_stream(&session, None, &text("keep")), Ok(1));
    assert_eq!(shard.create_stream(&session, None, &text("lose")), Ok(2));
    let requests = shard.take_storage_requests();
    shard.compensate(&requests[1]);
    assert_eq!(shard.streams.len(), 1);
    assert_eq!(shard.streams[0].name, text("keep"));
    shard.compensate(&requests[1]);
    assert_eq!(shard.streams.len(), 1);
    shard.compensate(&StorageRequest::DeleteStreamDir { stream_id: 1 });
    assert_eq!(shard.streams.len(), 1);
    assert!(shard.outbox.is_empty());
}

#[test]
fn a_failed_append_is_rolled_back() {
    let (mut shard, session) = with_topic();
    let to_second = Partitioning::partition_id(2);
    let first = vec![message(1), message(2)];
    let second = vec![message(3), message(4), message(5)];
    assert_eq!(shard.append_messages(&session, &num(4), &num(6), &to_second, &first, 9), Ok((2, 0)));
    assert_eq!(shard.append_messages(&session, &num(4), &num(6), &to_second, &second, 9), Ok((2, 2)));
    assert_eq!(
        shard.append_messages(&session, &num(4), &num(6), &Partitioning::partition_id(3), &second, 9),
        Err(IggyError::NotFound)
    );
    let requests = shard.take_storage_requests();
    assert_eq!(
        requests,
        vec![
            StorageRequest::Append {
                stream_id: 4,
                topic_id: 6,
                partition_id: 2,
                first_offset: 0,
                count: 2
            },
            StorageRequest::Append {
                stream_id: 4,
                topic_id: 6,
                partition_id: 2,
                first_offset: 2,
                count: 3
            },
        ]
    );
    // The first batch is no longer the last one: it stays.
    shard.compensate(&requests[0]);
    assert_eq!(shard.streams[0].topics[0].partitions[1].messages.len(), 5);
    shard.compensate(&requests[1]);
    let ids: Vec<u128> =
        shard.streams[0].topics[0].partitions[1].messages.iter().map(|m| m.id).collect();
    assert_eq!(ids, vec![1, 2]);
    shard.compensate(&requests[0]);
    assert!(shard.streams[0].topics[0].partitions[1].messages.is_empty());
    // Requests about what is gone change nothing.
    shard.compensate(&StorageRequest::Append {
        stream_id: 4,
        topic_id: 6,
        partition_id: 3,
        first_offset: 0,
        count: 0,
    });
    shard.compensate(&StorageRequest::Append {
        stream_id: 5,
        topic_id: 6,
        partition_id: 1,
        first_offset: 0,
        count: 0,
    });
    assert_eq!(shard.streams[0].topics[0].partitions.len(), 2);
}

#[test]
fn a_failed_offset_store_is_rolled_back() {
    let (mut shard, session) = with_topic();
    let batch: Vec<AppendableMessage> = (0..4).map(message).collect();
    let balanced = Partitioning::balanced();
    assert_eq!(shard.append_messages(&session, &num(4), &num(6), &balanced, &batch, 9), Ok((1, 0)));
    shard.take_storage_requests();
    let reader = PollingConsumer::Consumer { consumer_id: 3, partition_id: 1 };
    let key = Consumer { kind: ConsumerKind::Consumer, id: 3 };
    assert_eq!(shard.store_consumer_offset(&session, reader, &num(4), &num(6), 2), Ok(()));
    let next = PollingStrategy { kind: PollingKind::Next, value: 0 };
    let polled = shard
        .poll_messages(&session, reader, &num(4), &num(6), PollingArgs::new(next, 1, true))
        .unwrap();
    assert_eq!(polled.messages.len(), 1);
    // Nothing is committed where nothing is returned or asked for.
    shard.poll_messages(&session, reader, &num(4), &num(6), PollingArgs::new(next, 1, false)).unwrap();
    shard.poll_messages(&session, reader, &num(4), &num(6), PollingArgs::new(next, 0, true)).unwrap();
    let requests = shard.take_storage_requests();
    let store = |offset, previous| StorageRequest::StoreOffset {
        stream_id: 4,
        topic_id: 6,
        partition_id: 1,
        consumer: key,
        offset,
        previous,
    };
    assert_eq!(requests, vec![store(2, None), store(3, Some(2))]);
    let partition = |shard: &IggyShard| shard.streams[0].topics[0].partitions[0].get_offset(key);
    assert_eq!(partition(&shard), Some(3));
    shard.compensate(&requests[1]);
    assert_eq!(partition(&shard), Some(2));
    shard.compensate(&requests[0]);
    assert_eq!(partition(&shard), None);
    assert_eq!(
        shard.store_consumer_offset(
            &session,
            PollingConsumer::Consumer { consumer_id: 3, partition_id: 9 },
            &num(4),
            &num(6),
            2
        ),
        Err(IggyError::NotFound)
    );
    assert!(shard.take_storage_requests().is_empty());
    assert_eq!(shard.find_partition(4, 6, 2), Some((0, 0, 1)));
    assert_eq!(shard.find_partition(4, 6, 0), None);
    assert_eq!(shard.find_partition(4, 7, 1), None);
}
