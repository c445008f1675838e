use bytes::{BufMut, Bytes, BytesMut};
use iggy::consumer_groups::GetConsumerGroup;
use iggy::error::IggyError;
use iggy::identifier::Identifier;
use iggy::system::GetClients;

#[test]
fn should_be_serialized_as_bytes() {
    let command = GetConsumerGroup {
        stream_id: Identifier::numeric(1).unwrap(),
        topic_id: Identifier::numeric(2).unwrap(),
        group_id: Identifier::numeric(3).unwrap(),
    };

    let bytes = command.as_bytes();
    let mut position = 0;
    let stream_id = Identifier::from_bytes(bytes.clone()).unwrap();
    position += stream_id.get_size_bytes() as usize;
    let topic_id = Identifier::from_bytes(bytes.slice(position..)).unwrap();
    position += topic_id.get_size_bytes() as usize;
    let group_id = Identifier::from_bytes(bytes.slice(position..)).unwrap();

    assert!(!bytes.is_empty());
    assert_eq!(stream_id, command.stream_id);
    assert_eq!(topic_id, command.topic_id);
    assert_eq!(group_id, command.group_id);
}

#[test]
fn should_be_deserialized_from_bytes() {
    let stream_id = Identifier::numeric(1).unwrap();
    let topic_id = Identifier::numeric(2).unwrap();
    let group_id = Identifier::numeric(3).unwrap();
    let stream_id_bytes = stream_id.as_bytes();
    let topic_id_bytes = topic_id.as_bytes();
    let group_id_bytes = group_id.as_bytes();
    let mut bytes = BytesMut::with_capacity(
        stream_id_bytes.len() + topic_id_bytes.len() + group_id_bytes.len(),
    );
    bytes.put_slice(&stream_id_bytes);
    bytes.put_slice(&topic_id_bytes);
    bytes.put_slice(&group_id_bytes);
    let command = GetConsumerGroup::from_bytes(bytes.freeze());
    assert!(command.is_ok());

    let command = command.unwrap();
    assert_eq!(command.stream_id, stream_id);
    assert_eq!(command.topic_id, topic_id);
    assert_eq!(command.group_id, group_id);
}

#[test]
fn should_be_serialized_as_empty_bytes() {
    let command = GetClients {};
    let bytes = command.as_bytes();
    assert!(bytes.is_empty());
}

#[test]
fn should_be_deserialized_from_empty_bytes() {
    let command = GetClients::from_bytes(Bytes::new());
    assert!(command.is_ok());
}

#[test]
fn should_not_be_deserialized_from_empty_bytes() {
    let command = GetClients::from_bytes(Bytes::from_static(&[0]));
    assert!(command.is_err());
}

#[test]
fn get_consumer_group_has_the_documented_bytes() {
    let command = GetConsumerGroup {
        stream_id: Identifier::numeric(1).unwrap(),
        topic_id: Identifier::numeric(2).unwrap(),
        group_id: Identifier::numeric(3).unwrap(),
    };
    let bytes = command.as_bytes();
    assert_eq!(
        bytes.as_ref(),
        &[1u8, 4, 1, 0, 0, 0, 1, 4, 2, 0, 0, 0, 1, 4, 3, 0, 0, 0][..]
    );
    let decoded = GetConsumerGroup::from_bytes(bytes).unwrap();
    assert_eq!(decoded, command);
}

#[test]
fn get_clients_rejects_a_single_zero_byte() {
    assert_eq!(
        GetClients::from_bytes(Bytes::from_static(&[0x00])),
        Err(IggyError::InvalidCommand)
    );
}

#[test]
fn numeric_identifier_round_trips() {
    for value in [0u32, 1, 255, 256, 65535, 65536, 0x01020304, u32::MAX] {
        let id = Identifier::numeric(value).unwrap();
        assert_eq!(id.get_u32_value(), Ok(value));
        assert_eq!(id.get_size_bytes(), 6);
        let bytes = id.as_bytes();
        assert_eq!(bytes.len(), 6);
        assert_eq!(&bytes[..2], &[1, 4]);
        assert_eq!(&bytes[2..], &value.to_le_bytes());
        let (decoded, consumed) = Identifier::decode(&bytes).unwrap();
        assert_eq!(decoded, id);
        assert_eq!(consumed, 6);
    }
}

#[test]
fn named_identifier_round_trips() {
    for length in [1usize, 2, 100, 255] {
        let raw: Vec<u8> = (0..length).map(|i| (i % 251) as u8 + 1).collect();
        let id = Identifier::named_bytes(&raw).unwrap();
        assert_eq!(id.length() as usize, length);
        assert_eq!(id.value(), &raw[..]);
        assert_eq!(id.get_u32_value(), Err(IggyError::InvalidCommand));
        let bytes = id.as_bytes();
        assert_eq!(bytes.len(), length + 2);
        assert_eq!(bytes[0], 2);
        assert_eq!(bytes[1] as usize, length);
        assert_eq!(Identifier::from_bytes(bytes), Ok(id));
    }
    let id = Identifier::named("orders").unwrap();
    assert_eq!(id.as_bytes().as_ref(), &[2, 6, b'o', b'r', b'd', b'e', b'r', b's'][..]);
}

#[test]
fn identifier_names_have_one_to_255_bytes() {
    assert_eq!(Identifier::named(""), Err(IggyError::InvalidCommand));
    assert_eq!(Identifier::named_bytes(&[b'x'; 256]), Err(IggyError::InvalidCommand));
    assert!(Identifier::named_bytes(&[b'x'; 255]).is_ok());
}

#[test]
fn identifier_names_are_case_and_space_sensitive() {
    let lower = Identifier::named("a").unwrap();
    let upper = Identifier::named("A").unwrap();
    let spaced = Identifier::named(" a ").unwrap();
    assert!(!lower.equals(&upper));
    assert!(!lower.equals(&spaced));
    assert!(lower.equals(&lower.clone()));
    assert_eq!(Identifier::from_bytes(spaced.as_bytes()), Ok(spaced));
    assert!(!Identifier::numeric(1).unwrap().equals(&Identifier::named_bytes(&[1, 0, 0, 0]).unwrap()));
}

#[test]
fn identifier_decode_trims_trailing_nul() {
    let wire = Bytes::from_static(&[2, 4, b'a', b'b', 0, 0, 9]);
    let (id, consumed) = Identifier::decode(&wire).unwrap();
    assert_eq!(id, Identifier::named("ab").unwrap());
    assert_eq!(consumed, 6);
    assert_eq!(id.get_size_bytes(), 4);
    // A name of NUL bytes only is no name at all.
    assert_eq!(
        Identifier::from_bytes(Bytes::from_static(&[2, 2, 0, 0])),
        Err(IggyError::InvalidCommand)
    );
    // NUL bytes inside or in front of a name stay.
    let inner = Bytes::from_static(&[2, 3, 0, b'a', b'b']);
    assert_eq!(Identifier::from_bytes(inner), Identifier::named_bytes(&[0, b'a', b'b']));
}

#[test]
fn identifier_decode_rejects_broken_input() {
    for wire in [
        &[][..],
        &[1][..],
        &[1, 4][..],
        &[1, 4, 1, 0, 0][..],
        &[0, 4, 1, 0, 0, 0][..],
        &[3, 4, 1, 0, 0, 0][..],
        &[1, 0][..],
        &[2, 0][..],
        &[1, 3, 1, 0, 0][..],
        &[1, 5, 1, 0, 0, 0, 0][..],
        &[2, 3, b'a', b'b'][..],
    ] {
        assert_eq!(
            Identifier::from_bytes(Bytes::copy_from_slice(wire)),
            Err(IggyError::InvalidCommand),
            "{:?}",
            wire
        );
    }
}

#[test]
fn truncated_identifier_is_invalid() {
    for id in [Identifier::numeric(77).unwrap(), Identifier::named("stream").unwrap()] {
        let bytes = id.as_bytes();
        for cut in 0..bytes.len() {
            assert_eq!(
                Identifier::from_bytes(bytes.slice(..cut)),
                Err(IggyError::InvalidCommand)
            );
        }
    }
}

#[test]
fn error_codes_are_dense_and_stable() {
    let kinds = [
        IggyError::InvalidCommand,
        IggyError::Unauthenticated,
        IggyError::Unauthorized,
        IggyError::NotFound,
        IggyError::AlreadyExists,
        IggyError::InvalidConfiguration,
        IggyError::ResourceBusy,
        IggyError::StorageFailure,
        IggyError::Internal,
    ];
    for (i, kind) in kinds.iter().enumerate() {
        assert_eq!(kind.as_code(), i as u32 + 1);
        assert_eq!(IggyError::from_code(i as u32 + 1), Some(*kind));
    }
    assert_eq!(IggyError::from_code(0), None);
    assert_eq!(IggyError::from_code(10), None);
    assert_eq!(IggyError::StorageFailure.as_str(), "storage_failure");
    assert_eq!(IggyError::Internal.as_str(), "internal");
}

#[test]
fn the_default_identifier_is_the_number_one() {
    let id = Identifier::default();
    assert_eq!(id, Identifier::numeric(1).unwrap());
    assert_eq!(id.validate(), Ok(()));
    let command = GetConsumerGroup::default();
    assert_eq!(command.stream_id, id);
    assert_eq!(command.as_bytes().len(), 18);
}
