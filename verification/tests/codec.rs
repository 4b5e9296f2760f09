use routing_core::authority::Authority;
use routing_core::data::{Data, DataKind, DataRequest, MessageId};
use routing_core::error::RoutingError;
use routing_core::id::{FullId, PublicId};
use routing_core::messages::{
    DirectMessage, HopMessage, Message, RequestContent, RequestMessage, ResponseContent,
    ResponseMessage, RoutingMessage, SignedMessage,
};
use routing_core::names::XorName;
use routing_core::parse::decode;
use routing_core::wire::{decode_public_id, encode, encode_public_id, encode_routing_message};

fn random_name() -> XorName {
    let mut bytes = [0u8; 64];
    for byte in bytes.iter_mut() {
        *byte = rand::random();
    }
    XorName(bytes)
}

fn sample_id(seed: u8) -> PublicId {
    PublicId {
        public_encrypt_key: [seed; 32],
        public_sign_key: [seed.wrapping_add(1); 32],
        name: XorName([seed.wrapping_add(2); 64]),
    }
}

fn hop_of(content: RoutingMessage) -> Message {
    let full_id = FullId::new();
    let signed = SignedMessage::new(content, &full_id);
    Message::HopMessage(HopMessage::new(signed, random_name(), &full_id.private_sign_key))
}

fn round_trip(message: Message) {
    let bytes = encode(&message);
    let decoded = decode(&bytes).expect("the encoding of a message decodes");
    assert_eq!(decoded, message);
    assert_eq!(encode(&decoded), bytes);
}

#[test]
fn encode_decode() {
    let name: XorName = random_name();
    let message = Message::HopMessage(HopMessage::new(
        SignedMessage::new(
            RoutingMessage::Request(RequestMessage {
                src: Authority::ManagedNode(name),
                dst: Authority::NodeManager(name),
                content: RequestContent::GetPublicId,
            }),
            &FullId::new(),
        ),
        name,
        &FullId::new().private_sign_key,
    ));
    let encoded = encode(&message);
    let decoded = match decode(&encoded) {
        Ok(decoded) => decoded,
        Err(_) => panic!("Unexpected deserialisation error."),
    };
    match decoded {
        Message::HopMessage(hop) => assert_eq!(name, hop.name),
        Message::DirectMessage(_) => panic!("Unexpected deserialisation error."),
    }
}

#[test]
fn every_request_round_trips() {
    let src = Authority::Client { client_key: [9u8; 32], proxy_node_name: random_name() };
    let dst = Authority::NaeManager(random_name());
    let data = Data { kind: DataKind::Structured, name: random_name(), payload: vec![1, 2, 3, 4, 5] };
    let id = MessageId([5u8; 64]);
    let contents = vec![
        RequestContent::GetNetworkName { current_id: sample_id(1) },
        RequestContent::ExpectCloseNode { expect_id: sample_id(2) },
        RequestContent::GetCloseGroup,
        RequestContent::Connect,
        RequestContent::Endpoints { encrypted_endpoints: vec![7; 40], nonce_bytes: [3u8; 24] },
        RequestContent::GetPublicId,
        RequestContent::GetPublicIdWithEndpoints { encrypted_endpoints: vec![], nonce_bytes: [4u8; 24] },
        RequestContent::Get(DataRequest { kind: DataKind::Immutable, name: random_name() }, id),
        RequestContent::Put(data.clone(), id),
        RequestContent::Post(data.clone(), id),
        RequestContent::Delete(data, id),
        RequestContent::Refresh(vec![0xff; 300]),
    ];
    for content in contents {
        round_trip(hop_of(RoutingMessage::Request(RequestMessage { src, dst, content })));
    }
}

#[test]
fn every_response_round_trips() {
    let src = Authority::NodeManager(random_name());
    let dst = Authority::ManagedNode(random_name());
    let data = Data { kind: DataKind::Immutable, name: random_name(), payload: vec![9; 17] };
    let id = MessageId([6u8; 64]);
    let contents = vec![
        ResponseContent::GetNetworkName { relocated_id: sample_id(1) },
        ResponseContent::GetPublicId { public_id: sample_id(2) },
        ResponseContent::GetPublicIdWithEndpoints {
            public_id: sample_id(3),
            encrypted_endpoints: vec![1, 2, 3],
            nonce_bytes: [8u8; 24],
        },
        ResponseContent::GetCloseGroup { close_group_ids: vec![sample_id(4), sample_id(5), sample_id(6)] },
        ResponseContent::GetCloseGroup { close_group_ids: vec![] },
        ResponseContent::GetSuccess(data, id),
        ResponseContent::PutSuccess(id),
        ResponseContent::PostSuccess(id),
        ResponseContent::DeleteSuccess(id),
        ResponseContent::GetFailure { id, request: vec![1], external_error_indicator: vec![2, 3] },
        ResponseContent::PutFailure { id, request: vec![], external_error_indicator: vec![] },
        ResponseContent::PostFailure { id, request: vec![4; 9], external_error_indicator: vec![5] },
        ResponseContent::DeleteFailure { id, request: vec![6], external_error_indicator: vec![7; 3] },
    ];
    for content in contents {
        round_trip(hop_of(RoutingMessage::Response(ResponseMessage { src, dst, content })));
    }
}

#[test]
fn every_direct_message_round_trips() {
    round_trip(Message::DirectMessage(DirectMessage::BootstrapIdentify {
        public_id: sample_id(7),
        current_quorum_size: 8,
    }));
    round_trip(Message::DirectMessage(DirectMessage::BootstrapDeny));
    round_trip(Message::DirectMessage(DirectMessage::ClientIdentify {
        serialised_public_id: encode_public_id(&sample_id(8)),
        signature: [1u8; 64],
        client_restriction: true,
    }));
    round_trip(Message::DirectMessage(DirectMessage::ClientIdentify {
        serialised_public_id: vec![],
        signature: [2u8; 64],
        client_restriction: false,
    }));
    round_trip(Message::DirectMessage(DirectMessage::NodeIdentify {
        serialised_public_id: encode_public_id(&sample_id(9)),
        signature: [3u8; 64],
    }));
}

#[test]
fn known_encodings() {
    assert_eq!(encode(&Message::DirectMessage(DirectMessage::BootstrapDeny)), vec![1u8, 1u8]);
    let id = sample_id(0x10);
    let mut expected = vec![1u8, 0u8];
    expected.extend_from_slice(&[0x10; 32]);
    expected.extend_from_slice(&[0x11; 32]);
    expected.extend_from_slice(&[0x12; 64]);
    expected.extend_from_slice(&[8, 0, 0, 0, 0, 0, 0, 0]);
    assert_eq!(
        encode(&Message::DirectMessage(DirectMessage::BootstrapIdentify {
            public_id: id,
            current_quorum_size: 8,
        })),
        expected
    );
    let request = RoutingMessage::Request(RequestMessage {
        src: Authority::ManagedNode(XorName([1u8; 64])),
        dst: Authority::NodeManager(XorName([2u8; 64])),
        content: RequestContent::Refresh(vec![0xaa, 0xbb]),
    });
    let mut expected = vec![0u8, 1u8];
    expected.extend_from_slice(&[1u8; 64]);
    expected.push(2);
    expected.extend_from_slice(&[2u8; 64]);
    expected.push(11);
    expected.extend_from_slice(&[2, 0, 0, 0, 0, 0, 0, 0, 0xaa, 0xbb]);
    assert_eq!(encode_routing_message(&request), expected);
}

#[test]
fn bytes_that_are_no_message_are_refused() {
    assert_eq!(decode(&[]), Err(RoutingError::SerialisationError));
    assert_eq!(decode(&[2]), Err(RoutingError::SerialisationError));
    assert_eq!(decode(&[1, 4]), Err(RoutingError::SerialisationError));
    // A refusal followed by one byte too many.
    assert_eq!(decode(&[1, 1, 0]), Err(RoutingError::SerialisationError));
    // A client's introduction whose last byte is no truth value.
    let mut bytes = encode(&Message::DirectMessage(DirectMessage::ClientIdentify {
        serialised_public_id: vec![1, 2, 3],
        signature: [0u8; 64],
        client_restriction: true,
    }));
    let last = bytes.len() - 1;
    bytes[last] = 2;
    assert_eq!(decode(&bytes), Err(RoutingError::SerialisationError));
    // A byte string whose length runs past the end.
    let mut bytes = encode(&Message::DirectMessage(DirectMessage::NodeIdentify {
        serialised_public_id: vec![1, 2, 3],
        signature: [0u8; 64],
    }));
    bytes[2] = 200;
    assert_eq!(decode(&bytes), Err(RoutingError::SerialisationError));
}

#[test]
fn truncated_messages_are_refused() {
    let message = hop_of(RoutingMessage::Response(ResponseMessage {
        src: Authority::NodeManager(random_name()),
        dst: Authority::Client { client_key: [1u8; 32], proxy_node_name: random_name() },
        content: ResponseContent::GetCloseGroup { close_group_ids: vec![sample_id(1), sample_id(2)] },
    }));
    let bytes = encode(&message);
    for len in 0..bytes.len() {
        assert_eq!(decode(&bytes[..len]), Err(RoutingError::SerialisationError));
    }
}

#[test]
fn public_id_round_trips() {
    let id = FullId::new().public_id;
    let bytes = encode_public_id(&id);
    assert_eq!(bytes.len(), 128);
    assert_eq!(decode_public_id(&bytes), Ok(id));
    assert_eq!(decode_public_id(&bytes[..127]), Err(RoutingError::SerialisationError));
    let mut longer = bytes.clone();
    longer.push(0);
    assert_eq!(decode_public_id(&longer), Err(RoutingError::SerialisationError));
}
