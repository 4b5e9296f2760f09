use routing_core::authority::Authority;
use routing_core::data::MessageId;
use routing_core::id::{FullId, PublicId};
use routing_core::messages::{
    HopMessage, RequestContent, RequestMessage, RoutingMessage, SignedMessage,
};
use routing_core::error::RoutingError;
use routing_core::names::{closer_to_target, XorName};
use routing_core::rules::{
    admission, direction_check, dynamic_quorum_size, node_route, signed_msg_security_check, Route,
};

fn name_with(index: usize, value: u8) -> XorName {
    let mut bytes = [0u8; 64];
    bytes[index] = value;
    XorName(bytes)
}

#[test]
fn the_first_differing_byte_decides_the_distance() {
    let target = name_with(0, 0);
    assert!(closer_to_target(&name_with(63, 1), &name_with(62, 1), &target));
    assert!(!closer_to_target(&name_with(62, 1), &name_with(63, 1), &target));
    assert!(closer_to_target(&name_with(0, 0x7f), &name_with(0, 0x80), &target));
    // Distance is to the target, not to zero.
    let target = name_with(0, 0x80);
    assert!(closer_to_target(&name_with(0, 0x81), &name_with(0, 0x01), &target));
    assert!(!closer_to_target(&name_with(0, 0x01), &name_with(0, 0x81), &target));
}

#[test]
fn no_name_is_closer_than_itself() {
    let name = name_with(5, 9);
    assert!(!closer_to_target(&name, &name, &name_with(1, 1)));
    assert!(name.same_as(&name));
    assert!(!name.same_as(&name_with(5, 8)));
    assert_eq!(XorName::new([3u8; 64]).get_id(), [3u8; 64]);
}

#[test]
fn direction_is_towards_the_target() {
    let own = name_with(63, 1);
    let hop = name_with(0, 1);
    let target = name_with(0, 0);
    assert!(direction_check(&own, &hop, &target));
    assert!(!direction_check(&hop, &own, &target));
    assert!(!direction_check(&own, &own, &target));
}

#[test]
fn quorum_is_five_eighths_of_the_table_rounded() {
    let expected = [0usize, 1, 1, 2, 3, 3, 4, 4, 5, 5, 5];
    for (len, quorum) in expected.iter().enumerate() {
        assert_eq!(dynamic_quorum_size(len), *quorum, "for a table of {}", len);
    }
    assert_eq!(dynamic_quorum_size(usize::MAX), 5);
}

#[test]
fn admission_follows_the_size_of_the_table() {
    // Clients that stay clients wait for a full table.
    assert!(!admission(true, 7, 0));
    assert!(admission(true, 8, 5));
    // Joining nodes: up to the group size while the table is not full.
    assert!(admission(false, 0, 0));
    assert!(admission(false, 7, 7));
    assert!(!admission(false, 7, 8));
    // And one at a time once it is.
    assert!(admission(false, 8, 0));
    assert!(!admission(false, 8, 1));
    assert!(!admission(false, 100, 3));
}

#[test]
fn routes_at_a_node() {
    let own = name_with(1, 1);
    let other = name_with(2, 2);
    let client = Authority::Client { client_key: [1u8; 32], proxy_node_name: own };
    let far_client = Authority::Client { client_key: [1u8; 32], proxy_node_name: other };
    assert_eq!(node_route(true, &client, &Authority::NodeManager(other), &own), Route::Swarm);
    assert_eq!(node_route(true, &client, &Authority::NaeManager(own), &own), Route::Swarm);
    assert_eq!(node_route(true, &client, &Authority::ManagedNode(other), &own), Route::Forward);
    assert_eq!(node_route(true, &Authority::ManagedNode(other), &far_client, &own), Route::Forward);
    assert_eq!(node_route(true, &Authority::ManagedNode(other), &client, &own), Route::RelayToClient);
    assert_eq!(node_route(true, &client, &Authority::ManagedNode(own), &own), Route::HandleHere);
    assert_eq!(node_route(false, &client, &Authority::NodeManager(other), &own), Route::ProxyForward);
    assert_eq!(node_route(false, &far_client, &Authority::NodeManager(other), &own), Route::Transit);
    assert_eq!(
        node_route(false, &Authority::ManagedNode(own), &Authority::ManagedNode(other), &own),
        Route::Transit
    );
}

#[test]
fn a_client_must_sign_its_own_messages() {
    let full_id = FullId::new();
    let request = |client_key: [u8; 32]| {
        RoutingMessage::Request(RequestMessage {
            src: Authority::Client { client_key, proxy_node_name: name_with(0, 1) },
            dst: Authority::NaeManager(name_with(0, 2)),
            content: RequestContent::GetCloseGroup,
        })
    };
    let honest = SignedMessage::new(request(full_id.public_id.public_sign_key), &full_id);
    assert_eq!(signed_msg_security_check(&honest), Ok(()));
    let forged = SignedMessage::new(request([0u8; 32]), &full_id);
    assert_eq!(signed_msg_security_check(&forged), Err(RoutingError::FailedSignature));
    let from_group = SignedMessage::new(
        RoutingMessage::Request(RequestMessage {
            src: Authority::NaeManager(name_with(0, 1)),
            dst: Authority::NodeManager(name_with(0, 2)),
            content: RequestContent::ExpectCloseNode { expect_id: full_id.public_id },
        }),
        &full_id,
    );
    assert_eq!(signed_msg_security_check(&from_group), Ok(()));
}

#[test]
fn signatures_hold_and_forgeries_do_not() {
    let full_id = FullId::new();
    let content = RoutingMessage::Request(RequestMessage {
        src: Authority::ManagedNode(name_with(0, 1)),
        dst: Authority::ManagedNode(name_with(0, 2)),
        content: RequestContent::Connect,
    });
    let signed = SignedMessage::new(content, &full_id);
    assert_eq!(signed.public_id, full_id.public_id);
    assert_ne!(signed.signature, [0u8; 64]);
    assert_eq!(signed.check_integrity(), Ok(()));

    let mut tampered = signed.clone();
    tampered.content = RoutingMessage::Request(RequestMessage {
        src: Authority::ManagedNode(name_with(0, 1)),
        dst: Authority::ManagedNode(name_with(0, 3)),
        content: RequestContent::Connect,
    });
    assert_eq!(tampered.check_integrity(), Err(RoutingError::FailedSignature));

    let mut resigned = signed.clone();
    resigned.signature[0] ^= 1;
    assert_eq!(resigned.check_integrity(), Err(RoutingError::FailedSignature));

    let mut malformed = signed.clone();
    malformed.signature[63] |= 0x80;
    assert_eq!(malformed.check_integrity(), Err(RoutingError::FailedSignature));

    let hop = HopMessage::new(signed, name_with(4, 4), &full_id.private_sign_key);
    assert_eq!(hop.name, name_with(4, 4));
    assert_eq!(hop.verify(&full_id.public_id.public_sign_key), Ok(()));
    assert_eq!(hop.verify(&FullId::new().public_id.public_sign_key), Err(RoutingError::FailedSignature));
}

#[test]
fn a_fresh_identity_is_named_by_the_hash_of_its_signing_key() {
    let full_id = FullId::new();
    let hashed = sodiumoxide::crypto::hash::sha512::hash(&full_id.public_id.public_sign_key).0;
    assert_eq!(full_id.public_id.name, XorName(hashed));
    assert!(!full_id.public_id.has_relocated_name());
    assert_ne!(FullId::new().public_id.public_sign_key, full_id.public_id.public_sign_key);
    assert_ne!(FullId::new().public_id.public_encrypt_key, full_id.public_id.public_encrypt_key);

    let mut moved = full_id.public_id;
    moved.set_name(name_with(3, 3));
    assert!(moved.has_relocated_name());
    assert_eq!(*moved.name(), name_with(3, 3));
    assert!(!moved.same_as(&full_id.public_id));
    assert!(moved.same_as(&moved));
    assert_eq!(moved.signing_public_key(), full_id.public_id.signing_public_key());
    assert_eq!(moved.encrypting_public_key(), full_id.public_id.encrypting_public_key());

    let id = PublicId::new([1u8; 32], [2u8; 32]);
    assert_eq!(id.name, XorName(sodiumoxide::crypto::hash::sha512::hash(&[2u8; 32]).0));
    let with_keys = FullId::with_keys(([1u8; 32], [3u8; 32]), ([2u8; 32], [4u8; 64]));
    assert_eq!(with_keys.public_id, id);
    assert_eq!(with_keys.signing_private_key(), &[4u8; 64]);
    assert_eq!(with_keys.encrypting_private_key(), &[3u8; 32]);
    assert_eq!(*with_keys.public_id(), id);
}

#[test]
fn authorities_and_ids() {
    let name = name_with(0, 7);
    assert!(Authority::NodeManager(name).is_group());
    assert!(Authority::NaeManager(name).is_group());
    assert!(!Authority::ManagedNode(name).is_group());
    let client = Authority::Client { client_key: [0u8; 32], proxy_node_name: name };
    assert!(!client.is_group());
    assert_eq!(*client.get_name(), name);
    assert_eq!(*Authority::ManagedNode(name).get_name(), name);

    let mut bytes = [0u8; 64];
    for (i, byte) in bytes.iter_mut().enumerate() {
        *byte = i as u8;
    }
    let lost = MessageId::from_lost_node(XorName(bytes));
    assert_eq!(lost.0, bytes);
    let added = MessageId::from_added_node(XorName(bytes));
    let mut reversed = bytes;
    reversed.reverse();
    assert_eq!(added.0, reversed);
}
