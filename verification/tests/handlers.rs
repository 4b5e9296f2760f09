use routing_core::authority::Authority;
use routing_core::data::{Data, DataKind, DataRequest, MessageId};
use routing_core::error::{InterfaceError, RoutingError};
use routing_core::event::{Action, Effect, Event, Input, Reply, TransportEvent};
use routing_core::step::report;
use routing_core::id::{FullId, PublicId};
use routing_core::messages::{
    DirectMessage, HopMessage, Message, RequestContent, RequestMessage, ResponseContent,
    ResponseMessage, RoutingMessage, SignedMessage,
};
use routing_core::names::{closer_to_target, XorName};
use routing_core::parse::decode;
use routing_core::relay::count_distinct;
use routing_core::routing::{Core, State};
use routing_core::rules::GROUP_SIZE;
use routing_core::wire::{encode, encode_public_id};

fn sign(message: &[u8], secret: &[u8; 64]) -> [u8; 64] {
    sodiumoxide::crypto::sign::sign_detached(
        message,
        &sodiumoxide::crypto::sign::SecretKey(*secret),
    )
    .to_bytes()
}

fn random_name() -> XorName {
    let mut bytes = [0u8; 64];
    for byte in bytes.iter_mut() {
        *byte = rand::random();
    }
    XorName(bytes)
}

fn identity_named(name: XorName) -> FullId {
    let mut full_id = FullId::new();
    full_id.public_id.set_name(name);
    full_id
}

fn relocated_identity() -> FullId {
    identity_named(random_name())
}

fn transport(core: &mut Core, event: TransportEvent) -> Vec<Effect> {
    let _ = core.run(Input::Transport(event));
    core.take_effects()
}

fn first_node() -> Core {
    let mut core = Core::new(false, None);
    let _ = transport(&mut core, TransportEvent::OnAccept { connection: 1, endpoints: vec![1, 2, 3] });
    core
}

fn introduce_node(core: &mut Core, peer: &FullId, connection: u64) -> Vec<Effect> {
    assert_eq!(core.handle_expect_close_node_request(peer.public_id), Ok(()));
    let serialised_public_id = encode_public_id(&peer.public_id);
    let signature = sign(&serialised_public_id, &peer.private_sign_key);
    let bytes = encode(&Message::DirectMessage(DirectMessage::NodeIdentify {
        serialised_public_id,
        signature,
    }));
    transport(core, TransportEvent::NewMessage { connection, bytes })
}

fn node_with_peers(count: usize) -> (Core, Vec<FullId>) {
    let mut core = first_node();
    let mut peers = Vec::new();
    for i in 0..count {
        let peer = relocated_identity();
        let _ = introduce_node(&mut core, &peer, 100 + i as u64);
        peers.push(peer);
    }
    assert_eq!(core.peers.len(), count);
    (core, peers)
}

fn hops(effects: &[Effect]) -> Vec<(u64, HopMessage)> {
    effects
        .iter()
        .filter_map(|effect| match effect {
            Effect::Send { connection, bytes } => match decode(bytes) {
                Ok(Message::HopMessage(hop)) => Some((*connection, hop)),
                _ => None,
            },
            _ => None,
        })
        .collect()
}

fn drain(core: &mut Core) -> Vec<Effect> {
    let mut steps = 0;
    while core.deliver_next() {
        steps += 1;
        assert!(steps < 100);
    }
    core.take_effects()
}

fn refresh_from_group(own: XorName) -> RoutingMessage {
    RoutingMessage::Request(RequestMessage {
        src: Authority::NodeManager(random_name()),
        dst: Authority::NodeManager(own),
        content: RequestContent::Refresh(vec![4, 2]),
    })
}

#[test]
fn different_values_are_counted_once() {
    assert_eq!(count_distinct(&vec![]), 0);
    assert_eq!(count_distinct(&vec![vec![1], vec![1], vec![1]]), 1);
    assert_eq!(count_distinct(&vec![vec![1], vec![2], vec![1], vec![], vec![2, 0]]), 4);
}

#[test]
fn a_group_message_waits_for_a_quorum() {
    let (mut node, peers) = node_with_peers(GROUP_SIZE);
    let _ = node.take_effects();
    let message = refresh_from_group(node.full_id.public_id.name);

    for peer in peers.iter().take(4) {
        assert_eq!(node.handle_routing_message(message.clone(), peer.public_id), Ok(()));
        assert_eq!(node.take_effects(), vec![]);
    }
    assert_eq!(node.quorum_size, 5);
    assert_eq!(node.handle_routing_message(message.clone(), peers[4].public_id), Ok(()));
    match &node.take_effects()[..] {
        [Effect::Emit(Event::Request(request))] => {
            assert_eq!(RoutingMessage::Request(request.clone()), message)
        }
        other => panic!("unexpected effects {:?}", other),
    }

    // Once handled, further copies are dropped.
    assert_eq!(
        node.handle_routing_message(message.clone(), peers[5].public_id),
        Err(RoutingError::FilterCheckFailed)
    );
    assert_eq!(node.take_effects(), vec![]);
}

#[test]
fn one_sender_is_no_quorum() {
    let (mut node, peers) = node_with_peers(GROUP_SIZE);
    let _ = node.take_effects();
    let message = refresh_from_group(node.full_id.public_id.name);
    for _ in 0..7 {
        assert_eq!(node.handle_routing_message(message.clone(), peers[0].public_id), Ok(()));
    }
    assert_eq!(node.take_effects(), vec![]);
    // Four others complete it.
    for peer in peers.iter().skip(1).take(3) {
        assert_eq!(node.handle_routing_message(message.clone(), peer.public_id), Ok(()));
        assert_eq!(node.take_effects(), vec![]);
    }
    assert_eq!(node.handle_routing_message(message.clone(), peers[4].public_id), Ok(()));
    assert_eq!(node.take_effects().len(), 1);
}

#[test]
fn a_single_sender_is_handled_at_once() {
    let (mut node, peers) = node_with_peers(2);
    let _ = node.take_effects();
    let message = RoutingMessage::Response(ResponseMessage {
        src: Authority::ManagedNode(peers[0].public_id.name),
        dst: Authority::ManagedNode(node.full_id.public_id.name),
        content: ResponseContent::PutSuccess(MessageId([1u8; 64])),
    });
    assert_eq!(node.handle_routing_message(message.clone(), peers[0].public_id), Ok(()));
    assert_eq!(node.handle_routing_message(message.clone(), peers[0].public_id), Ok(()));
    let effects = node.take_effects();
    assert_eq!(effects.len(), 2);
    match &effects[0] {
        Effect::Emit(Event::Response(response)) => {
            assert_eq!(RoutingMessage::Response(response.clone()), message)
        }
        other => panic!("unexpected effect {:?}", other),
    }
}

#[test]
fn a_message_for_a_far_name_goes_to_a_nearer_node() {
    let mut node = first_node();
    let own = node.full_id.public_id.name;
    let mut far = own;
    far.0[0] ^= 0x80;
    let mut peers = Vec::new();
    for i in 0..GROUP_SIZE {
        let mut name = far;
        name.0[63] ^= (i + 1) as u8;
        let peer = identity_named(name);
        let _ = introduce_node(&mut node, &peer, 100 + i as u64);
        peers.push(peer);
    }
    assert_eq!(node.peers.len(), GROUP_SIZE);
    let _ = node.take_effects();

    let message = SignedMessage::new(
        RoutingMessage::Request(RequestMessage {
            src: Authority::ManagedNode(own),
            dst: Authority::ManagedNode(far),
            content: RequestContent::Connect,
        }),
        &node.full_id,
    );
    assert_eq!(node.send_out(&message), Ok(false));
    let effects = node.take_effects();
    let sent = hops(&effects);
    assert_eq!(sent.len(), 1);
    assert_eq!(effects.len(), 1);
    let (connection, hop) = &sent[0];
    // The nearest of the peers to the destination, which is nearer than we are.
    assert_eq!(*connection, 100);
    assert!(closer_to_target(&peers[0].public_id.name, &own, &far));
    assert_eq!(hop.name, own);
    assert_eq!(hop.content, message);
    assert_eq!(hop.verify(&node.full_id.public_id.public_sign_key), Ok(()));
    assert!(node.pending.is_empty());
}

#[test]
fn a_message_for_our_group_goes_to_its_members_and_to_us() {
    let (mut node, peers) = node_with_peers(3);
    let _ = node.take_effects();
    let own = node.full_id.public_id.name;
    let content = RoutingMessage::Request(RequestMessage {
        src: Authority::ManagedNode(own),
        dst: Authority::NodeManager(own),
        content: RequestContent::Refresh(vec![1, 2, 3]),
    });
    assert_eq!(
        node.run(Input::Action(Action::NodeSendMessage { content: content.clone() })),
        Reply::Sent(Ok(()))
    );
    let effects = node.take_effects();
    let mut connections: Vec<u64> = hops(&effects).iter().map(|sent| sent.0).collect();
    connections.sort();
    assert_eq!(connections, vec![100, 101, 102]);
    assert_eq!(effects.len(), 3);
    for (_, hop) in hops(&effects) {
        assert_eq!(hop.content.content, content);
        assert_eq!(hop.content.public_id, node.full_id.public_id);
        assert_eq!(hop.content.check_integrity(), Ok(()));
    }
    assert_eq!(peers.len(), 3);

    // It is still to be handled here.
    assert_eq!(node.pending.len(), 1);
    let effects = drain(&mut node);
    assert_eq!(
        effects.iter().filter(|effect| matches!(effect, Effect::Emit(Event::Request(_)))).count(),
        1
    );
    assert!(node.pending.is_empty());
    assert!(!node.deliver_next());
}

#[test]
fn a_client_sends_through_its_proxy() {
    let mut core = Core::new(true, None);
    let _ = core.take_effects();
    assert_eq!(core.get_client_authority(), Err(RoutingError::NotBootstrapped));
    let request = || Action::ClientSendRequest {
        content: RequestContent::Get(
            DataRequest { kind: DataKind::Immutable, name: XorName([1u8; 64]) },
            MessageId([2u8; 64]),
        ),
        dst: Authority::NaeManager(XorName([1u8; 64])),
    };
    assert_eq!(
        core.run(Input::Action(request())),
        Reply::Sent(Err(InterfaceError::NotConnected))
    );
    assert_eq!(core.take_effects(), vec![]);

    let _ = transport(&mut core, TransportEvent::OnConnect { connection: Some(7), endpoints: vec![] });
    let proxy = relocated_identity();
    let bytes = encode(&Message::DirectMessage(DirectMessage::BootstrapIdentify {
        public_id: proxy.public_id,
        current_quorum_size: 8,
    }));
    let _ = transport(&mut core, TransportEvent::NewMessage { connection: 7, bytes });
    let authority = Authority::Client {
        client_key: core.full_id.public_id.public_sign_key,
        proxy_node_name: proxy.public_id.name,
    };
    assert_eq!(core.get_client_authority(), Ok(authority));

    assert_eq!(core.run(Input::Action(request())), Reply::Sent(Ok(())));
    let effects = core.take_effects();
    let sent = hops(&effects);
    assert_eq!(sent.len(), 1);
    assert_eq!(sent[0].0, 7);
    assert_eq!(*sent[0].1.content.content.src(), authority);

    // A client cannot send as anything but a client, nor through a proxy it has not.
    let as_node = SignedMessage::new(
        RoutingMessage::Request(RequestMessage {
            src: Authority::ManagedNode(XorName([1u8; 64])),
            dst: Authority::NaeManager(XorName([1u8; 64])),
            content: RequestContent::Connect,
        }),
        &core.full_id,
    );
    assert_eq!(core.send_out(&as_node), Err(RoutingError::InvalidSource));
    let through_another = SignedMessage::new(
        RoutingMessage::Request(RequestMessage {
            src: Authority::Client {
                client_key: core.full_id.public_id.public_sign_key,
                proxy_node_name: XorName([9u8; 64]),
            },
            dst: Authority::NaeManager(XorName([1u8; 64])),
            content: RequestContent::Connect,
        }),
        &core.full_id,
    );
    assert_eq!(core.send_out(&through_another), Err(RoutingError::ProxyConnectionNotFound));
    assert_eq!(core.take_effects(), vec![]);
}

#[test]
fn the_user_is_told_our_name_and_group() {
    let (mut node, peers) = node_with_peers(3);
    let _ = node.take_effects();
    assert_eq!(node.run(Input::Action(Action::Name)), Reply::Name(node.full_id.public_id.name));
    assert_eq!(node.run(Input::Action(Action::Terminate)), Reply::Terminated);
    match node.run(Input::Action(Action::CloseGroup)) {
        Reply::CloseGroup(mut names) => {
            let own = node.full_id.public_id.name;
            for pair in names.windows(2) {
                assert!(closer_to_target(&pair[0], &pair[1], &own));
            }
            names.sort_by(|a, b| a.0.cmp(&b.0));
            let mut expected: Vec<XorName> = peers.iter().map(|peer| peer.public_id.name).collect();
            expected.sort_by(|a, b| a.0.cmp(&b.0));
            assert_eq!(names, expected);
        }
        other => panic!("unexpected reply {:?}", other),
    }
    assert_eq!(node.take_effects(), vec![]);
}

#[test]
fn sealed_endpoints_open_for_the_one_they_are_for() {
    let (mut node, peers) = node_with_peers(1);
    let _ = node.take_effects();
    node.endpoints = b"tcp://10.0.0.1:5483".to_vec();
    let own = node.full_id.public_id.name;
    let peer = &peers[0];

    assert_eq!(
        node.send_endpoints(
            &peer.public_id,
            Authority::ManagedNode(own),
            Authority::ManagedNode(peer.public_id.name)
        ),
        Ok(())
    );
    let effects = node.take_effects();
    let sent = hops(&effects);
    assert_eq!(sent.len(), 1);
    assert_eq!(sent[0].0, 100);
    let (sealed, nonce) = match &sent[0].1.content.content {
        RoutingMessage::Request(RequestMessage {
            content: RequestContent::Endpoints { encrypted_endpoints, nonce_bytes },
            src,
            dst,
        }) => {
            assert_eq!(*src, Authority::ManagedNode(own));
            assert_eq!(*dst, Authority::ManagedNode(peer.public_id.name));
            (encrypted_endpoints.clone(), *nonce_bytes)
        }
        other => panic!("unexpected message {:?}", other),
    };
    assert_eq!(sealed.len(), node.endpoints.len() + 16);
    assert_ne!(&sealed[16..], &node.endpoints[..]);

    let mut receiver = Core::new(false, Some(peer.clone()));
    let _ = receiver.take_effects();
    assert_eq!(
        receiver.connect(&sealed, &nonce, &node.full_id.public_id.public_encrypt_key),
        Ok(())
    );
    assert_eq!(
        receiver.take_effects(),
        vec![Effect::Connect { endpoints: b"tcp://10.0.0.1:5483".to_vec() }]
    );

    // Not for anyone else, nor from anyone else, nor under another nonce.
    let mut stranger = Core::new(false, None);
    let _ = stranger.take_effects();
    assert_eq!(
        stranger.connect(&sealed, &nonce, &node.full_id.public_id.public_encrypt_key),
        Err(RoutingError::AsymmetricDecryptionFailure)
    );
    assert_eq!(
        receiver.connect(&sealed, &nonce, &FullId::new().public_id.public_encrypt_key),
        Err(RoutingError::AsymmetricDecryptionFailure)
    );
    let mut other_nonce = nonce;
    other_nonce[0] ^= 1;
    assert_eq!(
        receiver.connect(&sealed, &other_nonce, &node.full_id.public_id.public_encrypt_key),
        Err(RoutingError::AsymmetricDecryptionFailure)
    );
    assert_eq!(
        receiver.connect(&vec![1, 2, 3], &nonce, &node.full_id.public_id.public_encrypt_key),
        Err(RoutingError::AsymmetricDecryptionFailure)
    );
    assert_eq!(receiver.take_effects(), vec![]);
    assert_eq!(stranger.take_effects(), vec![]);

    // Two sendings use two nonces.
    let _ = drain(&mut node);
    assert_eq!(
        node.send_endpoints(
            &peer.public_id,
            Authority::ManagedNode(own),
            Authority::ManagedNode(peer.public_id.name)
        ),
        Ok(())
    );
    match &hops(&node.take_effects())[0].1.content.content {
        RoutingMessage::Request(RequestMessage {
            content: RequestContent::Endpoints { nonce_bytes, .. },
            ..
        }) => assert_ne!(*nonce_bytes, nonce),
        other => panic!("unexpected message {:?}", other),
    }
}

#[test]
fn immutable_data_is_answered_from_the_cache() {
    let mut node = first_node();
    let name = random_name();
    let data = Data { kind: DataKind::Immutable, name, payload: vec![5, 6, 7] };
    let response = RoutingMessage::Response(ResponseMessage {
        src: Authority::NaeManager(name),
        dst: Authority::ManagedNode(random_name()),
        content: ResponseContent::GetSuccess(data.clone(), MessageId([1u8; 64])),
    });
    let ask = |kind: DataKind, name: XorName| {
        RoutingMessage::Request(RequestMessage {
            src: Authority::ManagedNode(random_name()),
            dst: Authority::NaeManager(name),
            content: RequestContent::Get(DataRequest { kind, name }, MessageId([2u8; 64])),
        })
    };
    assert_eq!(node.get_from_cache(&ask(DataKind::Immutable, name)), None);
    node.add_to_cache(&response);
    assert_eq!(
        node.get_from_cache(&ask(DataKind::Immutable, name)),
        Some((data.clone(), MessageId([2u8; 64])))
    );
    assert_eq!(node.get_from_cache(&ask(DataKind::Immutable, random_name())), None);
    assert_eq!(node.get_from_cache(&ask(DataKind::Structured, name)), None);
    assert_eq!(node.get_from_cache(&response), None);

    // Other data is not kept.
    let other = random_name();
    node.add_to_cache(&RoutingMessage::Response(ResponseMessage {
        src: Authority::NaeManager(other),
        dst: Authority::ManagedNode(random_name()),
        content: ResponseContent::GetSuccess(
            Data { kind: DataKind::Plain, name: other, payload: vec![1] },
            MessageId([1u8; 64]),
        ),
    }));
    assert_eq!(node.get_from_cache(&ask(DataKind::Immutable, other)), None);
}

#[test]
fn a_node_answers_a_request_for_cached_data_in_passing() {
    let (mut node, peers) = node_with_peers(1);
    let _ = node.take_effects();
    let own = node.full_id.public_id.name;
    let name = random_name();
    let data = Data { kind: DataKind::Immutable, name, payload: vec![5, 6, 7] };
    node.add_to_cache(&RoutingMessage::Response(ResponseMessage {
        src: Authority::NaeManager(name),
        dst: Authority::ManagedNode(own),
        content: ResponseContent::GetSuccess(data.clone(), MessageId([1u8; 64])),
    }));
    let peer = &peers[0];
    let request = SignedMessage::new(
        RoutingMessage::Request(RequestMessage {
            src: Authority::ManagedNode(peer.public_id.name),
            dst: Authority::ManagedNode(own),
            content: RequestContent::Get(
                DataRequest { kind: DataKind::Immutable, name },
                MessageId([3u8; 64]),
            ),
        }),
        peer,
    );
    let hop = HopMessage::new(request, peer.public_id.name, &peer.private_sign_key);
    assert_eq!(node.handle_new_message(100, encode(&Message::HopMessage(hop))), Ok(()));
    let effects = node.take_effects();
    let sent = hops(&effects);
    assert_eq!(sent.len(), 1);
    assert_eq!(sent[0].0, 100);
    assert_eq!(
        sent[0].1.content.content,
        RoutingMessage::Response(ResponseMessage {
            src: Authority::ManagedNode(own),
            dst: Authority::ManagedNode(peer.public_id.name),
            content: ResponseContent::GetSuccess(data, MessageId([3u8; 64])),
        })
    );
    assert_eq!(
        effects.iter().filter(|effect| matches!(effect, Effect::Emit(_))).count(),
        0
    );
}

#[test]
fn a_public_id_is_expected_once() {
    let mut node = first_node();
    let id = relocated_identity().public_id;
    assert_eq!(node.handle_expect_close_node_request(id), Ok(()));
    assert_eq!(node.handle_expect_close_node_request(id), Err(RoutingError::RejectedPublicId));
    let mut other = FullId::new().public_id;
    other.set_name(id.name);
    assert_eq!(node.handle_expect_close_node_request(other), Err(RoutingError::RejectedPublicId));
    assert_eq!(node.handle_expect_close_node_request(relocated_identity().public_id), Ok(()));
    assert_eq!(node.take_effects(), vec![]);
}

#[test]
fn connect_requests() {
    let (mut node, peers) = node_with_peers(1);
    let _ = node.take_effects();
    let own = node.full_id.public_id.name;

    // Our own name is of no use to the routing table.
    assert_eq!(node.handle_connect_request(own, own), Err(RoutingError::RefusedFromRoutingTable));
    assert_eq!(node.take_effects(), vec![]);

    // A stranger: its group is asked for its public id.
    let stranger = random_name();
    assert_eq!(node.handle_connect_request(stranger, own), Ok(()));
    let sent = hops(&node.take_effects());
    assert!(!sent.is_empty());
    assert_eq!(
        sent[0].1.content.content,
        RoutingMessage::Request(RequestMessage {
            src: Authority::ManagedNode(own),
            dst: Authority::NodeManager(stranger),
            content: RequestContent::GetPublicId,
        })
    );
    let _ = drain(&mut node);

    // A node that we know: it is sent our endpoints.
    let known = peers[0].public_id.name;
    assert_eq!(node.handle_connect_request(known, own), Ok(()));
    let sent = hops(&node.take_effects());
    assert_eq!(sent[0].0, 100);
    assert!(matches!(
        sent[0].1.content.content,
        RoutingMessage::Request(RequestMessage { content: RequestContent::Endpoints { .. }, .. })
    ));
}

#[test]
fn public_ids_of_the_close_group_are_handed_out() {
    let (mut node, peers) = node_with_peers(2);
    let _ = node.take_effects();
    let asker = peers[1].public_id.name;
    let wanted = peers[0].public_id;

    assert_eq!(node.close_group_member(&wanted.name), Some(wanted));
    assert_eq!(node.close_group_member(&random_name()), None);

    assert_eq!(node.handle_get_public_id(asker, wanted.name), Ok(()));
    let sent = hops(&node.take_effects());
    assert_eq!(sent.len(), 1);
    assert_eq!(sent[0].0, 101);
    assert_eq!(
        sent[0].1.content.content,
        RoutingMessage::Response(ResponseMessage {
            src: Authority::NodeManager(wanted.name),
            dst: Authority::ManagedNode(asker),
            content: ResponseContent::GetPublicId { public_id: wanted },
        })
    );
    let _ = drain(&mut node);

    assert_eq!(
        node.handle_get_public_id(asker, random_name()),
        Err(RoutingError::RejectedPublicId)
    );
    assert_eq!(
        node.handle_get_public_id_with_endpoints(vec![1], [0u8; 24], asker, random_name()),
        Err(RoutingError::RejectedPublicId)
    );
    assert_eq!(node.take_effects(), vec![]);

    assert_eq!(
        node.handle_get_public_id_with_endpoints(vec![1, 2], [3u8; 24], asker, wanted.name),
        Ok(())
    );
    assert_eq!(
        hops(&node.take_effects())[0].1.content.content,
        RoutingMessage::Response(ResponseMessage {
            src: Authority::NodeManager(wanted.name),
            dst: Authority::ManagedNode(asker),
            content: ResponseContent::GetPublicIdWithEndpoints {
                public_id: wanted,
                encrypted_endpoints: vec![1, 2],
                nonce_bytes: [3u8; 24],
            },
        })
    );
}

#[test]
fn the_close_group_is_told_with_ourselves() {
    let (mut node, peers) = node_with_peers(3);
    let _ = node.take_effects();
    let ids = node.close_group_with_self();
    assert_eq!(ids.len(), 4);
    assert_eq!(ids[3], node.full_id.public_id);
    let names: Vec<XorName> = ids.iter().take(3).map(|id| id.name).collect();
    assert_eq!(names, node.close_group_names());
    for peer in &peers {
        assert!(ids.contains(&peer.public_id));
    }

    let client = FullId::new();
    let proxy = node.full_id.public_id.name;
    let dst = random_name();
    let _ = transport(
        &mut node,
        TransportEvent::NewMessage {
            connection: 60,
            bytes: {
                let serialised_public_id = encode_public_id(&client.public_id);
                let signature = sign(&serialised_public_id, &client.private_sign_key);
                encode(&Message::DirectMessage(DirectMessage::ClientIdentify {
                    serialised_public_id,
                    signature,
                    client_restriction: false,
                }))
            },
        },
    );
    assert_eq!(
        node.handle_get_close_group_request(client.public_id.public_sign_key, proxy, dst),
        Ok(())
    );
    let _ = node.take_effects();
    // It is for a client of ours: once handled here it goes down its connection.
    let effects = drain(&mut node);
    let sent = hops(&effects);
    assert_eq!(sent.len(), 1);
    assert_eq!(sent[0].0, 60);
    assert_eq!(
        sent[0].1.content.content,
        RoutingMessage::Response(ResponseMessage {
            src: Authority::NodeManager(dst),
            dst: Authority::Client {
                client_key: client.public_id.public_sign_key,
                proxy_node_name: proxy,
            },
            content: ResponseContent::GetCloseGroup { close_group_ids: ids },
        })
    );
}

#[test]
fn a_new_name_is_the_hash_of_the_old_and_the_nearest_two() {
    let (mut node, peers) = node_with_peers(3);
    let _ = node.take_effects();
    let own = node.full_id.public_id.name;
    let joining = FullId::new();
    let key = joining.public_id.public_sign_key;
    let home = joining.public_id.name;

    // Sent to another group than that of the hash of its key.
    assert_eq!(
        node.handle_get_network_name_request(joining.public_id, key, own, random_name()),
        Err(RoutingError::InvalidDestination)
    );
    assert_eq!(node.take_effects(), vec![]);

    assert_eq!(node.handle_get_network_name_request(joining.public_id, key, own, home), Ok(()));
    let mut group: Vec<XorName> = peers.iter().map(|peer| peer.public_id.name).collect();
    group.push(own);
    let expected = routing_core::utils::calculate_relocated_name(group, &home).unwrap();
    let mut effects = node.take_effects();
    effects.extend(drain(&mut node));
    let mut told_to_expect = false;
    for (_, hop) in hops(&effects) {
        match hop.content.content {
            RoutingMessage::Request(RequestMessage {
                src,
                dst,
                content: RequestContent::ExpectCloseNode { expect_id },
            }) => {
                assert_eq!(src, Authority::NaeManager(home));
                assert_eq!(dst, Authority::NodeManager(expected));
                assert_eq!(expect_id.name, expected);
                assert_eq!(expect_id.public_sign_key, key);
                told_to_expect = true;
            }
            RoutingMessage::Response(ResponseMessage {
                content: ResponseContent::GetNetworkName { relocated_id },
                dst,
                ..
            }) => {
                assert_eq!(relocated_id.name, expected);
                assert_eq!(dst, Authority::Client { client_key: key, proxy_node_name: own });
            }
            other => panic!("unexpected message {:?}", other),
        }
    }
    assert!(told_to_expect);
}

#[test]
fn requests_must_come_from_and_go_to_the_right_authorities() {
    let (mut node, peers) = node_with_peers(1);
    let _ = node.take_effects();
    let own = node.full_id.public_id.name;
    let id: PublicId = peers[0].public_id;
    let wrong = vec![
        RequestMessage {
            src: Authority::ManagedNode(id.name),
            dst: Authority::NaeManager(own),
            content: RequestContent::GetNetworkName { current_id: id },
        },
        RequestMessage {
            src: Authority::ManagedNode(id.name),
            dst: Authority::NodeManager(own),
            content: RequestContent::ExpectCloseNode { expect_id: id },
        },
        RequestMessage {
            src: Authority::ManagedNode(id.name),
            dst: Authority::NodeManager(own),
            content: RequestContent::GetCloseGroup,
        },
        RequestMessage {
            src: Authority::NodeManager(id.name),
            dst: Authority::ManagedNode(own),
            content: RequestContent::Connect,
        },
        RequestMessage {
            src: Authority::NaeManager(id.name),
            dst: Authority::ManagedNode(own),
            content: RequestContent::Endpoints { encrypted_endpoints: vec![], nonce_bytes: [0u8; 24] },
        },
        RequestMessage {
            src: Authority::ManagedNode(id.name),
            dst: Authority::ManagedNode(own),
            content: RequestContent::GetPublicId,
        },
    ];
    for request in wrong {
        assert_eq!(node.handle_request_message(request), Err(RoutingError::BadAuthority));
    }
    let wrong = vec![
        ResponseMessage {
            src: Authority::ManagedNode(id.name),
            dst: Authority::ManagedNode(own),
            content: ResponseContent::GetNetworkName { relocated_id: id },
        },
        ResponseMessage {
            src: Authority::ManagedNode(id.name),
            dst: Authority::ManagedNode(own),
            content: ResponseContent::GetPublicId { public_id: id },
        },
        ResponseMessage {
            src: Authority::NodeManager(id.name),
            dst: Authority::ManagedNode(own),
            content: ResponseContent::GetCloseGroup { close_group_ids: vec![] },
        },
    ];
    for response in wrong {
        assert_eq!(node.handle_response_message(response), Err(RoutingError::BadAuthority));
    }
    assert_eq!(node.take_effects(), vec![]);

    // A message for a client that we are not.
    let mut client = Core::new(true, None);
    let _ = client.take_effects();
    let for_another = SignedMessage::new(
        RoutingMessage::Response(ResponseMessage {
            src: Authority::ManagedNode(id.name),
            dst: Authority::Client { client_key: [1u8; 32], proxy_node_name: own },
            content: ResponseContent::PutSuccess(MessageId([0u8; 64])),
        }),
        &peers[0],
    );
    assert_eq!(
        client.handle_signed_message_for_client(for_another),
        Err(RoutingError::BadAuthority)
    );
}

#[test]
fn endpoints_from_strangers_are_refused() {
    let (mut node, _peers) = node_with_peers(1);
    let _ = node.take_effects();
    let own = node.full_id.public_id.name;
    assert_eq!(
        node.handle_endpoints_from_client(vec![1], [0u8; 24], [7u8; 32], own, own),
        Err(RoutingError::RejectedPublicId)
    );
    assert_eq!(
        node.handle_endpoints_from_node(vec![1], [0u8; 24], own, Authority::ManagedNode(own)),
        Err(RoutingError::RefusedFromRoutingTable)
    );
    assert_eq!(
        node.handle_get_public_id_response(node.full_id.public_id, own),
        Err(RoutingError::RefusedFromRoutingTable)
    );
    assert_eq!(node.take_effects(), vec![]);

    // A client that we expect, with endpoints that do not open.
    let expected = relocated_identity();
    assert_eq!(node.handle_expect_close_node_request(expected.public_id), Ok(()));
    assert_eq!(
        node.handle_endpoints_from_client(
            vec![1; 40],
            [0u8; 24],
            expected.public_id.public_sign_key,
            own,
            own
        ),
        Err(RoutingError::AsymmetricDecryptionFailure)
    );
    assert_eq!(node.take_effects(), vec![]);
}

#[test]
fn a_relocated_node_offers_its_endpoints_to_its_new_group() {
    let mut core = Core::new(false, None);
    let _ = transport(&mut core, TransportEvent::OnConnect { connection: Some(9), endpoints: vec![5] });
    let proxy = relocated_identity();
    let bytes = encode(&Message::DirectMessage(DirectMessage::BootstrapIdentify {
        public_id: proxy.public_id,
        current_quorum_size: 5,
    }));
    let _ = transport(&mut core, TransportEvent::NewMessage { connection: 9, bytes });
    let key = core.full_id.public_id.public_sign_key;
    let members = vec![relocated_identity().public_id, relocated_identity().public_id];

    assert_eq!(
        core.handle_get_close_group_response(members.clone(), key, proxy.public_id.name),
        Ok(())
    );
    assert!(core.is_listening);
    let effects = core.take_effects();
    assert_eq!(effects[0], Effect::StartListening);
    let sent = hops(&effects);
    assert_eq!(sent.len(), 2);
    for ((connection, hop), member) in sent.iter().zip(members.iter()) {
        assert_eq!(*connection, 9);
        assert_eq!(*hop.content.content.dst(), Authority::ManagedNode(member.name));
    }

    // Members that we know already are not offered the endpoints again.
    assert_eq!(core.handle_get_close_group_response(members, key, proxy.public_id.name), Ok(()));
    assert_eq!(core.take_effects(), vec![]);
}

#[test]
fn the_direction_of_a_message_can_be_enforced() {
    let mut node = first_node();
    let own = node.full_id.public_id.name;
    let mut far = own;
    far.0[0] ^= 0x80;
    let mut peers = Vec::new();
    for i in 0..GROUP_SIZE {
        let mut name = far;
        name.0[63] ^= (i + 1) as u8;
        let peer = identity_named(name);
        let _ = introduce_node(&mut node, &peer, 100 + i as u64);
        peers.push(peer);
    }
    let _ = node.take_effects();
    let message = |payload: u8| {
        SignedMessage::new(
            RoutingMessage::Request(RequestMessage {
                src: Authority::ManagedNode(peers[1].public_id.name),
                dst: Authority::ManagedNode(far),
                content: RequestContent::Refresh(vec![payload]),
            }),
            &peers[1],
        )
    };
    // The message comes from a hop that is nearer to its destination than we are.
    let hop = peers[1].public_id.name;
    assert_eq!(node.route_at_node(message(1), &hop), Ok(()));
    assert_eq!(hops(&node.take_effects()).len(), 1);

    node.set_enforce_direction(true);
    assert_eq!(node.route_at_node(message(2), &hop), Err(RoutingError::DirectionCheckFailed));
    assert_eq!(node.take_effects(), vec![]);
    // From a hop that is farther it is sent on.
    let mut behind = own;
    behind.0[1] ^= 0x01;
    assert_eq!(node.route_at_node(message(3), &behind), Ok(()));
    assert_eq!(hops(&node.take_effects()).len(), 1);
    assert_eq!(node.state, State::Node);
}

#[test]
fn only_failures_that_concern_the_user_are_reported() {
    assert_eq!(report(Ok(())), Ok(()));
    assert_eq!(
        report(Err(RoutingError::Interface(InterfaceError::NotConnected))),
        Err(InterfaceError::NotConnected)
    );
    assert_eq!(report(Err(RoutingError::FilterCheckFailed)), Ok(()));
    assert_eq!(report(Err(RoutingError::BadAuthority)), Ok(()));
}

#[test]
fn messages_for_unknown_clients_cannot_be_relayed() {
    let (mut node, peers) = node_with_peers(1);
    let _ = node.take_effects();
    let message = SignedMessage::new(
        RoutingMessage::Response(ResponseMessage {
            src: Authority::ManagedNode(peers[0].public_id.name),
            dst: Authority::Client {
                client_key: [5u8; 32],
                proxy_node_name: node.full_id.public_id.name,
            },
            content: ResponseContent::PutSuccess(MessageId([0u8; 64])),
        }),
        &peers[0],
    );
    assert_eq!(
        node.relay_to_client(&message, &[5u8; 32]),
        Err(RoutingError::ClientConnectionNotFound)
    );
    assert_eq!(node.take_effects(), vec![]);
    assert_eq!(
        node.route_at_node(message, &peers[0].public_id.name),
        Err(RoutingError::ClientConnectionNotFound)
    );
}

#[test]
fn a_client_that_stays_a_client_gets_no_new_name() {
    let (mut node, _peers) = node_with_peers(GROUP_SIZE);
    let client = FullId::new();
    let serialised_public_id = encode_public_id(&client.public_id);
    let signature = sign(&serialised_public_id, &client.private_sign_key);
    let bytes = encode(&Message::DirectMessage(DirectMessage::ClientIdentify {
        serialised_public_id,
        signature,
        client_restriction: true,
    }));
    let _ = transport(&mut node, TransportEvent::NewMessage { connection: 60, bytes });
    assert_eq!(node.client_map.len(), 1);
    assert!(node.is_restricted_client(&client.public_id.public_sign_key));
    assert!(!node.is_restricted_client(&[0u8; 32]));

    let request = SignedMessage::new(
        RoutingMessage::Request(RequestMessage {
            src: Authority::Client {
                client_key: client.public_id.public_sign_key,
                proxy_node_name: node.full_id.public_id.name,
            },
            dst: Authority::NaeManager(client.public_id.name),
            content: RequestContent::GetNetworkName { current_id: client.public_id },
        }),
        &client,
    );
    let hop = HopMessage::new(request, client.public_id.name, &client.private_sign_key);
    assert_eq!(
        node.handle_new_message(60, encode(&Message::HopMessage(hop))),
        Err(RoutingError::ClientConnectionNotFound)
    );
    assert_eq!(node.take_effects(), vec![]);
}

#[test]
fn a_client_takes_what_its_proxy_brings() {
    let mut core = Core::new(true, None);
    let _ = transport(&mut core, TransportEvent::OnConnect { connection: Some(7), endpoints: vec![] });
    let proxy = relocated_identity();
    let bytes = encode(&Message::DirectMessage(DirectMessage::BootstrapIdentify {
        public_id: proxy.public_id,
        current_quorum_size: 1,
    }));
    let _ = transport(&mut core, TransportEvent::NewMessage { connection: 7, bytes });

    let key = core.full_id.public_id.public_sign_key;
    let response = |id: u8| {
        RoutingMessage::Response(ResponseMessage {
            src: Authority::ManagedNode(proxy.public_id.name),
            dst: Authority::Client {
                client_key: key,
                proxy_node_name: proxy.public_id.name,
            },
            content: ResponseContent::PutSuccess(MessageId([id; 64])),
        })
    };
    let from_proxy = |content: RoutingMessage| {
        encode(&Message::HopMessage(HopMessage::new(
            SignedMessage::new(content, &proxy),
            proxy.public_id.name,
            &proxy.private_sign_key,
        )))
    };
    let first = from_proxy(response(1));
    let second = from_proxy(response(2));
    assert_eq!(core.handle_new_message(7, first.clone()), Ok(()));
    match &core.take_effects()[..] {
        [Effect::Emit(Event::Response(taken))] => {
            assert_eq!(RoutingMessage::Response(taken.clone()), response(1))
        }
        other => panic!("unexpected effects {:?}", other),
    }
    // Not from a connection that is not the proxy's, and not twice.
    assert_eq!(core.handle_new_message(8, second), Err(RoutingError::UnknownConnection));
    assert_eq!(core.handle_new_message(7, first), Err(RoutingError::FilterCheckFailed));
    assert_eq!(core.take_effects(), vec![]);
}

#[test]
fn a_node_of_no_use_is_forgotten() {
    let mut node = first_node();
    let own = node.full_id.public_id.name;
    let mut id = FullId::new().public_id;
    id.set_name(own);
    assert_eq!(node.handle_expect_close_node_request(id), Ok(()));
    assert_eq!(node.handle_expect_close_node_request(id), Err(RoutingError::RejectedPublicId));
    assert_eq!(
        node.handle_endpoints_from_node(vec![1], [0u8; 24], own, Authority::ManagedNode(own)),
        Err(RoutingError::RefusedFromRoutingTable)
    );
    // Its public id is no longer held.
    assert_eq!(node.handle_expect_close_node_request(id), Ok(()));
}

#[test]
fn a_second_public_id_under_one_name_does_not_replace_the_first() {
    let mut node = first_node();
    let expected = relocated_identity();
    let mut impostor = FullId::new();
    impostor.public_id.set_name(expected.public_id.name);
    assert_eq!(node.handle_expect_close_node_request(expected.public_id), Ok(()));
    assert_eq!(
        node.handle_expect_close_node_request(impostor.public_id),
        Err(RoutingError::RejectedPublicId)
    );
    let _ = node.take_effects();

    // The impostor is still not the one we expect, and the first one still is.
    let introduce = |peer: &FullId| {
        let serialised_public_id = encode_public_id(&peer.public_id);
        let signature = sign(&serialised_public_id, &peer.private_sign_key);
        encode(&Message::DirectMessage(DirectMessage::NodeIdentify {
            serialised_public_id,
            signature,
        }))
    };
    assert_eq!(
        transport(&mut node, TransportEvent::NewMessage { connection: 70, bytes: introduce(&impostor) }),
        vec![Effect::DropNode { connection: 70 }]
    );
    assert!(node.peers.is_empty());
    let effects = transport(
        &mut node,
        TransportEvent::NewMessage { connection: 71, bytes: introduce(&expected) },
    );
    assert_eq!(node.peers.len(), 1);
    assert_eq!(node.peers[0].public_id, expected.public_id);
    assert_eq!(node.peers[0].connections, vec![71]);
    assert!(effects.iter().all(|effect| !matches!(effect, Effect::DropNode { .. })));
}

#[test]
fn pending_messages_are_handled_up_to_a_limit() {
    let (mut node, _peers) = node_with_peers(2);
    let _ = node.take_effects();
    let own = node.full_id.public_id.name;
    for payload in 0..3u8 {
        let content = RoutingMessage::Request(RequestMessage {
            src: Authority::ManagedNode(own),
            dst: Authority::NodeManager(own),
            content: RequestContent::Refresh(vec![payload]),
        });
        assert_eq!(
            node.run(Input::Action(Action::NodeSendMessage { content })),
            Reply::Sent(Ok(()))
        );
    }
    assert_eq!(node.pending.len(), 3);
    let _ = node.take_effects();

    assert_eq!(node.deliver_pending(0), 0);
    assert_eq!(node.pending.len(), 3);
    assert_eq!(node.deliver_pending(2), 2);
    assert_eq!(node.pending.len(), 1);
    assert_eq!(
        node.take_effects()
            .iter()
            .filter(|effect| matches!(effect, Effect::Emit(Event::Request(_))))
            .count(),
        2
    );
    assert_eq!(node.deliver_pending(10), 1);
    assert!(node.pending.is_empty());
    assert_eq!(node.deliver_pending(10), 0);
}

#[test]
fn sealed_endpoints_are_as_long_as_the_endpoints_and_the_seal() {
    let (mut node, peers) = node_with_peers(1);
    let _ = node.take_effects();
    let own = node.full_id.public_id.name;
    for len in [0usize, 1, 100] {
        node.endpoints = vec![7u8; len];
        assert_eq!(
            node.send_endpoints(
                &peers[0].public_id,
                Authority::ManagedNode(own),
                Authority::ManagedNode(peers[0].public_id.name)
            ),
            Ok(())
        );
        match &hops(&node.take_effects())[0].1.content.content {
            RoutingMessage::Request(RequestMessage {
                content: RequestContent::Endpoints { encrypted_endpoints, .. },
                ..
            }) => assert_eq!(encrypted_endpoints.len(), len + 16),
            other => panic!("unexpected message {:?}", other),
        }
        let _ = drain(&mut node);
    }
}

#[test]
fn a_full_bucket_needs_only_nearer_names() {
    let mut node = first_node();
    let own = node.full_id.public_id.name;
    // All of these share no leading bit with our name, so they stand in one bucket.
    let in_bucket = |low: u8| {
        let mut name = own;
        name.0[0] ^= 0x80;
        name.0[63] ^= low;
        name
    };
    assert!(node.want_address_in_routing_table(&in_bucket(9)));
    assert!(!node.want_address_in_routing_table(&own));
    for i in 0..GROUP_SIZE {
        let peer = identity_named(in_bucket(1 + i as u8));
        let _ = introduce_node(&mut node, &peer, 100 + i as u64);
    }
    assert_eq!(node.peers.len(), GROUP_SIZE);
    // Held names are wanted, a farther name is not, a nearer one is.
    assert!(node.want_address_in_routing_table(&in_bucket(3)));
    assert!(!node.want_address_in_routing_table(&in_bucket(9)));
    assert!(node.want_address_in_routing_table(&in_bucket(0)));
    // Another bucket has room.
    let mut elsewhere = own;
    elsewhere.0[0] ^= 0x40;
    assert!(node.want_address_in_routing_table(&elsewhere));
    assert_eq!(
        node.handle_connect_request(in_bucket(9), own),
        Err(RoutingError::RefusedFromRoutingTable)
    );
}
