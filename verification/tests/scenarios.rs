use routing_core::authority::Authority;
use routing_core::data::{Data, DataKind, MessageId};
use routing_core::error::RoutingError;
use routing_core::event::{Effect, Event, Input, TransportEvent};
use routing_core::id::FullId;
use routing_core::messages::{
    DirectMessage, HopMessage, Message, RequestContent, RequestMessage, RoutingMessage,
    SignedMessage,
};
use routing_core::names::XorName;
use routing_core::parse::decode;
use routing_core::routing::{Core, State};
use routing_core::rules::GROUP_SIZE;
use routing_core::wire::{encode, encode_public_id};

fn sign(message: &[u8], secret: &[u8; 64]) -> [u8; 64] {
    sodiumoxide::crypto::sign::sign_detached(
        message,
        &sodiumoxide::crypto::sign::SecretKey(*secret),
    )
    .to_bytes()
}

fn sha512(data: &[u8]) -> XorName {
    XorName(sodiumoxide::crypto::hash::sha512::hash(data).0)
}

fn random_name() -> XorName {
    let mut bytes = [0u8; 64];
    for byte in bytes.iter_mut() {
        *byte = rand::random();
    }
    XorName(bytes)
}

fn relocated_identity() -> FullId {
    let mut full_id = FullId::new();
    full_id.public_id.set_name(random_name());
    full_id
}

fn transport(core: &mut Core, event: TransportEvent) -> Vec<Effect> {
    let _ = core.run(Input::Transport(event));
    core.take_effects()
}

fn identify_bytes(peer: &FullId, client: Option<bool>) -> Vec<u8> {
    let serialised_public_id = encode_public_id(&peer.public_id);
    let signature = sign(&serialised_public_id, &peer.private_sign_key);
    encode(&Message::DirectMessage(match client {
        Some(client_restriction) => {
            DirectMessage::ClientIdentify { serialised_public_id, signature, client_restriction }
        }
        None => DirectMessage::NodeIdentify { serialised_public_id, signature },
    }))
}

fn first_node() -> Core {
    let mut core = Core::new(false, None);
    let _ = transport(&mut core, TransportEvent::OnAccept { connection: 1, endpoints: vec![1, 2, 3] });
    core
}

fn introduce_node(core: &mut Core, peer: &FullId, connection: u64) -> Vec<Effect> {
    assert_eq!(core.handle_expect_close_node_request(peer.public_id), Ok(()));
    transport(core, TransportEvent::NewMessage { connection, bytes: identify_bytes(peer, None) })
}

fn node_with_peers(count: usize) -> (Core, Vec<FullId>) {
    let mut core = first_node();
    let mut peers = Vec::new();
    for i in 0..count {
        let peer = relocated_identity();
        let _ = introduce_node(&mut core, &peer, 100 + i as u64);
        peers.push(peer);
    }
    assert_eq!(core.peers.len(), count);
    (core, peers)
}

fn sends(effects: &[Effect]) -> Vec<(u64, Message)> {
    effects
        .iter()
        .filter_map(|effect| match effect {
            Effect::Send { connection, bytes } => {
                Some((*connection, decode(bytes).expect("what is sent is a message")))
            }
            _ => None,
        })
        .collect()
}

fn user_requests(effects: &[Effect]) -> usize {
    effects.iter().filter(|effect| matches!(effect, Effect::Emit(Event::Request(_)))).count()
}

fn put_from(peer: &FullId, dst: XorName) -> Vec<u8> {
    let content = RoutingMessage::Request(RequestMessage {
        src: Authority::ManagedNode(peer.public_id.name),
        dst: Authority::ManagedNode(dst),
        content: RequestContent::Put(
            Data { kind: DataKind::Plain, name: random_name(), payload: vec![1, 2, 3] },
            MessageId([7u8; 64]),
        ),
    });
    let signed = SignedMessage::new(content, peer);
    encode(&Message::HopMessage(HopMessage::new(
        signed,
        peer.public_id.name,
        &peer.private_sign_key,
    )))
}

#[test]
fn a_new_core_asks_to_bootstrap() {
    let mut core = Core::new(true, None);
    assert_eq!(core.state, State::Disconnected);
    assert!(core.client_restriction);
    assert!(!core.is_listening);
    assert!(core.peers.is_empty() && core.proxy_map.is_empty() && core.client_map.is_empty());
    assert!(!core.full_id.public_id.has_relocated_name());
    assert_eq!(core.take_effects(), vec![Effect::Bootstrap]);
    assert_eq!(core.take_effects(), vec![]);

    let keys = FullId::new();
    let core = Core::new(false, Some(keys.clone()));
    assert_eq!(core.full_id.public_id, keys.public_id);
    assert!(!core.client_restriction);
}

#[test]
fn client_bootstrap() {
    let mut core = Core::new(true, None);
    let _ = core.take_effects();

    let effects = transport(
        &mut core,
        TransportEvent::OnConnect { connection: Some(7), endpoints: vec![9, 9] },
    );
    assert_eq!(core.state, State::Bootstrapping);
    assert_eq!(core.endpoints, vec![9, 9]);
    let sent = sends(&effects);
    assert_eq!(sent.len(), 1);
    assert_eq!(effects.len(), 1);
    match &sent[0] {
        (7, Message::DirectMessage(DirectMessage::ClientIdentify {
            serialised_public_id,
            signature,
            client_restriction,
        })) => {
            assert!(*client_restriction);
            assert_eq!(*serialised_public_id, encode_public_id(&core.full_id.public_id));
            assert_eq!(*signature, sign(serialised_public_id, &core.full_id.private_sign_key));
        }
        other => panic!("unexpected message {:?}", other),
    }

    let proxy = relocated_identity();
    let bytes = encode(&Message::DirectMessage(DirectMessage::BootstrapIdentify {
        public_id: proxy.public_id,
        current_quorum_size: 8,
    }));
    let effects = transport(&mut core, TransportEvent::NewMessage { connection: 7, bytes });
    assert_eq!(effects, vec![Effect::Emit(Event::Connected)]);
    assert_eq!(core.state, State::Client);
    assert_eq!(core.quorum_size, 8);
    assert_eq!(core.proxy_map.len(), 1);
    assert_eq!(core.proxy_map[0].connection, 7);
    assert_eq!(core.proxy_map[0].public_id, proxy.public_id);
}

#[test]
fn a_proxy_that_was_not_relocated_is_dropped() {
    let mut core = Core::new(true, None);
    let _ = transport(&mut core, TransportEvent::OnConnect { connection: Some(7), endpoints: vec![] });
    let bytes = encode(&Message::DirectMessage(DirectMessage::BootstrapIdentify {
        public_id: FullId::new().public_id,
        current_quorum_size: 8,
    }));
    let effects = transport(&mut core, TransportEvent::NewMessage { connection: 7, bytes });
    assert_eq!(effects, vec![Effect::DropNode { connection: 7 }]);
    assert_eq!(core.state, State::Bootstrapping);
    assert!(core.proxy_map.is_empty());
}

#[test]
fn a_second_answer_on_one_connection_drops_the_proxy() {
    let mut core = Core::new(true, None);
    let _ = transport(&mut core, TransportEvent::OnConnect { connection: Some(7), endpoints: vec![] });
    let bytes = encode(&Message::DirectMessage(DirectMessage::BootstrapIdentify {
        public_id: relocated_identity().public_id,
        current_quorum_size: 3,
    }));
    let _ = transport(&mut core, TransportEvent::NewMessage { connection: 7, bytes: bytes.clone() });
    assert_eq!(core.proxy_map.len(), 1);
    let effects = transport(&mut core, TransportEvent::NewMessage { connection: 7, bytes });
    assert_eq!(effects, vec![Effect::DropNode { connection: 7 }]);
    assert!(core.proxy_map.is_empty());
}

#[test]
fn a_joining_node_asks_for_a_name() {
    let mut core = Core::new(false, None);
    let _ = transport(&mut core, TransportEvent::OnConnect { connection: Some(7), endpoints: vec![] });
    let proxy = relocated_identity();
    let bytes = encode(&Message::DirectMessage(DirectMessage::BootstrapIdentify {
        public_id: proxy.public_id,
        current_quorum_size: 5,
    }));
    let effects = transport(&mut core, TransportEvent::NewMessage { connection: 7, bytes });
    assert_eq!(core.state, State::Client);
    let sent = sends(&effects);
    assert_eq!(sent.len(), 1);
    match &sent[0] {
        (7, Message::HopMessage(hop)) => {
            assert_eq!(hop.name, core.full_id.public_id.name);
            assert_eq!(hop.verify(&core.full_id.public_id.public_sign_key), Ok(()));
            assert_eq!(hop.content.check_integrity(), Ok(()));
            assert_eq!(
                hop.content.content,
                RoutingMessage::Request(RequestMessage {
                    src: Authority::Client {
                        client_key: core.full_id.public_id.public_sign_key,
                        proxy_node_name: proxy.public_id.name,
                    },
                    dst: Authority::NaeManager(core.full_id.public_id.name),
                    content: RequestContent::GetNetworkName { current_id: core.full_id.public_id },
                })
            );
        }
        other => panic!("unexpected message {:?}", other),
    }
}

#[test]
fn first_in_network() {
    let mut core = Core::new(false, None);
    let _ = core.take_effects();
    let old_name = core.full_id.public_id.name;
    let effects = transport(
        &mut core,
        TransportEvent::OnAccept { connection: 3, endpoints: vec![4, 5, 6] },
    );
    assert_eq!(effects, vec![]);
    assert_eq!(core.state, State::Node);
    assert_eq!(core.full_id.public_id.name, sha512(&old_name.0));
    assert!(core.full_id.public_id.has_relocated_name());
    assert!(core.peers.is_empty());
    assert_eq!(core.close_group_names(), vec![]);
    assert_eq!(core.endpoints, vec![4, 5, 6]);

    // A second connection changes neither the state nor the name.
    let name = core.full_id.public_id.name;
    let _ = transport(&mut core, TransportEvent::OnAccept { connection: 4, endpoints: vec![7] });
    assert_eq!(core.state, State::Node);
    assert_eq!(core.full_id.public_id.name, name);
    assert_eq!(core.endpoints, vec![7]);
}

#[test]
fn duplicate_message_suppression() {
    let (mut node, peers) = node_with_peers(1);
    let bytes = put_from(&peers[0], node.full_id.public_id.name);

    let effects = transport(
        &mut node,
        TransportEvent::NewMessage { connection: 100, bytes: bytes.clone() },
    );
    assert_eq!(user_requests(&effects), 1);
    assert_eq!(effects.len(), 1);

    let effects = transport(&mut node, TransportEvent::NewMessage { connection: 100, bytes });
    assert_eq!(effects, vec![]);
    assert!(node.pending.is_empty());
}

#[test]
fn a_repeated_message_fails_the_filter_check() {
    let (mut node, peers) = node_with_peers(1);
    let bytes = put_from(&peers[0], node.full_id.public_id.name);
    assert_eq!(node.handle_new_message(100, bytes.clone()), Ok(()));
    assert_eq!(node.handle_new_message(100, bytes), Err(RoutingError::FilterCheckFailed));
}

#[test]
fn hop_messages_are_held_against_a_known_key() {
    let (mut node, peers) = node_with_peers(1);
    let own = node.full_id.public_id.name;

    // From a stranger on an unknown connection.
    let stranger = relocated_identity();
    assert_eq!(
        node.handle_new_message(55, put_from(&stranger, own)),
        Err(RoutingError::UnknownConnection)
    );

    // Signed by someone else than the hop that it names.
    let content = RoutingMessage::Request(RequestMessage {
        src: Authority::ManagedNode(stranger.public_id.name),
        dst: Authority::ManagedNode(own),
        content: RequestContent::Connect,
    });
    let forged = HopMessage::new(
        SignedMessage::new(content, &stranger),
        peers[0].public_id.name,
        &stranger.private_sign_key,
    );
    assert_eq!(
        node.handle_new_message(100, encode(&Message::HopMessage(forged))),
        Err(RoutingError::FailedSignature)
    );
    assert_eq!(node.take_effects(), vec![]);

    // While disconnected nothing is taken.
    let mut idle = Core::new(true, None);
    let _ = idle.take_effects();
    assert_eq!(
        idle.handle_new_message(100, put_from(&peers[0], own)),
        Err(RoutingError::InvalidStateForOperation)
    );
    assert_eq!(idle.handle_new_message(100, vec![9, 9, 9]), Err(RoutingError::SerialisationError));
}

#[test]
fn a_tampered_message_is_refused() {
    let (mut node, peers) = node_with_peers(1);
    let peer = &peers[0];
    let content = RoutingMessage::Request(RequestMessage {
        src: Authority::ManagedNode(peer.public_id.name),
        dst: Authority::ManagedNode(node.full_id.public_id.name),
        content: RequestContent::Refresh(vec![1]),
    });
    let mut signed = SignedMessage::new(content, peer);
    signed.content = RoutingMessage::Request(RequestMessage {
        src: Authority::ManagedNode(peer.public_id.name),
        dst: Authority::ManagedNode(node.full_id.public_id.name),
        content: RequestContent::Refresh(vec![2]),
    });
    let hop = HopMessage::new(signed, peer.public_id.name, &peer.private_sign_key);
    assert_eq!(
        node.handle_new_message(100, encode(&Message::HopMessage(hop))),
        Err(RoutingError::FailedSignature)
    );
    assert_eq!(node.take_effects(), vec![]);
}

#[test]
fn admission_denial() {
    let (mut node, _peers) = node_with_peers(GROUP_SIZE);
    let _ = node.take_effects();

    let first = FullId::new();
    let effects = transport(
        &mut node,
        TransportEvent::NewMessage { connection: 50, bytes: identify_bytes(&first, Some(false)) },
    );
    let sent = sends(&effects);
    assert_eq!(sent.len(), 1);
    assert_eq!(
        sent[0],
        (
            50,
            Message::DirectMessage(DirectMessage::BootstrapIdentify {
                public_id: node.full_id.public_id,
                current_quorum_size: 5,
            })
        )
    );
    assert_eq!(node.joining_nodes_num(), 1);

    let second = FullId::new();
    let effects = transport(
        &mut node,
        TransportEvent::NewMessage { connection: 51, bytes: identify_bytes(&second, Some(false)) },
    );
    assert_eq!(
        effects,
        vec![Effect::Send {
            connection: 51,
            bytes: encode(&Message::DirectMessage(DirectMessage::BootstrapDeny)),
        }]
    );
    assert_eq!(node.joining_nodes_num(), 1);
    assert_eq!(node.client_map.len(), 1);

    // A client that stays a client is welcome once the table is full.
    let client = FullId::new();
    let effects = transport(
        &mut node,
        TransportEvent::NewMessage { connection: 52, bytes: identify_bytes(&client, Some(true)) },
    );
    assert_eq!(sends(&effects).len(), 1);
    assert_eq!(node.client_map.len(), 2);
    assert_eq!(node.joining_nodes_num(), 1);
}

#[test]
fn a_small_network_takes_up_to_a_group_of_joining_nodes() {
    let mut node = first_node();
    for i in 0..GROUP_SIZE {
        let effects = transport(
            &mut node,
            TransportEvent::NewMessage {
                connection: 60 + i as u64,
                bytes: identify_bytes(&FullId::new(), Some(false)),
            },
        );
        assert!(matches!(
            sends(&effects)[0].1,
            Message::DirectMessage(DirectMessage::BootstrapIdentify { current_quorum_size: 0, .. })
        ));
    }
    assert_eq!(node.joining_nodes_num(), GROUP_SIZE);
    let effects = transport(
        &mut node,
        TransportEvent::NewMessage { connection: 99, bytes: identify_bytes(&FullId::new(), Some(false)) },
    );
    assert_eq!(sends(&effects)[0].1, Message::DirectMessage(DirectMessage::BootstrapDeny));
    assert_eq!(node.joining_nodes_num(), GROUP_SIZE);

    // A client that stays a client has to wait for a full table.
    let effects = transport(
        &mut node,
        TransportEvent::NewMessage { connection: 98, bytes: identify_bytes(&FullId::new(), Some(true)) },
    );
    assert_eq!(sends(&effects)[0].1, Message::DirectMessage(DirectMessage::BootstrapDeny));
}

#[test]
fn a_client_that_comes_again_replaces_its_connection() {
    let mut node = first_node();
    let client = FullId::new();
    let _ = transport(
        &mut node,
        TransportEvent::NewMessage { connection: 60, bytes: identify_bytes(&client, Some(false)) },
    );
    let effects = transport(
        &mut node,
        TransportEvent::NewMessage { connection: 61, bytes: identify_bytes(&client, Some(false)) },
    );
    assert_eq!(effects[0], Effect::DropNode { connection: 60 });
    assert_eq!(sends(&effects).len(), 1);
    assert_eq!(node.client_map.len(), 1);
    assert_eq!(node.client_map[0].connection, 61);
}

#[test]
fn peers_that_do_not_prove_who_they_are_are_dropped() {
    let mut node = first_node();
    let peer = FullId::new();
    let serialised_public_id = encode_public_id(&peer.public_id);

    // Signed with another key.
    let signature = sign(&serialised_public_id, &FullId::new().private_sign_key);
    let bytes = encode(&Message::DirectMessage(DirectMessage::ClientIdentify {
        serialised_public_id: serialised_public_id.clone(),
        signature,
        client_restriction: false,
    }));
    assert_eq!(
        transport(&mut node, TransportEvent::NewMessage { connection: 60, bytes }),
        vec![Effect::DropNode { connection: 60 }]
    );

    // No public id at all.
    let bytes = encode(&Message::DirectMessage(DirectMessage::NodeIdentify {
        serialised_public_id: vec![1, 2, 3],
        signature: [0u8; 64],
    }));
    assert_eq!(
        transport(&mut node, TransportEvent::NewMessage { connection: 61, bytes }),
        vec![Effect::DropNode { connection: 61 }]
    );

    // A client that was relocated already.
    let moved = relocated_identity();
    assert_eq!(
        transport(
            &mut node,
            TransportEvent::NewMessage { connection: 62, bytes: identify_bytes(&moved, Some(true)) }
        ),
        vec![Effect::DropNode { connection: 62 }]
    );

    // A node that nobody told us to expect.
    assert_eq!(
        transport(
            &mut node,
            TransportEvent::NewMessage { connection: 63, bytes: identify_bytes(&moved, None) }
        ),
        vec![Effect::DropNode { connection: 63 }]
    );

    // A node under a name that we expect another public id under.
    assert_eq!(node.handle_expect_close_node_request(moved.public_id), Ok(()));
    let mut impostor = FullId::new();
    impostor.public_id.set_name(moved.public_id.name);
    assert_eq!(
        transport(
            &mut node,
            TransportEvent::NewMessage { connection: 64, bytes: identify_bytes(&impostor, None) }
        ),
        vec![Effect::DropNode { connection: 64 }]
    );
    assert!(node.client_map.is_empty() && node.peers.is_empty());
}

#[test]
fn proxy_drop_on_rt_full() {
    let mut core = Core::new(false, None);
    let _ = transport(&mut core, TransportEvent::OnConnect { connection: Some(9), endpoints: vec![] });
    let proxy = relocated_identity();
    let bytes = encode(&Message::DirectMessage(DirectMessage::BootstrapIdentify {
        public_id: proxy.public_id,
        current_quorum_size: 5,
    }));
    let _ = transport(&mut core, TransportEvent::NewMessage { connection: 9, bytes });
    assert_eq!(core.state, State::Client);

    let mut relocated_id = core.full_id.public_id;
    relocated_id.set_name(random_name());
    assert_eq!(
        core.handle_get_network_name_response(
            relocated_id,
            core.full_id.public_id.public_sign_key,
            proxy.public_id.name
        ),
        Ok(())
    );
    assert_eq!(core.full_id.public_id.name, relocated_id.name);
    let _ = core.take_effects();

    let mut dropped = 0;
    for i in 0..GROUP_SIZE {
        let peer = relocated_identity();
        let effects = introduce_node(&mut core, &peer, 20 + i as u64);
        assert_eq!(core.state, State::Node);
        dropped += effects
            .iter()
            .filter(|effect| **effect == Effect::DropNode { connection: 9 })
            .count();
        if i + 1 < GROUP_SIZE {
            assert_eq!(core.proxy_map.len(), 1);
            assert_eq!(dropped, 0);
        }
        // Each node is greeted on its connection.
        assert!(matches!(
            sends(&effects).last(),
            Some((connection, Message::DirectMessage(DirectMessage::NodeIdentify { .. })))
                if *connection == 20 + i as u64
        ));
    }
    assert_eq!(core.peers.len(), GROUP_SIZE);
    assert_eq!(dropped, 1);
    assert!(core.proxy_map.is_empty());
}

#[test]
fn a_name_is_taken_once() {
    let mut core = Core::new(false, None);
    let _ = transport(&mut core, TransportEvent::OnConnect { connection: Some(9), endpoints: vec![] });
    let proxy = relocated_identity();
    let bytes = encode(&Message::DirectMessage(DirectMessage::BootstrapIdentify {
        public_id: proxy.public_id,
        current_quorum_size: 5,
    }));
    let _ = transport(&mut core, TransportEvent::NewMessage { connection: 9, bytes });
    let key = core.full_id.public_id.public_sign_key;

    // The name that we began with is no name to take.
    let unchanged = core.full_id.public_id;
    assert_eq!(
        core.handle_get_network_name_response(unchanged, key, proxy.public_id.name),
        Err(RoutingError::InvalidStateForOperation)
    );

    let mut first = core.full_id.public_id;
    first.set_name(random_name());
    assert_eq!(core.handle_get_network_name_response(first, key, proxy.public_id.name), Ok(()));
    assert_eq!(core.full_id.public_id.name, first.name);

    let mut second = core.full_id.public_id;
    second.set_name(random_name());
    assert_eq!(
        core.handle_get_network_name_response(second, key, proxy.public_id.name),
        Err(RoutingError::InvalidStateForOperation)
    );
    assert_eq!(core.full_id.public_id.name, first.name);
}

#[test]
fn a_refusal_starts_the_search_again() {
    let mut core = Core::new(true, None);
    let _ = transport(&mut core, TransportEvent::OnConnect { connection: Some(7), endpoints: vec![] });
    let bytes = encode(&Message::DirectMessage(DirectMessage::BootstrapIdentify {
        public_id: relocated_identity().public_id,
        current_quorum_size: 8,
    }));
    let _ = transport(&mut core, TransportEvent::NewMessage { connection: 7, bytes });
    assert_eq!(core.proxy_map.len(), 1);

    let bytes = encode(&Message::DirectMessage(DirectMessage::BootstrapDeny));
    let effects = transport(&mut core, TransportEvent::NewMessage { connection: 8, bytes });
    assert_eq!(
        effects,
        vec![
            Effect::DropNode { connection: 8 },
            Effect::StopBootstrap,
            Effect::DropNode { connection: 7 },
            Effect::Pause,
            Effect::Bootstrap,
        ]
    );
    assert_eq!(core.state, State::Disconnected);
    assert!(core.proxy_map.is_empty());
}

#[test]
fn listening_starts_once() {
    let mut core = Core::new(true, None);
    let _ = core.take_effects();
    assert_eq!(transport(&mut core, TransportEvent::BootstrapFinished), vec![Effect::StartListening]);
    assert!(core.is_listening);
    assert_eq!(transport(&mut core, TransportEvent::BootstrapFinished), vec![]);

    let mut node = first_node();
    assert_eq!(transport(&mut node, TransportEvent::BootstrapFinished), vec![]);
    assert!(!node.is_listening);

    assert_eq!(
        transport(&mut node, TransportEvent::ExternalEndpoints { endpoints: vec![8, 8] }),
        vec![]
    );
    assert_eq!(node.endpoints, vec![8, 8]);
    assert_eq!(
        transport(&mut node, TransportEvent::OnConnect { connection: None, endpoints: vec![1] }),
        vec![]
    );
    assert_eq!(node.endpoints, vec![8, 8]);
}

#[test]
fn a_lost_connection_forgets_its_peer() {
    let (mut node, peers) = node_with_peers(2);
    let lost = peers[0].public_id.name;

    let effects = transport(&mut node, TransportEvent::LostConnection { connection: 100 });
    assert_eq!(
        effects,
        vec![Effect::Emit(Event::Churn {
            id: MessageId::from_lost_node(lost),
            lost_close_node: Some(lost),
        })]
    );
    assert_eq!(node.peers.len(), 1);
    assert_eq!(node.peers[0].public_id, peers[1].public_id);
    assert_eq!(node.close_group_names(), vec![peers[1].public_id.name]);

    // A connection that leads nowhere changes nothing.
    assert_eq!(transport(&mut node, TransportEvent::LostConnection { connection: 100 }), vec![]);
    assert_eq!(node.peers.len(), 1);

    // Clients and proxies go with their connections.
    let _ = transport(
        &mut node,
        TransportEvent::NewMessage { connection: 60, bytes: identify_bytes(&FullId::new(), Some(false)) },
    );
    assert_eq!(node.client_map.len(), 1);
    assert_eq!(transport(&mut node, TransportEvent::LostConnection { connection: 60 }), vec![]);
    assert!(node.client_map.is_empty());

    let mut client = Core::new(true, None);
    let _ = transport(&mut client, TransportEvent::OnConnect { connection: Some(7), endpoints: vec![] });
    let bytes = encode(&Message::DirectMessage(DirectMessage::BootstrapIdentify {
        public_id: relocated_identity().public_id,
        current_quorum_size: 8,
    }));
    let _ = transport(&mut client, TransportEvent::NewMessage { connection: 7, bytes });
    assert_eq!(client.proxy_map.len(), 1);
    // Another connection takes no proxy with it.
    assert_eq!(transport(&mut client, TransportEvent::LostConnection { connection: 8 }), vec![]);
    assert_eq!(client.state, State::Client);
    // A client that has lost its proxy begins again.
    assert_eq!(
        transport(&mut client, TransportEvent::LostConnection { connection: 7 }),
        vec![Effect::StopBootstrap, Effect::Pause, Effect::Bootstrap]
    );
    assert!(client.proxy_map.is_empty());
    assert_eq!(client.state, State::Disconnected);
}

#[test]
fn a_node_with_two_connections_survives_the_loss_of_one() {
    let (mut node, peers) = node_with_peers(1);
    let effects = transport(
        &mut node,
        TransportEvent::NewMessage { connection: 200, bytes: identify_bytes(&peers[0], None) },
    );
    assert_eq!(sends(&effects).len(), 1);
    assert_eq!(node.peers[0].connections, vec![100, 200]);
    // The same introduction on a known connection is not answered again.
    let effects = transport(
        &mut node,
        TransportEvent::NewMessage { connection: 200, bytes: identify_bytes(&peers[0], None) },
    );
    assert_eq!(effects, vec![]);

    assert_eq!(transport(&mut node, TransportEvent::LostConnection { connection: 100 }), vec![]);
    assert_eq!(node.peers[0].connections, vec![200]);
    let effects = transport(&mut node, TransportEvent::LostConnection { connection: 200 });
    assert_eq!(effects.len(), 1);
    assert!(node.peers.is_empty());
}

#[test]
fn a_new_close_node_is_announced() {
    let mut node = first_node();
    let peer = relocated_identity();
    let effects = introduce_node(&mut node, &peer, 100);
    assert_eq!(
        effects[0],
        Effect::Emit(Event::Churn {
            id: MessageId::from_added_node(peer.public_id.name),
            lost_close_node: None,
        })
    );
    assert_eq!(effects.len(), 2);
    assert_eq!(node.close_group_names(), vec![peer.public_id.name]);
}
