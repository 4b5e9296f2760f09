//! The handshake between directly connected peers: a client or a node
//! says who it is, and a proxy takes it in or refuses.

use crate::authority::Authority;
use crate::crypto::{
    ed25519_accepts, ed25519_signature, sign_detached, signature_well_formed, verify_detached,
};
use crate::error::RoutingError;
use crate::event::{Effect, EffectView, Event};
use crate::id::PublicId;
use crate::messages::{
    DirectMessage, Message, RequestContent, RequestMessage, RoutingMessage, SignedMessage,
};
use crate::peers::{Client, Proxy, find_client, find_proxy, joining_count};
use crate::quorum::{accumulated, accumulator_set_quorum};
use crate::routing::{Core, State, Touched};
use crate::rules::{admission, admits, dynamic_quorum_size, quorum_for};
use crate::table::{table_len, table_names};
use crate::wire::{
    decode_public_id, encode, encode_public_id, lemma_public_id_wire_injective, wire_blob,
    wire_bool, wire_message, wire_public_id,
};
use vstd::prelude::*;

verus! {

/// The bytes of the message by which a proxy refuses.
pub open spec fn deny_frame() -> Seq<u8> {
    wire_message(Message::DirectMessage(DirectMessage::BootstrapDeny))
}

/// The bytes of the message by which the proxy `id` accepts and names its
/// quorum.
pub open spec fn welcome_frame(id: PublicId, quorum: u64) -> Seq<u8> {
    wire_message(
        Message::DirectMessage(
            DirectMessage::BootstrapIdentify { public_id: id, current_quorum_size: quorum },
        ),
    )
}

/// The bytes of the message by which `id` introduces itself: to a proxy,
/// with `Some` of whether it means to stay a client, or to a node, with
/// `None`. The signature is over the canonical bytes of `id`, with
/// `secret`.
pub open spec fn identify_frame(id: PublicId, secret: Seq<u8>, client: Option<bool>) -> Seq<u8> {
    let signed = wire_blob(wire_public_id(id)) + ed25519_signature(wire_public_id(id), secret);
    match client {
        Some(restriction) => seq![1u8] + (seq![2u8] + signed + wire_bool(restriction)),
        None => seq![1u8] + (seq![3u8] + signed),
    }
}

/// Whether `serialised` are the canonical bytes of `id` and `signature`
/// is one that the signing key of `id` accepts for them.
pub open spec fn claims_id(serialised: Seq<u8>, signature: Seq<u8>, id: PublicId) -> bool {
    &&& wire_public_id(id) == serialised
    &&& signature_well_formed(signature)
    &&& ed25519_accepts(signature, serialised, id.public_sign_key@)
}

/// The quorum that came over the wire, as a size.
pub open spec fn quorum_size_of(quorum: u64) -> usize {
    if quorum > usize::MAX as u64 {
        usize::MAX
    } else {
        quorum as usize
    }
}

/// One instruction to close the connection of each proxy, in order.
pub open spec fn proxy_drops(proxies: Seq<Proxy>) -> Seq<EffectView> {
    proxies.map_values(|proxy: Proxy| EffectView::DropNode { connection: proxy.connection })
}

/// Whether one of `proxies` is on `connection`.
pub open spec fn has_proxy(proxies: Seq<Proxy>, connection: u64) -> bool {
    exists|i: int| 0 <= i < proxies.len() && (#[trigger] proxies[i]).connection == connection
}

/// Whether one of `clients` has the signing key `key`.
pub open spec fn has_client(clients: Seq<Client>, key: Seq<u8>) -> bool {
    exists|i: int| 0 <= i < clients.len() && (#[trigger] clients[i]).key@ == key
}

/// The public id that signed bytes claim. Fails with `SerialisationError`
/// where the bytes are no public id, and with `FailedSignature` where the
/// signature is not by the id's signing key.
pub fn verify_signed_public_id(serialised: &[u8], signature: &[u8; 64]) -> (result: Result<
    PublicId,
    RoutingError,
>)
    ensures
        match result {
            Ok(id) => claims_id(serialised@, signature@, id),
            Err(error) => {
                &&& forall|id: PublicId| !claims_id(serialised@, signature@, id)
                &&& error == if serialised@.len() != 128 {
                    RoutingError::SerialisationError
                } else {
                    RoutingError::FailedSignature
                }
            },
        },
{
    match decode_public_id(serialised) {
        Ok(id) => {
            if verify_detached(signature, serialised, &id.public_sign_key) {
                Ok(id)
            } else {
                assert forall|other: PublicId| !claims_id(serialised@, signature@, other) by {
                    if wire_public_id(other) == serialised@ {
                        lemma_public_id_wire_injective(other, id);
                    }
                }
                broadcast use vstd::array::group_array_axioms;
                assert(wire_public_id(id).len() == 128);
                Err(RoutingError::FailedSignature)
            }
        },
        Err(error) => Err(error),
    }
}

impl Core {
    /// The request by which we ask for our new name: from us as a client of
    /// our first proxy, to the group that is responsible for our name.
    pub open spec fn relocation_request(&self) -> RoutingMessage {
        RoutingMessage::Request(
            RequestMessage {
                src: Authority::Client {
                    client_key: self.full_id.public_id.public_sign_key,
                    proxy_node_name: self.proxy_map@[0].public_id.name,
                },
                dst: Authority::NaeManager(self.full_id.public_id.name),
                content: RequestContent::GetNetworkName { current_id: self.full_id.public_id },
            },
        )
    }

    /// What taking the node on `connection` as our proxy does: we are a
    /// client of it and go by its quorum.
    pub open spec fn adopted_proxy(
        &self,
        before: &Core,
        connection: u64,
        public_id: PublicId,
        quorum: u64,
    ) -> bool {
        &&& self.kept(
            before,
            Touched { state: true, proxies: true, gathered: true, ..Touched::nothing() },
        )
        &&& self.state == State::Client
        &&& self.proxy_map@ == before.proxy_map@.push(Proxy { connection, public_id })
        &&& self.quorum_size == quorum_size_of(quorum)
        &&& accumulated(self.message_accumulator) == accumulated(before.message_accumulator)
    }

    /// What the answer of a proxy does.
    ///
    /// A proxy that has not been relocated is no node: its connection is
    /// closed. So is a connection that we already have a proxy on, and that
    /// proxy is forgotten. Otherwise we adopt the proxy; a client that means
    /// to stay one then tells the user that it is connected, and anyone else
    /// asks for a new name.
    pub open spec fn bootstrap_identified(
        &self,
        before: &Core,
        connection: u64,
        public_id: PublicId,
        quorum: u64,
        result: Result<(), RoutingError>,
    ) -> bool {
        if !public_id.is_relocated() {
            result == Ok::<(), RoutingError>(()) && self.only_added(
                before,
                seq![EffectView::DropNode { connection }],
            )
        } else if has_proxy(before.proxy_map@, connection) {
            &&& result == Ok::<(), RoutingError>(())
            &&& self.kept(before, Touched { proxies: true, outbox: true, ..Touched::nothing() })
            &&& exists|i: int|
                0 <= i < before.proxy_map@.len() && (#[trigger] before.proxy_map@[i]).connection
                    == connection && self.proxy_map@ == before.proxy_map@.remove(i)
            &&& self.effects() == before.effects().push(EffectView::DropNode { connection })
        } else if before.client_restriction {
            &&& result == Ok::<(), RoutingError>(())
            &&& exists|mid: Core| #[trigger]
                mid.adopted_proxy(before, connection, public_id, quorum) && self.only_added(
                    &mid,
                    seq![EffectView::Emit(Event::Connected)],
                )
        } else {
            exists|mid: Core, message: SignedMessage| #[trigger]
                mid.adopted_proxy(before, connection, public_id, quorum) && message.signed_as(
                    mid.relocation_request(),
                    mid.full_id,
                ) && #[trigger] self.sent(&mid, message, result)
        }
    }

    /// What beginning to bootstrap again does: we are disconnected, the
    /// connections of all proxies are closed and the proxies forgotten, and
    /// after a pause the search for a node to bootstrap from begins again.
    pub open spec fn bootstrap_restarted(&self, before: &Core) -> bool {
        &&& self.kept(
            before,
            Touched { state: true, proxies: true, outbox: true, ..Touched::nothing() },
        )
        &&& self.state == State::Disconnected
        &&& self.proxy_map@.len() == 0
        &&& self.effects() == before.effects() + seq![EffectView::StopBootstrap] + proxy_drops(
            before.proxy_map@,
        ) + seq![EffectView::Pause, EffectView::Bootstrap]
    }

    /// What a refusal by the proxy on `connection` does: the connection
    /// and those of all proxies are closed, the proxies forgotten, and after
    /// a pause the search for a node to bootstrap from begins again.
    pub open spec fn bootstrap_denied(&self, before: &Core, connection: u64) -> bool {
        &&& self.kept(
            before,
            Touched { state: true, proxies: true, outbox: true, ..Touched::nothing() },
        )
        &&& self.state == State::Disconnected
        &&& self.proxy_map@.len() == 0
        &&& self.effects() == before.effects() + seq![
            EffectView::DropNode { connection },
            EffectView::StopBootstrap,
        ] + proxy_drops(before.proxy_map@) + seq![EffectView::Pause, EffectView::Bootstrap]
    }

    /// What taking in the peer `entry` does: it is among our clients, in
    /// the place of a client with the same key where there was one, whose
    /// connection is then closed, and it is sent our public id and quorum.
    pub open spec fn took_client(&self, before: &Core, entry: Client) -> bool {
        let welcome = EffectView::Send {
            connection: entry.connection,
            bytes: welcome_frame(
                before.full_id.public_id,
                quorum_for(table_names(before.routing_table).len()) as u64,
            ),
        };
        &&& self.kept(before, Touched { clients: true, outbox: true, ..Touched::nothing() })
        &&& if has_client(before.client_map@, entry.key@) {
            exists|i: int|
                0 <= i < before.client_map@.len() && (#[trigger] before.client_map@[i]).key@
                    == entry.key@ && self.client_map@ == before.client_map@.update(i, entry)
                    && self.effects() == before.effects() + seq![
                    EffectView::DropNode { connection: before.client_map@[i].connection },
                    welcome,
                ]
        } else {
            &&& self.client_map@ == before.client_map@.push(entry)
            &&& self.effects() == before.effects() + seq![welcome]
        }
    }

    /// What the introduction of a peer that claims the public id `id` does.
    ///
    /// A peer that has been relocated is no client: its connection is
    /// closed. One that the rules of admission do not admit is refused.
    /// Any other is taken in.
    pub open spec fn client_claimed(
        &self,
        before: &Core,
        connection: u64,
        id: PublicId,
        restriction: bool,
    ) -> bool {
        if id.is_relocated() {
            self.only_added(before, seq![EffectView::DropNode { connection }])
        } else if !admits(
            restriction,
            table_names(before.routing_table).len(),
            joining_count(before.client_map@),
        ) {
            self.only_added(before, seq![EffectView::Send { connection, bytes: deny_frame() }])
        } else {
            self.took_client(
                before,
                Client { key: id.public_sign_key, connection, client_restriction: restriction },
            )
        }
    }

    /// What the introduction of a peer to us as its proxy does: a peer
    /// whose signed public id does not hold has its connection closed, and
    /// what happens to any other is what `client_claimed` says.
    pub open spec fn client_identified(
        &self,
        before: &Core,
        connection: u64,
        serialised: Seq<u8>,
        signature: Seq<u8>,
        restriction: bool,
    ) -> bool {
        &&& (forall|id: PublicId| !claims_id(serialised, signature, id)) ==> self.only_added(
            before,
            seq![EffectView::DropNode { connection }],
        )
        &&& forall|id: PublicId|
            claims_id(serialised, signature, id) ==> self.client_claimed(
                before,
                connection,
                id,
                restriction,
            )
    }

    /// Sends our public id and quorum down `connection`.
    pub fn bootstrap_identify(&mut self, connection: u64)
        ensures
            final(self).only_added(
                old(self),
                seq![
                    EffectView::Send {
                        connection,
                        bytes: welcome_frame(
                            old(self).full_id.public_id,
                            quorum_for(table_names(old(self).routing_table).len()) as u64,
                        ),
                    },
                ],
            ),
    {
        let len = table_len(&self.routing_table);
        let message = Message::DirectMessage(
            DirectMessage::BootstrapIdentify {
                public_id: self.full_id.public_id,
                current_quorum_size: dynamic_quorum_size(len) as u64,
            },
        );
        let bytes = encode(&message);
        self.push_effect(Effect::Send { connection, bytes });
    }

    /// Sends a refusal down `connection`.
    pub fn bootstrap_deny(&mut self, connection: u64)
        ensures
            final(self).only_added(
                old(self),
                seq![EffectView::Send { connection, bytes: deny_frame() }],
            ),
    {
        let bytes = encode(&Message::DirectMessage(DirectMessage::BootstrapDeny));
        self.push_effect(Effect::Send { connection, bytes });
    }

    fn identify(&mut self, connection: u64, client: Option<bool>)
        ensures
            final(self).only_added(
                old(self),
                seq![
                    EffectView::Send {
                        connection,
                        bytes: identify_frame(
                            old(self).full_id.public_id,
                            old(self).full_id.private_sign_key@,
                            client,
                        ),
                    },
                ],
            ),
    {
        let serialised_public_id = encode_public_id(&self.full_id.public_id);
        let signature = sign_detached(
            serialised_public_id.as_slice(),
            &self.full_id.private_sign_key,
        );
        let message = match client {
            Some(client_restriction) => DirectMessage::ClientIdentify {
                serialised_public_id,
                signature,
                client_restriction,
            },
            None => DirectMessage::NodeIdentify { serialised_public_id, signature },
        };
        let bytes = encode(&Message::DirectMessage(message));
        assert(bytes@ =~= identify_frame(
            old(self).full_id.public_id,
            old(self).full_id.private_sign_key@,
            client,
        ));
        self.push_effect(Effect::Send { connection, bytes });
    }

    /// Introduces us to the proxy on `connection`, with our signed public
    /// id and whether we mean to stay a client.
    pub fn client_identify(&mut self, connection: u64)
        ensures
            final(self).only_added(
                old(self),
                seq![
                    EffectView::Send {
                        connection,
                        bytes: identify_frame(
                            old(self).full_id.public_id,
                            old(self).full_id.private_sign_key@,
                            Some(old(self).client_restriction),
                        ),
                    },
                ],
            ),
    {
        let restriction = self.client_restriction;
        self.identify(connection, Some(restriction));
    }

    /// Introduces us to the node on `connection`, with our signed public
    /// id.
    pub fn node_identify(&mut self, connection: u64)
        ensures
            final(self).only_added(
                old(self),
                seq![
                    EffectView::Send {
                        connection,
                        bytes: identify_frame(
                            old(self).full_id.public_id,
                            old(self).full_id.private_sign_key@,
                            None,
                        ),
                    },
                ],
            ),
    {
        self.identify(connection, None);
    }

    /// Asks the group that is responsible for our name for a new name.
    /// Fails with `NotBootstrapped` where there is no proxy, and else does
    /// what `sent` says of the signed request.
    pub fn relocate(&mut self) -> (result: Result<(), RoutingError>)
        requires
            old(self).wf(),
        ensures
            final(self).wf(),
            if old(self).proxy_map@.len() == 0 {
                result == Err::<(), RoutingError>(RoutingError::NotBootstrapped)
                    && final(self).only_added(old(self), Seq::empty())
            } else {
                exists|message: SignedMessage|
                    message.signed_as(old(self).relocation_request(), old(self).full_id)
                        && #[trigger] final(self).sent(old(self), message, result)
            },
    {
        let src = match self.get_client_authority() {
            Ok(src) => src,
            Err(error) => {
                assert(self.effects() =~= old(self).effects() + Seq::<EffectView>::empty());
                return Err(error);
            },
        };
        let request = RoutingMessage::Request(
            RequestMessage {
                src,
                dst: Authority::NaeManager(self.full_id.public_id.name),
                content: RequestContent::GetNetworkName { current_id: self.full_id.public_id },
            },
        );
        let message = SignedMessage::new(request, &self.full_id);
        self.send(message)
    }

    /// Handles the answer of the proxy on `connection`, as
    /// `bootstrap_identified` says.
    pub fn handle_bootstrap_identify(
        &mut self,
        connection: u64,
        public_id: PublicId,
        quorum: u64,
    ) -> (result: Result<(), RoutingError>)
        requires
            old(self).wf(),
        ensures
            final(self).wf(),
            final(self).bootstrap_identified(old(self), connection, public_id, quorum, result),
    {
        if !public_id.has_relocated_name() {
            self.push_effect(Effect::DropNode { connection });
            return Ok(());
        }
        match find_proxy(&self.proxy_map, connection) {
            Some(i) => {
                let ghost held = self.outbox@;
                let _ = self.proxy_map.remove(i);
                self.outbox.push(Effect::DropNode { connection });
                assert(self.effects() =~= old(self).effects().push(
                    EffectView::DropNode { connection },
                ));
                assert(old(self).proxy_map@[i as int].connection == connection);
                return Ok(());
            },
            None => {},
        }
        self.proxy_map.push(Proxy { connection, public_id });
        self.state = State::Client;
        let size: usize = if quorum > usize::MAX as u64 {
            usize::MAX
        } else {
            quorum as usize
        };
        accumulator_set_quorum(&mut self.message_accumulator, size);
        self.quorum_size = size;
        let ghost mid = *self;
        assert(mid.adopted_proxy(old(self), connection, public_id, quorum));
        if self.client_restriction {
            self.push_effect(Effect::Emit(Event::Connected));
            Ok(())
        } else {
            let result = self.relocate();
            result
        }
    }

    /// Gives up on the proxy on `connection` and looks for another, as
    /// `bootstrap_denied` says.
    pub fn retry_bootstrap_with_blacklist(&mut self, connection: u64)
        ensures
            final(self).bootstrap_denied(old(self), connection),
            old(self).wf() ==> final(self).wf(),
    {
        self.push_effect(Effect::DropNode { connection });
        self.restart_bootstrap();
        assert(self.effects() =~= old(self).effects() + seq![
            EffectView::DropNode { connection },
            EffectView::StopBootstrap,
        ] + proxy_drops(old(self).proxy_map@) + seq![EffectView::Pause, EffectView::Bootstrap]);
    }

    /// Handles the introduction of a peer that claims the id `id`, as
    /// `client_claimed` says.
    pub fn handle_client_claim(&mut self, connection: u64, id: PublicId, restriction: bool)
        requires
            old(self).wf(),
        ensures
            final(self).wf(),
            final(self).client_claimed(old(self), connection, id, restriction),
    {
        if id.has_relocated_name() {
            self.push_effect(Effect::DropNode { connection });
            return ;
        }
        let len = table_len(&self.routing_table);
        let joining = self.joining_nodes_num();
        if !admission(restriction, len, joining) {
            self.bootstrap_deny(connection);
            return ;
        }
        let entry = Client { key: id.public_sign_key, connection, client_restriction: restriction };
        let ghost welcome = EffectView::Send {
            connection,
            bytes: welcome_frame(
                old(self).full_id.public_id,
                quorum_for(table_names(old(self).routing_table).len()) as u64,
            ),
        };
        match find_client(&self.client_map, &id.public_sign_key) {
            Some(i) => {
                let previous = self.client_map[i].connection;
                self.client_map.set(i, entry);
                self.push_effect(Effect::DropNode { connection: previous });
                self.bootstrap_identify(connection);
                proof {
                    let place = i as int;
                    assert(old(self).client_map@[place].key@ == entry.key@);
                    assert(has_client(old(self).client_map@, entry.key@));
                    assert(self.client_map@ == old(self).client_map@.update(place, entry));
                    assert(self.effects() =~= old(self).effects() + seq![
                        EffectView::DropNode { connection: old(self).client_map@[place].connection },
                        welcome,
                    ]);
                    assert(self.took_client(old(self), entry));
                }
            },
            None => {
                self.client_map.push(entry);
                self.bootstrap_identify(connection);
                proof {
                    assert(!has_client(old(self).client_map@, entry.key@));
                    assert(self.effects() =~= old(self).effects() + seq![welcome]);
                    assert(self.took_client(old(self), entry));
                }
            },
        }
    }

    /// Handles the introduction of a peer to us as its proxy. A peer whose
    /// signed public id does not hold has its connection closed; what
    /// happens to any other is what `client_claimed` says.
    pub fn handle_client_identify(
        &mut self,
        connection: u64,
        serialised_public_id: &Vec<u8>,
        signature: &[u8; 64],
        restriction: bool,
    )
        requires
            old(self).wf(),
        ensures
            final(self).wf(),
            final(self).client_identified(
                old(self),
                connection,
                serialised_public_id@,
                signature@,
                restriction,
            ),
    {
        match verify_signed_public_id(serialised_public_id.as_slice(), signature) {
            Ok(id) => {
                self.handle_client_claim(connection, id, restriction);
                assert forall|other: PublicId|
                    claims_id(serialised_public_id@, signature@, other) implies self.client_claimed(
                    old(self),
                    connection,
                    other,
                    restriction,
                ) by {
                    lemma_public_id_wire_injective(other, id);
                }
            },
            Err(_) => {
                self.push_effect(Effect::DropNode { connection });
            },
        }
    }
}

} // verus!
