//! The way of a signed message through a node or client: from the hop that
//! brought it, past the filters, to where it is sent on or handled.

use crate::authority::Authority;
use crate::bytes::{bytes_equal, copy_bytes};
use crate::data::{Data, MessageId};
use crate::error::RoutingError;
use crate::event::EffectView;
use crate::filter::{filter_insert, filter_items};
use crate::id::PublicId;
use crate::messages::{
    HopMessage, RequestContent, RequestMessage, ResponseContent, ResponseMessage, RoutingMessage,
    SignedMessage,
};
use crate::names::XorName;
use crate::peers::{find_client, find_client_by_connection, find_peer, find_proxy, Client};
use crate::routing::{Core, State, Touched};
use crate::rules::{
    direction_check, moves_closer, node_route, passes_security_check, route_of,
    signed_msg_security_check, Route, GROUP_SIZE,
};
use crate::table::{
    kademlia_needs, table_bucket_size, table_is_close, table_names, table_need_to_add,
    table_own_name,
};
use crate::wire::{encode_signed_message, wire_signed_message};
use vstd::prelude::*;

verus! {

/// The result of sending out, without the word on whether the message is
/// still to be handled.
pub open spec fn without_due(sending: Result<bool, RoutingError>) -> Result<(), RoutingError> {
    match sending {
        Ok(_) => Ok(()),
        Err(error) => Err(error),
    }
}

/// Whether the client with the signing key `key` is one that means to stay
/// a client.
pub open spec fn restricted_client(clients: Seq<Client>, key: Seq<u8>) -> bool {
    exists|i: int|
        0 <= i < clients.len() && (#[trigger] clients[i]).key@ == key
            && clients[i].client_restriction
}

/// Whether `message` asks for a new name on behalf of a client, and the
/// signing key of that client.
pub open spec fn name_request_of(message: RoutingMessage) -> Option<[u8; 32]> {
    match message {
        RoutingMessage::Request(request) => match (request.content, request.src) {
            (RequestContent::GetNetworkName { .. }, Authority::Client { client_key, .. }) => Some(
                client_key,
            ),
            _ => None,
        },
        _ => None,
    }
}

/// Whether `message` is one of the two that a node still takes as the
/// client it was: endpoints, or the members of its close group.
pub open spec fn late_for_client(message: RoutingMessage) -> bool {
    match message {
        RoutingMessage::Request(request) => request.content is Endpoints,
        RoutingMessage::Response(response) => response.content is GetCloseGroup,
    }
}

/// Whether `copy` says what `message` says.
pub open spec fn same_message(copy: SignedMessage, message: SignedMessage) -> bool {
    &&& copy.public_id == message.public_id
    &&& copy.signature == message.signature
    &&& copy.content.source() == message.content.source()
    &&& copy.content.destination() == message.content.destination()
    &&& match (copy.content, message.content) {
        (RoutingMessage::Request(a), RoutingMessage::Request(b)) => match (a.content, b.content) {
            (
                RequestContent::Endpoints { encrypted_endpoints: sealed_a, nonce_bytes: nonce_a },
                RequestContent::Endpoints { encrypted_endpoints: sealed_b, nonce_bytes: nonce_b },
            ) => sealed_a@ == sealed_b@ && nonce_a == nonce_b,
            _ => false,
        },
        (RoutingMessage::Response(a), RoutingMessage::Response(b)) => match (
            a.content,
            b.content,
        ) {
            (
                ResponseContent::GetCloseGroup { close_group_ids: ids_a },
                ResponseContent::GetCloseGroup { close_group_ids: ids_b },
            ) => ids_a@ == ids_b@,
            _ => false,
        },
        _ => false,
    }
}

fn copy_ids(ids: &Vec<PublicId>) -> (copy: Vec<PublicId>)
    ensures
        copy@ == ids@,
{
    let mut copy: Vec<PublicId> = Vec::new();
    let mut i: usize = 0;
    while i < ids.len()
        invariant
            i <= ids@.len(),
            copy@ == ids@.take(i as int),
        decreases ids@.len() - i,
    {
        copy.push(ids[i]);
        assert(ids@.take(i + 1) =~= ids@.take(i as int).push(ids@[i as int]));
        i += 1;
    }
    assert(ids@.take(ids@.len() as int) =~= ids@);
    copy
}

/// A copy of `message`, where it is one of the two that a node still takes
/// as the client it was.
fn copy_late_for_client(message: &SignedMessage) -> (copy: Option<SignedMessage>)
    ensures
        copy is Some == late_for_client(message.content),
        copy matches Some(same) ==> same_message(same, *message),
{
    let content = match &message.content {
        RoutingMessage::Request(request) => match &request.content {
            RequestContent::Endpoints { encrypted_endpoints, nonce_bytes } => Some(
                RoutingMessage::Request(
                    RequestMessage {
                        src: request.src,
                        dst: request.dst,
                        content: RequestContent::Endpoints {
                            encrypted_endpoints: copy_bytes(encrypted_endpoints.as_slice()),
                            nonce_bytes: *nonce_bytes,
                        },
                    },
                ),
            ),
            _ => None,
        },
        RoutingMessage::Response(response) => match &response.content {
            ResponseContent::GetCloseGroup { close_group_ids } => Some(
                RoutingMessage::Response(
                    ResponseMessage {
                        src: response.src,
                        dst: response.dst,
                        content: ResponseContent::GetCloseGroup {
                            close_group_ids: copy_ids(close_group_ids),
                        },
                    },
                ),
            ),
            _ => None,
        },
    };
    match content {
        Some(content) => Some(
            SignedMessage { content, public_id: message.public_id, signature: message.signature },
        ),
        None => None,
    }
}

impl Core {
    /// The request by which we propose a connection to the node called
    /// `name`.
    pub open spec fn connect_proposal(&self, name: XorName) -> RoutingMessage {
        RoutingMessage::Request(
            RequestMessage {
                src: Authority::ManagedNode(self.full_id.public_id.name),
                dst: Authority::ManagedNode(name),
                content: RequestContent::Connect,
            },
        )
    }

    /// What a message for a client does: one that is for the client with
    /// our signing key is handled as `routed_message` says, and any other
    /// fails with `BadAuthority`.
    pub open spec fn client_handled(
        &self,
        before: &Core,
        message: SignedMessage,
        result: Result<(), RoutingError>,
    ) -> bool {
        match message.content.destination() {
            Authority::Client { client_key, proxy_node_name } => if client_key@
                == before.full_id.public_id.public_sign_key@ {
                self.routed_message(before, message.content, message.public_id, result)
            } else {
                self.refused_authority(before, result)
            },
            _ => self.refused_authority(before, result),
        }
    }

    /// What noting that we are about to propose a connection to the node
    /// with the name bytes `item` does, where `fresh` tells whether the
    /// filter was found not to hold it.
    pub open spec fn asked(&self, before: &Core, item: Seq<u8>, fresh: bool) -> bool {
        &&& self.kept(before, Touched { asked: true, ..Touched::nothing() })
        &&& filter_items(self.connection_filter).contains(item)
        &&& forall|other: Seq<u8>| #[trigger]
            filter_items(self.connection_filter).contains(other) ==> other == item || filter_items(
                before.connection_filter,
            ).contains(other)
        &&& !fresh ==> filter_items(before.connection_filter).contains(item)
    }

    /// What the sight of a message signed by the node called `sender`
    /// does: where no proposal went to that node of late and the routing
    /// table would take it in, we propose a connection to it.
    pub open spec fn harvested(&self, before: &Core, sender: XorName) -> bool {
        exists|noted: Core, fresh: bool|
            {
                &&& #[trigger] noted.asked(before, sender@, fresh)
                &&& if fresh && kademlia_needs(
                    table_own_name(before.routing_table),
                    table_names(before.routing_table),
                    table_bucket_size(before.routing_table),
                    sender@,
                ) {
                    exists|sending: Result<(), RoutingError>| #[trigger]
                        self.sent_content(&noted, before.connect_proposal(sender), sending)
                } else {
                    self.only_added(&noted, Seq::empty())
                }
            }
    }

    /// What a node does with a message once it has decided to look at
    /// it, where `close` tells whether its destination is near.
    ///
    /// A request for immutable data that the cache holds is answered from
    /// the cache. Else immutable data that the message brings is kept, and
    /// the message is sent on where its destination is not near, and
    /// handled as `routed_message` says where it is.
    pub open spec fn looked_at(
        &self,
        before: &Core,
        message: SignedMessage,
        close: bool,
        result: Result<(), RoutingError>,
    ) -> bool {
        exists|looked: Core, found: Option<(Data, MessageId)>|
            {
                &&& #[trigger] looked.fetched(before, message.content, found)
                &&& match found {
                    Some((data, id)) => self.sent_content(
                        &looked,
                        RoutingMessage::Response(
                            ResponseMessage {
                                src: Authority::ManagedNode(before.full_id.public_id.name),
                                dst: message.content.source(),
                                content: ResponseContent::GetSuccess(data, id),
                            },
                        ),
                        result,
                    ),
                    None => exists|kept: Core|
                        {
                            &&& #[trigger] kept.stored(&looked, message.content)
                            &&& if close {
                                self.routed_message(
                                    &kept,
                                    message.content,
                                    message.public_id,
                                    result,
                                )
                            } else {
                                exists|sending: Result<bool, RoutingError>| #[trigger]
                                    self.sent_out(&kept, message, sending) && result
                                        == without_due(sending)
                            }
                        },
                }
            }
    }

    /// What a node does with a message that has passed its filters, by
    /// its route, where `hop` is the name of the hop that brought it.
    ///
    /// A message whose destination is near must pass the security check,
    /// or it fails with `FailedSignature`. A message for a group is sent on
    /// and then looked at here; one for another node is sent on; one for
    /// a client of ours is relayed; one for us is looked at. A message from
    /// far for far is sent on where we are the proxy of the client that
    /// sent it. It is else looked at, unless the direction is enforced and
    /// the hop is as near to the destination as we are: then it fails with
    /// `DirectionCheckFailed`.
    pub open spec fn routed_at_node(
        &self,
        before: &Core,
        message: SignedMessage,
        hop: XorName,
        result: Result<(), RoutingError>,
    ) -> bool {
        let src = message.content.source();
        let dst = message.content.destination();
        let close = before.near(dst.routing_name());
        let route = route_of(close, src, dst, before.full_id.public_id.name);
        if close && !passes_security_check(message) {
            result == Err::<(), RoutingError>(RoutingError::FailedSignature) && self.only_added(
                before,
                Seq::empty(),
            )
        } else {
            match route {
                Route::Swarm => exists|swarmed: Core, sending: Result<bool, RoutingError>| #[trigger]
                    swarmed.sent_out(before, message, sending) && if sending is Ok {
                        self.looked_at(&swarmed, message, true, result)
                    } else {
                        result == without_due(sending) && self.only_added(&swarmed, Seq::empty())
                    },
                Route::Forward => exists|sending: Result<bool, RoutingError>| #[trigger]
                    self.sent_out(before, message, sending) && result == without_due(sending),
                Route::ProxyForward => exists|sending: Result<bool, RoutingError>| #[trigger]
                    self.sent_out(before, message, sending) && result == without_due(sending),
                Route::RelayToClient => match dst {
                    Authority::Client { client_key, proxy_node_name } => self.relayed(
                        before,
                        message,
                        client_key@,
                        result,
                    ),
                    _ => false,
                },
                Route::HandleHere => self.looked_at(before, message, true, result),
                Route::Transit => if before.enforce_direction && !moves_closer(
                    before.full_id.public_id.name,
                    hop,
                    dst.routing_name(),
                ) {
                    result == Err::<(), RoutingError>(RoutingError::DirectionCheckFailed)
                        && self.only_added(before, Seq::empty())
                } else {
                    self.looked_at(before, message, false, result)
                },
            }
        }
    }

    /// What a node does with a message that has passed its filters: what
    /// `harvested` says of its sender, and then what `routed_at_node` says.
    pub open spec fn node_handled(
        &self,
        before: &Core,
        message: SignedMessage,
        hop: XorName,
        result: Result<(), RoutingError>,
    ) -> bool {
        exists|reaped: Core| #[trigger]
            reaped.harvested(before, message.public_id.name) && self.routed_at_node(
                &reaped,
                message,
                hop,
                result,
            )
    }

    /// What putting a signed message with the bytes `item` into the filter
    /// of signed messages does, where `fresh` tells whether the filter was
    /// found not to hold it: the filter holds it, and else only what it
    /// held.
    pub open spec fn saw(&self, before: &Core, item: Seq<u8>, fresh: bool) -> bool {
        &&& self.kept(before, Touched { seen: true, ..Touched::nothing() })
        &&& filter_items(self.signed_message_filter).contains(item)
        &&& forall|other: Seq<u8>| #[trigger]
            filter_items(self.signed_message_filter).contains(other) ==> other == item
                || filter_items(before.signed_message_filter).contains(other)
        &&& !fresh ==> filter_items(before.signed_message_filter).contains(item)
    }

    /// Whether `message` is one that a node still takes as the client it
    /// was: endpoints or the members of its close group, sent to the client
    /// with our signing key.
    pub open spec fn takes_as_client(&self, message: SignedMessage) -> bool {
        late_for_client(message.content) && match message.content.destination() {
            Authority::Client { client_key, proxy_node_name } => client_key@
                == self.full_id.public_id.public_sign_key@,
            _ => false,
        }
    }

    /// What a message that is intact and new does, by the state we are in.
    ///
    /// A node does not pass on a request for a new name from a client of
    /// its own that means to stay a client: that fails with
    /// `ClientConnectionNotFound`. A message that a node still takes as
    /// the client it was is handled as `client_handled` says, and where
    /// that went well, and for any other message, the node does what
    /// `node_handled` says. A client does what `client_handled` says. In
    /// any other state the message fails with `InvalidStateForOperation`.
    pub open spec fn processed(
        &self,
        before: &Core,
        message: SignedMessage,
        hop: XorName,
        result: Result<(), RoutingError>,
    ) -> bool {
        match before.state {
            State::Node => if name_request_of(message.content) matches Some(key)
                && restricted_client(before.client_map@, key@) {
                result == Err::<(), RoutingError>(RoutingError::ClientConnectionNotFound)
                    && self.only_added(before, Seq::empty())
            } else if before.takes_as_client(message) {
                exists|copy: SignedMessage, mid: Core, first: Result<(), RoutingError>|
                    {
                        &&& same_message(copy, message)
                        &&& #[trigger] mid.client_handled(before, copy, first)
                        &&& if first is Ok {
                            self.node_handled(&mid, message, hop, result)
                        } else {
                            result == first && self.only_added(&mid, Seq::empty())
                        }
                    }
            } else {
                self.node_handled(before, message, hop, result)
            },
            State::Client => self.client_handled(before, message, result),
            _ => result == Err::<(), RoutingError>(RoutingError::InvalidStateForOperation)
                && self.only_added(before, Seq::empty()),
        }
    }

    /// What a signed message that is intact does, where `noted` is the core
    /// once the message is in the filter of signed messages and `fresh`
    /// tells whether the filter was found not to hold it: a message that
    /// the filter held fails with `FilterCheckFailed` and nothing else
    /// happens; any other does what `processed` says.
    pub open spec fn received_with(
        &self,
        before: &Core,
        message: SignedMessage,
        hop: XorName,
        result: Result<(), RoutingError>,
        noted: &Core,
        fresh: bool,
    ) -> bool {
        &&& noted.saw(before, wire_signed_message(message), fresh)
        &&& if fresh {
            self.processed(noted, message, hop, result)
        } else {
            result == Err::<(), RoutingError>(RoutingError::FilterCheckFailed) && self.only_added(
                noted,
                Seq::empty(),
            )
        }
    }

    /// What a signed message that the hop called `hop` brought does: one
    /// that is not intact fails with `FailedSignature` and nothing else
    /// happens, and any other does what `received_with` says.
    pub open spec fn received(
        &self,
        before: &Core,
        message: SignedMessage,
        hop: XorName,
        result: Result<(), RoutingError>,
    ) -> bool {
        if !message.intact() {
            result == Err::<(), RoutingError>(RoutingError::FailedSignature) && self.only_added(
                before,
                Seq::empty(),
            )
        } else {
            exists|noted: Core, fresh: bool| #[trigger]
                self.received_with(before, message, hop, result, &noted, fresh)
        }
    }

    /// Whether `key` is the signing key that a hop message from the hop
    /// called `name` on `connection` is held against, or the reason why
    /// there is none.
    ///
    /// A node holds it against the key of the node of that name in its
    /// routing table, and else against the key of its first client on that
    /// connection; a client holds it against the key of its proxy on that
    /// connection. Without such a peer there is `UnknownConnection`, and in
    /// any other state `InvalidStateForOperation`.
    pub open spec fn is_hop_key(
        &self,
        name: XorName,
        connection: u64,
        key: Result<[u8; 32], RoutingError>,
    ) -> bool {
        match self.state {
            State::Node => if table_names(self.routing_table).contains(name@) {
                exists|i: int|
                    0 <= i < self.peers@.len() && (#[trigger] self.peers@[i]).public_id.name@
                        == name@ && key == Ok::<[u8; 32], RoutingError>(
                        self.peers@[i].public_id.public_sign_key,
                    )
            } else if exists|i: int|
                0 <= i < self.client_map@.len() && (#[trigger] self.client_map@[i]).connection
                    == connection {
                exists|i: int|
                    {
                        &&& 0 <= i < self.client_map@.len()
                        &&& (#[trigger] self.client_map@[i]).connection == connection
                        &&& forall|j: int|
                            0 <= j < i ==> (#[trigger] self.client_map@[j]).connection
                                != connection
                        &&& key == Ok::<[u8; 32], RoutingError>(self.client_map@[i].key)
                    }
            } else {
                key == Err::<[u8; 32], RoutingError>(RoutingError::UnknownConnection)
            },
            State::Client => if exists|i: int|
                0 <= i < self.proxy_map@.len() && (#[trigger] self.proxy_map@[i]).connection
                    == connection {
                exists|i: int|
                    0 <= i < self.proxy_map@.len() && (#[trigger] self.proxy_map@[i]).connection
                        == connection && key == Ok::<[u8; 32], RoutingError>(
                        self.proxy_map@[i].public_id.public_sign_key,
                    )
            } else {
                key == Err::<[u8; 32], RoutingError>(RoutingError::UnknownConnection)
            },
            _ => key == Err::<[u8; 32], RoutingError>(RoutingError::InvalidStateForOperation),
        }
    }

    /// What a hop message on `connection` does: without a key to hold it
    /// against it fails for the reason that `is_hop_key` gives, with a
    /// signature that the key does not accept it fails with
    /// `FailedSignature`, and nothing else happens; else the signed message
    /// in it does what `received` says.
    pub open spec fn hop_handled(
        &self,
        before: &Core,
        hop: HopMessage,
        connection: u64,
        result: Result<(), RoutingError>,
    ) -> bool {
        exists|key: Result<[u8; 32], RoutingError>| #[trigger]
            before.is_hop_key(hop.name, connection, key) && match key {
                Ok(held) => if hop.signed_by(held@) {
                    self.received(before, hop.content, hop.name, result)
                } else {
                    result == Err::<(), RoutingError>(RoutingError::FailedSignature)
                        && self.only_added(before, Seq::empty())
                },
                Err(error) => result == Err::<(), RoutingError>(error) && self.only_added(
                    before,
                    Seq::empty(),
                ),
            }
    }

    /// Handles a message for a client, as `client_handled` says.
    pub fn handle_signed_message_for_client(&mut self, message: SignedMessage) -> (result: Result<
        (),
        RoutingError,
    >)
        requires
            old(self).wf(),
        ensures
            final(self).wf(),
            final(self).client_handled(old(self), message, result),
    {
        let ours = match message.content.dst() {
            Authority::Client { client_key, .. } => bytes_equal(
                client_key.as_slice(),
                self.full_id.public_id.public_sign_key.as_slice(),
            ),
            _ => false,
        };
        if !ours {
            assert(self.effects() =~= old(self).effects() + Seq::<EffectView>::empty());
            return Err(RoutingError::BadAuthority);
        }
        self.handle_routing_message(message.content, message.public_id)
    }

    /// Proposes a connection to the node called `dst_name`, as
    /// `sent_content` says of the proposal.
    pub fn send_connect_request(&mut self, dst_name: &XorName) -> (result: Result<(), RoutingError>)
        requires
            old(self).wf(),
        ensures
            final(self).wf(),
            final(self).sent_content(old(self), old(self).connect_proposal(*dst_name), result),
    {
        let own = self.full_id.public_id.name;
        self.send_request(
            Authority::ManagedNode(own),
            Authority::ManagedNode(*dst_name),
            RequestContent::Connect,
        )
    }

    /// Proposes a connection to the sender of a message where there is
    /// reason to, as `harvested` says.
    pub fn harvest(&mut self, sender: &XorName)
        requires
            old(self).wf(),
        ensures
            final(self).wf(),
            final(self).harvested(old(self), *sender),
    {
        let item = copy_bytes(sender.0.as_slice());
        let needed = table_need_to_add(&self.routing_table, sender);
        let previous = filter_insert(&mut self.connection_filter, item);
        let ghost noted = *self;
        let fresh = previous.is_none();
        assert(noted.asked(old(self), sender@, fresh));
        if fresh && needed {
            let _ = self.send_connect_request(sender);
        } else {
            assert(self.effects() =~= noted.effects() + Seq::<EffectView>::empty());
        }
    }

    /// Looks at a message, as `looked_at` says.
    pub fn look_at(&mut self, message: SignedMessage, close: bool) -> (result: Result<
        (),
        RoutingError,
    >)
        requires
            old(self).wf(),
        ensures
            final(self).wf(),
            final(self).looked_at(old(self), message, close, result),
    {
        let found = self.get_from_cache(&message.content);
        let ghost looked = *self;
        match found {
            Some((data, id)) => {
                let own = self.full_id.public_id.name;
                let dst = *message.content.src();
                self.send_response(
                    Authority::ManagedNode(own),
                    dst,
                    ResponseContent::GetSuccess(data, id),
                )
            },
            None => {
                self.add_to_cache(&message.content);
                let ghost kept = *self;
                assert(kept.stored(&looked, message.content));
                if close {
                    self.handle_routing_message(message.content, message.public_id)
                } else {
                    match self.send_out(&message) {
                        Ok(_) => Ok(()),
                        Err(error) => Err(error),
                    }
                }
            },
        }
    }

    /// Routes a message at a node, as `routed_at_node` says.
    pub fn route_at_node(&mut self, message: SignedMessage, hop_name: &XorName) -> (result: Result<
        (),
        RoutingError,
    >)
        requires
            old(self).wf(),
        ensures
            final(self).wf(),
            final(self).routed_at_node(old(self), message, *hop_name, result),
    {
        let dst = *message.content.dst();
        let src = *message.content.src();
        let close = table_is_close(&self.routing_table, dst.get_name(), GROUP_SIZE);
        if close {
            match signed_msg_security_check(&message) {
                Ok(()) => {},
                Err(error) => {
                    assert(self.effects() =~= old(self).effects() + Seq::<EffectView>::empty());
                    return Err(error);
                },
            }
        }
        match node_route(close, &src, &dst, &self.full_id.public_id.name) {
            Route::Swarm => {
                let sending = self.send_out(&message);
                let ghost swarmed = *self;
                match sending {
                    Ok(_) => self.look_at(message, true),
                    Err(error) => {
                        assert(self.effects() =~= swarmed.effects() + Seq::<EffectView>::empty());
                        Err(error)
                    },
                }
            },
            Route::Forward => match self.send_out(&message) {
                Ok(_) => Ok(()),
                Err(error) => Err(error),
            },
            Route::ProxyForward => match self.send_out(&message) {
                Ok(_) => Ok(()),
                Err(error) => Err(error),
            },
            Route::RelayToClient => match dst {
                Authority::Client { client_key, .. } => self.relay_to_client(&message, &client_key),
                _ => {
                    assert(false);
                    Ok(())
                },
            },
            Route::HandleHere => self.look_at(message, true),
            Route::Transit => {
                if self.enforce_direction && !direction_check(
                    &self.full_id.public_id.name,
                    hop_name,
                    dst.get_name(),
                ) {
                    assert(self.effects() =~= old(self).effects() + Seq::<EffectView>::empty());
                    return Err(RoutingError::DirectionCheckFailed);
                }
                self.look_at(message, false)
            },
        }
    }

    /// Handles a message that has passed the filters of a node, as
    /// `node_handled` says.
    pub fn handle_signed_message_for_node(
        &mut self,
        message: SignedMessage,
        hop_name: &XorName,
    ) -> (result: Result<(), RoutingError>)
        requires
            old(self).wf(),
        ensures
            final(self).wf(),
            final(self).node_handled(old(self), message, *hop_name, result),
    {
        self.harvest(&message.public_id.name);
        let ghost reaped = *self;
        self.route_at_node(message, hop_name)
    }

    /// Puts a signed message into the filter of signed messages, as `saw`
    /// says, and tells whether the filter was found not to hold it.
    pub fn note_signed_message(&mut self, message: &SignedMessage) -> (fresh: bool)
        requires
            old(self).wf(),
        ensures
            final(self).wf(),
            final(self).saw(old(self), wire_signed_message(*message), fresh),
    {
        let item = encode_signed_message(message);
        filter_insert(&mut self.signed_message_filter, item).is_none()
    }

    /// Whether the client with the signing key `key` is one that means to
    /// stay a client.
    pub fn is_restricted_client(&self, key: &[u8; 32]) -> (restricted: bool)
        requires
            self.wf(),
        ensures
            restricted == restricted_client(self.client_map@, key@),
    {
        match find_client(&self.client_map, key) {
            Some(i) => {
                let restricted = self.client_map[i].client_restriction;
                proof {
                    if restricted_client(self.client_map@, key@) {
                        let j = choose|j: int|
                            0 <= j < self.client_map@.len() && (#[trigger] self.client_map@[j]).key@
                                == key@ && self.client_map@[j].client_restriction;
                        assert(j == i);
                    }
                }
                restricted
            },
            None => false,
        }
    }

    /// Handles a message that is intact and new, as `processed` says.
    pub fn process_signed_message(&mut self, message: SignedMessage, hop_name: &XorName) -> (result:
        Result<(), RoutingError>)
        requires
            old(self).wf(),
        ensures
            final(self).wf(),
            final(self).processed(old(self), message, *hop_name, result),
    {
        match self.state {
            State::Node => {
                let refused = match &message.content {
                    RoutingMessage::Request(request) => match (&request.content, &request.src) {
                        (
                            RequestContent::GetNetworkName { .. },
                            Authority::Client { client_key, .. },
                        ) => self.is_restricted_client(client_key),
                        _ => false,
                    },
                    _ => false,
                };
                if refused {
                    assert(self.effects() =~= old(self).effects() + Seq::<EffectView>::empty());
                    return Err(RoutingError::ClientConnectionNotFound);
                }
                let ours = match message.content.dst() {
                    Authority::Client { client_key, .. } => bytes_equal(
                        client_key.as_slice(),
                        self.full_id.public_id.public_sign_key.as_slice(),
                    ),
                    _ => false,
                };
                if ours {
                    match copy_late_for_client(&message) {
                        Some(copy) => {
                            let first = self.handle_signed_message_for_client(copy);
                            let ghost mid = *self;
                            match first {
                                Ok(()) => {},
                                Err(error) => {
                                    assert(self.effects() =~= mid.effects() + Seq::<
                                        EffectView,
                                    >::empty());
                                    return Err(error);
                                },
                            }
                        },
                        None => {},
                    }
                }
                self.handle_signed_message_for_node(message, hop_name)
            },
            State::Client => self.handle_signed_message_for_client(message),
            _ => {
                assert(self.effects() =~= old(self).effects() + Seq::<EffectView>::empty());
                Err(RoutingError::InvalidStateForOperation)
            },
        }
    }

    /// Handles a signed message that a hop brought, as `received` says.
    pub fn handle_signed_message(&mut self, message: SignedMessage, hop_name: XorName) -> (result:
        Result<(), RoutingError>)
        requires
            old(self).wf(),
        ensures
            final(self).wf(),
            final(self).received(old(self), message, hop_name, result),
    {
        match message.check_integrity() {
            Ok(()) => {},
            Err(error) => {
                assert(self.effects() =~= old(self).effects() + Seq::<EffectView>::empty());
                return Err(error);
            },
        }
        let fresh = self.note_signed_message(&message);
        let ghost noted = *self;
        if !fresh {
            assert(self.effects() =~= noted.effects() + Seq::<EffectView>::empty());
            assert(self.received_with(
                old(self),
                message,
                hop_name,
                Err(RoutingError::FilterCheckFailed),
                &noted,
                fresh,
            ));
            return Err(RoutingError::FilterCheckFailed);
        }
        let result = self.process_signed_message(message, &hop_name);
        assert(self.received_with(old(self), message, hop_name, result, &noted, fresh));
        result
    }

    /// The signing key that a hop message from the hop called `name` on
    /// `connection` is held against, as `is_hop_key` says.
    pub fn hop_key(&self, name: &XorName, connection: u64) -> (key: Result<[u8; 32], RoutingError>)
        requires
            self.wf(),
        ensures
            self.is_hop_key(*name, connection, key),
    {
        match self.state {
            State::Node => {
                match find_peer(&self.peers, name) {
                    Some(i) => {
                        return Ok(self.peers[i].public_id.public_sign_key);
                    },
                    None => {},
                }
                match find_client_by_connection(&self.client_map, connection) {
                    Some(i) => Ok(self.client_map[i].key),
                    None => Err(RoutingError::UnknownConnection),
                }
            },
            State::Client => match find_proxy(&self.proxy_map, connection) {
                Some(i) => Ok(self.proxy_map[i].public_id.public_sign_key),
                None => Err(RoutingError::UnknownConnection),
            },
            _ => Err(RoutingError::InvalidStateForOperation),
        }
    }

    /// Handles a hop message, as `hop_handled` says.
    pub fn handle_hop_message(&mut self, hop: HopMessage, connection: u64) -> (result: Result<
        (),
        RoutingError,
    >)
        requires
            old(self).wf(),
        ensures
            final(self).wf(),
            final(self).hop_handled(old(self), hop, connection, result),
    {
        let key = self.hop_key(&hop.name, connection);
        let held = match key {
            Ok(held) => held,
            Err(error) => {
                assert(self.effects() =~= old(self).effects() + Seq::<EffectView>::empty());
                return Err(error);
            },
        };
        match hop.verify(&held) {
            Ok(()) => {},
            Err(error) => {
                assert(self.effects() =~= old(self).effects() + Seq::<EffectView>::empty());
                return Err(error);
            },
        }
        self.handle_signed_message(hop.content, hop.name)
    }
}

} // verus!
