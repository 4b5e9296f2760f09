//! How the core sends: to the nodes that the routing table names, to its
//! proxy while it is a client, and down to its clients.

use crate::authority::Authority;
use crate::bytes::append_bytes;
use crate::crypto::{box_open, box_opened, ed25519_signature, sign_detached};
use crate::error::RoutingError;
use crate::event::{effect_views, Effect, EffectView};
use crate::filter::{filter_insert, filter_items};
use crate::messages::{RoutingMessage, SignedMessage};
use crate::names::{xor_distance, XorName};
use crate::peers::{Client, Peer, Proxy};
use crate::routing::{Core, State, Touched};
use crate::rules::GROUP_SIZE;
use crate::table::{
    kademlia_targets, name_views, nearer_names, table_bucket_size, table_is_close, table_names,
    table_own_name, table_target_nodes,
};
use crate::wire::{encode_signed_message, wire_signed_message};
use vstd::prelude::*;

verus! {

/// The bytes that go down a connection for `signed` when the hop called
/// `name` hands it on and signs with `secret`.
pub open spec fn hop_frame(signed: SignedMessage, name: XorName, secret: Seq<u8>) -> Seq<u8> {
    seq![0u8] + wire_signed_message(signed) + name@ + ed25519_signature(
        wire_signed_message(signed),
        secret,
    )
}

/// Whether a message for `dst` may go from the node called `own` to the
/// node called `target`: always where the destination is near, and else
/// only where the target is strictly nearer to the destination than we are.
pub open spec fn keeps_target(close: bool, own: Seq<u8>, dst: Seq<u8>, target: Seq<u8>) -> bool {
    close || xor_distance(target, dst) < xor_distance(own, dst)
}

/// Those of `targets`, in order, that a message for `dst` may go to.
pub open spec fn chosen_targets(
    targets: Seq<Seq<u8>>,
    close: bool,
    own: Seq<u8>,
    dst: Seq<u8>,
) -> Seq<Seq<u8>>
    decreases targets.len(),
{
    if targets.len() == 0 {
        Seq::empty()
    } else {
        let rest = chosen_targets(targets.drop_last(), close, own, dst);
        if keeps_target(close, own, dst, targets.last()) {
            rest.push(targets.last())
        } else {
            rest
        }
    }
}

/// The first connection of the first peer called `name`.
pub open spec fn connection_to(peers: Seq<Peer>, name: Seq<u8>) -> Option<u64>
    decreases peers.len(),
{
    if peers.len() == 0 {
        None
    } else if peers[0].public_id.name@ == name {
        if peers[0].connections@.len() > 0 {
            Some(peers[0].connections@[0])
        } else {
            None
        }
    } else {
        connection_to(peers.drop_first(), name)
    }
}

/// One send of `bytes` for each of `targets` that a connection leads to,
/// in order.
pub open spec fn sends_to(peers: Seq<Peer>, targets: Seq<Seq<u8>>, bytes: Seq<u8>) -> Seq<
    EffectView,
>
    decreases targets.len(),
{
    if targets.len() == 0 {
        Seq::empty()
    } else {
        let rest = sends_to(peers, targets.drop_last(), bytes);
        match connection_to(peers, targets.last()) {
            Some(connection) => rest.push(EffectView::Send { connection, bytes }),
            None => rest,
        }
    }
}

/// The connection of the first proxy called `name`.
pub open spec fn proxy_connection(proxies: Seq<Proxy>, name: Seq<u8>) -> Option<u64>
    decreases proxies.len(),
{
    if proxies.len() == 0 {
        None
    } else if proxies[0].public_id.name@ == name {
        Some(proxies[0].connection)
    } else {
        proxy_connection(proxies.drop_first(), name)
    }
}

/// The connection of the first client with the signing key `key`.
pub open spec fn client_connection(clients: Seq<Client>, key: Seq<u8>) -> Option<u64>
    decreases clients.len(),
{
    if clients.len() == 0 {
        None
    } else if clients[0].key@ == key {
        Some(clients[0].connection)
    } else {
        client_connection(clients.drop_first(), key)
    }
}

/// A message for `dst` that is not near goes only to names that are
/// strictly nearer to `dst` than `own` is.
pub proof fn lemma_chosen_targets_move_closer(
    targets: Seq<Seq<u8>>,
    own: Seq<u8>,
    dst: Seq<u8>,
    i: int,
)
    requires
        0 <= i < chosen_targets(targets, false, own, dst).len(),
    ensures
        xor_distance(chosen_targets(targets, false, own, dst)[i], dst) < xor_distance(own, dst),
        targets.contains(chosen_targets(targets, false, own, dst)[i]),
    decreases targets.len(),
{
    if targets.len() > 0 {
        let rest = chosen_targets(targets.drop_last(), false, own, dst);
        if i < rest.len() {
            lemma_chosen_targets_move_closer(targets.drop_last(), own, dst, i);
            let found = rest[i];
            let k = choose|k: int| 0 <= k < targets.drop_last().len() && targets.drop_last()[k] == found;
            assert(targets[k] == found);
        } else {
            assert(targets[targets.len() - 1] == targets.last());
        }
    }
}

fn first_connection(peers: &Vec<Peer>, name: &XorName) -> (connection: Option<u64>)
    ensures
        connection == connection_to(peers@, name@),
{
    let mut i: usize = 0;
    assert(peers@.skip(0) =~= peers@);
    while i < peers.len()
        invariant
            i <= peers@.len(),
            connection_to(peers@, name@) == connection_to(peers@.skip(i as int), name@),
        decreases peers@.len() - i,
    {
        assert(peers@.skip(i as int).drop_first() =~= peers@.skip(i + 1));
        assert(peers@.skip(i as int)[0] == peers@[i as int]);
        if peers[i].public_id.name.same_as(name) {
            if peers[i].connections.len() > 0 {
                return Some(peers[i].connections[0]);
            }
            return None;
        }
        i += 1;
    }
    None
}

fn first_proxy_connection(proxies: &Vec<Proxy>, name: &XorName) -> (connection: Option<u64>)
    ensures
        connection == proxy_connection(proxies@, name@),
{
    let mut i: usize = 0;
    assert(proxies@.skip(0) =~= proxies@);
    while i < proxies.len()
        invariant
            i <= proxies@.len(),
            proxy_connection(proxies@, name@) == proxy_connection(proxies@.skip(i as int), name@),
        decreases proxies@.len() - i,
    {
        assert(proxies@.skip(i as int).drop_first() =~= proxies@.skip(i + 1));
        assert(proxies@.skip(i as int)[0] == proxies@[i as int]);
        if proxies[i].public_id.name.same_as(name) {
            return Some(proxies[i].connection);
        }
        i += 1;
    }
    None
}

fn first_client_connection(clients: &Vec<Client>, key: &[u8; 32]) -> (connection: Option<u64>)
    ensures
        connection == client_connection(clients@, key@),
{
    let mut i: usize = 0;
    assert(clients@.skip(0) =~= clients@);
    while i < clients.len()
        invariant
            i <= clients@.len(),
            client_connection(clients@, key@) == client_connection(clients@.skip(i as int), key@),
        decreases clients@.len() - i,
    {
        assert(clients@.skip(i as int).drop_first() =~= clients@.skip(i + 1));
        assert(clients@.skip(i as int)[0] == clients@[i as int]);
        if crate::bytes::bytes_equal(clients[i].key.as_slice(), key.as_slice()) {
            return Some(clients[i].connection);
        }
        i += 1;
    }
    None
}

impl Core {
    /// The bytes that go down a connection when we hand `signed` on.
    pub open spec fn frame_of(&self, signed: SignedMessage) -> Seq<u8> {
        hop_frame(signed, self.full_id.public_id.name, self.full_id.private_sign_key@)
    }

    /// Whether the routing table counts `name` as near: fewer than
    /// `GROUP_SIZE` of its names are nearer to `name` than we are.
    pub open spec fn near(&self, name: XorName) -> bool {
        nearer_names(
            table_names(self.routing_table),
            table_own_name(self.routing_table),
            name@,
        ).len() < GROUP_SIZE as nat
    }

    /// The names that the routing table hands a message for `dst` on to,
    /// without those that the message may not go to.
    pub open spec fn targets_for(&self, dst: Authority) -> Seq<Seq<u8>> {
        chosen_targets(
            kademlia_targets(
                table_own_name(self.routing_table),
                table_names(self.routing_table),
                table_bucket_size(self.routing_table),
                dst.routing_name()@,
                if dst.group() {
                    Some(GROUP_SIZE as nat)
                } else {
                    None
                },
                table_own_name(self.routing_table),
                0,
            ),
            self.near(dst.routing_name()),
            table_own_name(self.routing_table),
            dst.routing_name()@,
        )
    }

    /// What sending `message` out does, where `before` is the core before
    /// and `self` the core after.
    ///
    /// A client sends to the proxy that the source of the message names;
    /// without one it fails with `ProxyConnectionNotFound`, and with
    /// `InvalidSource` where the source is no client. Anyone else sends
    /// to each of `targets_for` the destination that a connection leads
    /// to. Where the destination is near, the message is also put into
    /// the filter of signed messages, and the result tells whether the
    /// filter was not holding it: then it is still to be handled here.
    /// Where `queued` is set, the message has been put behind the pending
    /// ones.
    pub open spec fn sent_out_with(
        &self,
        before: &Core,
        message: SignedMessage,
        result: Result<bool, RoutingError>,
        queued: bool,
    ) -> bool {
        let frame = before.frame_of(message);
        if before.state == State::Client {
            match message.content.source() {
                Authority::Client { client_key, proxy_node_name } => match proxy_connection(
                    before.proxy_map@,
                    proxy_node_name@,
                ) {
                    Some(connection) => result == Ok::<bool, RoutingError>(false)
                        && self.only_added(
                        before,
                        seq![EffectView::Send { connection, bytes: frame }],
                    ),
                    None => result == Err::<bool, RoutingError>(
                        RoutingError::ProxyConnectionNotFound,
                    ) && self.only_added(before, Seq::empty()),
                },
                _ => result == Err::<bool, RoutingError>(RoutingError::InvalidSource)
                    && self.only_added(before, Seq::empty()),
            }
        } else {
            let dst = message.content.destination();
            let item = wire_signed_message(message);
            &&& self.kept(
                before,
                Touched { seen: true, pending: true, outbox: true, ..Touched::nothing() },
            )
            &&& if queued {
                self.pending@ == before.pending@.push(message)
            } else {
                self.pending == before.pending
            }
            &&& self.effects() == before.effects() + sends_to(
                before.peers@,
                before.targets_for(dst),
                frame,
            )
            &&& result is Ok
            &&& if before.near(dst.routing_name()) {
                &&& filter_items(self.signed_message_filter).contains(item)
                &&& forall|other: Seq<u8>| #[trigger]
                    filter_items(self.signed_message_filter).contains(other) ==> other == item
                        || filter_items(before.signed_message_filter).contains(other)
                &&& !result->Ok_0 ==> filter_items(before.signed_message_filter).contains(item)
            } else {
                &&& self.signed_message_filter == before.signed_message_filter
                &&& result == Ok::<bool, RoutingError>(false)
            }
        }
    }

    /// What sending `message` out does where it is not put behind the
    /// pending messages.
    pub open spec fn sent_out(
        &self,
        before: &Core,
        message: SignedMessage,
        result: Result<bool, RoutingError>,
    ) -> bool {
        self.sent_out_with(before, message, result, false)
    }

    /// What sending a message of our own does: it is sent out, and put
    /// behind the pending messages where it is still to be handled here.
    pub open spec fn sent(
        &self,
        before: &Core,
        message: SignedMessage,
        result: Result<(), RoutingError>,
    ) -> bool {
        match result {
            Ok(()) => exists|due: bool| #[trigger]
                self.sent_out_with(before, message, Ok::<bool, RoutingError>(due), due),
            Err(error) => self.sent_out_with(
                before,
                message,
                Err::<bool, RoutingError>(error),
                false,
            ),
        }
    }

    /// What relaying `message` to the client with the signing key `key`
    /// does: it goes down the client's connection, and without such a
    /// client the relay fails with `ClientConnectionNotFound`.
    pub open spec fn relayed(
        &self,
        before: &Core,
        message: SignedMessage,
        key: Seq<u8>,
        result: Result<(), RoutingError>,
    ) -> bool {
        match client_connection(before.client_map@, key) {
            Some(connection) => result == Ok::<(), RoutingError>(()) && self.only_added(
                before,
                seq![EffectView::Send { connection, bytes: before.frame_of(message) }],
            ),
            None => result == Err::<(), RoutingError>(RoutingError::ClientConnectionNotFound)
                && self.only_added(before, Seq::empty()),
        }
    }

    /// What opening sealed endpoints from `their_key` and asking for a
    /// connection to them does: the opened endpoints go to the transport,
    /// and where they do not open the call fails with
    /// `AsymmetricDecryptionFailure`.
    pub open spec fn connected(
        &self,
        before: &Core,
        sealed: Seq<u8>,
        nonce: Seq<u8>,
        their_key: Seq<u8>,
        result: Result<(), RoutingError>,
    ) -> bool {
        match box_opened(sealed, nonce, their_key, before.full_id.private_encrypt_key@) {
            Some(endpoints) => result == Ok::<(), RoutingError>(()) && self.only_added(
                before,
                seq![EffectView::Connect { endpoints }],
            ),
            None => result == Err::<(), RoutingError>(RoutingError::AsymmetricDecryptionFailure)
                && self.only_added(before, Seq::empty()),
        }
    }

    /// The bytes that go down a connection when we hand `signed` on.
    pub fn hop_bytes(&self, signed: &SignedMessage) -> (bytes: Vec<u8>)
        ensures
            bytes@ == self.frame_of(*signed),
    {
        let inner = encode_signed_message(signed);
        let signature = sign_detached(inner.as_slice(), &self.full_id.private_sign_key);
        let mut bytes: Vec<u8> = Vec::new();
        bytes.push(0);
        append_bytes(&mut bytes, inner.as_slice());
        append_bytes(&mut bytes, self.full_id.public_id.name.0.as_slice());
        append_bytes(&mut bytes, signature.as_slice());
        assert(bytes@ =~= self.frame_of(*signed));
        bytes
    }

    /// Those of `targets` that a message for `dst` may go to.
    fn choose_targets(&self, targets: &Vec<XorName>, close: bool, dst: &XorName) -> (chosen: Vec<
        XorName,
    >)
        ensures
            name_views(chosen@) == chosen_targets(
                name_views(targets@),
                close,
                self.full_id.public_id.name@,
                dst@,
            ),
    {
        let mut chosen: Vec<XorName> = Vec::new();
        let mut i: usize = 0;
        let ghost all = name_views(targets@);
        let ghost own = self.full_id.public_id.name@;
        assert(all.take(0) =~= Seq::<Seq<u8>>::empty());
        assert(name_views(chosen@) =~= Seq::<Seq<u8>>::empty());
        while i < targets.len()
            invariant
                i <= targets@.len(),
                all == name_views(targets@),
                own == self.full_id.public_id.name@,
                name_views(chosen@) == chosen_targets(all.take(i as int), close, own, dst@),
            decreases targets@.len() - i,
        {
            let ghost before = chosen@;
            proof {
                let done = all.take(i + 1);
                assert(done.drop_last() =~= all.take(i as int));
                assert(done.last() == targets@[i as int]@);
            }
            if close || targets[i].is_closer_than(&self.full_id.public_id.name, dst) {
                chosen.push(targets[i]);
                assert(name_views(chosen@) =~= name_views(before).push(targets@[i as int]@));
            }
            i += 1;
        }
        assert(all.take(targets@.len() as int) =~= all);
        chosen
    }

    /// Puts into the outbox one send of `bytes` for each of `targets` that
    /// a connection leads to.
    fn push_sends(&mut self, targets: &Vec<XorName>, bytes: &Vec<u8>)
        ensures
            final(self).only_added(
                old(self),
                sends_to(old(self).peers@, name_views(targets@), bytes@),
            ),
    {
        let mut i: usize = 0;
        let ghost all = name_views(targets@);
        assert(all.take(0) =~= Seq::<Seq<u8>>::empty());
        assert(self.effects() =~= old(self).effects() + Seq::<EffectView>::empty());
        while i < targets.len()
            invariant
                i <= targets@.len(),
                all == name_views(targets@),
                self.only_added(old(self), sends_to(old(self).peers@, all.take(i as int), bytes@)),
            decreases targets@.len() - i,
        {
            proof {
                let done = all.take(i + 1);
                assert(done.drop_last() =~= all.take(i as int));
                assert(done.last() == targets@[i as int]@);
            }
            let ghost held = self.outbox@;
            match first_connection(&self.peers, &targets[i]) {
                Some(connection) => {
                    let copy = crate::bytes::copy_bytes(bytes.as_slice());
                    self.outbox.push(Effect::Send { connection, bytes: copy });
                    assert(self.effects() =~= effect_views(held).push(
                        EffectView::Send { connection, bytes: bytes@ },
                    ));
                    assert(self.effects() =~= old(self).effects() + sends_to(
                        old(self).peers@,
                        all.take(i + 1),
                        bytes@,
                    ));
                },
                None => {},
            }
            i += 1;
        }
        assert(all.take(targets@.len() as int) =~= all);
    }

    /// Puts one effect into the outbox.
    pub(crate) fn push_effect(&mut self, effect: Effect)
        ensures
            final(self).only_added(old(self), seq![effect@]),
    {
        let ghost held = self.outbox@;
        self.outbox.push(effect);
        assert(self.effects() =~= effect_views(held) + seq![effect@]);
    }

    /// Sends `message` out, as `sent_out` says. The result tells whether
    /// the message is still to be handled here.
    pub fn send_out(&mut self, message: &SignedMessage) -> (result: Result<bool, RoutingError>)
        requires
            old(self).wf(),
        ensures
            final(self).wf(),
            final(self).sent_out(old(self), *message, result),
    {
        let bytes = self.hop_bytes(message);
        match self.state {
            State::Client => {
                match message.content.src() {
                    Authority::Client { proxy_node_name, .. } => {
                        match first_proxy_connection(&self.proxy_map, proxy_node_name) {
                            Some(connection) => {
                                self.push_effect(Effect::Send { connection, bytes });
                                Ok(false)
                            },
                            None => {
                                assert(self.effects() =~= old(self).effects() + Seq::<
                                    EffectView,
                                >::empty());
                                Err(RoutingError::ProxyConnectionNotFound)
                            },
                        }
                    },
                    _ => {
                        assert(self.effects() =~= old(self).effects() + Seq::<EffectView>::empty());
                        Err(RoutingError::InvalidSource)
                    },
                }
            },
            _ => {
                let dst = message.content.dst();
                let close = table_is_close(&self.routing_table, dst.get_name(), GROUP_SIZE);
                let group_size = if dst.is_group() {
                    Some(GROUP_SIZE)
                } else {
                    None
                };
                let targets = table_target_nodes(
                    &self.routing_table,
                    dst.get_name(),
                    group_size,
                    &self.full_id.public_id.name,
                    0,
                );
                let chosen = self.choose_targets(&targets, close, dst.get_name());
                self.push_sends(&chosen, &bytes);
                if close {
                    let item = encode_signed_message(message);
                    let previous = filter_insert(&mut self.signed_message_filter, item);
                    Ok(previous.is_none())
                } else {
                    Ok(false)
                }
            },
        }
    }

    /// Sends a message of our own, as `sent` says.
    pub fn send(&mut self, message: SignedMessage) -> (result: Result<(), RoutingError>)
        requires
            old(self).wf(),
        ensures
            final(self).wf(),
            final(self).sent(old(self), message, result),
    {
        match self.send_out(&message) {
            Ok(due) => {
                if due {
                    self.pending.push(message);
                }
                assert(self.sent_out_with(old(self), message, Ok::<bool, RoutingError>(due), due));
                Ok(())
            },
            Err(error) => Err(error),
        }
    }

    /// Signs `content` and sends it, as `sent` says of the signed message.
    pub fn send_message(&mut self, content: RoutingMessage) -> (result: Result<(), RoutingError>)
        requires
            old(self).wf(),
        ensures
            final(self).wf(),
            exists|message: SignedMessage|
                message.signed_as(content, old(self).full_id) && #[trigger] final(self).sent(
                    old(self),
                    message,
                    result,
                ),
    {
        let message = SignedMessage::new(content, &self.full_id);
        self.send(message)
    }

    /// Relays `message` to the client with the signing key `key`, as
    /// `relayed` says.
    pub fn relay_to_client(&mut self, message: &SignedMessage, key: &[u8; 32]) -> (result: Result<
        (),
        RoutingError,
    >)
        ensures
            final(self).relayed(old(self), *message, key@, result),
    {
        match first_client_connection(&self.client_map, key) {
            Some(connection) => {
                let bytes = self.hop_bytes(message);
                self.push_effect(Effect::Send { connection, bytes });
                Ok(())
            },
            None => {
                assert(self.effects() =~= old(self).effects() + Seq::<EffectView>::empty());
                Err(RoutingError::ClientConnectionNotFound)
            },
        }
    }

    /// Opens sealed endpoints from `their_key` and asks the transport to
    /// connect to them, as `connected` says.
    pub fn connect(&mut self, sealed: &Vec<u8>, nonce: &[u8; 24], their_key: &[u8; 32]) -> (result:
        Result<(), RoutingError>)
        ensures
            final(self).connected(old(self), sealed@, nonce@, their_key@, result),
    {
        match box_open(sealed.as_slice(), nonce, their_key, &self.full_id.private_encrypt_key) {
            Some(endpoints) => {
                self.push_effect(Effect::Connect { endpoints });
                Ok(())
            },
            None => {
                assert(self.effects() =~= old(self).effects() + Seq::<EffectView>::empty());
                Err(RoutingError::AsymmetricDecryptionFailure)
            },
        }
    }
}

} // verus!
