//! The routing state of one participant, and how it changes.
//!
//! The core does no input or output. Each of its handlers takes what the
//! transport or the user brought, changes the state and lists, in the
//! outbox, what is to be done about it.

use crate::authority::Authority;
use crate::cache::{cache_capacity, cached_data, cached_ids, data_cache_new, id_cache_new};
use crate::crypto::sha512_digest;
use crate::error::RoutingError;
use crate::event::{Effect, EffectView, effect_views};
use crate::filter::{filter_capacity, filter_items, filter_new};
use crate::id::FullId;
use crate::messages::SignedMessage;
use crate::names::XorName;
use crate::peers::{
    Client, Peer, Proxy, clients_distinct, count_joining, joining_count, peer_names, peers_distinct,
    proxies_distinct,
};
use crate::quorum::{accumulated, accumulator_capacity, accumulator_new, quorum_of};
use crate::rules::GROUP_SIZE;
use crate::table::{
    NameTable, kademlia_needs, nearest_of, table_bucket_size, table_closest, table_contains,
    table_names, table_need_to_add, table_new, table_own_name,
};
use accumulator::Accumulator;
use lru_time_cache::LruCache;
use message_filter::MessageFilter;
use vstd::prelude::*;

verus! {

/// Seconds that a signed message or a handled group message is remembered.
pub const MESSAGE_EXPIRY_SECONDS: i64 = 1200;

/// Seconds during which no second connection request goes to one name.
pub const CONNECTION_EXPIRY_SECONDS: i64 = 20;

/// Seconds that a public id or a piece of data stays cached.
pub const CACHE_EXPIRY_SECONDS: i64 = 600;

/// Seconds that the senders of a group message are gathered for.
pub const ACCUMULATOR_EXPIRY_SECONDS: i64 = 300;

/// Entries that a bucket of the routing table may hold beyond `GROUP_SIZE`.
pub const EXTRA_BUCKET_ENTRIES: usize = 0;

/// The state of the connection to the network.
#[derive(Clone, Copy, Debug, PartialEq, Eq, Structural)]
pub enum State {
    /// Not connected to any node.
    Disconnected,
    /// Connected to a node that has yet to show that it is a proxy.
    Bootstrapping,
    /// Bootstrapped, with a proxy.
    Client,
    /// Relocated, with a routing table of its own.
    Node,
}

/// The parts of the core that a step may have changed.
pub struct Touched {
    pub listening: bool,
    pub state: bool,
    pub identity: bool,
    pub table: bool,
    pub proxies: bool,
    pub clients: bool,
    pub seen: bool,
    pub asked: bool,
    pub ids: bool,
    pub gathered: bool,
    pub handled: bool,
    pub data: bool,
    pub endpoints: bool,
    pub pending: bool,
    pub outbox: bool,
}

impl Touched {
    /// No part.
    pub open spec fn nothing() -> Touched {
        Touched {
            listening: false,
            state: false,
            identity: false,
            table: false,
            proxies: false,
            clients: false,
            seen: false,
            asked: false,
            ids: false,
            gathered: false,
            handled: false,
            data: false,
            endpoints: false,
            pending: false,
            outbox: false,
        }
    }

    /// The outbox alone.
    pub open spec fn outbox() -> Touched {
        Touched { outbox: true, ..Touched::nothing() }
    }
}

/// The routing state of one participant.
pub struct Core {
    /// Whether we mean to stay a client.
    pub client_restriction: bool,
    /// Whether the transport has been asked to listen.
    pub is_listening: bool,
    pub state: State,
    pub full_id: FullId,
    /// The signed messages seen of late, by their canonical bytes.
    pub signed_message_filter: MessageFilter<Vec<u8>>,
    /// The names that a connection request went to of late.
    pub connection_filter: MessageFilter<Vec<u8>>,
    /// The public ids that we expect to hear from, by name.
    pub node_id_cache: LruCache<[u8; 64], Vec<u8>>,
    /// The senders of each group message, by its canonical bytes.
    pub message_accumulator: Accumulator<Vec<u8>, Vec<u8>>,
    /// The quorum that the accumulator goes by.
    pub quorum_size: usize,
    /// The group messages handled of late, by their canonical bytes.
    pub grp_msg_filter: MessageFilter<Vec<u8>>,
    /// The names of the nodes of the routing table.
    pub routing_table: NameTable,
    /// The nodes of the routing table, with their connections.
    pub peers: Vec<Peer>,
    /// The nodes that we bootstrap through.
    pub proxy_map: Vec<Proxy>,
    /// The peers that go through us.
    pub client_map: Vec<Client>,
    /// Immutable data seen in passing, by name.
    pub data_cache: LruCache<[u8; 64], Vec<u8>>,
    /// Our endpoints, serialised, as the transport last reported them.
    pub endpoints: Vec<u8>,
    /// Whether a message from a hop that is nearer to its destination than
    /// we are is dropped; it is let through where this is unset.
    pub enforce_direction: bool,
    /// What is to be done, oldest first.
    pub outbox: Vec<Effect>,
    /// Messages of our own that are also for us, yet to be handled.
    pub pending: Vec<SignedMessage>,
}

impl Core {
    /// What must hold of the tables for the core to work: the routing table
    /// is that of our name, its names are those of the peers, no two peers,
    /// proxies or clients stand for the same one, and every filter and cache
    /// has room for at least one entry.
    pub open spec fn wf(&self) -> bool {
        &&& table_own_name(self.routing_table) == self.full_id.public_id.name@
        &&& table_bucket_size(self.routing_table) == GROUP_SIZE as nat
        &&& peer_names(self.peers@) == table_names(self.routing_table)
        &&& peers_distinct(self.peers@)
        &&& proxies_distinct(self.proxy_map@)
        &&& clients_distinct(self.client_map@)
        &&& quorum_of(self.message_accumulator) == self.quorum_size
        &&& accumulator_capacity(self.message_accumulator) > 0
        &&& filter_capacity(self.signed_message_filter) != Some(0nat)
        &&& filter_capacity(self.connection_filter) != Some(0nat)
        &&& filter_capacity(self.grp_msg_filter) != Some(0nat)
        &&& cache_capacity(self.node_id_cache) > 0
        &&& cache_capacity(self.data_cache) > 0
    }

    /// The effects in the outbox, each with its bytes as a sequence.
    pub open spec fn effects(&self) -> Seq<EffectView> {
        effect_views(self.outbox@)
    }

    /// Whether everything but the outbox is as in `before`, and the outbox
    /// holds what it held then and `added` behind it.
    pub open spec fn only_added(&self, before: &Core, added: Seq<EffectView>) -> bool {
        &&& self.kept(before, Touched::outbox())
        &&& self.effects() == before.effects() + added
    }

    /// Whether every part that is not marked in `touched` is as in
    /// `before`. Whether we mean to stay a client and whether the direction
    /// is enforced are parts that no step changes.
    pub open spec fn kept(&self, before: &Core, touched: Touched) -> bool {
        &&& self.client_restriction == before.client_restriction
        &&& self.enforce_direction == before.enforce_direction
        &&& touched.listening || self.is_listening == before.is_listening
        &&& touched.state || self.state == before.state
        &&& touched.identity || self.full_id == before.full_id
        &&& touched.table || (self.routing_table == before.routing_table && self.peers
            == before.peers)
        &&& touched.proxies || self.proxy_map == before.proxy_map
        &&& touched.clients || self.client_map == before.client_map
        &&& touched.seen || self.signed_message_filter == before.signed_message_filter
        &&& touched.asked || self.connection_filter == before.connection_filter
        &&& touched.ids || self.node_id_cache == before.node_id_cache
        &&& touched.gathered || (self.message_accumulator == before.message_accumulator
            && self.quorum_size == before.quorum_size)
        &&& touched.handled || self.grp_msg_filter == before.grp_msg_filter
        &&& touched.data || self.data_cache == before.data_cache
        &&& touched.endpoints || self.endpoints == before.endpoints
        &&& touched.pending || self.pending == before.pending
        &&& touched.outbox || self.outbox == before.outbox
    }

    /// A core for a client or node with the given identity, or a fresh one.
    /// It starts disconnected, knows nobody and asks the transport to look
    /// for a node to bootstrap from.
    pub fn new(client_restriction: bool, keys: Option<FullId>) -> (core: Core)
        ensures
            core.wf(),
            core.state == State::Disconnected,
            core.client_restriction == client_restriction,
            !core.is_listening,
            !core.enforce_direction,
            keys matches Some(full_id) ==> core.full_id == full_id,
            keys is None ==> !core.full_id.public_id.is_relocated(),
            core.peers@.len() == 0,
            core.proxy_map@.len() == 0,
            core.client_map@.len() == 0,
            core.pending@.len() == 0,
            core.endpoints@.len() == 0,
            table_names(core.routing_table) == Set::<Seq<u8>>::empty(),
            filter_items(core.signed_message_filter) == Set::<Seq<u8>>::empty(),
            filter_items(core.connection_filter) == Set::<Seq<u8>>::empty(),
            filter_items(core.grp_msg_filter) == Set::<Seq<u8>>::empty(),
            cached_ids(core.node_id_cache).dom() == Set::<Seq<u8>>::empty(),
            cached_data(core.data_cache).dom() == Set::<Seq<u8>>::empty(),
            accumulated(core.message_accumulator).dom() == Set::<Seq<u8>>::empty(),
            core.quorum_size == 1,
            core.effects() == seq![EffectView::Bootstrap],
    {
        let full_id = match keys {
            Some(full_id) => full_id,
            None => FullId::new(),
        };
        let routing_table = table_new(&full_id.public_id.name, GROUP_SIZE, EXTRA_BUCKET_ENTRIES);
        let mut outbox: Vec<Effect> = Vec::new();
        outbox.push(Effect::Bootstrap);
        let core = Core {
            client_restriction,
            is_listening: false,
            state: State::Disconnected,
            full_id,
            signed_message_filter: filter_new(MESSAGE_EXPIRY_SECONDS),
            connection_filter: filter_new(CONNECTION_EXPIRY_SECONDS),
            node_id_cache: id_cache_new(CACHE_EXPIRY_SECONDS),
            message_accumulator: accumulator_new(1, ACCUMULATOR_EXPIRY_SECONDS),
            quorum_size: 1,
            grp_msg_filter: filter_new(MESSAGE_EXPIRY_SECONDS),
            routing_table,
            peers: Vec::new(),
            proxy_map: Vec::new(),
            client_map: Vec::new(),
            data_cache: data_cache_new(CACHE_EXPIRY_SECONDS),
            endpoints: Vec::new(),
            enforce_direction: false,
            outbox,
            pending: Vec::new(),
        };
        assert(peer_names(core.peers@) =~= table_names(core.routing_table));
        assert(core.effects() =~= seq![EffectView::Bootstrap]);
        core
    }

    /// Takes what is to be done out of the outbox, oldest first. The outbox
    /// is empty afterwards.
    pub fn take_effects(&mut self) -> (effects: Vec<Effect>)
        ensures
            effects@ == old(self).outbox@,
            final(self).outbox@.len() == 0,
            final(self).kept(old(self), Touched::outbox()),
            final(self).wf() == old(self).wf(),
    {
        let mut effects: Vec<Effect> = Vec::new();
        std::mem::swap(&mut effects, &mut self.outbox);
        effects
    }

    /// Sets whether a message from a hop that is nearer to its destination
    /// than we are is dropped.
    pub fn set_enforce_direction(&mut self, enforce: bool)
        ensures
            final(self).enforce_direction == enforce,
            final(self).client_restriction == old(self).client_restriction,
            final(self).is_listening == old(self).is_listening,
            final(self).state == old(self).state,
            final(self).full_id == old(self).full_id,
            final(self).routing_table == old(self).routing_table,
            final(self).peers == old(self).peers,
            final(self).proxy_map == old(self).proxy_map,
            final(self).client_map == old(self).client_map,
            final(self).signed_message_filter == old(self).signed_message_filter,
            final(self).connection_filter == old(self).connection_filter,
            final(self).node_id_cache == old(self).node_id_cache,
            final(self).message_accumulator == old(self).message_accumulator,
            final(self).quorum_size == old(self).quorum_size,
            final(self).grp_msg_filter == old(self).grp_msg_filter,
            final(self).data_cache == old(self).data_cache,
            final(self).endpoints == old(self).endpoints,
            final(self).outbox == old(self).outbox,
            final(self).pending == old(self).pending,
            final(self).wf() == old(self).wf(),
    {
        self.enforce_direction = enforce;
    }

    /// The number of clients for which we act as a proxy and which mean to
    /// become nodes.
    pub fn joining_nodes_num(&self) -> (count: usize)
        ensures
            count == joining_count(self.client_map@),
    {
        count_joining(&self.client_map)
    }

    /// Whether `name` is in the routing table or the routing table would
    /// take it in.
    pub fn want_address_in_routing_table(&self, name: &XorName) -> (wanted: bool)
        ensures
            wanted == (table_names(self.routing_table).contains(name@) || kademlia_needs(
                table_own_name(self.routing_table),
                table_names(self.routing_table),
                table_bucket_size(self.routing_table),
                name@,
            )),
    {
        table_contains(&self.routing_table, name) || table_need_to_add(&self.routing_table, name)
    }

    /// The names of the `GROUP_SIZE` nodes of the routing table that are
    /// nearest to us, nearest first, or of all where there are fewer.
    pub fn close_group_names(&self) -> (names: Vec<XorName>)
        ensures
            nearest_of(
                table_names(self.routing_table),
                self.full_id.public_id.name@,
                GROUP_SIZE as nat,
                names@,
            ),
    {
        table_closest(&self.routing_table, &self.full_id.public_id.name, GROUP_SIZE)
    }

    /// The authority that we send under as a client: our signing key and
    /// the name of the first proxy. Fails with `NotBootstrapped` where
    /// there is no proxy.
    pub fn get_client_authority(&self) -> (result: Result<Authority, RoutingError>)
        ensures
            match result {
                Ok(authority) => self.proxy_map@.len() > 0 && authority == (Authority::Client {
                    client_key: self.full_id.public_id.public_sign_key,
                    proxy_node_name: self.proxy_map@[0].public_id.name,
                }),
                Err(error) => self.proxy_map@.len() == 0 && error == RoutingError::NotBootstrapped,
            },
    {
        if self.proxy_map.len() == 0 {
            return Err(RoutingError::NotBootstrapped);
        }
        Ok(
            Authority::Client {
                client_key: self.full_id.public_id.public_sign_key,
                proxy_node_name: self.proxy_map[0].public_id.name,
            },
        )
    }

    /// Whether we may still take the name `new_name`: we go by the name
    /// that we began with, and `new_name` is not that name.
    pub open spec fn can_take_name(&self, new_name: XorName) -> bool {
        !self.full_id.public_id.is_relocated() && new_name@ != sha512_digest(
            self.full_id.public_id.public_sign_key@,
        )
    }

    /// Takes the name that the network has chosen for us. The routing table
    /// is replaced by an empty one for the new name. This happens once: no
    /// name can be taken afterwards.
    pub fn set_self_node_name(&mut self, new_name: XorName)
        requires
            old(self).wf(),
            old(self).can_take_name(new_name),
        ensures
            final(self).wf(),
            final(self).kept(
                old(self),
                Touched { identity: true, table: true, ..Touched::nothing() },
            ),
            final(self).full_id.public_id.name == new_name,
            final(self).full_id.public_id.public_sign_key
                == old(self).full_id.public_id.public_sign_key,
            final(self).full_id.public_id.public_encrypt_key
                == old(self).full_id.public_id.public_encrypt_key,
            final(self).full_id.private_sign_key == old(self).full_id.private_sign_key,
            final(self).full_id.private_encrypt_key == old(self).full_id.private_encrypt_key,
            final(self).full_id.public_id.is_relocated(),
            forall|other: XorName| !final(self).can_take_name(other),
            table_names(final(self).routing_table) == Set::<Seq<u8>>::empty(),
            final(self).peers@.len() == 0,
            final(self).state == old(self).state,
            final(self).proxy_map == old(self).proxy_map,
            final(self).client_map == old(self).client_map,
            final(self).outbox == old(self).outbox,
            final(self).pending == old(self).pending,
            final(self).client_restriction == old(self).client_restriction,
    {
        self.routing_table = table_new(&new_name, GROUP_SIZE, EXTRA_BUCKET_ENTRIES);
        self.peers = Vec::new();
        self.full_id.public_id.set_name(new_name);
        assert(peer_names(self.peers@) =~= table_names(self.routing_table));
    }
}

} // verus!
