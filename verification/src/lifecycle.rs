//! What the core does when connections come and go.

use crate::crypto::{sha512, sha512_digest};
use crate::data::MessageId;
use crate::direct::identify_frame;
use crate::event::{Effect, EffectView, Event};
use crate::names::XorName;
use crate::peers::{
    Client, Proxy, clients_distinct, find_client_by_connection, find_peer_by_connection, find_proxy,
    lemma_peer_names_remove, lemma_peer_names_update, proxies_distinct,
};
use crate::routing::{Core, State, Touched};
use crate::rules::GROUP_SIZE;
use crate::table::{table_is_close, table_names, table_remove};
use vstd::prelude::*;

verus! {

/// The place of `wanted` among `connections`.
fn connection_place(connections: &Vec<u64>, wanted: u64) -> (place: usize)
    requires
        connections@.contains(wanted),
    ensures
        place < connections@.len(),
        connections@[place as int] == wanted,
{
    let mut i: usize = 0;
    while i < connections.len()
        invariant
            i <= connections@.len(),
            connections@.contains(wanted),
            forall|j: int| 0 <= j < i ==> connections@[j] != wanted,
        decreases connections@.len() - i,
    {
        if connections[i] == wanted {
            return i;
        }
        i += 1;
    }
    proof {
        let j = choose|j: int| 0 <= j < connections@.len() && connections@[j] == wanted;
        assert(false);
    }
    0
}

/// Whether `after` is `before` without its first client on `connection`.
pub open spec fn client_gone(before: Seq<Client>, after: Seq<Client>, connection: u64) -> bool {
    ||| after == before && forall|j: int|
        0 <= j < before.len() ==> (#[trigger] before[j]).connection != connection
    ||| exists|i: int|
        {
            &&& 0 <= i < before.len()
            &&& (#[trigger] before[i]).connection == connection
            &&& forall|j: int| 0 <= j < i ==> (#[trigger] before[j]).connection != connection
            &&& after == before.remove(i)
        }
}

/// Whether `after` is `before` without its proxy on `connection`.
pub open spec fn proxy_gone(before: Seq<Proxy>, after: Seq<Proxy>, connection: u64) -> bool {
    ||| after == before && forall|j: int|
        0 <= j < before.len() ==> (#[trigger] before[j]).connection != connection
    ||| exists|i: int|
        {
            &&& 0 <= i < before.len()
            &&& (#[trigger] before[i]).connection == connection
            &&& after == before.remove(i)
        }
}

/// The notice that the node called `name` has left the close group.
pub open spec fn lost_notice(name: XorName) -> EffectView {
    EffectView::Emit(Event::Churn { id: MessageId(name.0), lost_close_node: Some(name) })
}

impl Core {
    /// What the loss of `connection` does to the routing table.
    ///
    /// The first node that the connection led to loses it. A node that has
    /// other connections stays. A node that has none is taken out of the
    /// table, and the user is told where its name is then near.
    pub open spec fn node_connection_lost(&self, before: &Core, connection: u64) -> bool {
        ||| {
            &&& forall|j: int|
                0 <= j < before.peers@.len() ==> !(#[trigger] before.peers@[j]).connections@.contains(
                    connection,
                )
            &&& self.routing_table == before.routing_table
            &&& self.peers == before.peers
            &&& self.effects() == before.effects()
        }
        ||| exists|i: int, place: int|
            {
                &&& 0 <= i < before.peers@.len()
                &&& 0 <= place < (#[trigger] before.peers@[i]).connections@.len()
                &&& #[trigger] before.peers@[i].connections@[place] == connection
                &&& forall|j: int|
                    0 <= j < i ==> !(#[trigger] before.peers@[j]).connections@.contains(
                        connection,
                    )
                &&& if before.peers@[i].connections@.len() > 1 {
                    &&& self.routing_table == before.routing_table
                    &&& self.peers@.len() == before.peers@.len()
                    &&& forall|j: int|
                        0 <= j < before.peers@.len() && j != i ==> #[trigger] self.peers@[j]
                            == before.peers@[j]
                    &&& self.peers@[i].public_id == before.peers@[i].public_id
                    &&& self.peers@[i].connections@ == before.peers@[i].connections@.remove(place)
                    &&& self.effects() == before.effects()
                } else {
                    let name = before.peers@[i].public_id.name;
                    &&& table_names(self.routing_table) == table_names(
                        before.routing_table,
                    ).remove(name@)
                    &&& self.peers@ == before.peers@.remove(i)
                    &&& self.effects() == if self.near(name) {
                        before.effects().push(lost_notice(name))
                    } else {
                        before.effects()
                    }
                }
            }
    }

    /// What the loss of `connection` does to the peers: the node, the
    /// client and the proxy that it led to are forgotten.
    pub open spec fn peers_lost(&self, before: &Core, connection: u64) -> bool {
        &&& self.kept(
            before,
            Touched {
                table: true,
                clients: true,
                proxies: true,
                outbox: true,
                ..Touched::nothing()
            },
        )
        &&& self.node_connection_lost(before, connection)
        &&& client_gone(before.client_map@, self.client_map@, connection)
        &&& proxy_gone(before.proxy_map@, self.proxy_map@, connection)
    }

    /// What the loss of `connection` does: the peers that it led to are
    /// forgotten, and a client that has lost its last proxy with it begins
    /// to bootstrap again.
    pub open spec fn connection_lost(&self, before: &Core, connection: u64) -> bool {
        exists|bereft: Core| #[trigger]
            bereft.peers_lost(before, connection) && if before.state == State::Client
                && before.proxy_map@.len() > 0 && bereft.proxy_map@.len() == 0 {
                self.bootstrap_restarted(&bereft)
            } else {
                self.only_added(&bereft, Seq::empty())
            }
    }

    /// What asking the transport to listen does: it is asked once.
    pub open spec fn listening_started(&self, before: &Core) -> bool {
        if before.is_listening {
            self.only_added(before, Seq::empty())
        } else {
            &&& self.kept(before, Touched { listening: true, outbox: true, ..Touched::nothing() })
            &&& self.is_listening
            &&& self.effects() == before.effects().push(EffectView::StartListening)
        }
    }

    /// What a connection that we asked for does: while disconnected we
    /// begin to bootstrap and introduce ourselves as a client, and else we
    /// introduce ourselves as a node. A connection that failed changes
    /// nothing.
    pub open spec fn connection_made(
        &self,
        before: &Core,
        connection: Option<u64>,
        endpoints: Seq<u8>,
    ) -> bool {
        match connection {
            None => self.only_added(before, Seq::empty()),
            Some(connection) => {
                &&& self.kept(
                    before,
                    Touched { state: true, endpoints: true, outbox: true, ..Touched::nothing() },
                )
                &&& self.endpoints@ == endpoints
                &&& if before.state == State::Disconnected {
                    &&& self.state == State::Bootstrapping
                    &&& self.effects() == before.effects().push(
                        EffectView::Send {
                            connection,
                            bytes: identify_frame(
                                before.full_id.public_id,
                                before.full_id.private_sign_key@,
                                Some(before.client_restriction),
                            ),
                        },
                    )
                } else {
                    &&& self.state == before.state
                    &&& self.effects() == before.effects().push(before.greeting(connection))
                }
            },
        }
    }

    /// What a connection made to us does. While disconnected we are the
    /// first node of the network: we are a node from then on, under the
    /// hash of our name where we have not taken a name before.
    pub open spec fn connection_accepted(&self, before: &Core, endpoints: Seq<u8>) -> bool {
        &&& self.endpoints@ == endpoints
        &&& if before.state == State::Disconnected {
            &&& self.state == State::Node
            &&& self.kept(
                before,
                Touched {
                    state: true,
                    identity: true,
                    table: true,
                    endpoints: true,
                    ..Touched::nothing()
                },
            )
            &&& if !before.full_id.public_id.is_relocated() && sha512_digest(
                before.full_id.public_id.name@,
            ) != sha512_digest(before.full_id.public_id.public_sign_key@) {
                &&& self.full_id.public_id.name@ == sha512_digest(before.full_id.public_id.name@)
                &&& self.full_id.public_id.public_sign_key
                    == before.full_id.public_id.public_sign_key
                &&& self.full_id.public_id.public_encrypt_key
                    == before.full_id.public_id.public_encrypt_key
                &&& self.full_id.private_sign_key == before.full_id.private_sign_key
                &&& self.full_id.private_encrypt_key == before.full_id.private_encrypt_key
                &&& table_names(self.routing_table) == Set::<Seq<u8>>::empty()
                &&& self.peers@.len() == 0
            } else {
                &&& self.full_id == before.full_id
                &&& self.routing_table == before.routing_table
                &&& self.peers == before.peers
            }
        } else {
            self.kept(before, Touched { endpoints: true, ..Touched::nothing() })
        }
    }

    /// Asks the transport to listen, as `listening_started` says.
    pub fn start_listening(&mut self)
        ensures
            final(self).listening_started(old(self)),
    {
        if self.is_listening {
            assert(self.effects() =~= old(self).effects() + Seq::<EffectView>::empty());
            return ;
        }
        self.is_listening = true;
        let ghost held = self.effects();
        self.outbox.push(Effect::StartListening);
        assert(self.effects() =~= held.push(EffectView::StartListening));
    }

    /// Handles the end of the search for a node to bootstrap from: where
    /// none was found we listen, as `listening_started` says.
    pub fn handle_bootstrap_finished(&mut self)
        ensures
            if old(self).state == State::Disconnected {
                final(self).listening_started(old(self))
            } else {
                final(self).only_added(old(self), Seq::empty())
            },
    {
        match self.state {
            State::Disconnected => self.start_listening(),
            _ => {
                assert(self.effects() =~= old(self).effects() + Seq::<EffectView>::empty());
            },
        }
    }

    /// Handles a connection that we asked for, as `connection_made` says.
    pub fn handle_on_connect(&mut self, connection: Option<u64>, endpoints: Vec<u8>)
        ensures
            final(self).connection_made(old(self), connection, endpoints@),
            old(self).wf() ==> final(self).wf(),
    {
        match connection {
            Some(connection) => {
                self.endpoints = endpoints;
                let ghost held = self.effects();
                match self.state {
                    State::Disconnected => {
                        self.state = State::Bootstrapping;
                        self.client_identify(connection);
                    },
                    _ => {
                        self.node_identify(connection);
                    },
                }
                assert(self.effects() =~= held.push(self.effects().last()));
            },
            None => {
                assert(self.effects() =~= old(self).effects() + Seq::<EffectView>::empty());
            },
        }
    }

    /// Handles a connection made to us, as `connection_accepted` says.
    pub fn handle_on_accept(&mut self, connection: u64, endpoints: Vec<u8>)
        requires
            old(self).wf(),
        ensures
            final(self).wf(),
            final(self).connection_accepted(old(self), endpoints@),
    {
        match self.state {
            State::Disconnected => {
                let new_name = XorName(sha512(self.full_id.public_id.name.0.as_slice()));
                let fresh = !self.full_id.public_id.has_relocated_name();
                let hashed_key = XorName(sha512(self.full_id.public_id.public_sign_key.as_slice()));
                if fresh && !new_name.same_as(&hashed_key) {
                    self.set_self_node_name(new_name);
                }
                self.state = State::Node;
            },
            _ => {},
        }
        self.endpoints = endpoints;
    }

    /// Forgets the client on `connection`.
    pub fn dropped_client_connection(&mut self, connection: u64)
        ensures
            final(self).kept(old(self), Touched { clients: true, ..Touched::nothing() }),
            client_gone(old(self).client_map@, final(self).client_map@, connection),
            clients_distinct(old(self).client_map@) ==> clients_distinct(final(self).client_map@),
    {
        match find_client_by_connection(&self.client_map, connection) {
            Some(i) => {
                let _ = self.client_map.remove(i);
                assert(old(self).client_map@[i as int].connection == connection);
                assert forall|a: int, b: int|
                    clients_distinct(old(self).client_map@) && 0 <= a < b
                        < self.client_map@.len() implies (#[trigger] self.client_map@[a]).key@ != (
                #[trigger] self.client_map@[b]).key@ by {
                    let x = if a < i { a } else { a + 1 };
                    let y = if b < i { b } else { b + 1 };
                    assert(self.client_map@[a] == old(self).client_map@[x]);
                    assert(self.client_map@[b] == old(self).client_map@[y]);
                }
            },
            None => {},
        }
    }

    /// Forgets the proxy on `connection`.
    pub fn dropped_bootstrap_connection(&mut self, connection: u64)
        ensures
            final(self).kept(old(self), Touched { proxies: true, ..Touched::nothing() }),
            proxy_gone(old(self).proxy_map@, final(self).proxy_map@, connection),
            proxies_distinct(old(self).proxy_map@) ==> proxies_distinct(final(self).proxy_map@),
    {
        match find_proxy(&self.proxy_map, connection) {
            Some(i) => {
                let _ = self.proxy_map.remove(i);
                assert(old(self).proxy_map@[i as int].connection == connection);
                assert forall|a: int, b: int|
                    proxies_distinct(old(self).proxy_map@) && 0 <= a < b
                        < self.proxy_map@.len() implies (
                #[trigger] self.proxy_map@[a]).connection != (
                #[trigger] self.proxy_map@[b]).connection by {
                    let x = if a < i { a } else { a + 1 };
                    let y = if b < i { b } else { b + 1 };
                    assert(self.proxy_map@[a] == old(self).proxy_map@[x]);
                    assert(self.proxy_map@[b] == old(self).proxy_map@[y]);
                }
            },
            None => {},
        }
    }

    /// Takes `connection` from the node that it led to, as
    /// `node_connection_lost` says.
    pub fn dropped_routing_node_connection(&mut self, connection: u64)
        requires
            old(self).wf(),
        ensures
            final(self).wf(),
            final(self).kept(old(self), Touched { table: true, outbox: true, ..Touched::nothing() }),
            final(self).node_connection_lost(old(self), connection),
    {
        let i = match find_peer_by_connection(&self.peers, connection) {
            Some(i) => i,
            None => {
                return ;
            },
        };
        let place = connection_place(&self.peers[i].connections, connection);
        let mut peer = self.peers.remove(i);
        let name = peer.public_id.name;
        if peer.connections.len() > 1 {
            let _ = peer.connections.remove(place);
            proof {
                lemma_peer_names_update(old(self).peers@, i as int, peer);
            }
            self.peers.insert(i, peer);
            assert(self.peers@ =~= old(self).peers@.update(i as int, peer));
            assert(old(self).peers@[i as int].connections@[place as int] == connection);
            return ;
        }
        proof {
            lemma_peer_names_remove(old(self).peers@, i as int);
        }
        let _ = table_remove(&mut self.routing_table, &name);
        if table_is_close(&self.routing_table, &name, GROUP_SIZE) {
            let ghost held = self.effects();
            self.outbox.push(
                Effect::Emit(
                    Event::Churn { id: MessageId::from_lost_node(name), lost_close_node: Some(name) },
                ),
            );
            proof {
                assert(MessageId::from_lost_node_spec(name) == MessageId(name.0));
                assert(self.effects() =~= held.push(lost_notice(name)));
            }
        }
        assert(old(self).peers@[i as int].connections@[place as int] == connection);
    }

    /// Handles the loss of `connection`, as `connection_lost` says.
    pub fn handle_lost_connection(&mut self, connection: u64)
        requires
            old(self).wf(),
        ensures
            final(self).wf(),
            final(self).connection_lost(old(self), connection),
    {
        let had_proxy = self.proxy_map.len() > 0;
        self.dropped_routing_node_connection(connection);
        self.dropped_client_connection(connection);
        self.dropped_bootstrap_connection(connection);
        let ghost bereft = *self;
        assert(bereft.peers_lost(old(self), connection));
        let client = match self.state {
            State::Client => true,
            _ => false,
        };
        if client && had_proxy && self.proxy_map.len() == 0 {
            self.restart_bootstrap();
        } else {
            assert(self.effects() =~= bereft.effects() + Seq::<EffectView>::empty());
        }
    }
}

} // verus!
