//! How nodes join the routing table and leave it.

use crate::cache::{cached_ids, id_cache_get, id_cache_remove};
use crate::data::MessageId;
use crate::direct::{claims_id, identify_frame, proxy_drops, verify_signed_public_id};
use crate::event::{Effect, EffectView, Event};
use crate::id::PublicId;
use crate::names::XorName;
use crate::peers::{
    Peer, find_peer, has_connection, lemma_peer_names_push, lemma_peer_names_remove,
    lemma_peer_names_update, peer_names, peers_distinct,
};
use crate::routing::{Core, State, Touched};
use crate::rules::GROUP_SIZE;
use crate::table::{
    name_views, nearest_of, table_add, table_closest, table_is_close, table_len, table_names,
    table_remove, takes_in, unneeded_after,
};
use crate::wire::lemma_public_id_wire_injective;
use vstd::prelude::*;

verus! {

/// One instruction to close each of `connections`, in order.
pub open spec fn connection_drops(connections: Seq<u64>) -> Seq<EffectView> {
    connections.map_values(|connection: u64| EffectView::DropNode { connection })
}

/// The place of the peer called `name`, where there is one.
pub open spec fn peer_place(peers: Seq<Peer>, name: Seq<u8>) -> Option<int> {
    if peer_names(peers).contains(name) {
        Some(choose|i: int| 0 <= i < peers.len() && (#[trigger] peers[i]).public_id.name@ == name)
    } else {
        None
    }
}

/// What is left of `peers` once the peers called `names` have been
/// forgotten one after the other, but for the peer called `keep`, and the
/// instructions that close their connections, in that order.
pub open spec fn ejections(peers: Seq<Peer>, names: Seq<Seq<u8>>, keep: Seq<u8>) -> (
    Seq<Peer>,
    Seq<EffectView>,
)
    decreases names.len(),
{
    if names.len() == 0 {
        (peers, Seq::empty())
    } else if names[0] == keep {
        ejections(peers, names.drop_first(), keep)
    } else {
        match peer_place(peers, names[0]) {
            Some(i) => {
                let after = ejections(peers.remove(i), names.drop_first(), keep);
                (after.0, connection_drops(peers[i].connections@) + after.1)
            },
            None => ejections(peers, names.drop_first(), keep),
        }
    }
}

/// The place of a peer among peers of different names is the place of its
/// name.
pub proof fn lemma_peer_place(peers: Seq<Peer>, i: int)
    requires
        peers_distinct(peers),
        0 <= i < peers.len(),
    ensures
        peer_place(peers, peers[i].public_id.name@) == Some(i),
{
    let name = peers[i].public_id.name@;
    assert(peer_names(peers).contains(name));
    let j = choose|j: int| 0 <= j < peers.len() && (#[trigger] peers[j]).public_id.name@ == name;
    if i < j {
        assert(peers[i].public_id.name@ != peers[j].public_id.name@);
    }
    if j < i {
        assert(peers[j].public_id.name@ != peers[i].public_id.name@);
    }
}

/// A peer called `keep` is still there after the ejections that spare
/// `keep`.
pub proof fn lemma_ejections_spare(peers: Seq<Peer>, names: Seq<Seq<u8>>, keep: Seq<u8>, i: int)
    requires
        0 <= i < peers.len(),
        peers[i].public_id.name@ == keep,
    ensures
        ejections(peers, names, keep).0.contains(peers[i]),
    decreases names.len(),
{
    if names.len() == 0 {
        assert(peers[i] == peers[i]);
    } else if names[0] == keep {
        lemma_ejections_spare(peers, names.drop_first(), keep, i);
    } else {
        match peer_place(peers, names[0]) {
            Some(gone) => {
                assert(peers[gone].public_id.name@ == names[0]);
                let left = peers.remove(gone);
                let at = if i < gone { i } else { i - 1 };
                assert(left[at] == peers[i]);
                lemma_ejections_spare(left, names.drop_first(), keep, at);
            },
            None => {
                lemma_ejections_spare(peers, names.drop_first(), keep, i);
            },
        }
    }
}

/// The notice with the id `id` that the close group has changed because a
/// node has come, where the nodes of the routing table are `names` and
/// `group` are those nearest to us: the node that falls out of the group is
/// the last of `group` where the table is full.
pub open spec fn churn_for(id: MessageId, names: Set<Seq<u8>>, group: Seq<XorName>) -> EffectView {
    EffectView::Emit(
        Event::Churn {
            id,
            lost_close_node: if names.len() >= GROUP_SIZE as nat && group.len() > 0 {
                Some(group.last())
            } else {
                None
            },
        },
    )
}

impl Core {
    /// What a look into the cache of public ids does: the cache has
    /// dropped what has expired, and nothing else has changed.
    pub open spec fn looked_up_id(&self, before: &Core) -> bool {
        &&& self.kept(before, Touched { ids: true, ..Touched::nothing() })
        &&& cached_ids(self.node_id_cache).submap_of(cached_ids(before.node_id_cache))
    }

    /// What the introduction of a node does. A node whose signed public
    /// id does not hold has its connection closed, and so has one whose
    /// public id is not the one that the cache holds under its name; what
    /// happens to any other is what `node_claimed` says.
    pub open spec fn node_identified(
        &self,
        before: &Core,
        connection: u64,
        serialised: Seq<u8>,
        signature: Seq<u8>,
    ) -> bool {
        &&& (forall|id: PublicId| !claims_id(serialised, signature, id)) ==> self.only_added(
            before,
            seq![EffectView::DropNode { connection }],
        )
        &&& forall|id: PublicId|
            claims_id(serialised, signature, id) ==> exists|mid: Core|
                {
                    &&& #[trigger] mid.looked_up_id(before)
                    &&& if mid.cached_id(id.name) == Some(id) {
                        self.node_claimed(&mid, connection, id)
                    } else {
                        self.only_added(&mid, seq![EffectView::DropNode { connection }])
                    }
                }
    }

    /// What hearing from a node that is in the routing table does, where
    /// `place` is its place among the peers: a connection that is new is
    /// added to those of the node and we introduce ourselves on it; a
    /// connection that we know already changes nothing.
    pub open spec fn met_again(&self, before: &Core, connection: u64, place: int) -> bool {
        if before.peers@[place].connections@.contains(connection) {
            self.only_added(before, Seq::empty())
        } else {
            &&& self.kept(before, Touched { table: true, outbox: true, ..Touched::nothing() })
            &&& self.routing_table == before.routing_table
            &&& self.peers@.len() == before.peers@.len()
            &&& forall|j: int|
                0 <= j < before.peers@.len() && j != place ==> #[trigger] self.peers@[j]
                    == before.peers@[j]
            &&& self.peers@[place].public_id == before.peers@[place].public_id
            &&& self.peers@[place].connections@ == before.peers@[place].connections@.push(
                connection,
            )
            &&& self.effects() == before.effects().push(before.greeting(connection))
        }
    }

    /// The message by which we introduce ourselves to the node on
    /// `connection`.
    pub open spec fn greeting(&self, connection: u64) -> EffectView {
        EffectView::Send {
            connection,
            bytes: identify_frame(self.full_id.public_id, self.full_id.private_sign_key@, None),
        }
    }

    /// What the user is told before a node called `name` is added: nothing
    /// where the name is not near, and else that the close group changes,
    /// under an id that is the name in reverse.
    pub open spec fn churn_notice(&self, name: XorName, notice: Seq<EffectView>) -> bool {
        if self.near(name) {
            exists|group: Seq<XorName>, id: MessageId|
                {
                    &&& nearest_of(
                        table_names(self.routing_table),
                        self.full_id.public_id.name@,
                        GROUP_SIZE as nat,
                        group,
                    )
                    &&& id.0@ == name@.reverse()
                    &&& notice == seq![
                        #[trigger] churn_for(id, table_names(self.routing_table), group),
                    ]
                }
        } else {
            notice == Seq::<EffectView>::empty()
        }
    }

    /// What hearing from a node `id` that is not in the routing table does.
    ///
    /// The user is told of the change to the close group where there is
    /// one. Where the routing table does not take the node in, its
    /// connection is closed and its public id forgotten. Where it does, the
    /// node is in the table with this connection and we are a node; the
    /// proxies are dropped where the table has become full; the other nodes
    /// that the table no longer needs are taken out and their connections
    /// closed; and we introduce ourselves.
    pub open spec fn met_anew(&self, before: &Core, connection: u64, id: PublicId) -> bool {
        exists|notice: Seq<EffectView>, added: Peer| #[trigger]
            self.met_anew_with(before, connection, id, notice, added)
    }

    /// What `met_anew` says, where `notice` is what the user is told and
    /// `added` is the node as it is put among the peers.
    ///
    /// The routing table takes the node in exactly where `takes_in` says.
    /// The nodes that it then no longer needs are forgotten in the order in
    /// which the table lists them, but for the node that has just come.
    pub open spec fn met_anew_with(
        &self,
        before: &Core,
        connection: u64,
        id: PublicId,
        notice: Seq<EffectView>,
        added: Peer,
    ) -> bool {
        &&& before.churn_notice(id.name, notice)
        &&& if !takes_in(before.routing_table, id.name@) {
            &&& self.kept(
                before,
                Touched { table: true, ids: true, outbox: true, ..Touched::nothing() },
            )
            &&& table_names(self.routing_table) == table_names(before.routing_table)
            &&& self.peers == before.peers
            &&& cached_ids(self.node_id_cache) == cached_ids(before.node_id_cache).remove(
                id.name@,
            )
            &&& self.effects() == before.effects() + notice + seq![
                EffectView::DropNode { connection },
            ]
        } else {
            let left = ejections(
                before.peers@.push(added),
                unneeded_after(before.routing_table, id.name@),
                id.name@,
            );
            &&& self.kept(
                before,
                Touched {
                    state: true,
                    table: true,
                    proxies: true,
                    outbox: true,
                    ..Touched::nothing()
                },
            )
            &&& self.state == State::Node
            &&& added.public_id == id
            &&& added.connections@ == seq![connection]
            &&& self.peers@ == left.0
            &&& self.peers@.contains(added)
            &&& table_names(self.routing_table) == peer_names(self.peers@)
            &&& if table_names(before.routing_table).len() + 1 >= GROUP_SIZE as nat
                && before.proxy_map@.len() > 0 {
                &&& self.proxy_map@.len() == 0
                &&& self.effects() == before.effects() + notice + proxy_drops(
                    before.proxy_map@,
                ) + left.1 + seq![before.greeting(connection)]
            } else {
                &&& self.proxy_map == before.proxy_map
                &&& self.effects() == before.effects() + notice + left.1 + seq![
                    before.greeting(connection),
                ]
            }
        }
    }

    /// What hearing from a node that has shown to be `id` does: what
    /// `met_again` says where it is in the routing table, and what
    /// `met_anew` says where it is not.
    pub open spec fn node_claimed(&self, before: &Core, connection: u64, id: PublicId) -> bool {
        if table_names(before.routing_table).contains(id.name@) {
            exists|place: int|
                0 <= place < before.peers@.len() && (#[trigger] before.peers@[place]).public_id.name@
                    == id.name@ && self.met_again(before, connection, place)
        } else {
            self.met_anew(before, connection, id)
        }
    }

    /// Closes the connections of all proxies and forgets the proxies.
    pub fn drop_proxies(&mut self)
        ensures
            final(self).kept(
                old(self),
                Touched { proxies: true, outbox: true, ..Touched::nothing() },
            ),
            final(self).proxy_map@.len() == 0,
            final(self).effects() == old(self).effects() + proxy_drops(old(self).proxy_map@),
    {
        let mut i: usize = 0;
        assert(proxy_drops(self.proxy_map@.take(0)) =~= Seq::<EffectView>::empty());
        assert(self.effects() =~= old(self).effects() + Seq::<EffectView>::empty());
        while i < self.proxy_map.len()
            invariant
                i <= self.proxy_map@.len(),
                self.kept(old(self), Touched::outbox()),
                self.effects() == old(self).effects() + proxy_drops(
                    self.proxy_map@.take(i as int),
                ),
            decreases self.proxy_map@.len() - i,
        {
            let connection = self.proxy_map[i].connection;
            let ghost held = self.effects();
            self.outbox.push(Effect::DropNode { connection });
            assert(self.effects() =~= held.push(EffectView::DropNode { connection }));
            assert(proxy_drops(self.proxy_map@.take(i + 1)) =~= proxy_drops(
                self.proxy_map@.take(i as int),
            ).push(EffectView::DropNode { connection }));
            i += 1;
        }
        assert(self.proxy_map@.take(self.proxy_map@.len() as int) =~= self.proxy_map@);
        self.proxy_map.clear();
    }

    /// Begins to bootstrap again, as `bootstrap_restarted` says.
    pub fn restart_bootstrap(&mut self)
        ensures
            final(self).bootstrap_restarted(old(self)),
            old(self).wf() ==> final(self).wf(),
    {
        let ghost held = self.effects();
        self.outbox.push(Effect::StopBootstrap);
        assert(self.effects() =~= held.push(EffectView::StopBootstrap));
        self.state = State::Disconnected;
        self.drop_proxies();
        let ghost dropped = self.effects();
        self.outbox.push(Effect::Pause);
        self.outbox.push(Effect::Bootstrap);
        assert(self.effects() =~= dropped + seq![EffectView::Pause, EffectView::Bootstrap]);
        assert(self.effects() =~= old(self).effects() + seq![EffectView::StopBootstrap]
            + proxy_drops(old(self).proxy_map@) + seq![EffectView::Pause, EffectView::Bootstrap]);
    }

    /// Closes each of `connections`.
    pub fn drop_connections(&mut self, connections: &Vec<u64>)
        ensures
            final(self).only_added(old(self), connection_drops(connections@)),
    {
        let mut i: usize = 0;
        assert(connection_drops(connections@.take(0)) =~= Seq::<EffectView>::empty());
        assert(self.effects() =~= old(self).effects() + Seq::<EffectView>::empty());
        while i < connections.len()
            invariant
                i <= connections@.len(),
                self.only_added(old(self), connection_drops(connections@.take(i as int))),
            decreases connections@.len() - i,
        {
            let connection = connections[i];
            let ghost held = self.effects();
            self.outbox.push(Effect::DropNode { connection });
            assert(self.effects() =~= held.push(EffectView::DropNode { connection }));
            assert(connection_drops(connections@.take(i + 1)) =~= connection_drops(
                connections@.take(i as int),
            ).push(EffectView::DropNode { connection }));
            i += 1;
        }
        assert(connections@.take(connections@.len() as int) =~= connections@);
    }

    /// What taking the node called `name` out of the routing table does:
    /// the table does not hold the name, and where one of the peers has it,
    /// that peer is forgotten and its connections are closed.
    pub open spec fn ejected(&self, before: &Core, name: XorName) -> bool {
        &&& self.kept(before, Touched { table: true, outbox: true, ..Touched::nothing() })
        &&& table_names(self.routing_table) == table_names(before.routing_table).remove(name@)
        &&& {
            ||| {
                &&& !peer_names(before.peers@).contains(name@)
                &&& self.peers == before.peers
                &&& self.effects() == before.effects()
            }
            ||| exists|i: int|
                {
                    &&& 0 <= i < before.peers@.len()
                    &&& (#[trigger] before.peers@[i]).public_id.name@ == name@
                    &&& self.peers@ == before.peers@.remove(i)
                    &&& self.effects() == before.effects() + connection_drops(
                        before.peers@[i].connections@,
                    )
                }
        }
    }

    /// Takes the node called `name` out of the routing table and closes
    /// its connections, as `ejected` says.
    pub fn eject(&mut self, name: &XorName)
        requires
            old(self).wf(),
        ensures
            final(self).wf(),
            final(self).ejected(old(self), *name),
    {
        let _ = table_remove(&mut self.routing_table, name);
        match find_peer(&self.peers, name) {
            Some(i) => {
                proof {
                    lemma_peer_names_remove(self.peers@, i as int);
                }
                let peer = self.peers.remove(i);
                self.drop_connections(&peer.connections);
                assert(old(self).peers@[i as int].public_id.name@ == name@);
            },
            None => {
                assert(table_names(self.routing_table) =~= table_names(old(self).routing_table));
                assert(self.effects() =~= old(self).effects());
            },
        }
    }

    /// Forgets the peers called `names[from..]` one after the other, but
    /// for the peer called `keep`, and closes their connections, as
    /// `ejections` says.
    pub fn drop_unneeded(&mut self, names: &Vec<XorName>, from: usize, keep: &XorName)
        requires
            old(self).wf(),
            from <= names@.len(),
        ensures
            final(self).wf(),
            final(self).kept(old(self), Touched { table: true, outbox: true, ..Touched::nothing() }),
            final(self).peers@ == ejections(
                old(self).peers@,
                name_views(names@).skip(from as int),
                keep@,
            ).0,
            final(self).effects() == old(self).effects() + ejections(
                old(self).peers@,
                name_views(names@).skip(from as int),
                keep@,
            ).1,
        decreases names@.len() - from,
    {
        let ghost rest = name_views(names@).skip(from as int);
        if from >= names.len() {
            assert(self.effects() =~= old(self).effects() + Seq::<EffectView>::empty());
            return ;
        }
        proof {
            assert(rest[0] == names@[from as int]@);
            assert(rest.drop_first() =~= name_views(names@).skip(from + 1));
        }
        if names[from].same_as(keep) {
            self.drop_unneeded(names, from + 1, keep);
            return ;
        }
        let ghost place = peer_place(self.peers@, names@[from as int]@);
        self.eject(&names[from]);
        let ghost mid = *self;
        proof {
            if place is Some {
                let i = choose|i: int|
                    {
                        &&& 0 <= i < old(self).peers@.len()
                        &&& (#[trigger] old(self).peers@[i]).public_id.name@ == names@[from as int]@
                        &&& mid.peers@ == old(self).peers@.remove(i)
                        &&& mid.effects() == old(self).effects() + connection_drops(
                            old(self).peers@[i].connections@,
                        )
                    };
                lemma_peer_place(old(self).peers@, i);
            }
        }
        self.drop_unneeded(names, from + 1, keep);
        proof {
            let after = ejections(mid.peers@, rest.drop_first(), keep@);
            assert(self.effects() =~= mid.effects() + after.1);
            match place {
                Some(i) => {
                    assert(self.effects() =~= old(self).effects() + (connection_drops(
                        old(self).peers@[i].connections@,
                    ) + after.1));
                },
                None => {},
            }
        }
    }

    /// Handles a node that has shown to be `id` and that we expect, as
    /// `node_claimed` says.
    pub fn handle_node_claim(&mut self, connection: u64, id: PublicId)
        requires
            old(self).wf(),
        ensures
            final(self).wf(),
            final(self).node_claimed(old(self), connection, id),
    {
        match find_peer(&self.peers, &id.name) {
            Some(i) => {
                if has_connection(&self.peers[i].connections, connection) {
                    assert(self.effects() =~= old(self).effects() + Seq::<EffectView>::empty());
                    assert(self.met_again(old(self), connection, i as int));
                    return ;
                }
                let mut peer = self.peers.remove(i);
                peer.connections.push(connection);
                proof {
                    lemma_peer_names_update(old(self).peers@, i as int, peer);
                }
                self.peers.insert(i, peer);
                assert(self.peers@ =~= old(self).peers@.update(i as int, peer));
                self.node_identify(connection);
                assert(self.effects() =~= old(self).effects().push(old(self).greeting(connection)));
                assert(self.met_again(old(self), connection, i as int));
            },
            None => {
                self.meet_anew(connection, id);
            },
        }
    }

    fn announce_churn(&mut self, name: &XorName) -> (notice: Ghost<Seq<EffectView>>)
        requires
            old(self).wf(),
        ensures
            final(self).only_added(old(self), notice@),
            old(self).churn_notice(*name, notice@),
    {
        if !table_is_close(&self.routing_table, name, GROUP_SIZE) {
            assert(self.effects() =~= old(self).effects() + Seq::<EffectView>::empty());
            let nothing = Ghost(Seq::empty());
            return nothing;
        }
        let len = table_len(&self.routing_table);
        let group = table_closest(&self.routing_table, &self.full_id.public_id.name, GROUP_SIZE);
        let lost_close_node = if len >= GROUP_SIZE && group.len() > 0 {
            Some(group[group.len() - 1])
        } else {
            None
        };
        let id = MessageId::from_added_node(*name);
        self.push_effect(Effect::Emit(Event::Churn { id, lost_close_node }));
        let notice = Ghost(
            Seq::empty().push(churn_for(id, table_names(old(self).routing_table), group@)),
        );
        assert(notice@ =~= seq![churn_for(id, table_names(old(self).routing_table), group@)]);
        notice
    }

    fn meet_anew(&mut self, connection: u64, id: PublicId)
        requires
            old(self).wf(),
            !table_names(old(self).routing_table).contains(id.name@),
        ensures
            final(self).wf(),
            final(self).met_anew(old(self), connection, id),
    {
        let Ghost(notice) = self.announce_churn(&id.name);
        let before_len = table_len(&self.routing_table);
        let mut connections: Vec<u64> = Vec::new();
        connections.push(connection);
        let peer = Peer { public_id: id, connections };
        match table_add(&mut self.routing_table, &id.name) {
            None => {
                self.push_effect(Effect::DropNode { connection });
                let _ = id_cache_remove(&mut self.node_id_cache, &id.name.0);
                proof {
                    assert(self.effects() =~= old(self).effects() + notice + seq![
                        EffectView::DropNode { connection },
                    ]);
                    assert(self.met_anew_with(old(self), connection, id, notice, peer));
                }
            },
            Some(unneeded) => {
                proof {
                    lemma_peer_names_push(self.peers@, peer);
                }
                self.peers.push(peer);
                let ghost dropped_proxies = before_len + 1 >= GROUP_SIZE && self.proxy_map@.len()
                    > 0;
                if before_len >= GROUP_SIZE - 1 && self.proxy_map.len() > 0 {
                    self.drop_proxies();
                }
                self.state = State::Node;
                let ghost mid = *self;
                self.drop_unneeded(&unneeded, 0, &id.name);
                self.node_identify(connection);
                proof {
                    let listed = unneeded_after(old(self).routing_table, id.name@);
                    assert(name_views(unneeded@).skip(0) =~= listed);
                    assert(mid.peers@ =~= old(self).peers@.push(peer));
                    let left = ejections(mid.peers@, listed, id.name@);
                    lemma_ejections_spare(mid.peers@, listed, id.name@, mid.peers@.len() - 1);
                    if dropped_proxies {
                        assert(self.effects() =~= old(self).effects() + notice + proxy_drops(
                            old(self).proxy_map@,
                        ) + left.1 + seq![old(self).greeting(connection)]);
                    } else {
                        assert(self.effects() =~= old(self).effects() + notice + left.1 + seq![
                            old(self).greeting(connection),
                        ]);
                    }
                    assert(self.met_anew_with(old(self), connection, id, notice, peer));
                }
            },
        }
    }

    /// Handles the introduction of a node. A node whose signed public id
    /// does not hold has its connection closed, and so has one whose public
    /// id is not the one that we expect under its name; what happens to any
    /// other is what `node_claimed` says.
    pub fn handle_node_identify(
        &mut self,
        connection: u64,
        serialised_public_id: &Vec<u8>,
        signature: &[u8; 64],
    )
        requires
            old(self).wf(),
        ensures
            final(self).wf(),
            final(self).node_identified(old(self), connection, serialised_public_id@, signature@),
    {
        match verify_signed_public_id(serialised_public_id.as_slice(), signature) {
            Ok(id) => {
                let cached = id_cache_get(&mut self.node_id_cache, &id.name.0);
                let ghost mid = *self;
                let expected = match cached {
                    Some(their_public_id) => their_public_id.same_as(&id),
                    None => false,
                };
                if expected {
                    self.handle_node_claim(connection, id);
                } else {
                    self.push_effect(Effect::DropNode { connection });
                }
                assert forall|other: PublicId|
                    claims_id(serialised_public_id@, signature@, other) implies exists|mid: Core|
                    {
                        &&& #[trigger] mid.looked_up_id(old(self))
                        &&& if mid.cached_id(other.name) == Some(other) {
                            self.node_claimed(&mid, connection, other)
                        } else {
                            self.only_added(&mid, seq![EffectView::DropNode { connection }])
                        }
                    } by {
                    lemma_public_id_wire_injective(other, id);
                    assert(mid.looked_up_id(old(self)));
                }
            },
            Err(_) => {
                self.push_effect(Effect::DropNode { connection });
            },
        }
    }
}

} // verus!
