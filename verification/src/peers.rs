//! What the core knows of the peers it is connected to: its proxies, its
//! clients and the nodes of its routing table. A connection is a number
//! that stands for a transport connection.

use crate::bytes::bytes_equal;
use crate::id::PublicId;
use crate::names::XorName;
use vstd::prelude::*;

verus! {

/// A node that we bootstrap through.
#[derive(Clone, Copy, Debug, PartialEq, Eq)]
pub struct Proxy {
    pub connection: u64,
    pub public_id: PublicId,
}

/// A peer that goes through us, by its signing key.
#[derive(Clone, Copy, Debug, PartialEq, Eq)]
pub struct Client {
    pub key: [u8; 32],
    pub connection: u64,
    /// Unset for a client that means to become a node.
    pub client_restriction: bool,
}

/// A node of the routing table and the connections to it.
#[derive(Clone, Debug, PartialEq, Eq)]
pub struct Peer {
    pub public_id: PublicId,
    pub connections: Vec<u64>,
}

/// No two proxies share a connection.
pub open spec fn proxies_distinct(proxies: Seq<Proxy>) -> bool {
    forall|i: int, j: int|
        0 <= i < j < proxies.len() ==> (#[trigger] proxies[i]).connection != (
        #[trigger] proxies[j]).connection
}

/// No two clients share a key.
pub open spec fn clients_distinct(clients: Seq<Client>) -> bool {
    forall|i: int, j: int|
        0 <= i < j < clients.len() ==> (#[trigger] clients[i]).key@ != (#[trigger] clients[j]).key@
}

/// No two peers share a name.
pub open spec fn peers_distinct(peers: Seq<Peer>) -> bool {
    forall|i: int, j: int|
        0 <= i < j < peers.len() ==> (#[trigger] peers[i]).public_id.name@ != (
        #[trigger] peers[j]).public_id.name@
}

/// The names of the peers.
pub open spec fn peer_names(peers: Seq<Peer>) -> Set<Seq<u8>> {
    Set::new(
        |name: Seq<u8>|
            exists|i: int| 0 <= i < peers.len() && (#[trigger] peers[i]).public_id.name@ == name,
    )
}

/// The number of clients that mean to become nodes.
pub open spec fn joining_count(clients: Seq<Client>) -> nat
    decreases clients.len(),
{
    if clients.len() == 0 {
        0
    } else {
        joining_count(clients.drop_last()) + if clients.last().client_restriction {
            0nat
        } else {
            1nat
        }
    }
}

/// A peer that is added brings its name and no other.
pub proof fn lemma_peer_names_push(peers: Seq<Peer>, peer: Peer)
    ensures
        peer_names(peers.push(peer)) == peer_names(peers).insert(peer.public_id.name@),
        peers_distinct(peers) && !peer_names(peers).contains(peer.public_id.name@)
            ==> peers_distinct(peers.push(peer)),
{
    let after = peers.push(peer);
    assert forall|name: Seq<u8>|
        peer_names(after).contains(name) <==> peer_names(peers).insert(
            peer.public_id.name@,
        ).contains(name) by {
        if peer_names(after).contains(name) {
            let i = choose|i: int| 0 <= i < after.len() && (#[trigger] after[i]).public_id.name@ == name;
            if i < peers.len() {
                assert(peers[i].public_id.name@ == name);
            }
        }
        if peer_names(peers).contains(name) {
            let i = choose|i: int| 0 <= i < peers.len() && (#[trigger] peers[i]).public_id.name@ == name;
            assert(after[i].public_id.name@ == name);
        }
        if name == peer.public_id.name@ {
            assert(after[peers.len() as int].public_id.name@ == name);
        }
    }
    assert(peer_names(after) =~= peer_names(peers).insert(peer.public_id.name@));
    if peers_distinct(peers) && !peer_names(peers).contains(peer.public_id.name@) {
        assert forall|i: int, j: int| 0 <= i < j < after.len() implies (#[trigger] after[i]).public_id.name@
            != (#[trigger] after[j]).public_id.name@ by {
            if j == peers.len() {
                assert(peers[i].public_id.name@ == after[i].public_id.name@);
            } else {
                assert(peers[i] == after[i] && peers[j] == after[j]);
            }
        }
    }
}

/// A peer that is taken out takes its name with it and no other.
pub proof fn lemma_peer_names_remove(peers: Seq<Peer>, place: int)
    requires
        peers_distinct(peers),
        0 <= place < peers.len(),
    ensures
        peer_names(peers.remove(place)) == peer_names(peers).remove(peers[place].public_id.name@),
        peers_distinct(peers.remove(place)),
{
    let after = peers.remove(place);
    let gone = peers[place].public_id.name@;
    assert forall|name: Seq<u8>|
        peer_names(after).contains(name) <==> peer_names(peers).remove(gone).contains(name) by {
        if peer_names(after).contains(name) {
            let i = choose|i: int| 0 <= i < after.len() && (#[trigger] after[i]).public_id.name@ == name;
            if i < place {
                assert(peers[i].public_id.name@ == name);
            } else {
                assert(peers[i + 1].public_id.name@ == name);
            }
        }
        if peer_names(peers).contains(name) && name != gone {
            let i = choose|i: int| 0 <= i < peers.len() && (#[trigger] peers[i]).public_id.name@ == name;
            if i < place {
                assert(after[i].public_id.name@ == name);
            } else {
                assert(after[i - 1].public_id.name@ == name);
            }
        }
    }
    assert(peer_names(after) =~= peer_names(peers).remove(gone));
    assert forall|i: int, j: int| 0 <= i < j < after.len() implies (#[trigger] after[i]).public_id.name@
        != (#[trigger] after[j]).public_id.name@ by {
        let a = if i < place { i } else { i + 1 };
        let b = if j < place { j } else { j + 1 };
        assert(after[i] == peers[a] && after[j] == peers[b]);
    }
}

/// A peer that is replaced by one of the same name leaves the names as
/// they are.
pub proof fn lemma_peer_names_update(peers: Seq<Peer>, place: int, peer: Peer)
    requires
        0 <= place < peers.len(),
        peer.public_id.name@ == peers[place].public_id.name@,
    ensures
        peer_names(peers.update(place, peer)) == peer_names(peers),
        peers_distinct(peers) ==> peers_distinct(peers.update(place, peer)),
{
    let after = peers.update(place, peer);
    assert forall|name: Seq<u8>| peer_names(after).contains(name) <==> peer_names(peers).contains(
        name,
    ) by {
        if peer_names(after).contains(name) {
            let i = choose|i: int| 0 <= i < after.len() && (#[trigger] after[i]).public_id.name@ == name;
            assert(peers[i].public_id.name@ == name);
        }
        if peer_names(peers).contains(name) {
            let i = choose|i: int| 0 <= i < peers.len() && (#[trigger] peers[i]).public_id.name@ == name;
            assert(after[i].public_id.name@ == name);
        }
    }
    assert(peer_names(after) =~= peer_names(peers));
    if peers_distinct(peers) {
        assert forall|i: int, j: int| 0 <= i < j < after.len() implies (#[trigger] after[i]).public_id.name@
            != (#[trigger] after[j]).public_id.name@ by {
            assert(after[i].public_id.name@ == peers[i].public_id.name@);
            assert(after[j].public_id.name@ == peers[j].public_id.name@);
        }
    }
}

/// The place of the proxy on `connection`.
pub fn find_proxy(proxies: &Vec<Proxy>, connection: u64) -> (place: Option<usize>)
    ensures
        match place {
            Some(i) => i < proxies@.len() && proxies@[i as int].connection == connection
                && forall|j: int| 0 <= j < i ==> (#[trigger] proxies@[j]).connection != connection,
            None => forall|j: int|
                0 <= j < proxies@.len() ==> (#[trigger] proxies@[j]).connection != connection,
        },
{
    let mut i: usize = 0;
    while i < proxies.len()
        invariant
            i <= proxies@.len(),
            forall|j: int| 0 <= j < i ==> (#[trigger] proxies@[j]).connection != connection,
        decreases proxies@.len() - i,
    {
        if proxies[i].connection == connection {
            return Some(i);
        }
        i += 1;
    }
    None
}

/// The place of the client with the signing key `key`.
pub fn find_client(clients: &Vec<Client>, key: &[u8; 32]) -> (place: Option<usize>)
    ensures
        match place {
            Some(i) => i < clients@.len() && clients@[i as int].key@ == key@ && forall|j: int|
                0 <= j < i ==> (#[trigger] clients@[j]).key@ != key@,
            None => forall|j: int| 0 <= j < clients@.len() ==> (#[trigger] clients@[j]).key@ != key@,
        },
{
    let mut i: usize = 0;
    while i < clients.len()
        invariant
            i <= clients@.len(),
            forall|j: int| 0 <= j < i ==> (#[trigger] clients@[j]).key@ != key@,
        decreases clients@.len() - i,
    {
        if bytes_equal(clients[i].key.as_slice(), key.as_slice()) {
            return Some(i);
        }
        i += 1;
    }
    None
}

/// The place of the first client on `connection`.
pub fn find_client_by_connection(clients: &Vec<Client>, connection: u64) -> (place: Option<usize>)
    ensures
        match place {
            Some(i) => i < clients@.len() && clients@[i as int].connection == connection
                && forall|j: int| 0 <= j < i ==> (#[trigger] clients@[j]).connection != connection,
            None => forall|j: int|
                0 <= j < clients@.len() ==> (#[trigger] clients@[j]).connection != connection,
        },
{
    let mut i: usize = 0;
    while i < clients.len()
        invariant
            i <= clients@.len(),
            forall|j: int| 0 <= j < i ==> (#[trigger] clients@[j]).connection != connection,
        decreases clients@.len() - i,
    {
        if clients[i].connection == connection {
            return Some(i);
        }
        i += 1;
    }
    None
}

/// The number of clients that mean to become nodes.
pub fn count_joining(clients: &Vec<Client>) -> (count: usize)
    ensures
        count == joining_count(clients@),
{
    let mut count: usize = 0;
    let mut i: usize = 0;
    assert(clients@.take(0) =~= Seq::<Client>::empty());
    while i < clients.len()
        invariant
            i <= clients@.len(),
            count == joining_count(clients@.take(i as int)),
            count <= i,
        decreases clients@.len() - i,
    {
        proof {
            let done = clients@.take(i + 1);
            assert(done.drop_last() =~= clients@.take(i as int));
            assert(done.last() == clients@[i as int]);
        }
        if !clients[i].client_restriction {
            count += 1;
        }
        i += 1;
    }
    assert(clients@.take(clients@.len() as int) =~= clients@);
    count
}

/// The place of the peer called `name`.
pub fn find_peer(peers: &Vec<Peer>, name: &XorName) -> (place: Option<usize>)
    ensures
        match place {
            Some(i) => i < peers@.len() && peers@[i as int].public_id.name@ == name@,
            None => !peer_names(peers@).contains(name@),
        },
{
    let mut i: usize = 0;
    while i < peers.len()
        invariant
            i <= peers@.len(),
            forall|j: int| 0 <= j < i ==> (#[trigger] peers@[j]).public_id.name@ != name@,
        decreases peers@.len() - i,
    {
        if peers[i].public_id.name.same_as(name) {
            return Some(i);
        }
        i += 1;
    }
    None
}

/// Whether `connection` is one of `connections`.
pub fn has_connection(connections: &Vec<u64>, connection: u64) -> (held: bool)
    ensures
        held == connections@.contains(connection),
{
    let mut i: usize = 0;
    while i < connections.len()
        invariant
            i <= connections@.len(),
            forall|j: int| 0 <= j < i ==> connections@[j] != connection,
        decreases connections@.len() - i,
    {
        if connections[i] == connection {
            return true;
        }
        i += 1;
    }
    false
}

/// The place of the first peer that `connection` leads to.
pub fn find_peer_by_connection(peers: &Vec<Peer>, connection: u64) -> (place: Option<usize>)
    ensures
        match place {
            Some(i) => i < peers@.len() && peers@[i as int].connections@.contains(connection)
                && forall|j: int|
                0 <= j < i ==> !(#[trigger] peers@[j]).connections@.contains(connection),
            None => forall|j: int|
                0 <= j < peers@.len() ==> !(#[trigger] peers@[j]).connections@.contains(connection),
        },
{
    let mut i: usize = 0;
    while i < peers.len()
        invariant
            i <= peers@.len(),
            forall|j: int| 0 <= j < i ==> !(#[trigger] peers@[j]).connections@.contains(connection),
        decreases peers@.len() - i,
    {
        if has_connection(&peers[i].connections, connection) {
            return Some(i);
        }
        i += 1;
    }
    None
}

} // verus!
