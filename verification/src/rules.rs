//! The rules that the core decides by, as functions of plain values.

use crate::authority::Authority;
use crate::bytes::bytes_equal;
use crate::error::RoutingError;
use crate::messages::SignedMessage;
use crate::names::{xor_distance, XorName};
use vstd::prelude::*;

verus! {

/// The number of nodes in a close group.
pub const GROUP_SIZE: usize = 8;

/// The largest quorum that is asked for.
pub const QUORUM_SIZE: usize = 5;

/// The number of nodes that may be joining through one proxy at a time,
/// once its routing table is full.
pub const MAX_JOINING_NODES: usize = 1;

/// The quorum that a routing table of `table_len` entries asks for: five
/// eighths of its size, rounded to the nearest number and half up, and
/// `QUORUM_SIZE` at most.
pub open spec fn quorum_for(table_len: nat) -> nat {
    if (5 * table_len + 4) / 8 < QUORUM_SIZE as nat {
        (5 * table_len + 4) / 8
    } else {
        QUORUM_SIZE as nat
    }
}

/// The quorum that a routing table of `table_len` entries asks for.
pub fn dynamic_quorum_size(table_len: usize) -> (quorum: usize)
    ensures
        quorum == quorum_for(table_len as nat),
{
    if table_len >= 8 {
        QUORUM_SIZE
    } else {
        (5 * table_len + 4) / 8
    }
}

/// Whether a proxy whose routing table has `table_len` entries and that
/// has `joining` joining nodes among its clients takes another peer in.
///
/// A client that stays a client is taken once the table is full. A joining
/// node is taken while the table is not full and fewer than `GROUP_SIZE`
/// are joining, or while fewer than `MAX_JOINING_NODES` are joining.
pub open spec fn admits(client_restriction: bool, table_len: nat, joining: nat) -> bool {
    if client_restriction {
        table_len >= GROUP_SIZE as nat
    } else {
        (table_len < GROUP_SIZE as nat && joining < GROUP_SIZE as nat) || joining
            < MAX_JOINING_NODES as nat
    }
}

/// Whether a proxy takes another peer in.
pub fn admission(client_restriction: bool, table_len: usize, joining: usize) -> (admitted: bool)
    ensures
        admitted == admits(client_restriction, table_len as nat, joining as nat),
{
    if client_restriction {
        table_len >= GROUP_SIZE
    } else {
        (table_len < GROUP_SIZE && joining < GROUP_SIZE) || joining < MAX_JOINING_NODES
    }
}

/// Whether a signed message passes the check that a node makes before it
/// acts on it: a message from a client must be signed with that client's
/// key. A message from a group is left to the accumulator, and any other
/// message is let through.
pub open spec fn passes_security_check(message: SignedMessage) -> bool {
    match message.content.source() {
        Authority::Client { client_key, proxy_node_name } => client_key@
            == message.public_id.public_sign_key@,
        _ => true,
    }
}

/// Fails with `FailedSignature` unless the message passes the check.
pub fn signed_msg_security_check(message: &SignedMessage) -> (result: Result<(), RoutingError>)
    ensures
        result == if passes_security_check(*message) {
            Ok::<(), RoutingError>(())
        } else {
            Err::<(), RoutingError>(RoutingError::FailedSignature)
        },
{
    match message.content.src() {
        Authority::Client { client_key, .. } => {
            if bytes_equal(client_key.as_slice(), message.public_id.public_sign_key.as_slice()) {
                Ok(())
            } else {
                Err(RoutingError::FailedSignature)
            }
        },
        _ => Ok(()),
    }
}

/// What a node does with a signed message that has passed its filters.
#[derive(Clone, Copy, Debug, PartialEq, Eq, Structural)]
pub enum Route {
    /// The destination is a group that we may belong to: send it on to the
    /// group and handle it here.
    Swarm,
    /// The destination is a node near us, but not us: send it on.
    Forward,
    /// The destination is a client of ours: relay it down its connection.
    RelayToClient,
    /// The destination is this node: handle it here.
    HandleHere,
    /// We are the proxy of the client that sent it: send it on.
    ProxyForward,
    /// The destination is not near us: send it on after a look at the cache.
    Transit,
}

/// The route of a message from `src` to `dst` at the node called `own`,
/// where `close` tells whether the routing table counts the destination's
/// name as near.
pub open spec fn route_of(close: bool, src: Authority, dst: Authority, own: XorName) -> Route {
    if close {
        if dst.group() {
            Route::Swarm
        } else if dst.routing_name()@ != own@ {
            Route::Forward
        } else if dst is Client {
            Route::RelayToClient
        } else {
            Route::HandleHere
        }
    } else if src is Client && src.routing_name()@ == own@ {
        Route::ProxyForward
    } else {
        Route::Transit
    }
}

/// The route of a message from `src` to `dst` at the node called `own`.
pub fn node_route(close: bool, src: &Authority, dst: &Authority, own: &XorName) -> (route: Route)
    ensures
        route == route_of(close, *src, *dst, *own),
{
    if close {
        if dst.is_group() {
            return Route::Swarm;
        }
        if !dst.get_name().same_as(own) {
            return Route::Forward;
        }
        match dst {
            Authority::Client { .. } => Route::RelayToClient,
            _ => Route::HandleHere,
        }
    } else {
        match src {
            Authority::Client { proxy_node_name, .. } => {
                if proxy_node_name.same_as(own) {
                    Route::ProxyForward
                } else {
                    Route::Transit
                }
            },
            _ => Route::Transit,
        }
    }
}

/// Whether the node called `own` is strictly nearer to `target` than the
/// hop called `hop` that handed it the message.
pub open spec fn moves_closer(own: XorName, hop: XorName, target: XorName) -> bool {
    xor_distance(own@, target@) < xor_distance(hop@, target@)
}

/// Whether the node called `own` is strictly nearer to `target` than the
/// hop called `hop` that handed it the message.
pub fn direction_check(own: &XorName, hop: &XorName, target: &XorName) -> (forward: bool)
    ensures
        forward == moves_closer(*own, *hop, *target),
{
    own.is_closer_than(hop, target)
}

} // verus!
