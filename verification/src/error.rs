//! What can go wrong while routing.

use vstd::prelude::*;

verus! {

/// Failures that are reported to the user of the routing layer.
#[derive(Clone, Copy, Debug, PartialEq, Eq, Structural)]
pub enum InterfaceError {
    /// There is no proxy to send through.
    NotConnected,
}

/// Failures inside the routing layer.
#[derive(Clone, Copy, Debug, PartialEq, Eq, Structural)]
pub enum RoutingError {
    /// There is no bootstrap connection.
    NotBootstrapped,
    /// The source and destination of a message do not fit its content.
    BadAuthority,
    /// A signature does not verify.
    FailedSignature,
    /// The message was seen before.
    FilterCheckFailed,
    /// The public id is unknown, or another one holds its name already.
    RejectedPublicId,
    /// The routing table has no use for the name.
    RefusedFromRoutingTable,
    /// A failure that the user is told of.
    Interface(InterfaceError),
    /// Bytes that are no encoding of a message.
    SerialisationError,
    /// Sealed endpoints that do not open.
    AsymmetricDecryptionFailure,
    /// The connection belongs to no known peer.
    UnknownConnection,
    /// The message is not for the group it was sent to.
    InvalidDestination,
    /// There is no connection to the proxy that the source names.
    ProxyConnectionNotFound,
    /// There is no connection to the client that the destination names.
    ClientConnectionNotFound,
    /// A client sent a message whose source is not a client.
    InvalidSource,
    /// The operation needs a routing table with entries.
    RoutingTableEmpty,
    /// The operation does not fit the state the core is in.
    InvalidStateForOperation,
    /// The message came from a hop that is nearer to its destination.
    DirectionCheckFailed,
}

} // verus!
