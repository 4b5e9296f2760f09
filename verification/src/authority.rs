//! Who a message comes from and whom it is for.

use crate::names::XorName;
use vstd::prelude::*;

verus! {

/// A role-qualified source or destination.
#[derive(Clone, Copy, Debug, PartialEq, Eq, Hash)]
pub enum Authority {
    /// A client, reached through its proxy.
    Client { client_key: [u8; 32], proxy_node_name: XorName },
    /// One node.
    ManagedNode(XorName),
    /// The close group of a name that manages the node of that name.
    NodeManager(XorName),
    /// The close group of a name that is responsible for naming.
    NaeManager(XorName),
}

impl Authority {
    /// Whether this is one of the two group authorities.
    pub open spec fn group(&self) -> bool {
        self is NodeManager || self is NaeManager
    }

    /// The name that routing goes by: the proxy's for a client.
    pub open spec fn routing_name(&self) -> XorName {
        match *self {
            Authority::Client { client_key, proxy_node_name } => proxy_node_name,
            Authority::ManagedNode(name) => name,
            Authority::NodeManager(name) => name,
            Authority::NaeManager(name) => name,
        }
    }

    /// Whether this is one of the two group authorities.
    pub fn is_group(&self) -> (group: bool)
        ensures
            group == self.group(),
    {
        match self {
            Authority::Client { .. } => false,
            Authority::ManagedNode(_) => false,
            Authority::NodeManager(_) => true,
            Authority::NaeManager(_) => true,
        }
    }

    /// The name that routing goes by: the proxy's for a client.
    pub fn get_name(&self) -> (name: &XorName)
        ensures
            *name == self.routing_name(),
    {
        match self {
            Authority::Client { proxy_node_name, .. } => proxy_node_name,
            Authority::ManagedNode(name) => name,
            Authority::NodeManager(name) => name,
            Authority::NaeManager(name) => name,
        }
    }
}

} // verus!
