//! The payloads that users of the network store and fetch. The routing layer
//! looks only at their kind and name.

use crate::names::XorName;
use vstd::prelude::*;

verus! {

/// The kinds of data.
#[derive(Clone, Copy, Debug, PartialEq, Eq, Hash, Structural)]
pub enum DataKind {
    /// Data that never changes and is named by its content.
    Immutable,
    /// Data that its owners may change.
    Structured,
    /// Any other data.
    Plain,
}

/// A piece of data.
#[derive(Clone, Debug, PartialEq, Eq)]
pub struct Data {
    pub kind: DataKind,
    pub name: XorName,
    pub payload: Vec<u8>,
}

/// A request for the data of a kind and name.
#[derive(Clone, Copy, Debug, PartialEq, Eq)]
pub struct DataRequest {
    pub kind: DataKind,
    pub name: XorName,
}

/// Tells the messages of one exchange from those of another.
#[derive(Clone, Copy, Debug, PartialEq, Eq, Hash)]
pub struct MessageId(pub [u8; 64]);

impl MessageId {
    /// The id of the notice that the node called `name` was lost.
    pub open spec fn from_lost_node_spec(name: XorName) -> MessageId {
        MessageId(name.0)
    }

    /// The id of the notice that the node called `name` was lost: the bytes
    /// of the name.
    pub fn from_lost_node(name: XorName) -> (id: MessageId)
        ensures
            id == MessageId::from_lost_node_spec(name),
    {
        MessageId(name.0)
    }

    /// The id of the notice that the node called `name` was added: the bytes
    /// of the name in reverse.
    pub fn from_added_node(name: XorName) -> (id: MessageId)
        ensures
            id.0@ == name@.reverse(),
    {
        let mut bytes = [0u8; 64];
        let mut i: usize = 0;
        while i < 64
            invariant
                i <= 64,
                forall|j: int| 0 <= j < i ==> bytes@[j] == name@[63 - j],
            decreases 64 - i,
        {
            bytes[i] = name.0[63 - i];
            i += 1;
        }
        assert(bytes@ =~= name@.reverse());
        MessageId(bytes)
    }
}

} // verus!
