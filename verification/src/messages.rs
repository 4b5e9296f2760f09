//! The messages that peers exchange.

use crate::authority::Authority;
use crate::crypto::{
    ed25519_accepts, ed25519_signature, sign_detached, signature_well_formed, verify_detached,
};
use crate::data::{Data, DataRequest, MessageId};
use crate::error::RoutingError;
use crate::id::{FullId, PublicId};
use crate::names::XorName;
use crate::wire::{
    encode_routing_message, encode_signed_message, wire_routing_message, wire_signed_message,
};
use vstd::prelude::*;

verus! {

/// What a request asks for.
#[derive(Clone, Debug, PartialEq, Eq)]
pub enum RequestContent {
    /// A joining node asks for its new name.
    GetNetworkName { current_id: PublicId },
    /// A group is told to expect a relocated node.
    ExpectCloseNode { expect_id: PublicId },
    /// A relocated node asks for the members of its new close group.
    GetCloseGroup,
    /// A node proposes a connection.
    Connect,
    /// The sender's endpoints, sealed for the recipient.
    Endpoints { encrypted_endpoints: Vec<u8>, nonce_bytes: [u8; 24] },
    /// A node asks a group for the public id of one of its members.
    GetPublicId,
    /// As `GetPublicId`, with sealed endpoints to be handed back.
    GetPublicIdWithEndpoints { encrypted_endpoints: Vec<u8>, nonce_bytes: [u8; 24] },
    /// A user asks for data.
    Get(DataRequest, MessageId),
    /// A user stores data.
    Put(Data, MessageId),
    /// A user updates data.
    Post(Data, MessageId),
    /// A user deletes data.
    Delete(Data, MessageId),
    /// A group member refreshes its group's account of something.
    Refresh(Vec<u8>),
}

/// What a response answers with.
#[derive(Clone, Debug, PartialEq, Eq)]
pub enum ResponseContent {
    /// The identity under its new name.
    GetNetworkName { relocated_id: PublicId },
    /// The public id that was asked for.
    GetPublicId { public_id: PublicId },
    /// The public id that was asked for, with the asker's sealed endpoints.
    GetPublicIdWithEndpoints {
        public_id: PublicId,
        encrypted_endpoints: Vec<u8>,
        nonce_bytes: [u8; 24],
    },
    /// The members of a close group, as one of them sees it.
    GetCloseGroup { close_group_ids: Vec<PublicId> },
    /// The data that was asked for.
    GetSuccess(Data, MessageId),
    /// Data was stored.
    PutSuccess(MessageId),
    /// Data was updated.
    PostSuccess(MessageId),
    /// Data was deleted.
    DeleteSuccess(MessageId),
    /// Data could not be fetched.
    GetFailure { id: MessageId, request: Vec<u8>, external_error_indicator: Vec<u8> },
    /// Data could not be stored.
    PutFailure { id: MessageId, request: Vec<u8>, external_error_indicator: Vec<u8> },
    /// Data could not be updated.
    PostFailure { id: MessageId, request: Vec<u8>, external_error_indicator: Vec<u8> },
    /// Data could not be deleted.
    DeleteFailure { id: MessageId, request: Vec<u8>, external_error_indicator: Vec<u8> },
}

impl RequestContent {
    /// Whether the request is one that the user above the routing layer
    /// answers.
    pub open spec fn for_user(&self) -> bool {
        self is Get || self is Put || self is Post || self is Delete || self is Refresh
    }

    /// Whether the request is one that the user above the routing layer
    /// answers.
    pub fn is_for_user(&self) -> (user: bool)
        ensures
            user == self.for_user(),
    {
        match self {
            RequestContent::Get(..) => true,
            RequestContent::Put(..) => true,
            RequestContent::Post(..) => true,
            RequestContent::Delete(..) => true,
            RequestContent::Refresh(..) => true,
            _ => false,
        }
    }
}

impl ResponseContent {
    /// Whether the response is one that the user above the routing layer
    /// asked for.
    pub open spec fn for_user(&self) -> bool {
        !(self is GetNetworkName || self is GetPublicId || self is GetPublicIdWithEndpoints
            || self is GetCloseGroup)
    }

    /// Whether the response is one that the user above the routing layer
    /// asked for.
    pub fn is_for_user(&self) -> (user: bool)
        ensures
            user == self.for_user(),
    {
        match self {
            ResponseContent::GetNetworkName { .. } => false,
            ResponseContent::GetPublicId { .. } => false,
            ResponseContent::GetPublicIdWithEndpoints { .. } => false,
            ResponseContent::GetCloseGroup { .. } => false,
            _ => true,
        }
    }
}

/// A request on its way from `src` to `dst`.
#[derive(Clone, Debug, PartialEq, Eq)]
pub struct RequestMessage {
    pub src: Authority,
    pub dst: Authority,
    pub content: RequestContent,
}

/// A response on its way from `src` to `dst`.
#[derive(Clone, Debug, PartialEq, Eq)]
pub struct ResponseMessage {
    pub src: Authority,
    pub dst: Authority,
    pub content: ResponseContent,
}

/// A routed message.
#[derive(Clone, Debug, PartialEq, Eq)]
pub enum RoutingMessage {
    Request(RequestMessage),
    Response(ResponseMessage),
}

impl RoutingMessage {
    /// Where the message comes from.
    pub open spec fn source(&self) -> Authority {
        match *self {
            RoutingMessage::Request(message) => message.src,
            RoutingMessage::Response(message) => message.src,
        }
    }

    /// Where the message goes.
    pub open spec fn destination(&self) -> Authority {
        match *self {
            RoutingMessage::Request(message) => message.dst,
            RoutingMessage::Response(message) => message.dst,
        }
    }

    /// Where the message comes from.
    pub fn src(&self) -> (src: &Authority)
        ensures
            *src == self.source(),
    {
        match self {
            RoutingMessage::Request(message) => &message.src,
            RoutingMessage::Response(message) => &message.src,
        }
    }

    /// Where the message goes.
    pub fn dst(&self) -> (dst: &Authority)
        ensures
            *dst == self.destination(),
    {
        match self {
            RoutingMessage::Request(message) => &message.dst,
            RoutingMessage::Response(message) => &message.dst,
        }
    }
}

/// A routed message with the public id and signature of its sender.
#[derive(Clone, Debug, PartialEq, Eq)]
pub struct SignedMessage {
    pub content: RoutingMessage,
    pub public_id: PublicId,
    pub signature: [u8; 64],
}

impl SignedMessage {
    /// Whether the signature is one that the sender's signing key accepts
    /// for the canonical bytes of the content.
    pub open spec fn intact(&self) -> bool {
        signature_well_formed(self.signature@) && ed25519_accepts(
            self.signature@,
            wire_routing_message(self.content),
            self.public_id.public_sign_key@,
        )
    }

    /// Whether this is `content` with the public id and signature of
    /// `full_id`.
    pub open spec fn signed_as(&self, content: RoutingMessage, full_id: FullId) -> bool {
        &&& self.content == content
        &&& self.public_id == full_id.public_id
        &&& self.signature@ == ed25519_signature(
            wire_routing_message(content),
            full_id.private_sign_key@,
        )
    }

    /// The message signed by `full_id`.
    pub fn new(content: RoutingMessage, full_id: &FullId) -> (message: SignedMessage)
        ensures
            message.signed_as(content, *full_id),
    {
        let bytes = encode_routing_message(&content);
        let signature = sign_detached(bytes.as_slice(), &full_id.private_sign_key);
        SignedMessage { content, public_id: full_id.public_id, signature }
    }

    /// Fails with `FailedSignature` unless the message is intact.
    pub fn check_integrity(&self) -> (result: Result<(), RoutingError>)
        ensures
            result == if self.intact() {
                Ok::<(), RoutingError>(())
            } else {
                Err::<(), RoutingError>(RoutingError::FailedSignature)
            },
    {
        let bytes = encode_routing_message(&self.content);
        if verify_detached(&self.signature, bytes.as_slice(), &self.public_id.public_sign_key) {
            Ok(())
        } else {
            Err(RoutingError::FailedSignature)
        }
    }
}

/// A signed message as one hop hands it on, with the hop's name and
/// signature.
#[derive(Clone, Debug, PartialEq, Eq)]
pub struct HopMessage {
    pub content: SignedMessage,
    pub name: XorName,
    pub signature: [u8; 64],
}

impl HopMessage {
    /// Whether the hop's signature is one that `key` accepts for the
    /// canonical bytes of the signed message.
    pub open spec fn signed_by(&self, key: Seq<u8>) -> bool {
        signature_well_formed(self.signature@) && ed25519_accepts(
            self.signature@,
            wire_signed_message(self.content),
            key,
        )
    }

    /// The signed message as the hop called `name` hands it on, signed with
    /// `sign_key`.
    pub fn new(content: SignedMessage, name: XorName, sign_key: &[u8; 64]) -> (message: HopMessage)
        ensures
            message.content == content,
            message.name == name,
            message.signature@ == ed25519_signature(wire_signed_message(content), sign_key@),
    {
        let bytes = encode_signed_message(&content);
        let signature = sign_detached(bytes.as_slice(), sign_key);
        HopMessage { content, name, signature }
    }

    /// Fails with `FailedSignature` unless the hop's signature is by `key`.
    pub fn verify(&self, key: &[u8; 32]) -> (result: Result<(), RoutingError>)
        ensures
            result == if self.signed_by(key@) {
                Ok::<(), RoutingError>(())
            } else {
                Err::<(), RoutingError>(RoutingError::FailedSignature)
            },
    {
        let bytes = encode_signed_message(&self.content);
        if verify_detached(&self.signature, bytes.as_slice(), key) {
            Ok(())
        } else {
            Err(RoutingError::FailedSignature)
        }
    }
}

/// A message between two directly connected peers.
#[derive(Clone, Debug, PartialEq, Eq)]
pub enum DirectMessage {
    /// The proxy accepts: its public id and the quorum size it goes by.
    BootstrapIdentify { public_id: PublicId, current_quorum_size: u64 },
    /// The proxy refuses.
    BootstrapDeny,
    /// A client introduces itself to a proxy.
    ClientIdentify { serialised_public_id: Vec<u8>, signature: [u8; 64], client_restriction: bool },
    /// A node introduces itself to a node.
    NodeIdentify { serialised_public_id: Vec<u8>, signature: [u8; 64] },
}

/// Anything that travels over a connection.
#[derive(Clone, Debug, PartialEq, Eq)]
pub enum Message {
    HopMessage(HopMessage),
    DirectMessage(DirectMessage),
}

} // verus!
