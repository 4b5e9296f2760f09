//! The requests and responses that the core answers itself: those by which
//! nodes find their name, their group and each other.

use crate::authority::Authority;
use crate::bytes::bytes_equal;
use crate::cache::{
    cached_ids, id_cache_get, id_cache_insert, id_cache_remove, id_cache_retrieve_all,
};
use crate::crypto::{box_seal, gen_nonce, sha512, sha512_digest, SEAL_OVERHEAD};
use crate::error::RoutingError;
use crate::event::{Effect, EffectView, Event};
use crate::id::PublicId;
use crate::messages::{
    RequestContent, RequestMessage, ResponseContent, ResponseMessage, RoutingMessage,
    SignedMessage,
};
use crate::names::XorName;
use crate::peers::find_peer;
use crate::routing::{Core, Touched};
use crate::rules::GROUP_SIZE;
use crate::table::{
    kademlia_needs, nearest_of, table_bucket_size, table_closest, table_names, table_need_to_add,
    table_own_name,
};
use crate::utils::{calculate_relocated_name, relocated_name};
use vstd::prelude::*;

verus! {

/// Whether `content` is the request from `src` to `dst` that carries
/// sealed endpoints as long as `endpoints` and what sealing adds.
pub open spec fn is_endpoints_request(
    content: RoutingMessage,
    src: Authority,
    dst: Authority,
    endpoints: Seq<u8>,
) -> bool {
    content matches RoutingMessage::Request(request) && request.src == src && request.dst == dst
        && (request.content matches RequestContent::Endpoints { encrypted_endpoints, nonce_bytes }
        && encrypted_endpoints@.len() == endpoints.len() + SEAL_OVERHEAD)
}

impl Core {
    /// What signing `content` and sending it does: what `sent` says of
    /// the signed message.
    pub open spec fn sent_content(
        &self,
        before: &Core,
        content: RoutingMessage,
        result: Result<(), RoutingError>,
    ) -> bool {
        exists|message: SignedMessage|
            message.signed_as(content, before.full_id) && #[trigger] self.sent(
                before,
                message,
                result,
            )
    }

    /// What sending our endpoints from `src` to `dst` does: a request that
    /// carries them sealed is signed and sent. What the sealed bytes are is
    /// left to the box; only their length is known. Endpoints that are too
    /// long to seal make it fail with `SerialisationError`.
    pub open spec fn sent_endpoints(
        &self,
        before: &Core,
        src: Authority,
        dst: Authority,
        result: Result<(), RoutingError>,
    ) -> bool {
        if before.endpoints@.len() + SEAL_OVERHEAD > isize::MAX {
            result == Err::<(), RoutingError>(RoutingError::SerialisationError)
                && self.only_added(before, Seq::empty())
        } else {
            exists|content: RoutingMessage|
                is_endpoints_request(content, src, dst, before.endpoints@)
                    && #[trigger] self.sent_content(before, content, result)
        }
    }

    /// Whether the routing table holds `name` or would take it in.
    pub open spec fn wants(&self, name: XorName) -> bool {
        table_names(self.routing_table).contains(name@) || kademlia_needs(
            table_own_name(self.routing_table),
            table_names(self.routing_table),
            table_bucket_size(self.routing_table),
            name@,
        )
    }

    /// What being told to expect the relocated node `expect_id` does. The
    /// cache is looked into, and may drop what has expired. Where it then
    /// holds a public id under the name, that id stays and the request fails
    /// with `RejectedPublicId`; where it holds none, `expect_id` is cached
    /// under its name.
    pub open spec fn expected_close_node(
        &self,
        before: &Core,
        expect_id: PublicId,
        result: Result<(), RoutingError>,
    ) -> bool {
        exists|looked: Core| #[trigger]
            looked.looked_up_id(before) && if looked.cached_id(expect_id.name) is Some {
                result == Err::<(), RoutingError>(RoutingError::RejectedPublicId)
                    && self.only_added(&looked, Seq::empty())
            } else {
                result == Ok::<(), RoutingError>(()) && self.remembered_id(&looked, expect_id)
            }
    }

    /// What caching the public id `id` under its name does.
    pub open spec fn remembered_id(&self, before: &Core, id: PublicId) -> bool {
        let name = id.name@;
        &&& self.kept(before, Touched { ids: true, ..Touched::nothing() })
        &&& cached_ids(self.node_id_cache).contains_key(name)
        &&& cached_ids(self.node_id_cache)[name] == id
        &&& forall|other: Seq<u8>|
            other != name && #[trigger] cached_ids(self.node_id_cache).contains_key(other)
                ==> cached_ids(before.node_id_cache).contains_key(other) && cached_ids(
                self.node_id_cache,
            )[other] == cached_ids(before.node_id_cache)[other]
    }

    /// What forgetting the public id cached under `name` does.
    pub open spec fn forgot_id(&self, before: &Core, name: XorName) -> bool {
        &&& self.kept(before, Touched { ids: true, ..Touched::nothing() })
        &&& cached_ids(self.node_id_cache) == cached_ids(before.node_id_cache).remove(name@)
    }

    /// The public id that the cache holds under `name`.
    pub open spec fn cached_id(&self, name: XorName) -> Option<PublicId> {
        if cached_ids(self.node_id_cache).contains_key(name@) {
            Some(cached_ids(self.node_id_cache)[name@])
        } else {
            None
        }
    }

    /// What a proposal to connect from the node called `src_name` does.
    ///
    /// A node that the routing table has no use for is refused with
    /// `RefusedFromRoutingTable`. A node whose public id we have cached is
    /// sent our endpoints. For any other, the group that manages it is
    /// asked for its public id.
    pub open spec fn connect_requested(
        &self,
        before: &Core,
        src_name: XorName,
        dst_name: XorName,
        result: Result<(), RoutingError>,
    ) -> bool {
        if !before.wants(src_name) {
            result == Err::<(), RoutingError>(RoutingError::RefusedFromRoutingTable)
                && self.only_added(before, Seq::empty())
        } else {
            exists|mid: Core| #[trigger]
                mid.looked_up_id(before) && match mid.cached_id(src_name) {
                    Some(id) => self.sent_endpoints(
                        &mid,
                        Authority::ManagedNode(before.full_id.public_id.name),
                        Authority::ManagedNode(src_name),
                        result,
                    ),
                    None => self.sent_content(
                        &mid,
                        RoutingMessage::Request(
                            RequestMessage {
                                src: Authority::ManagedNode(dst_name),
                                dst: Authority::NodeManager(src_name),
                                content: RequestContent::GetPublicId,
                            },
                        ),
                        result,
                    ),
                }
        }
    }

    /// Whether `id` is the public id of the node called `name`, and that
    /// node is one of the `GROUP_SIZE` nodes of the routing table that are
    /// nearest to us.
    pub open spec fn close_member(&self, name: XorName, id: PublicId) -> bool {
        &&& exists|group: Seq<XorName>| #[trigger]
            nearest_of(
                table_names(self.routing_table),
                self.full_id.public_id.name@,
                GROUP_SIZE as nat,
                group,
            ) && crate::table::name_views(group).contains(name@)
        &&& exists|i: int|
            0 <= i < self.peers@.len() && (#[trigger] self.peers@[i]).public_id == id
        &&& id.name@ == name@
    }

    /// Whether the node called `name` is none of the `GROUP_SIZE` nodes of
    /// the routing table that are nearest to us.
    pub open spec fn no_close_member(&self, name: XorName) -> bool {
        exists|group: Seq<XorName>| #[trigger]
            nearest_of(
                table_names(self.routing_table),
                self.full_id.public_id.name@,
                GROUP_SIZE as nat,
                group,
            ) && !crate::table::name_views(group).contains(name@)
    }

    /// What a request for the public id of the node called `dst_name`
    /// does: where that node is in our close group, its public id is sent
    /// back, and else the request fails with `RejectedPublicId`.
    pub open spec fn public_id_requested(
        &self,
        before: &Core,
        src_name: XorName,
        dst_name: XorName,
        result: Result<(), RoutingError>,
    ) -> bool {
        ||| exists|public_id: PublicId| #[trigger]
            before.close_member(dst_name, public_id) && self.sent_content(
                before,
                RoutingMessage::Response(
                    ResponseMessage {
                        src: Authority::NodeManager(dst_name),
                        dst: Authority::ManagedNode(src_name),
                        content: ResponseContent::GetPublicId { public_id },
                    },
                ),
                result,
            )
        ||| {
            &&& before.no_close_member(dst_name)
            &&& result == Err::<(), RoutingError>(RoutingError::RejectedPublicId)
            &&& self.only_added(before, Seq::empty())
        }
    }

    /// What a request for the public id of the node called `dst_name`
    /// that brings sealed endpoints does: where that node is in our close
    /// group, its public id is sent back with the endpoints, and else the
    /// request fails with `RejectedPublicId`.
    pub open spec fn public_id_with_endpoints_requested(
        &self,
        before: &Core,
        encrypted_endpoints: Vec<u8>,
        nonce_bytes: [u8; 24],
        src_name: XorName,
        dst_name: XorName,
        result: Result<(), RoutingError>,
    ) -> bool {
        ||| exists|public_id: PublicId| #[trigger]
            before.close_member(dst_name, public_id) && self.sent_content(
                before,
                RoutingMessage::Response(
                    ResponseMessage {
                        src: Authority::NodeManager(dst_name),
                        dst: Authority::ManagedNode(src_name),
                        content: ResponseContent::GetPublicIdWithEndpoints {
                            public_id,
                            encrypted_endpoints,
                            nonce_bytes,
                        },
                    },
                ),
                result,
            )
        ||| {
            &&& before.no_close_member(dst_name)
            &&& result == Err::<(), RoutingError>(RoutingError::RejectedPublicId)
            &&& self.only_added(before, Seq::empty())
        }
    }

    /// What the answer to a request for a public id does.
    ///
    /// A node that the routing table has no use for is refused with
    /// `RefusedFromRoutingTable`. Any other is sent our endpoints, and
    /// where that went well its public id is cached.
    pub open spec fn public_id_received(
        &self,
        before: &Core,
        public_id: PublicId,
        dst_name: XorName,
        result: Result<(), RoutingError>,
    ) -> bool {
        if !before.wants(public_id.name) {
            result == Err::<(), RoutingError>(RoutingError::RefusedFromRoutingTable)
                && self.only_added(before, Seq::empty())
        } else {
            exists|mid: Core, sending: Result<(), RoutingError>| #[trigger]
                mid.sent_endpoints(
                    before,
                    Authority::ManagedNode(dst_name),
                    Authority::ManagedNode(public_id.name),
                    sending,
                ) && if sending is Ok {
                    result == Ok::<(), RoutingError>(()) && self.remembered_id(&mid, public_id)
                } else {
                    result == sending && self.only_added(&mid, Seq::empty())
                }
        }
    }

    /// What the answer to a request for a public id that brings back sealed
    /// endpoints does: what `public_id_received` says, and where that went
    /// well the endpoints are opened and connected to.
    pub open spec fn public_id_with_endpoints_received(
        &self,
        before: &Core,
        public_id: PublicId,
        sealed: Seq<u8>,
        nonce: Seq<u8>,
        dst_name: XorName,
        result: Result<(), RoutingError>,
    ) -> bool {
        exists|mid: Core, first: Result<(), RoutingError>| #[trigger]
            mid.public_id_received(before, public_id, dst_name, first) && if first is Ok {
                self.connected(&mid, sealed, nonce, public_id.public_encrypt_key@, result)
            } else {
                result == first && self.only_added(&mid, Seq::empty())
            }
    }

    /// What endpoints from the node called `src_name` do.
    ///
    /// Where the routing table has no use for the node, its public id is
    /// forgotten and the request fails with `RefusedFromRoutingTable`.
    /// Where we have its public id cached, the endpoints are opened and
    /// connected to. Else the group that manages the node is asked for its
    /// public id, and handed the endpoints to return.
    pub open spec fn endpoints_from_node(
        &self,
        before: &Core,
        encrypted_endpoints: Vec<u8>,
        nonce_bytes: [u8; 24],
        src_name: XorName,
        dst: Authority,
        result: Result<(), RoutingError>,
    ) -> bool {
        if !before.wants(src_name) {
            result == Err::<(), RoutingError>(RoutingError::RefusedFromRoutingTable)
                && self.forgot_id(before, src_name)
        } else {
            exists|mid: Core| #[trigger]
                mid.looked_up_id(before) && match mid.cached_id(src_name) {
                    Some(id) => self.connected(
                        &mid,
                        encrypted_endpoints@,
                        nonce_bytes@,
                        id.public_encrypt_key@,
                        result,
                    ),
                    None => self.sent_content(
                        &mid,
                        RoutingMessage::Request(
                            RequestMessage {
                                src: dst,
                                dst: Authority::NodeManager(src_name),
                                content: RequestContent::GetPublicIdWithEndpoints {
                                    encrypted_endpoints,
                                    nonce_bytes,
                                },
                            },
                        ),
                        result,
                    ),
                }
        }
    }

    /// What taking the name `name` does: we go by it, with the keys that
    /// we had, and the routing table is an empty one for that name.
    pub open spec fn took_name(&self, before: &Core, name: XorName) -> bool {
        &&& self.kept(before, Touched { identity: true, table: true, ..Touched::nothing() })
        &&& self.full_id.public_id.name == name
        &&& self.full_id.public_id.public_sign_key == before.full_id.public_id.public_sign_key
        &&& self.full_id.public_id.public_encrypt_key
            == before.full_id.public_id.public_encrypt_key
        &&& self.full_id.private_sign_key == before.full_id.private_sign_key
        &&& self.full_id.private_encrypt_key == before.full_id.private_encrypt_key
        &&& table_names(self.routing_table) == Set::<Seq<u8>>::empty()
        &&& self.peers@.len() == 0
    }

    /// What the answer to our request for a name does: we take the name
    /// and ask its group for the members of our new close group. A name
    /// that we cannot take makes it fail with `InvalidStateForOperation`.
    pub open spec fn network_name_received(
        &self,
        before: &Core,
        relocated_id: PublicId,
        client_key: [u8; 32],
        proxy_name: XorName,
        result: Result<(), RoutingError>,
    ) -> bool {
        if !before.can_take_name(relocated_id.name) {
            result == Err::<(), RoutingError>(RoutingError::InvalidStateForOperation)
                && self.only_added(before, Seq::empty())
        } else {
            exists|mid: Core| #[trigger]
                mid.took_name(before, relocated_id.name) && self.sent_content(
                    &mid,
                    RoutingMessage::Request(
                        RequestMessage {
                            src: Authority::Client { client_key, proxy_node_name: proxy_name },
                            dst: Authority::NodeManager(relocated_id.name),
                            content: RequestContent::GetCloseGroup,
                        },
                    ),
                    result,
                )
        }
    }

    /// Whether `relocated_id` is `their_public_id` under the name that
    /// our group moves it to: the hash of its name followed by the nearest
    /// and the second nearest to it among our close group and ourselves.
    pub open spec fn relocates(&self, their_public_id: PublicId, relocated_id: PublicId) -> bool {
        &&& relocated_id.public_sign_key == their_public_id.public_sign_key
        &&& relocated_id.public_encrypt_key == their_public_id.public_encrypt_key
        &&& exists|group: Seq<XorName>| #[trigger]
            nearest_of(
                table_names(self.routing_table),
                self.full_id.public_id.name@,
                GROUP_SIZE as nat,
                group,
            ) && relocated_id.name@ == relocated_name(
                group.push(self.full_id.public_id.name),
                their_public_id.name@,
            )
    }

    /// What a request for a new name from the client with the signing key
    /// `client_key` does.
    ///
    /// A request that was not sent to the group of the hash of that key
    /// fails with `InvalidDestination`. Else the client is sent its public
    /// id under the new name, and where that went well the group of the
    /// new name is told to expect it.
    pub open spec fn network_name_requested(
        &self,
        before: &Core,
        their_public_id: PublicId,
        client_key: [u8; 32],
        proxy_name: XorName,
        dst_name: XorName,
        result: Result<(), RoutingError>,
    ) -> bool {
        if sha512_digest(client_key@) != dst_name@ {
            result == Err::<(), RoutingError>(RoutingError::InvalidDestination) && self.only_added(
                before,
                Seq::empty(),
            )
        } else {
            exists|relocated_id: PublicId, mid: Core, first: Result<(), RoutingError>|
                {
                    &&& before.relocates(their_public_id, relocated_id)
                    &&& #[trigger] mid.sent_content(
                        before,
                        RoutingMessage::Response(
                            ResponseMessage {
                                src: Authority::NaeManager(dst_name),
                                dst: Authority::Client { client_key, proxy_node_name: proxy_name },
                                content: ResponseContent::GetNetworkName { relocated_id },
                            },
                        ),
                        first,
                    )
                    &&& if first is Ok {
                        self.sent_content(
                            &mid,
                            RoutingMessage::Request(
                                RequestMessage {
                                    src: Authority::NaeManager(dst_name),
                                    dst: Authority::NodeManager(relocated_id.name),
                                    content: RequestContent::ExpectCloseNode {
                                        expect_id: relocated_id,
                                    },
                                },
                            ),
                            result,
                        )
                    } else {
                        result == first && self.only_added(&mid, Seq::empty())
                    }
                }
        }
    }

    /// Whether `ids` are the public ids of the `GROUP_SIZE` nodes of the
    /// routing table that are nearest to us, nearest first, followed by
    /// our own.
    pub open spec fn close_group_ids(&self, ids: Seq<PublicId>) -> bool {
        exists|group: Seq<XorName>|
            {
                &&& #[trigger] nearest_of(
                    table_names(self.routing_table),
                    self.full_id.public_id.name@,
                    GROUP_SIZE as nat,
                    group,
                )
                &&& ids.len() == group.len() + 1
                &&& ids.last() == self.full_id.public_id
                &&& forall|i: int|
                    0 <= i < group.len() ==> (#[trigger] ids[i]).name@ == group[i]@ && exists|
                        j: int,
                    |
                        0 <= j < self.peers@.len() && (#[trigger] self.peers@[j]).public_id
                            == ids[i]
            }
    }

    /// What a request for the members of our close group does: their
    /// public ids and ours are sent back.
    pub open spec fn close_group_requested(
        &self,
        before: &Core,
        client_key: [u8; 32],
        proxy_name: XorName,
        dst_name: XorName,
        result: Result<(), RoutingError>,
    ) -> bool {
        exists|close_group_ids: Vec<PublicId>| #[trigger]
            before.close_group_ids(close_group_ids@) && self.sent_content(
                before,
                RoutingMessage::Response(
                    ResponseMessage {
                        src: Authority::NodeManager(dst_name),
                        dst: Authority::Client { client_key, proxy_node_name: proxy_name },
                        content: ResponseContent::GetCloseGroup { close_group_ids },
                    },
                ),
                result,
            )
    }

    /// What endpoints from the client with the signing key `client_key`
    /// do, where `known` is a public id with that key that the cache
    /// holds, with the name it holds it under, if there is one.
    ///
    /// Without such an id the request fails with `RejectedPublicId`, and
    /// with `RefusedFromRoutingTable` where the routing table has no use for
    /// its name. Else the endpoints are opened and connected to, and where
    /// that went well the client is sent our endpoints.
    pub open spec fn endpoints_from_known_client(
        &self,
        before: &Core,
        known: Option<(XorName, PublicId)>,
        sealed: Seq<u8>,
        nonce: Seq<u8>,
        client_key: [u8; 32],
        proxy_name: XorName,
        dst_name: XorName,
        result: Result<(), RoutingError>,
    ) -> bool {
        match known {
            None => result == Err::<(), RoutingError>(RoutingError::RejectedPublicId)
                && self.only_added(before, Seq::empty()),
            Some((name, id)) => if !before.wants(name) {
                result == Err::<(), RoutingError>(RoutingError::RefusedFromRoutingTable)
                    && self.only_added(before, Seq::empty())
            } else {
                exists|mid: Core, first: Result<(), RoutingError>| #[trigger]
                    mid.connected(before, sealed, nonce, id.public_encrypt_key@, first)
                        && if first is Ok {
                        self.sent_endpoints(
                            &mid,
                            Authority::ManagedNode(dst_name),
                            Authority::Client { client_key, proxy_node_name: proxy_name },
                            result,
                        )
                    } else {
                        result == first && self.only_added(&mid, Seq::empty())
                    }
            },
        }
    }

    /// What endpoints from the client with the signing key `client_key`
    /// do: the cache is searched for a public id with that key, and what
    /// happens then is what `endpoints_from_known_client` says.
    pub open spec fn endpoints_from_client(
        &self,
        before: &Core,
        sealed: Seq<u8>,
        nonce: Seq<u8>,
        client_key: [u8; 32],
        proxy_name: XorName,
        dst_name: XorName,
        result: Result<(), RoutingError>,
    ) -> bool {
        exists|mid: Core, known: Option<(XorName, PublicId)>|
            {
                &&& #[trigger] mid.looked_up_id(before)
                &&& match known {
                    Some((name, id)) => id.public_sign_key@ == client_key@ && mid.cached_id(name)
                        == Some(id),
                    None => forall|held: Seq<u8>| #[trigger]
                        cached_ids(mid.node_id_cache).contains_key(held) ==> cached_ids(
                            mid.node_id_cache,
                        )[held].public_sign_key@ != client_key@,
                }
                &&& #[trigger] self.endpoints_from_known_client(
                    &mid,
                    known,
                    sealed,
                    nonce,
                    client_key,
                    proxy_name,
                    dst_name,
                    result,
                )
            }
    }

    /// What going through the public ids `ids` of a close group does, one
    /// after the other. Each is cached. One that the cache was not holding
    /// and that the routing table would take in is sent our endpoints;
    /// where that fails, the rest is left and the failure is the result.
    pub open spec fn offered(
        &self,
        before: &Core,
        ids: Seq<PublicId>,
        client_key: [u8; 32],
        proxy_name: XorName,
        result: Result<(), RoutingError>,
    ) -> bool
        decreases ids.len(),
    {
        if ids.len() == 0 {
            result == Ok::<(), RoutingError>(()) && self.only_added(before, Seq::empty())
        } else {
            let id = ids[0];
            exists|cached: Core|
                {
                    &&& #[trigger] cached.remembered_id(before, id)
                    &&& if before.cached_id(id.name) is Some || !kademlia_needs(
                        table_own_name(before.routing_table),
                        table_names(before.routing_table),
                        table_bucket_size(before.routing_table),
                        id.name@,
                    ) {
                        self.offered(&cached, ids.drop_first(), client_key, proxy_name, result)
                    } else {
                        exists|mid: Core, first: Result<(), RoutingError>| #[trigger]
                            mid.sent_endpoints(
                                &cached,
                                Authority::Client { client_key, proxy_node_name: proxy_name },
                                Authority::ManagedNode(id.name),
                                first,
                            ) && if first is Ok {
                                self.offered(
                                    &mid,
                                    ids.drop_first(),
                                    client_key,
                                    proxy_name,
                                    result,
                                )
                            } else {
                                result == first && self.only_added(&mid, Seq::empty())
                            }
                    }
                }
        }
    }

    /// What the answer to our request for the members of our close group
    /// does: we listen, and go through the public ids as `offered` says.
    pub open spec fn close_group_received(
        &self,
        before: &Core,
        ids: Seq<PublicId>,
        client_key: [u8; 32],
        proxy_name: XorName,
        result: Result<(), RoutingError>,
    ) -> bool {
        exists|mid: Core| #[trigger]
            mid.listening_started(before) && self.offered(
                &mid,
                ids,
                client_key,
                proxy_name,
                result,
            )
    }

    /// What a request that is neither for the user nor sent by a proper
    /// source to a proper destination does: it fails with `BadAuthority`.
    pub open spec fn refused_authority(&self, before: &Core, result: Result<(), RoutingError>) -> bool {
        result == Err::<(), RoutingError>(RoutingError::BadAuthority) && self.only_added(
            before,
            Seq::empty(),
        )
    }

    /// What a request does, by its content, source and destination.
    ///
    /// A request for the user is handed to the user. The requests by which
    /// nodes find their name, their group and each other are handled as
    /// the predicate of each says, where they come from and go to the
    /// authorities that they are meant for. Anything else fails with
    /// `BadAuthority`.
    pub open spec fn request_handled(
        &self,
        before: &Core,
        request: RequestMessage,
        result: Result<(), RoutingError>,
    ) -> bool {
        match request.content {
            RequestContent::GetNetworkName { current_id } => match (request.src, request.dst) {
                (
                    Authority::Client { client_key, proxy_node_name },
                    Authority::NaeManager(dst_name),
                ) => self.network_name_requested(
                    before,
                    current_id,
                    client_key,
                    proxy_node_name,
                    dst_name,
                    result,
                ),
                _ => self.refused_authority(before, result),
            },
            RequestContent::ExpectCloseNode { expect_id } => match (request.src, request.dst) {
                (Authority::NaeManager(_), Authority::NodeManager(_)) => self.expected_close_node(
                    before,
                    expect_id,
                    result,
                ),
                _ => self.refused_authority(before, result),
            },
            RequestContent::GetCloseGroup => match (request.src, request.dst) {
                (
                    Authority::Client { client_key, proxy_node_name },
                    Authority::NodeManager(dst_name),
                ) => self.close_group_requested(
                    before,
                    client_key,
                    proxy_node_name,
                    dst_name,
                    result,
                ),
                _ => self.refused_authority(before, result),
            },
            RequestContent::Connect => match (request.src, request.dst) {
                (Authority::ManagedNode(src_name), Authority::ManagedNode(dst_name)) =>
                    self.connect_requested(before, src_name, dst_name, result),
                _ => self.refused_authority(before, result),
            },
            RequestContent::Endpoints { encrypted_endpoints, nonce_bytes } => match (
                request.src,
                request.dst,
            ) {
                (
                    Authority::Client { client_key, proxy_node_name },
                    Authority::ManagedNode(dst_name),
                ) => self.endpoints_from_client(
                    before,
                    encrypted_endpoints@,
                    nonce_bytes@,
                    client_key,
                    proxy_node_name,
                    dst_name,
                    result,
                ),
                (Authority::ManagedNode(src_name), Authority::Client { .. }) =>
                    self.endpoints_from_node(
                    before,
                    encrypted_endpoints,
                    nonce_bytes,
                    src_name,
                    request.dst,
                    result,
                ),
                (Authority::ManagedNode(src_name), Authority::ManagedNode(_)) =>
                    self.endpoints_from_node(
                    before,
                    encrypted_endpoints,
                    nonce_bytes,
                    src_name,
                    request.dst,
                    result,
                ),
                _ => self.refused_authority(before, result),
            },
            RequestContent::GetPublicId => match (request.src, request.dst) {
                (Authority::ManagedNode(src_name), Authority::NodeManager(dst_name)) =>
                    self.public_id_requested(before, src_name, dst_name, result),
                _ => self.refused_authority(before, result),
            },
            RequestContent::GetPublicIdWithEndpoints { encrypted_endpoints, nonce_bytes } => match (
                request.src,
                request.dst,
            ) {
                (Authority::ManagedNode(src_name), Authority::NodeManager(dst_name)) =>
                    self.public_id_with_endpoints_requested(
                    before,
                    encrypted_endpoints,
                    nonce_bytes,
                    src_name,
                    dst_name,
                    result,
                ),
                _ => self.refused_authority(before, result),
            },
            _ => result == Ok::<(), RoutingError>(()) && self.only_added(
                before,
                seq![EffectView::Emit(Event::Request(request))],
            ),
        }
    }

    /// What a response does, by its content, source and destination.
    ///
    /// A response for the user is handed to the user. The responses by
    /// which nodes find their name, their group and each other are handled
    /// as the predicate of each says, where they come from and go to the
    /// authorities that they are meant for. Anything else fails with
    /// `BadAuthority`.
    pub open spec fn response_handled(
        &self,
        before: &Core,
        response: ResponseMessage,
        result: Result<(), RoutingError>,
    ) -> bool {
        match response.content {
            ResponseContent::GetNetworkName { relocated_id } => match (response.src, response.dst) {
                (Authority::NaeManager(_), Authority::Client { client_key, proxy_node_name }) =>
                    self.network_name_received(
                    before,
                    relocated_id,
                    client_key,
                    proxy_node_name,
                    result,
                ),
                _ => self.refused_authority(before, result),
            },
            ResponseContent::GetPublicId { public_id } => match (response.src, response.dst) {
                (Authority::NodeManager(_), Authority::ManagedNode(dst_name)) =>
                    self.public_id_received(before, public_id, dst_name, result),
                _ => self.refused_authority(before, result),
            },
            ResponseContent::GetPublicIdWithEndpoints {
                public_id,
                encrypted_endpoints,
                nonce_bytes,
            } => match (response.src, response.dst) {
                (Authority::NodeManager(_), Authority::ManagedNode(dst_name)) =>
                    self.public_id_with_endpoints_received(
                    before,
                    public_id,
                    encrypted_endpoints@,
                    nonce_bytes@,
                    dst_name,
                    result,
                ),
                _ => self.refused_authority(before, result),
            },
            ResponseContent::GetCloseGroup { close_group_ids } => match (
                response.src,
                response.dst,
            ) {
                (Authority::NodeManager(_), Authority::Client { client_key, proxy_node_name }) =>
                    self.close_group_received(
                    before,
                    close_group_ids@,
                    client_key,
                    proxy_node_name,
                    result,
                ),
                _ => self.refused_authority(before, result),
            },
            _ => result == Ok::<(), RoutingError>(()) && self.only_added(
                before,
                seq![EffectView::Emit(Event::Response(response))],
            ),
        }
    }

    /// Signs the request from `src` to `dst` and sends it, as
    /// `sent_content` says.
    pub fn send_request(&mut self, src: Authority, dst: Authority, content: RequestContent) -> (result:
        Result<(), RoutingError>)
        requires
            old(self).wf(),
        ensures
            final(self).wf(),
            final(self).sent_content(
                old(self),
                RoutingMessage::Request(RequestMessage { src, dst, content }),
                result,
            ),
    {
        self.send_message(RoutingMessage::Request(RequestMessage { src, dst, content }))
    }

    /// Signs the response from `src` to `dst` and sends it, as
    /// `sent_content` says.
    pub fn send_response(&mut self, src: Authority, dst: Authority, content: ResponseContent) -> (result:
        Result<(), RoutingError>)
        requires
            old(self).wf(),
        ensures
            final(self).wf(),
            final(self).sent_content(
                old(self),
                RoutingMessage::Response(ResponseMessage { src, dst, content }),
                result,
            ),
    {
        self.send_message(RoutingMessage::Response(ResponseMessage { src, dst, content }))
    }

    /// Sends our endpoints, sealed for `their_public_id` under a fresh
    /// nonce, as `sent_endpoints` says.
    pub fn send_endpoints(&mut self, their_public_id: &PublicId, src: Authority, dst: Authority) -> (result:
        Result<(), RoutingError>)
        requires
            old(self).wf(),
        ensures
            final(self).wf(),
            final(self).sent_endpoints(
                old(self),
                src,
                dst,
                result,
            ),
    {
        if self.endpoints.len() > (isize::MAX as usize) - SEAL_OVERHEAD {
            assert(self.effects() =~= old(self).effects() + Seq::<EffectView>::empty());
            return Err(RoutingError::SerialisationError);
        }
        let nonce_bytes = gen_nonce();
        let encrypted_endpoints = box_seal(
            self.endpoints.as_slice(),
            &nonce_bytes,
            &their_public_id.public_encrypt_key,
            &self.full_id.private_encrypt_key,
        );
        let content = RequestContent::Endpoints { encrypted_endpoints, nonce_bytes };
        let ghost sent = RoutingMessage::Request(RequestMessage { src, dst, content });
        let result = self.send_request(src, dst, content);
        assert(is_endpoints_request(sent, src, dst, old(self).endpoints@));
        result
    }

    /// Handles the notice to expect a relocated node, as
    /// `expected_close_node` says.
    pub fn handle_expect_close_node_request(&mut self, expect_id: PublicId) -> (result: Result<
        (),
        RoutingError,
    >)
        requires
            old(self).wf(),
        ensures
            final(self).wf(),
            final(self).expected_close_node(old(self), expect_id, result),
    {
        let held = id_cache_get(&mut self.node_id_cache, &expect_id.name.0);
        let ghost looked = *self;
        assert(looked.looked_up_id(old(self)));
        if held.is_some() {
            assert(self.effects() =~= looked.effects() + Seq::<EffectView>::empty());
            return Err(RoutingError::RejectedPublicId);
        }
        let _ = id_cache_insert(&mut self.node_id_cache, expect_id.name.0, expect_id);
        assert(self.remembered_id(&looked, expect_id));
        Ok(())
    }

    /// Handles a proposal to connect, as `connect_requested` says.
    pub fn handle_connect_request(&mut self, src_name: XorName, dst_name: XorName) -> (result:
        Result<(), RoutingError>)
        requires
            old(self).wf(),
        ensures
            final(self).wf(),
            final(self).connect_requested(old(self), src_name, dst_name, result),
    {
        if !self.want_address_in_routing_table(&src_name) {
            assert(self.effects() =~= old(self).effects() + Seq::<EffectView>::empty());
            return Err(RoutingError::RefusedFromRoutingTable);
        }
        let cached = id_cache_get(&mut self.node_id_cache, &src_name.0);
        let ghost mid = *self;
        assert(mid.looked_up_id(old(self)));
        match cached {
            Some(public_id) => {
                let our_name = self.full_id.public_id.name;
                self.send_endpoints(
                    &public_id,
                    Authority::ManagedNode(our_name),
                    Authority::ManagedNode(src_name),
                )
            },
            None => self.send_request(
                Authority::ManagedNode(dst_name),
                Authority::NodeManager(src_name),
                RequestContent::GetPublicId,
            ),
        }
    }

    /// The public id of the node called `name`, where it is one of the
    /// `GROUP_SIZE` nodes of the routing table that are nearest to us.
    pub fn close_group_member(&self, name: &XorName) -> (found: Option<PublicId>)
        requires
            self.wf(),
        ensures
            match found {
                Some(id) => self.close_member(*name, id),
                None => self.no_close_member(*name),
            },
    {
        let group = table_closest(&self.routing_table, &self.full_id.public_id.name, GROUP_SIZE);
        let mut i: usize = 0;
        let ghost views = crate::table::name_views(group@);
        while i < group.len()
            invariant
                i <= group@.len(),
                self.wf(),
                views == crate::table::name_views(group@),
                nearest_of(
                    table_names(self.routing_table),
                    self.full_id.public_id.name@,
                    GROUP_SIZE as nat,
                    group@,
                ),
                forall|j: int| 0 <= j < i ==> views[j] != name@,
            decreases group@.len() - i,
        {
            if group[i].same_as(name) {
                assert(views[i as int] == name@);
                assert(views.contains(name@));
                assert(table_names(self.routing_table).contains(group@[i as int]@));
                match find_peer(&self.peers, name) {
                    Some(place) => {
                        let id = self.peers[place].public_id;
                        assert(self.peers@[place as int].public_id == id);
                        return Some(id);
                    },
                    None => {
                        assert(false);
                    },
                }
            }
            i += 1;
        }
        assert(!views.contains(name@)) by {
            if views.contains(name@) {
                let j = choose|j: int| 0 <= j < views.len() && views[j] == name@;
                assert(views[j] != name@);
            }
        }
        None
    }

    /// Handles a request for a public id, as `public_id_requested` says.
    pub fn handle_get_public_id(&mut self, src_name: XorName, dst_name: XorName) -> (result: Result<
        (),
        RoutingError,
    >)
        requires
            old(self).wf(),
        ensures
            final(self).wf(),
            final(self).public_id_requested(old(self), src_name, dst_name, result),
    {
        match self.close_group_member(&dst_name) {
            Some(public_id) => self.send_response(
                Authority::NodeManager(dst_name),
                Authority::ManagedNode(src_name),
                ResponseContent::GetPublicId { public_id },
            ),
            None => {
                assert(self.effects() =~= old(self).effects() + Seq::<EffectView>::empty());
                Err(RoutingError::RejectedPublicId)
            },
        }
    }

    /// Handles a request for a public id that brings sealed endpoints, as
    /// `public_id_with_endpoints_requested` says.
    pub fn handle_get_public_id_with_endpoints(
        &mut self,
        encrypted_endpoints: Vec<u8>,
        nonce_bytes: [u8; 24],
        src_name: XorName,
        dst_name: XorName,
    ) -> (result: Result<(), RoutingError>)
        requires
            old(self).wf(),
        ensures
            final(self).wf(),
            final(self).public_id_with_endpoints_requested(
                old(self),
                encrypted_endpoints,
                nonce_bytes,
                src_name,
                dst_name,
                result,
            ),
    {
        match self.close_group_member(&dst_name) {
            Some(public_id) => self.send_response(
                Authority::NodeManager(dst_name),
                Authority::ManagedNode(src_name),
                ResponseContent::GetPublicIdWithEndpoints {
                    public_id,
                    encrypted_endpoints,
                    nonce_bytes,
                },
            ),
            None => {
                assert(self.effects() =~= old(self).effects() + Seq::<EffectView>::empty());
                Err(RoutingError::RejectedPublicId)
            },
        }
    }

    /// Handles the answer to a request for a public id, as
    /// `public_id_received` says.
    pub fn handle_get_public_id_response(&mut self, public_id: PublicId, dst_name: XorName) -> (result:
        Result<(), RoutingError>)
        requires
            old(self).wf(),
        ensures
            final(self).wf(),
            final(self).public_id_received(old(self), public_id, dst_name, result),
    {
        if !self.want_address_in_routing_table(&public_id.name) {
            assert(self.effects() =~= old(self).effects() + Seq::<EffectView>::empty());
            return Err(RoutingError::RefusedFromRoutingTable);
        }
        let sending = self.send_endpoints(
            &public_id,
            Authority::ManagedNode(dst_name),
            Authority::ManagedNode(public_id.name),
        );
        let ghost mid = *self;
        match sending {
            Ok(()) => {
                let _ = id_cache_insert(&mut self.node_id_cache, public_id.name.0, public_id);
                assert(self.remembered_id(&mid, public_id));
                Ok(())
            },
            Err(error) => {
                assert(self.effects() =~= mid.effects() + Seq::<EffectView>::empty());
                Err(error)
            },
        }
    }

    /// Handles the answer to a request for a public id that brings back
    /// sealed endpoints, as `public_id_with_endpoints_received` says.
    pub fn handle_get_public_id_with_endpoints_response(
        &mut self,
        public_id: PublicId,
        encrypted_endpoints: Vec<u8>,
        nonce_bytes: [u8; 24],
        dst_name: XorName,
    ) -> (result: Result<(), RoutingError>)
        requires
            old(self).wf(),
        ensures
            final(self).wf(),
            final(self).public_id_with_endpoints_received(
                old(self),
                public_id,
                encrypted_endpoints@,
                nonce_bytes@,
                dst_name,
                result,
            ),
    {
        let first = self.handle_get_public_id_response(public_id, dst_name);
        let ghost mid = *self;
        match first {
            Ok(()) => self.connect(&encrypted_endpoints, &nonce_bytes, &public_id.public_encrypt_key),
            Err(error) => {
                assert(self.effects() =~= mid.effects() + Seq::<EffectView>::empty());
                Err(error)
            },
        }
    }

    /// Handles endpoints from a node, as `endpoints_from_node` says.
    pub fn handle_endpoints_from_node(
        &mut self,
        encrypted_endpoints: Vec<u8>,
        nonce_bytes: [u8; 24],
        src_name: XorName,
        dst: Authority,
    ) -> (result: Result<(), RoutingError>)
        requires
            old(self).wf(),
        ensures
            final(self).wf(),
            final(self).endpoints_from_node(
                old(self),
                encrypted_endpoints,
                nonce_bytes,
                src_name,
                dst,
                result,
            ),
    {
        if !self.want_address_in_routing_table(&src_name) {
            let _ = id_cache_remove(&mut self.node_id_cache, &src_name.0);
            return Err(RoutingError::RefusedFromRoutingTable);
        }
        let cached = id_cache_get(&mut self.node_id_cache, &src_name.0);
        let ghost mid = *self;
        assert(mid.looked_up_id(old(self)));
        match cached {
            Some(their_public_id) => self.connect(
                &encrypted_endpoints,
                &nonce_bytes,
                &their_public_id.public_encrypt_key,
            ),
            None => self.send_request(
                dst,
                Authority::NodeManager(src_name),
                RequestContent::GetPublicIdWithEndpoints { encrypted_endpoints, nonce_bytes },
            ),
        }
    }

    /// Handles the answer to our request for a name, as
    /// `network_name_received` says.
    pub fn handle_get_network_name_response(
        &mut self,
        relocated_id: PublicId,
        client_key: [u8; 32],
        proxy_name: XorName,
    ) -> (result: Result<(), RoutingError>)
        requires
            old(self).wf(),
        ensures
            final(self).wf(),
            final(self).network_name_received(
                old(self),
                relocated_id,
                client_key,
                proxy_name,
                result,
            ),
    {
        let hashed_key = XorName(sha512(self.full_id.public_id.public_sign_key.as_slice()));
        if self.full_id.public_id.has_relocated_name() || relocated_id.name.same_as(&hashed_key) {
            assert(self.effects() =~= old(self).effects() + Seq::<EffectView>::empty());
            return Err(RoutingError::InvalidStateForOperation);
        }
        self.set_self_node_name(relocated_id.name);
        let ghost mid = *self;
        assert(mid.took_name(old(self), relocated_id.name));
        self.send_request(
            Authority::Client { client_key, proxy_node_name: proxy_name },
            Authority::NodeManager(relocated_id.name),
            RequestContent::GetCloseGroup,
        )
    }

    /// Handles a request for a new name, as `network_name_requested` says.
    pub fn handle_get_network_name_request(
        &mut self,
        their_public_id: PublicId,
        client_key: [u8; 32],
        proxy_name: XorName,
        dst_name: XorName,
    ) -> (result: Result<(), RoutingError>)
        requires
            old(self).wf(),
        ensures
            final(self).wf(),
            final(self).network_name_requested(
                old(self),
                their_public_id,
                client_key,
                proxy_name,
                dst_name,
                result,
            ),
    {
        let hashed_key = sha512(client_key.as_slice());
        if !bytes_equal(hashed_key.as_slice(), dst_name.0.as_slice()) {
            assert(self.effects() =~= old(self).effects() + Seq::<EffectView>::empty());
            return Err(RoutingError::InvalidDestination);
        }
        let mut close_group = self.close_group_names();
        let ghost group = close_group@;
        close_group.push(self.full_id.public_id.name);
        let relocated = match calculate_relocated_name(close_group, &their_public_id.name) {
            Ok(name) => name,
            Err(error) => {
                assert(false);
                return Err(error);
            },
        };
        let mut relocated_id = their_public_id;
        relocated_id.set_name(relocated);
        assert(old(self).relocates(their_public_id, relocated_id)) by {
            assert(nearest_of(
                table_names(old(self).routing_table),
                old(self).full_id.public_id.name@,
                GROUP_SIZE as nat,
                group,
            ));
        }
        let first = self.send_response(
            Authority::NaeManager(dst_name),
            Authority::Client { client_key, proxy_node_name: proxy_name },
            ResponseContent::GetNetworkName { relocated_id },
        );
        let ghost mid = *self;
        match first {
            Ok(()) => self.send_request(
                Authority::NaeManager(dst_name),
                Authority::NodeManager(relocated),
                RequestContent::ExpectCloseNode { expect_id: relocated_id },
            ),
            Err(error) => {
                assert(self.effects() =~= mid.effects() + Seq::<EffectView>::empty());
                Err(error)
            },
        }
    }

    /// The public ids of our close group, nearest first, and then ours.
    pub fn close_group_with_self(&self) -> (ids: Vec<PublicId>)
        requires
            self.wf(),
        ensures
            self.close_group_ids(ids@),
    {
        let group = table_closest(&self.routing_table, &self.full_id.public_id.name, GROUP_SIZE);
        let mut ids: Vec<PublicId> = Vec::new();
        let mut i: usize = 0;
        while i < group.len()
            invariant
                i <= group@.len(),
                self.wf(),
                nearest_of(
                    table_names(self.routing_table),
                    self.full_id.public_id.name@,
                    GROUP_SIZE as nat,
                    group@,
                ),
                ids@.len() == i,
                forall|k: int|
                    0 <= k < i ==> (#[trigger] ids@[k]).name@ == group@[k]@ && exists|j: int|
                        0 <= j < self.peers@.len() && (#[trigger] self.peers@[j]).public_id
                            == ids@[k],
            decreases group@.len() - i,
        {
            assert(table_names(self.routing_table).contains(group@[i as int]@));
            match find_peer(&self.peers, &group[i]) {
                Some(place) => {
                    let id = self.peers[place].public_id;
                    assert(self.peers@[place as int].public_id == id);
                    ids.push(id);
                },
                None => {
                    assert(false);
                },
            }
            i += 1;
        }
        let ghost members = ids@;
        ids.push(self.full_id.public_id);
        proof {
            assert(ids@.last() == self.full_id.public_id);
            assert forall|k: int| 0 <= k < group@.len() implies (#[trigger] ids@[k]).name@
                == group@[k]@ && exists|j: int|
                0 <= j < self.peers@.len() && (#[trigger] self.peers@[j]).public_id == ids@[k] by {
                assert(ids@[k] == members[k]);
            }
            assert(nearest_of(
                table_names(self.routing_table),
                self.full_id.public_id.name@,
                GROUP_SIZE as nat,
                group@,
            ));
        }
        ids
    }

    /// Handles a request for the members of our close group, as
    /// `close_group_requested` says.
    pub fn handle_get_close_group_request(
        &mut self,
        client_key: [u8; 32],
        proxy_name: XorName,
        dst_name: XorName,
    ) -> (result: Result<(), RoutingError>)
        requires
            old(self).wf(),
        ensures
            final(self).wf(),
            final(self).close_group_requested(old(self), client_key, proxy_name, dst_name, result),
    {
        let close_group_ids = self.close_group_with_self();
        self.send_response(
            Authority::NodeManager(dst_name),
            Authority::Client { client_key, proxy_node_name: proxy_name },
            ResponseContent::GetCloseGroup { close_group_ids },
        )
    }

    /// Handles endpoints from a client whose public id, where the cache
    /// holds one with its key, is `known`, as `endpoints_from_known_client`
    /// says.
    pub fn handle_endpoints_from_known_client(
        &mut self,
        known: Option<(XorName, PublicId)>,
        encrypted_endpoints: &Vec<u8>,
        nonce_bytes: &[u8; 24],
        client_key: [u8; 32],
        proxy_name: XorName,
        dst_name: XorName,
    ) -> (result: Result<(), RoutingError>)
        requires
            old(self).wf(),
        ensures
            final(self).wf(),
            final(self).endpoints_from_known_client(
                old(self),
                known,
                encrypted_endpoints@,
                nonce_bytes@,
                client_key,
                proxy_name,
                dst_name,
                result,
            ),
    {
        let (name, their_public_id) = match known {
            Some(entry) => entry,
            None => {
                assert(self.effects() =~= old(self).effects() + Seq::<EffectView>::empty());
                return Err(RoutingError::RejectedPublicId);
            },
        };
        if !self.want_address_in_routing_table(&name) {
            assert(self.effects() =~= old(self).effects() + Seq::<EffectView>::empty());
            return Err(RoutingError::RefusedFromRoutingTable);
        }
        let first = self.connect(
            encrypted_endpoints,
            nonce_bytes,
            &their_public_id.public_encrypt_key,
        );
        let ghost mid = *self;
        match first {
            Ok(()) => self.send_endpoints(
                &their_public_id,
                Authority::ManagedNode(dst_name),
                Authority::Client { client_key, proxy_node_name: proxy_name },
            ),
            Err(error) => {
                assert(self.effects() =~= mid.effects() + Seq::<EffectView>::empty());
                Err(error)
            },
        }
    }

    /// Handles endpoints from a client, as `endpoints_from_client` says.
    pub fn handle_endpoints_from_client(
        &mut self,
        encrypted_endpoints: Vec<u8>,
        nonce_bytes: [u8; 24],
        client_key: [u8; 32],
        proxy_name: XorName,
        dst_name: XorName,
    ) -> (result: Result<(), RoutingError>)
        requires
            old(self).wf(),
        ensures
            final(self).wf(),
            final(self).endpoints_from_client(
                old(self),
                encrypted_endpoints@,
                nonce_bytes@,
                client_key,
                proxy_name,
                dst_name,
                result,
            ),
    {
        let entries = id_cache_retrieve_all(&mut self.node_id_cache);
        let ghost mid = *self;
        assert(mid.looked_up_id(old(self)));
        let mut known: Option<(XorName, PublicId)> = None;
        let mut i: usize = 0;
        while i < entries.len() && known.is_none()
            invariant
                i <= entries@.len(),
                forall|k: int|
                    0 <= k < entries@.len() ==> cached_ids(mid.node_id_cache).contains_key(
                        #[trigger] entries@[k].0@,
                    ) && cached_ids(mid.node_id_cache)[entries@[k].0@] == entries@[k].1,
                match known {
                    Some((name, id)) => id.public_sign_key@ == client_key@ && mid.cached_id(name)
                        == Some(id),
                    None => forall|k: int|
                        0 <= k < i ==> (#[trigger] entries@[k]).1.public_sign_key@ != client_key@,
                },
            decreases entries@.len() - i + if known.is_none() { 1nat } else { 0nat },
        {
            let (name, id) = entries[i];
            if bytes_equal(id.public_sign_key.as_slice(), client_key.as_slice()) {
                assert(cached_ids(mid.node_id_cache).contains_key(entries@[i as int].0@));
                known = Some((XorName(name), id));
            } else {
                i += 1;
            }
        }
        proof {
            if known.is_none() {
                assert forall|name: Seq<u8>| #[trigger]
                    cached_ids(mid.node_id_cache).contains_key(name) implies cached_ids(
                    mid.node_id_cache,
                )[name].public_sign_key@ != client_key@ by {
                    let k = choose|k: int| 0 <= k < entries@.len() && #[trigger] entries@[k].0@ == name;
                    assert(entries@[k].1.public_sign_key@ != client_key@);
                }
            }
        }
        self.handle_endpoints_from_known_client(
            known,
            &encrypted_endpoints,
            &nonce_bytes,
            client_key,
            proxy_name,
            dst_name,
        )
    }

    fn offer_endpoints(
        &mut self,
        ids: &Vec<PublicId>,
        from: usize,
        client_key: [u8; 32],
        proxy_name: XorName,
    ) -> (result: Result<(), RoutingError>)
        requires
            old(self).wf(),
            from <= ids@.len(),
        ensures
            final(self).wf(),
            final(self).offered(
                old(self),
                ids@.skip(from as int),
                client_key,
                proxy_name,
                result,
            ),
        decreases ids@.len() - from,
    {
        if from >= ids.len() {
            assert(self.effects() =~= old(self).effects() + Seq::<EffectView>::empty());
            return Ok(());
        }
        let id = ids[from];
        proof {
            assert(ids@.skip(from as int)[0] == id);
            assert(ids@.skip(from as int).drop_first() =~= ids@.skip(from + 1));
        }
        let needed = table_need_to_add(&self.routing_table, &id.name);
        let previous = id_cache_insert(&mut self.node_id_cache, id.name.0, id);
        let ghost cached = *self;
        assert(cached.remembered_id(old(self), id));
        if previous.is_some() || !needed {
            return self.offer_endpoints(ids, from + 1, client_key, proxy_name);
        }
        let first = self.send_endpoints(
            &id,
            Authority::Client { client_key, proxy_node_name: proxy_name },
            Authority::ManagedNode(id.name),
        );
        let ghost mid = *self;
        match first {
            Ok(()) => self.offer_endpoints(ids, from + 1, client_key, proxy_name),
            Err(error) => {
                assert(self.effects() =~= mid.effects() + Seq::<EffectView>::empty());
                Err(error)
            },
        }
    }

    /// Handles the answer to our request for the members of our close
    /// group, as `close_group_received` says.
    pub fn handle_get_close_group_response(
        &mut self,
        close_group_ids: Vec<PublicId>,
        client_key: [u8; 32],
        proxy_name: XorName,
    ) -> (result: Result<(), RoutingError>)
        requires
            old(self).wf(),
        ensures
            final(self).wf(),
            final(self).close_group_received(
                old(self),
                close_group_ids@,
                client_key,
                proxy_name,
                result,
            ),
    {
        self.start_listening();
        let ghost mid = *self;
        assert(close_group_ids@.skip(0) =~= close_group_ids@);
        self.offer_endpoints(&close_group_ids, 0, client_key, proxy_name)
    }

    fn refuse_authority(&mut self) -> (result: Result<(), RoutingError>)
        ensures
            final(self).refused_authority(old(self), result),
    {
        assert(self.effects() =~= old(self).effects() + Seq::<EffectView>::empty());
        Err(RoutingError::BadAuthority)
    }

    /// Handles a request, as `request_handled` says.
    pub fn handle_request_message(&mut self, request: RequestMessage) -> (result: Result<
        (),
        RoutingError,
    >)
        requires
            old(self).wf(),
        ensures
            final(self).wf(),
            final(self).request_handled(old(self), request, result),
    {
        if request.content.is_for_user() {
            self.push_effect(Effect::Emit(Event::Request(request)));
            return Ok(());
        }
        let src = request.src;
        let dst = request.dst;
        match request.content {
            RequestContent::GetNetworkName { current_id } => match (src, dst) {
                (
                    Authority::Client { client_key, proxy_node_name },
                    Authority::NaeManager(dst_name),
                ) => self.handle_get_network_name_request(
                    current_id,
                    client_key,
                    proxy_node_name,
                    dst_name,
                ),
                _ => self.refuse_authority(),
            },
            RequestContent::ExpectCloseNode { expect_id } => match (src, dst) {
                (Authority::NaeManager(_), Authority::NodeManager(_)) =>
                    self.handle_expect_close_node_request(expect_id),
                _ => self.refuse_authority(),
            },
            RequestContent::GetCloseGroup => match (src, dst) {
                (
                    Authority::Client { client_key, proxy_node_name },
                    Authority::NodeManager(dst_name),
                ) => self.handle_get_close_group_request(client_key, proxy_node_name, dst_name),
                _ => self.refuse_authority(),
            },
            RequestContent::Connect => match (src, dst) {
                (Authority::ManagedNode(src_name), Authority::ManagedNode(dst_name)) =>
                    self.handle_connect_request(src_name, dst_name),
                _ => self.refuse_authority(),
            },
            RequestContent::Endpoints { encrypted_endpoints, nonce_bytes } => match (src, dst) {
                (
                    Authority::Client { client_key, proxy_node_name },
                    Authority::ManagedNode(dst_name),
                ) => self.handle_endpoints_from_client(
                    encrypted_endpoints,
                    nonce_bytes,
                    client_key,
                    proxy_node_name,
                    dst_name,
                ),
                (Authority::ManagedNode(src_name), Authority::Client { .. }) =>
                    self.handle_endpoints_from_node(
                    encrypted_endpoints,
                    nonce_bytes,
                    src_name,
                    dst,
                ),
                (Authority::ManagedNode(src_name), Authority::ManagedNode(_)) =>
                    self.handle_endpoints_from_node(
                    encrypted_endpoints,
                    nonce_bytes,
                    src_name,
                    dst,
                ),
                _ => self.refuse_authority(),
            },
            RequestContent::GetPublicId => match (src, dst) {
                (Authority::ManagedNode(src_name), Authority::NodeManager(dst_name)) =>
                    self.handle_get_public_id(src_name, dst_name),
                _ => self.refuse_authority(),
            },
            RequestContent::GetPublicIdWithEndpoints { encrypted_endpoints, nonce_bytes } => match (
                src,
                dst,
            ) {
                (Authority::ManagedNode(src_name), Authority::NodeManager(dst_name)) =>
                    self.handle_get_public_id_with_endpoints(
                    encrypted_endpoints,
                    nonce_bytes,
                    src_name,
                    dst_name,
                ),
                _ => self.refuse_authority(),
            },
            _ => {
                assert(false);
                self.refuse_authority()
            },
        }
    }

    /// Handles a response, as `response_handled` says.
    pub fn handle_response_message(&mut self, response: ResponseMessage) -> (result: Result<
        (),
        RoutingError,
    >)
        requires
            old(self).wf(),
        ensures
            final(self).wf(),
            final(self).response_handled(old(self), response, result),
    {
        if response.content.is_for_user() {
            self.push_effect(Effect::Emit(Event::Response(response)));
            return Ok(());
        }
        let src = response.src;
        let dst = response.dst;
        match response.content {
            ResponseContent::GetNetworkName { relocated_id } => match (src, dst) {
                (Authority::NaeManager(_), Authority::Client { client_key, proxy_node_name }) =>
                    self.handle_get_network_name_response(
                    relocated_id,
                    client_key,
                    proxy_node_name,
                ),
                _ => self.refuse_authority(),
            },
            ResponseContent::GetPublicId { public_id } => match (src, dst) {
                (Authority::NodeManager(_), Authority::ManagedNode(dst_name)) =>
                    self.handle_get_public_id_response(public_id, dst_name),
                _ => self.refuse_authority(),
            },
            ResponseContent::GetPublicIdWithEndpoints {
                public_id,
                encrypted_endpoints,
                nonce_bytes,
            } => match (src, dst) {
                (Authority::NodeManager(_), Authority::ManagedNode(dst_name)) =>
                    self.handle_get_public_id_with_endpoints_response(
                    public_id,
                    encrypted_endpoints,
                    nonce_bytes,
                    dst_name,
                ),
                _ => self.refuse_authority(),
            },
            ResponseContent::GetCloseGroup { close_group_ids } => match (src, dst) {
                (Authority::NodeManager(_), Authority::Client { client_key, proxy_node_name }) =>
                    self.handle_get_close_group_response(
                    close_group_ids,
                    client_key,
                    proxy_node_name,
                ),
                _ => self.refuse_authority(),
            },
            _ => {
                assert(false);
                self.refuse_authority()
            },
        }
    }
}

} // verus!
