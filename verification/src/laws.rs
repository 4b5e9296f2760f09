//! What holds of the core whatever happens: properties that follow from
//! what its functions promise.

use crate::authority::Authority;
use crate::crypto::{ed25519_signature, sha512_digest};
use crate::error::RoutingError;
use crate::event::EffectView;
use crate::filter::filter_items;
use crate::id::PublicId;
use crate::messages::{HopMessage, Message, RoutingMessage, SignedMessage};
use crate::names::{xor_distance, XorName};
use crate::parse::{lemma_span_message, span_message};
use crate::cache::cached_ids;
use crate::peers::{joining_count, Client, Peer};
use crate::quorum::accumulated;
use crate::relay::{distinct_count, lemma_distinct_count_bound};
use crate::routing::{Core, State, Touched};
use crate::rules::{admits, GROUP_SIZE, MAX_JOINING_NODES};
use crate::sending::{hop_frame, lemma_chosen_targets_move_closer};
use crate::table::{
    kademlia_targets, table_bucket_size, table_names, table_own_name, takes_in,
};
use crate::utils::relocated_name;
use crate::wire::{wire_message, wire_routing_message, wire_signed_message};
use vstd::prelude::*;

verus! {

/// A signed message that the filter of signed messages reports as held is
/// dropped: the receipt fails with `FilterCheckFailed`, nothing is sent or
/// told to the user, and nothing but that filter has changed.
pub proof fn law_repeated_message_is_dropped(
    before: Core,
    noted: Core,
    after: Core,
    message: SignedMessage,
    hop: XorName,
    result: Result<(), RoutingError>,
)
    requires
        after.received_with(&before, message, hop, result, &noted, false),
    ensures
        result == Err::<(), RoutingError>(RoutingError::FilterCheckFailed),
        filter_items(before.signed_message_filter).contains(wire_signed_message(message)),
        after.effects() == before.effects(),
        after.kept(&before, Touched { seen: true, outbox: true, ..Touched::nothing() }),
{
    assert(after.effects() =~= before.effects());
}

/// A signed message that is not intact changes nothing at all.
pub proof fn law_forged_message_changes_nothing(
    before: Core,
    after: Core,
    message: SignedMessage,
    hop: XorName,
    result: Result<(), RoutingError>,
)
    requires
        !message.intact(),
        after.received(&before, message, hop, result),
    ensures
        result == Err::<(), RoutingError>(RoutingError::FailedSignature),
        after.effects() == before.effects(),
        after.kept(&before, Touched::outbox()),
{
    assert(after.effects() =~= before.effects());
}

/// A hop message that was handled without failure was signed by a peer
/// that we know on its connection, and the message in it by its sender.
pub proof fn law_handled_hop_message_was_authentic(
    before: Core,
    after: Core,
    hop: HopMessage,
    connection: u64,
    result: Result<(), RoutingError>,
)
    requires
        after.hop_handled(&before, hop, connection, result),
        result is Ok,
    ensures
        hop.content.intact(),
        exists|key: [u8; 32]|
            before.is_hop_key(hop.name, connection, Ok::<[u8; 32], RoutingError>(key))
                && #[trigger] hop.signed_by(key@),
{
    let key = choose|key: Result<[u8; 32], RoutingError>| #[trigger]
        before.is_hop_key(hop.name, connection, key) && match key {
            Ok(held) => if hop.signed_by(held@) {
                after.received(&before, hop.content, hop.name, result)
            } else {
                result == Err::<(), RoutingError>(RoutingError::FailedSignature)
                    && after.only_added(&before, Seq::empty())
            },
            Err(error) => result == Err::<(), RoutingError>(error) && after.only_added(
                &before,
                Seq::empty(),
            ),
        };
    assert(key is Ok);
    assert(hop.signed_by(key->Ok_0@));
}

/// A message of a group is to be handled exactly when, with this sender,
/// at least a quorum of different members have sent it.
pub proof fn law_quorum_of_different_senders_decides(
    checked: Core,
    counted: Core,
    message: RoutingMessage,
    signer: Seq<u8>,
    reached: bool,
)
    requires
        counted.gathered(&checked, message, signer, reached),
    ensures
        reached <==> accumulated(counted.message_accumulator).contains_key(
            wire_routing_message(message),
        ) && distinct_count(
            accumulated(counted.message_accumulator)[wire_routing_message(message)],
        ) >= counted.quorum_size,
{
    let key = wire_routing_message(message);
    if accumulated(counted.message_accumulator).contains_key(key) {
        lemma_distinct_count_bound(accumulated(counted.message_accumulator)[key]);
    }
}

/// A message of a group that the filter of handled group messages reports
/// as held is not handled again: it fails with `FilterCheckFailed`, and
/// nothing is sent or told to the user.
pub proof fn law_handled_group_message_is_dropped(
    before: Core,
    checked: Core,
    after: Core,
    message: RoutingMessage,
    public_id: PublicId,
    result: Result<(), RoutingError>,
)
    requires
        after.routed_group_message(&before, message, public_id, result, &checked),
        filter_items(checked.grp_msg_filter).contains(wire_routing_message(message)),
    ensures
        result == Err::<(), RoutingError>(RoutingError::FilterCheckFailed),
        after.effects() == before.effects(),
        after.kept(&before, Touched { handled: true, outbox: true, ..Touched::nothing() }),
{
    assert(after.effects() =~= before.effects());
}

/// A message whose destination is not near is handed on only to nodes of
/// the routing table that are strictly nearer to the destination than we
/// are.
pub proof fn law_forwarding_moves_closer(core: Core, dst: Authority, i: int)
    requires
        !core.near(dst.routing_name()),
        0 <= i < core.targets_for(dst).len(),
    ensures
        xor_distance(core.targets_for(dst)[i], dst.routing_name()@) < xor_distance(
            table_own_name(core.routing_table),
            dst.routing_name()@,
        ),
{
    let targets = kademlia_targets(
        table_own_name(core.routing_table),
        table_names(core.routing_table),
        table_bucket_size(core.routing_table),
        dst.routing_name()@,
        if dst.group() {
            Some(GROUP_SIZE as nat)
        } else {
            None
        },
        table_own_name(core.routing_table),
        0,
    );
    lemma_chosen_targets_move_closer(
        targets,
        table_own_name(core.routing_table),
        dst.routing_name()@,
        i,
    );
}

/// The name that a node is moved to depends on nothing but its original
/// name and the members of the group that moves it.
pub proof fn law_relocation_is_deterministic(
    close_nodes: Seq<XorName>,
    original: XorName,
    first: XorName,
    second: XorName,
)
    requires
        first@ == relocated_name(close_nodes, original@),
        second@ == relocated_name(close_nodes, original@),
    ensures
        first == second,
{
    assert(first.0 =~= second.0);
}

/// The hash of our signing key, which is the name that we begin with, is
/// no name to take.
pub proof fn law_first_name_is_not_taken(core: Core, name: XorName)
    requires
        name@ == sha512_digest(core.full_id.public_id.public_sign_key@),
    ensures
        !core.can_take_name(name),
{
}

/// A name is taken once: after we have taken a name, no name can be taken.
pub proof fn law_name_is_taken_once(before: Core, after: Core, name: XorName, other: XorName)
    requires
        before.can_take_name(name),
        after.took_name(&before, name),
    ensures
        !after.can_take_name(other),
{
}

/// A node that we expect and that the routing table takes in is added: we
/// are a node, the table holds its name, it is among the peers with the
/// connection that it came on, the proxies are gone where the table has
/// become full, and the last thing asked for is that we introduce
/// ourselves to it.
pub proof fn law_accepted_node_is_added(before: Core, after: Core, connection: u64, id: PublicId)
    requires
        takes_in(before.routing_table, id.name@),
        after.node_claimed(&before, connection, id),
    ensures
        after.state == State::Node,
        table_names(after.routing_table).contains(id.name@),
        exists|i: int|
            0 <= i < after.peers@.len() && (#[trigger] after.peers@[i]).public_id == id
                && after.peers@[i].connections@ == seq![connection],
        table_names(before.routing_table).len() + 1 >= GROUP_SIZE as nat
            ==> after.proxy_map@.len() == 0,
        after.effects().len() > 0 && after.effects().last() == before.greeting(connection),
{
    assert(after.met_anew(&before, connection, id));
    let (notice, added) = choose|notice: Seq<EffectView>, added: Peer| #[trigger]
        after.met_anew_with(&before, connection, id, notice, added);
    let i = choose|i: int| 0 <= i < after.peers@.len() && after.peers@[i] == added;
    assert(after.peers@[i].public_id.name@ == id.name@);
}

/// A public id that arrives under a name under which another is expected
/// does not replace it: the request fails and the cache holds what it held,
/// but for what has expired.
pub proof fn law_expected_id_is_not_replaced(
    before: Core,
    after: Core,
    expect_id: PublicId,
    result: Result<(), RoutingError>,
)
    requires
        after.expected_close_node(&before, expect_id, result),
        result is Err,
    ensures
        result == Err::<(), RoutingError>(RoutingError::RejectedPublicId),
        cached_ids(after.node_id_cache).submap_of(cached_ids(before.node_id_cache)),
        after.cached_id(expect_id.name) is Some,
        after.cached_id(expect_id.name) == before.cached_id(expect_id.name),
        after.effects() == before.effects(),
{
    assert(after.effects() =~= before.effects());
}

/// The number of joining nodes after one more client has been added.
proof fn lemma_joining_count_push(clients: Seq<Client>, entry: Client)
    ensures
        joining_count(clients.push(entry)) == joining_count(clients) + if entry.client_restriction {
            0nat
        } else {
            1nat
        },
{
    assert(clients.push(entry).drop_last() =~= clients);
}

/// The number of joining nodes after one client has been replaced.
proof fn lemma_joining_count_update(clients: Seq<Client>, place: int, entry: Client)
    requires
        0 <= place < clients.len(),
    ensures
        joining_count(clients.update(place, entry)) <= joining_count(clients)
            + if entry.client_restriction {
            0nat
        } else {
            1nat
        },
    decreases clients.len(),
{
    let after = clients.update(place, entry);
    if place == clients.len() - 1 {
        assert(after.drop_last() =~= clients.drop_last());
    } else {
        lemma_joining_count_update(clients.drop_last(), place, entry);
        assert(after.drop_last() =~= clients.drop_last().update(place, entry));
    }
}

/// The most joining nodes that a proxy whose routing table has `table_len`
/// entries is meant to have.
pub open spec fn joining_cap(table_len: nat) -> nat {
    if table_len < GROUP_SIZE as nat {
        if GROUP_SIZE - 1 > MAX_JOINING_NODES {
            (GROUP_SIZE - 1) as nat
        } else {
            MAX_JOINING_NODES as nat
        }
    } else {
        MAX_JOINING_NODES as nat
    }
}

/// The introduction of a peer keeps the number of joining nodes within
/// the cap, unless the routing table is not full and the joining nodes are
/// one short of `GROUP_SIZE`: such a proxy takes one more.
pub proof fn law_admission_keeps_the_cap(
    before: Core,
    after: Core,
    connection: u64,
    id: PublicId,
    restriction: bool,
)
    requires
        after.client_claimed(&before, connection, id, restriction),
        joining_count(before.client_map@) <= joining_cap(table_names(before.routing_table).len()),
        !(table_names(before.routing_table).len() < GROUP_SIZE as nat && joining_count(
            before.client_map@,
        ) == GROUP_SIZE - 1 && !restriction),
    ensures
        joining_count(after.client_map@) <= joining_cap(table_names(before.routing_table).len()),
{
    let len = table_names(before.routing_table).len();
    let joining = joining_count(before.client_map@);
    if !id.is_relocated() && admits(restriction, len, joining) {
        let entry = Client { key: id.public_sign_key, connection, client_restriction: restriction };
        assert(after.took_client(&before, entry));
        if crate::direct::has_client(before.client_map@, entry.key@) {
            let i = choose|i: int|
                0 <= i < before.client_map@.len() && (#[trigger] before.client_map@[i]).key@
                    == entry.key@ && after.client_map@ == before.client_map@.update(i, entry)
                    && after.effects() == before.effects() + seq![
                    EffectView::DropNode { connection: before.client_map@[i].connection },
                    EffectView::Send {
                        connection: entry.connection,
                        bytes: crate::direct::welcome_frame(
                            before.full_id.public_id,
                            crate::rules::quorum_for(len) as u64,
                        ),
                    },
                ];
            lemma_joining_count_update(before.client_map@, i, entry);
        } else {
            lemma_joining_count_push(before.client_map@, entry);
        }
    }
}

/// A peer that is not admitted is not among the clients afterwards unless
/// it was before: the clients are as they were.
pub proof fn law_refused_peer_is_not_taken(
    before: Core,
    after: Core,
    connection: u64,
    id: PublicId,
    restriction: bool,
)
    requires
        after.client_claimed(&before, connection, id, restriction),
        id.is_relocated() || !admits(
            restriction,
            table_names(before.routing_table).len(),
            joining_count(before.client_map@),
        ),
    ensures
        after.client_map == before.client_map,
{
}

/// What goes down a connection when a signed message is handed on is the
/// encoding of the hop message that wraps it with the hop's name and
/// signature.
pub proof fn law_what_is_sent_is_a_hop_message(hop: HopMessage, secret: Seq<u8>)
    requires
        hop.signature@ == ed25519_signature(wire_signed_message(hop.content), secret),
    ensures
        wire_message(Message::HopMessage(hop)) == hop_frame(hop.content, hop.name, secret),
{
    assert(wire_message(Message::HopMessage(hop)) =~= hop_frame(hop.content, hop.name, secret));
}

/// Bytes that decode to a message are the bytes that the message encodes
/// to, and they are recognised as a whole as the encoding of a message.
pub proof fn law_decoded_bytes_encode_back(bytes: Seq<u8>, message: Message, encoded: Seq<u8>)
    requires
        wire_message(message) == bytes,
        encoded == wire_message(message),
    ensures
        encoded == bytes,
        span_message(bytes) == Some(bytes.len()),
{
    lemma_span_message(message, Seq::empty());
    assert(wire_message(message) + Seq::<u8>::empty() =~= bytes);
}

} // verus!
