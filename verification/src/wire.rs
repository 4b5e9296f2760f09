//! The canonical binary form of messages.
//!
//! Fixed-size fields are written as they are. A variable-size field is
//! written as its length, eight bytes with the least significant first,
//! followed by its bytes; a list as its count, written in the same way,
//! followed by its items. A choice is written as one byte that tells the
//! variant, followed by the variant's fields.

use crate::authority::Authority;
use crate::bytes::{append_bytes, take_32, take_64};
use crate::data::{Data, DataKind, DataRequest, MessageId};
use crate::error::RoutingError;
use crate::id::PublicId;
use crate::messages::{
    DirectMessage, HopMessage, Message, RequestContent, RequestMessage, ResponseContent,
    ResponseMessage, RoutingMessage, SignedMessage,
};
use crate::names::XorName;
use vstd::bytes::{spec_u64_to_le_bytes, u64_to_le_bytes};
use vstd::prelude::*;

verus! {

/// A number as eight bytes, least significant first.
pub open spec fn wire_u64(n: u64) -> Seq<u8> {
    spec_u64_to_le_bytes(n)
}

/// A byte string behind its length.
pub open spec fn wire_blob(bytes: Seq<u8>) -> Seq<u8> {
    wire_u64(bytes.len() as u64) + bytes
}

/// A truth value as one byte, one for true.
pub open spec fn wire_bool(b: bool) -> Seq<u8> {
    if b {
        seq![1u8]
    } else {
        seq![0u8]
    }
}

/// Both public keys, then the name.
pub open spec fn wire_public_id(id: PublicId) -> Seq<u8> {
    id.public_encrypt_key@ + id.public_sign_key@ + id.name@
}

/// The public ids in order.
pub open spec fn wire_public_id_items(ids: Seq<PublicId>) -> Seq<u8>
    decreases ids.len(),
{
    if ids.len() == 0 {
        Seq::empty()
    } else {
        wire_public_id_items(ids.drop_last()) + wire_public_id(ids.last())
    }
}

/// A list of public ids behind its count.
pub open spec fn wire_public_ids(ids: Seq<PublicId>) -> Seq<u8> {
    wire_u64(ids.len() as u64) + wire_public_id_items(ids)
}

pub open spec fn wire_authority(authority: Authority) -> Seq<u8> {
    match authority {
        Authority::Client { client_key, proxy_node_name } => seq![0u8] + client_key@
            + proxy_node_name@,
        Authority::ManagedNode(name) => seq![1u8] + name@,
        Authority::NodeManager(name) => seq![2u8] + name@,
        Authority::NaeManager(name) => seq![3u8] + name@,
    }
}

pub open spec fn wire_data_kind(kind: DataKind) -> Seq<u8> {
    match kind {
        DataKind::Immutable => seq![0u8],
        DataKind::Structured => seq![1u8],
        DataKind::Plain => seq![2u8],
    }
}

pub open spec fn wire_data(data: Data) -> Seq<u8> {
    wire_data_kind(data.kind) + data.name@ + wire_blob(data.payload@)
}

pub open spec fn wire_data_request(request: DataRequest) -> Seq<u8> {
    wire_data_kind(request.kind) + request.name@
}

/// An id, then the request it answers, then the user's account of the
/// failure.
pub open spec fn wire_failure(id: MessageId, request: Seq<u8>, indicator: Seq<u8>) -> Seq<u8> {
    id.0@ + wire_blob(request) + wire_blob(indicator)
}

pub open spec fn wire_request_content(content: RequestContent) -> Seq<u8> {
    match content {
        RequestContent::GetNetworkName { current_id } => seq![0u8] + wire_public_id(current_id),
        RequestContent::ExpectCloseNode { expect_id } => seq![1u8] + wire_public_id(expect_id),
        RequestContent::GetCloseGroup => seq![2u8],
        RequestContent::Connect => seq![3u8],
        RequestContent::Endpoints { encrypted_endpoints, nonce_bytes } => seq![4u8] + wire_blob(
            encrypted_endpoints@,
        ) + nonce_bytes@,
        RequestContent::GetPublicId => seq![5u8],
        RequestContent::GetPublicIdWithEndpoints { encrypted_endpoints, nonce_bytes } => seq![6u8]
            + wire_blob(encrypted_endpoints@) + nonce_bytes@,
        RequestContent::Get(request, id) => seq![7u8] + wire_data_request(request) + id.0@,
        RequestContent::Put(data, id) => seq![8u8] + wire_data(data) + id.0@,
        RequestContent::Post(data, id) => seq![9u8] + wire_data(data) + id.0@,
        RequestContent::Delete(data, id) => seq![10u8] + wire_data(data) + id.0@,
        RequestContent::Refresh(payload) => seq![11u8] + wire_blob(payload@),
    }
}

pub open spec fn wire_response_content(content: ResponseContent) -> Seq<u8> {
    match content {
        ResponseContent::GetNetworkName { relocated_id } => seq![0u8] + wire_public_id(
            relocated_id,
        ),
        ResponseContent::GetPublicId { public_id } => seq![1u8] + wire_public_id(public_id),
        ResponseContent::GetPublicIdWithEndpoints {
            public_id,
            encrypted_endpoints,
            nonce_bytes,
        } => seq![2u8] + wire_public_id(public_id) + wire_blob(encrypted_endpoints@)
            + nonce_bytes@,
        ResponseContent::GetCloseGroup { close_group_ids } => seq![3u8] + wire_public_ids(
            close_group_ids@,
        ),
        ResponseContent::GetSuccess(data, id) => seq![4u8] + wire_data(data) + id.0@,
        ResponseContent::PutSuccess(id) => seq![5u8] + id.0@,
        ResponseContent::PostSuccess(id) => seq![6u8] + id.0@,
        ResponseContent::DeleteSuccess(id) => seq![7u8] + id.0@,
        ResponseContent::GetFailure { id, request, external_error_indicator } => seq![8u8]
            + wire_failure(id, request@, external_error_indicator@),
        ResponseContent::PutFailure { id, request, external_error_indicator } => seq![9u8]
            + wire_failure(id, request@, external_error_indicator@),
        ResponseContent::PostFailure { id, request, external_error_indicator } => seq![10u8]
            + wire_failure(id, request@, external_error_indicator@),
        ResponseContent::DeleteFailure { id, request, external_error_indicator } => seq![11u8]
            + wire_failure(id, request@, external_error_indicator@),
    }
}

pub open spec fn wire_request(message: RequestMessage) -> Seq<u8> {
    wire_authority(message.src) + wire_authority(message.dst) + wire_request_content(
        message.content,
    )
}

pub open spec fn wire_response(message: ResponseMessage) -> Seq<u8> {
    wire_authority(message.src) + wire_authority(message.dst) + wire_response_content(
        message.content,
    )
}

pub open spec fn wire_routing_message(message: RoutingMessage) -> Seq<u8> {
    match message {
        RoutingMessage::Request(request) => seq![0u8] + wire_request(request),
        RoutingMessage::Response(response) => seq![1u8] + wire_response(response),
    }
}

pub open spec fn wire_signed_message(message: SignedMessage) -> Seq<u8> {
    wire_routing_message(message.content) + wire_public_id(message.public_id)
        + message.signature@
}

pub open spec fn wire_hop_message(message: HopMessage) -> Seq<u8> {
    wire_signed_message(message.content) + message.name@ + message.signature@
}

pub open spec fn wire_direct_message(message: DirectMessage) -> Seq<u8> {
    match message {
        DirectMessage::BootstrapIdentify { public_id, current_quorum_size } => seq![0u8]
            + wire_public_id(public_id) + wire_u64(current_quorum_size),
        DirectMessage::BootstrapDeny => seq![1u8],
        DirectMessage::ClientIdentify { serialised_public_id, signature, client_restriction } =>
            seq![2u8] + wire_blob(serialised_public_id@) + signature@ + wire_bool(
                client_restriction,
            ),
        DirectMessage::NodeIdentify { serialised_public_id, signature } => seq![3u8] + wire_blob(
            serialised_public_id@,
        ) + signature@,
    }
}

/// The bytes that stand for a message on a connection.
pub open spec fn wire_message(message: Message) -> Seq<u8> {
    match message {
        Message::HopMessage(hop) => seq![0u8] + wire_hop_message(hop),
        Message::DirectMessage(direct) => seq![1u8] + wire_direct_message(direct),
    }
}

fn write_u64(out: &mut Vec<u8>, n: u64)
    ensures
        final(out)@ == old(out)@ + wire_u64(n),
{
    let bytes = u64_to_le_bytes(n);
    append_bytes(out, bytes.as_slice());
}

fn write_blob(out: &mut Vec<u8>, bytes: &[u8])
    ensures
        final(out)@ == old(out)@ + wire_blob(bytes@),
{
    write_u64(out, bytes.len() as u64);
    append_bytes(out, bytes);
    assert(out@ =~= old(out)@ + wire_blob(bytes@));
}

fn write_public_id(out: &mut Vec<u8>, id: &PublicId)
    ensures
        final(out)@ == old(out)@ + wire_public_id(*id),
{
    append_bytes(out, id.public_encrypt_key.as_slice());
    append_bytes(out, id.public_sign_key.as_slice());
    append_bytes(out, id.name.0.as_slice());
    assert(out@ =~= old(out)@ + wire_public_id(*id));
}

fn write_public_ids(out: &mut Vec<u8>, ids: &Vec<PublicId>)
    ensures
        final(out)@ == old(out)@ + wire_public_ids(ids@),
{
    write_u64(out, ids.len() as u64);
    let ghost start = out@;
    let mut i: usize = 0;
    assert(ids@.take(0) =~= Seq::<PublicId>::empty());
    while i < ids.len()
        invariant
            i <= ids.len(),
            out@ == start + wire_public_id_items(ids@.take(i as int)),
        decreases ids.len() - i,
    {
        write_public_id(out, &ids[i]);
        proof {
            let done = ids@.take(i + 1);
            assert(done.drop_last() =~= ids@.take(i as int));
            assert(done.last() == ids@[i as int]);
            assert(out@ =~= start + wire_public_id_items(done));
        }
        i += 1;
    }
    assert(ids@.take(ids.len() as int) =~= ids@);
    assert(out@ =~= old(out)@ + wire_public_ids(ids@));
}

fn write_authority(out: &mut Vec<u8>, authority: &Authority)
    ensures
        final(out)@ == old(out)@ + wire_authority(*authority),
{
    match authority {
        Authority::Client { client_key, proxy_node_name } => {
            out.push(0);
            append_bytes(out, client_key.as_slice());
            append_bytes(out, proxy_node_name.0.as_slice());
        },
        Authority::ManagedNode(name) => {
            out.push(1);
            append_bytes(out, name.0.as_slice());
        },
        Authority::NodeManager(name) => {
            out.push(2);
            append_bytes(out, name.0.as_slice());
        },
        Authority::NaeManager(name) => {
            out.push(3);
            append_bytes(out, name.0.as_slice());
        },
    }
    assert(out@ =~= old(out)@ + wire_authority(*authority));
}

fn write_data_kind(out: &mut Vec<u8>, kind: &DataKind)
    ensures
        final(out)@ == old(out)@ + wire_data_kind(*kind),
{
    match kind {
        DataKind::Immutable => out.push(0),
        DataKind::Structured => out.push(1),
        DataKind::Plain => out.push(2),
    }
    assert(out@ =~= old(out)@ + wire_data_kind(*kind));
}

fn write_data(out: &mut Vec<u8>, data: &Data)
    ensures
        final(out)@ == old(out)@ + wire_data(*data),
{
    write_data_kind(out, &data.kind);
    append_bytes(out, data.name.0.as_slice());
    write_blob(out, data.payload.as_slice());
    assert(out@ =~= old(out)@ + wire_data(*data));
}

fn write_data_request(out: &mut Vec<u8>, request: &DataRequest)
    ensures
        final(out)@ == old(out)@ + wire_data_request(*request),
{
    write_data_kind(out, &request.kind);
    append_bytes(out, request.name.0.as_slice());
    assert(out@ =~= old(out)@ + wire_data_request(*request));
}

fn write_sealed(out: &mut Vec<u8>, tag: u8, sealed: &Vec<u8>, nonce: &[u8; 24])
    ensures
        final(out)@ == old(out)@ + (seq![tag] + wire_blob(sealed@) + nonce@),
{
    out.push(tag);
    write_blob(out, sealed.as_slice());
    append_bytes(out, nonce.as_slice());
    assert(out@ =~= old(out)@ + (seq![tag] + wire_blob(sealed@) + nonce@));
}

fn write_stored(out: &mut Vec<u8>, tag: u8, data: &Data, id: &MessageId)
    ensures
        final(out)@ == old(out)@ + (seq![tag] + wire_data(*data) + id.0@),
{
    out.push(tag);
    write_data(out, data);
    append_bytes(out, id.0.as_slice());
    assert(out@ =~= old(out)@ + (seq![tag] + wire_data(*data) + id.0@));
}

fn write_tagged_id(out: &mut Vec<u8>, tag: u8, id: &MessageId)
    ensures
        final(out)@ == old(out)@ + (seq![tag] + id.0@),
{
    out.push(tag);
    append_bytes(out, id.0.as_slice());
    assert(out@ =~= old(out)@ + (seq![tag] + id.0@));
}

fn write_tagged_public_id(out: &mut Vec<u8>, tag: u8, id: &PublicId)
    ensures
        final(out)@ == old(out)@ + (seq![tag] + wire_public_id(*id)),
{
    out.push(tag);
    write_public_id(out, id);
    assert(out@ =~= old(out)@ + (seq![tag] + wire_public_id(*id)));
}

fn write_failure(
    out: &mut Vec<u8>,
    tag: u8,
    id: &MessageId,
    request: &Vec<u8>,
    indicator: &Vec<u8>,
)
    ensures
        final(out)@ == old(out)@ + (seq![tag] + wire_failure(*id, request@, indicator@)),
{
    out.push(tag);
    append_bytes(out, id.0.as_slice());
    write_blob(out, request.as_slice());
    write_blob(out, indicator.as_slice());
    assert(out@ =~= old(out)@ + (seq![tag] + wire_failure(*id, request@, indicator@)));
}

fn write_request_content(out: &mut Vec<u8>, content: &RequestContent)
    ensures
        final(out)@ == old(out)@ + wire_request_content(*content),
{
    match content {
        RequestContent::GetNetworkName { current_id } => write_tagged_public_id(
            out,
            0,
            current_id,
        ),
        RequestContent::ExpectCloseNode { expect_id } => write_tagged_public_id(out, 1, expect_id),
        RequestContent::GetCloseGroup => out.push(2),
        RequestContent::Connect => out.push(3),
        RequestContent::Endpoints { encrypted_endpoints, nonce_bytes } => write_sealed(
            out,
            4,
            encrypted_endpoints,
            nonce_bytes,
        ),
        RequestContent::GetPublicId => out.push(5),
        RequestContent::GetPublicIdWithEndpoints { encrypted_endpoints, nonce_bytes } =>
            write_sealed(out, 6, encrypted_endpoints, nonce_bytes),
        RequestContent::Get(request, id) => {
            out.push(7);
            write_data_request(out, request);
            append_bytes(out, id.0.as_slice());
        },
        RequestContent::Put(data, id) => write_stored(out, 8, data, id),
        RequestContent::Post(data, id) => write_stored(out, 9, data, id),
        RequestContent::Delete(data, id) => write_stored(out, 10, data, id),
        RequestContent::Refresh(payload) => {
            out.push(11);
            write_blob(out, payload.as_slice());
        },
    }
    assert(out@ =~= old(out)@ + wire_request_content(*content));
}

fn write_response_content(out: &mut Vec<u8>, content: &ResponseContent)
    ensures
        final(out)@ == old(out)@ + wire_response_content(*content),
{
    match content {
        ResponseContent::GetNetworkName { relocated_id } => write_tagged_public_id(
            out,
            0,
            relocated_id,
        ),
        ResponseContent::GetPublicId { public_id } => write_tagged_public_id(out, 1, public_id),
        ResponseContent::GetPublicIdWithEndpoints {
            public_id,
            encrypted_endpoints,
            nonce_bytes,
        } => {
            write_tagged_public_id(out, 2, public_id);
            write_blob(out, encrypted_endpoints.as_slice());
            append_bytes(out, nonce_bytes.as_slice());
        },
        ResponseContent::GetCloseGroup { close_group_ids } => {
            out.push(3);
            write_public_ids(out, close_group_ids);
        },
        ResponseContent::GetSuccess(data, id) => write_stored(out, 4, data, id),
        ResponseContent::PutSuccess(id) => write_tagged_id(out, 5, id),
        ResponseContent::PostSuccess(id) => write_tagged_id(out, 6, id),
        ResponseContent::DeleteSuccess(id) => write_tagged_id(out, 7, id),
        ResponseContent::GetFailure { id, request, external_error_indicator } => write_failure(
            out,
            8,
            id,
            request,
            external_error_indicator,
        ),
        ResponseContent::PutFailure { id, request, external_error_indicator } => write_failure(
            out,
            9,
            id,
            request,
            external_error_indicator,
        ),
        ResponseContent::PostFailure { id, request, external_error_indicator } => write_failure(
            out,
            10,
            id,
            request,
            external_error_indicator,
        ),
        ResponseContent::DeleteFailure { id, request, external_error_indicator } =>
            write_failure(out, 11, id, request, external_error_indicator),
    }
    assert(out@ =~= old(out)@ + wire_response_content(*content));
}

fn write_routing_message(out: &mut Vec<u8>, message: &RoutingMessage)
    ensures
        final(out)@ == old(out)@ + wire_routing_message(*message),
{
    match message {
        RoutingMessage::Request(request) => {
            out.push(0);
            write_authority(out, &request.src);
            write_authority(out, &request.dst);
            write_request_content(out, &request.content);
        },
        RoutingMessage::Response(response) => {
            out.push(1);
            write_authority(out, &response.src);
            write_authority(out, &response.dst);
            write_response_content(out, &response.content);
        },
    }
    assert(out@ =~= old(out)@ + wire_routing_message(*message));
}

fn write_signed_message(out: &mut Vec<u8>, message: &SignedMessage)
    ensures
        final(out)@ == old(out)@ + wire_signed_message(*message),
{
    write_routing_message(out, &message.content);
    write_public_id(out, &message.public_id);
    append_bytes(out, message.signature.as_slice());
    assert(out@ =~= old(out)@ + wire_signed_message(*message));
}

fn write_hop_message(out: &mut Vec<u8>, message: &HopMessage)
    ensures
        final(out)@ == old(out)@ + wire_hop_message(*message),
{
    write_signed_message(out, &message.content);
    append_bytes(out, message.name.0.as_slice());
    append_bytes(out, message.signature.as_slice());
    assert(out@ =~= old(out)@ + wire_hop_message(*message));
}

fn write_direct_message(out: &mut Vec<u8>, message: &DirectMessage)
    ensures
        final(out)@ == old(out)@ + wire_direct_message(*message),
{
    match message {
        DirectMessage::BootstrapIdentify { public_id, current_quorum_size } => {
            write_tagged_public_id(out, 0, public_id);
            write_u64(out, *current_quorum_size);
        },
        DirectMessage::BootstrapDeny => out.push(1),
        DirectMessage::ClientIdentify { serialised_public_id, signature, client_restriction } => {
            out.push(2);
            write_blob(out, serialised_public_id.as_slice());
            append_bytes(out, signature.as_slice());
            if *client_restriction {
                out.push(1);
            } else {
                out.push(0);
            }
        },
        DirectMessage::NodeIdentify { serialised_public_id, signature } => {
            out.push(3);
            write_blob(out, serialised_public_id.as_slice());
            append_bytes(out, signature.as_slice());
        },
    }
    assert(out@ =~= old(out)@ + wire_direct_message(*message));
}

/// The canonical bytes of a public id.
pub fn encode_public_id(id: &PublicId) -> (bytes: Vec<u8>)
    ensures
        bytes@ == wire_public_id(*id),
{
    let mut out: Vec<u8> = Vec::new();
    write_public_id(&mut out, id);
    assert(out@ =~= wire_public_id(*id));
    out
}

/// The public id that `bytes` are the canonical bytes of. Fails with
/// `SerialisationError` where there is none, which is where `bytes` are not
/// 128 bytes.
pub fn decode_public_id(bytes: &[u8]) -> (result: Result<PublicId, RoutingError>)
    ensures
        match result {
            Ok(id) => wire_public_id(id) == bytes@,
            Err(error) => error == RoutingError::SerialisationError && bytes@.len() != 128
                && forall|id: PublicId| wire_public_id(id) != bytes@,
        },
{
    broadcast use vstd::array::group_array_axioms;

    if bytes.len() != 128 {
        assert forall|id: PublicId| wire_public_id(id) != bytes@ by {
            assert(wire_public_id(id).len() == 128);
        }
        return Err(RoutingError::SerialisationError);
    }
    let id = PublicId {
        public_encrypt_key: take_32(bytes, 0),
        public_sign_key: take_32(bytes, 32),
        name: XorName(take_64(bytes, 64)),
    };
    assert(wire_public_id(id) =~= bytes@);
    Ok(id)
}

/// Two public ids with the same canonical bytes are the same.
pub proof fn lemma_public_id_wire_injective(a: PublicId, b: PublicId)
    requires
        wire_public_id(a) == wire_public_id(b),
    ensures
        a == b,
{
    broadcast use vstd::array::group_array_axioms;

    let wa = wire_public_id(a);
    let wb = wire_public_id(b);
    assert(a.public_encrypt_key@ =~= wa.subrange(0, 32));
    assert(b.public_encrypt_key@ =~= wb.subrange(0, 32));
    assert(a.public_sign_key@ =~= wa.subrange(32, 64));
    assert(b.public_sign_key@ =~= wb.subrange(32, 64));
    assert(a.name@ =~= wa.subrange(64, 128));
    assert(b.name@ =~= wb.subrange(64, 128));
    assert(a.public_encrypt_key =~= b.public_encrypt_key);
    assert(a.public_sign_key =~= b.public_sign_key);
    assert(a.name.0 =~= b.name.0);
}

/// The canonical bytes of a routed message: what its sender signs.
pub fn encode_routing_message(message: &RoutingMessage) -> (bytes: Vec<u8>)
    ensures
        bytes@ == wire_routing_message(*message),
{
    let mut out: Vec<u8> = Vec::new();
    write_routing_message(&mut out, message);
    assert(out@ =~= wire_routing_message(*message));
    out
}

/// The canonical bytes of a signed message: what each hop signs.
pub fn encode_signed_message(message: &SignedMessage) -> (bytes: Vec<u8>)
    ensures
        bytes@ == wire_signed_message(*message),
{
    let mut out: Vec<u8> = Vec::new();
    write_signed_message(&mut out, message);
    assert(out@ =~= wire_signed_message(*message));
    out
}

/// The canonical bytes of a message.
pub fn encode(message: &Message) -> (bytes: Vec<u8>)
    ensures
        bytes@ == wire_message(*message),
{
    let mut out: Vec<u8> = Vec::new();
    match message {
        Message::HopMessage(hop) => {
            out.push(0);
            write_hop_message(&mut out, hop);
        },
        Message::DirectMessage(direct) => {
            out.push(1);
            write_direct_message(&mut out, direct);
        },
    }
    assert(out@ =~= wire_message(*message));
    out
}

} // verus!
