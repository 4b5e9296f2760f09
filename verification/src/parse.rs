//! Reading messages back from their canonical binary form.
//!
//! For each part of a message there is a function that tells, from the
//! bytes alone, how many of them a well-formed encoding of that part takes
//! up, and a reader that follows it. An encoding is always recognised as
//! well formed, and what a reader makes of well-formed bytes encodes to
//! those bytes again.

use crate::authority::Authority;
use crate::bytes::{copy_range, take_24, take_32, take_64};
use crate::data::{Data, DataKind, DataRequest, MessageId};
use crate::error::RoutingError;
use crate::id::PublicId;
use crate::messages::{
    DirectMessage, HopMessage, Message, RequestContent, RequestMessage, ResponseContent,
    ResponseMessage, RoutingMessage, SignedMessage,
};
use crate::names::XorName;
use crate::wire::{
    wire_authority, wire_blob, wire_bool, wire_data, wire_data_kind, wire_direct_message,
    wire_failure, wire_hop_message, wire_message, wire_public_id, wire_public_id_items,
    wire_public_ids, wire_request_content, wire_response_content, wire_routing_message,
    wire_signed_message, wire_u64,
};
use vstd::bytes::{lemma_auto_spec_u64_to_from_le_bytes, spec_u64_from_le_bytes, u64_from_le_bytes};
use vstd::prelude::*;
use vstd::slice::slice_subrange;

verus! {

/// The number that the first eight bytes spell, least significant first.
pub open spec fn length_at(s: Seq<u8>) -> nat {
    spec_u64_from_le_bytes(s.take(8)) as nat
}

/// The length of a byte string behind its length at the start of `s`.
pub open spec fn span_blob(s: Seq<u8>) -> Option<nat> {
    if s.len() >= 8 && length_at(s) <= s.len() - 8 {
        Some(8 + length_at(s))
    } else {
        None
    }
}

/// The length of a list of public ids behind its count at the start of
/// `s`.
pub open spec fn span_public_ids(s: Seq<u8>) -> Option<nat> {
    if s.len() >= 8 && length_at(s) * 128 <= s.len() - 8 {
        Some(8 + length_at(s) * 128)
    } else {
        None
    }
}

/// The length of an authority at the start of `s`.
pub open spec fn span_authority(s: Seq<u8>) -> Option<nat> {
    if s.len() >= 97 && s[0] == 0 {
        Some(97)
    } else if s.len() >= 65 && 1 <= s[0] <= 3 {
        Some(65)
    } else {
        None
    }
}

/// The length of a piece of data at the start of `s`.
pub open spec fn span_data(s: Seq<u8>) -> Option<nat> {
    if s.len() >= 65 && s[0] <= 2 {
        match span_blob(s.skip(65)) {
            Some(n) => Some(65 + n),
            None => None,
        }
    } else {
        None
    }
}

/// A number written and read back is the same number, and so are eight
/// bytes read and written back.
pub proof fn lemma_length_round_trip(n: u64, rest: Seq<u8>)
    ensures
        wire_u64(n).len() == 8,
        length_at(wire_u64(n) + rest) == n,
{
    lemma_auto_spec_u64_to_from_le_bytes();
    assert((wire_u64(n) + rest).take(8) =~= wire_u64(n));
}

/// The encoding of a byte string is recognised at the start of any bytes
/// that begin with it.
pub proof fn lemma_span_blob(bytes: Seq<u8>, rest: Seq<u8>)
    requires
        bytes.len() <= u64::MAX,
    ensures
        span_blob(wire_blob(bytes) + rest) == Some(wire_blob(bytes).len()),
        wire_blob(bytes).len() == 8 + bytes.len(),
{
    lemma_length_round_trip(bytes.len() as u64, bytes + rest);
    assert(wire_blob(bytes) + rest =~= wire_u64(bytes.len() as u64) + (bytes + rest));
}

/// A public id takes 128 bytes.
pub proof fn lemma_public_id_len(id: PublicId)
    ensures
        wire_public_id(id).len() == 128,
{
    broadcast use vstd::array::group_array_axioms;

}

/// A list of public ids takes 128 bytes for each.
pub proof fn lemma_public_id_items_len(ids: Seq<PublicId>)
    ensures
        wire_public_id_items(ids).len() == 128 * ids.len(),
    decreases ids.len(),
{
    if ids.len() > 0 {
        lemma_public_id_items_len(ids.drop_last());
        lemma_public_id_len(ids.last());
    }
}

/// The encoding of a list of public ids is recognised at the start of any
/// bytes that begin with it.
pub proof fn lemma_span_public_ids(ids: Seq<PublicId>, rest: Seq<u8>)
    requires
        ids.len() <= u64::MAX,
    ensures
        span_public_ids(wire_public_ids(ids) + rest) == Some(wire_public_ids(ids).len()),
{
    lemma_public_id_items_len(ids);
    lemma_length_round_trip(ids.len() as u64, wire_public_id_items(ids) + rest);
    assert(wire_public_ids(ids) + rest =~= wire_u64(ids.len() as u64) + (wire_public_id_items(
        ids,
    ) + rest));
}

/// The encoding of an authority is recognised at the start of any bytes
/// that begin with it.
pub proof fn lemma_span_authority(authority: Authority, rest: Seq<u8>)
    ensures
        span_authority(wire_authority(authority) + rest) == Some(wire_authority(authority).len()),
{
    broadcast use vstd::array::group_array_axioms;

    let s = wire_authority(authority) + rest;
    match authority {
        Authority::Client { client_key, proxy_node_name } => {
            assert(wire_authority(authority).len() == 97);
            assert(s[0] == 0);
        },
        Authority::ManagedNode(name) => {
            assert(wire_authority(authority).len() == 65);
            assert(s[0] == 1);
        },
        Authority::NodeManager(name) => {
            assert(wire_authority(authority).len() == 65);
            assert(s[0] == 2);
        },
        Authority::NaeManager(name) => {
            assert(wire_authority(authority).len() == 65);
            assert(s[0] == 3);
        },
    }
}

/// The encoding of a piece of data is recognised at the start of any bytes
/// that begin with it.
pub proof fn lemma_span_data(data: Data, rest: Seq<u8>)
    ensures
        span_data(wire_data(data) + rest) == Some(wire_data(data).len()),
{
    broadcast use vstd::array::group_array_axioms;
    broadcast use vstd::std_specs::vec::axiom_spec_len;

    let s = wire_data(data) + rest;
    assert(data.payload@.len() == data.payload.len());
    lemma_span_blob(data.payload@, rest);
    assert(s[0] == wire_data_kind(data.kind)[0]);
    assert(s.skip(65) =~= wire_blob(data.payload@) + rest);
}

/// The number written at `pos`.
fn read_u64(bytes: &[u8], pos: usize) -> (n: u64)
    requires
        pos + 8 <= bytes@.len(),
    ensures
        n == length_at(bytes@.skip(pos as int)),
        bytes@.subrange(pos as int, pos + 8) == wire_u64(n),
{
    let len: usize = bytes.len();
    let n = u64_from_le_bytes(slice_subrange(bytes, pos, pos + 8));
    proof {
        lemma_auto_spec_u64_to_from_le_bytes();
        assert(bytes@.skip(pos as int).take(8) =~= bytes@.subrange(pos as int, pos + 8));
    }
    n
}

/// The byte string behind its length at `pos`, and where it ends.
fn read_blob(bytes: &[u8], pos: usize) -> (found: Option<(Vec<u8>, usize)>)
    requires
        pos <= bytes@.len(),
    ensures
        match found {
            Some((blob, end)) => {
                &&& pos <= end <= bytes@.len()
                &&& bytes@.subrange(pos as int, end as int) == wire_blob(blob@)
                &&& span_blob(bytes@.skip(pos as int)) == Some((end - pos) as nat)
            },
            None => span_blob(bytes@.skip(pos as int)) is None,
        },
{
    let len: usize = bytes.len();
    if len - pos < 8 {
        return None;
    }
    let n = read_u64(bytes, pos);
    if n > (len - pos - 8) as u64 {
        return None;
    }
    let start: usize = pos + 8;
    let end: usize = start + n as usize;
    let blob = copy_range(bytes, start, end);
    assert(bytes@.subrange(pos as int, end as int) =~= bytes@.subrange(pos as int, start as int)
        + bytes@.subrange(start as int, end as int));
    Some((blob, end))
}

/// The public id at `pos`.
fn read_public_id(bytes: &[u8], pos: usize) -> (id: PublicId)
    requires
        pos + 128 <= bytes@.len(),
    ensures
        bytes@.subrange(pos as int, pos + 128) == wire_public_id(id),
{
    let len: usize = bytes.len();
    let id = PublicId {
        public_encrypt_key: take_32(bytes, pos),
        public_sign_key: take_32(bytes, pos + 32),
        name: XorName(take_64(bytes, pos + 64)),
    };
    assert(bytes@.subrange(pos as int, pos + 128) =~= wire_public_id(id));
    id
}

/// The list of public ids behind its count at `pos`, and where it ends.
fn read_public_ids(bytes: &[u8], pos: usize) -> (found: Option<(Vec<PublicId>, usize)>)
    requires
        pos <= bytes@.len(),
    ensures
        match found {
            Some((ids, end)) => {
                &&& pos <= end <= bytes@.len()
                &&& bytes@.subrange(pos as int, end as int) == wire_public_ids(ids@)
                &&& span_public_ids(bytes@.skip(pos as int)) == Some((end - pos) as nat)
            },
            None => span_public_ids(bytes@.skip(pos as int)) is None,
        },
{
    let len: usize = bytes.len();
    if len - pos < 8 {
        return None;
    }
    let n = read_u64(bytes, pos);
    if n > ((len - pos - 8) / 128) as u64 {
        return None;
    }
    let count: usize = n as usize;
    let start: usize = pos + 8;
    let mut ids: Vec<PublicId> = Vec::new();
    let mut i: usize = 0;
    assert(bytes@.subrange(start as int, start as int) =~= Seq::<u8>::empty());
    while i < count
        invariant
            i <= count,
            start + count * 128 <= len,
            len == bytes@.len(),
            ids@.len() == i,
            bytes@.subrange(start as int, start + i * 128) == wire_public_id_items(ids@),
        decreases count - i,
    {
        let id = read_public_id(bytes, start + i * 128);
        let ghost before = ids@;
        ids.push(id);
        proof {
            assert(ids@.drop_last() =~= before);
            assert(bytes@.subrange(start as int, start + (i + 1) * 128) =~= bytes@.subrange(
                start as int,
                start + i * 128,
            ) + bytes@.subrange(start + i * 128, start + i * 128 + 128));
        }
        i += 1;
    }
    let end: usize = start + count * 128;
    assert(bytes@.subrange(pos as int, end as int) =~= bytes@.subrange(pos as int, start as int)
        + bytes@.subrange(start as int, end as int));
    Some((ids, end))
}

/// The authority at `pos`, and where it ends.
fn read_authority(bytes: &[u8], pos: usize) -> (found: Option<(Authority, usize)>)
    requires
        pos <= bytes@.len(),
    ensures
        match found {
            Some((authority, end)) => {
                &&& pos <= end <= bytes@.len()
                &&& bytes@.subrange(pos as int, end as int) == wire_authority(authority)
                &&& span_authority(bytes@.skip(pos as int)) == Some((end - pos) as nat)
            },
            None => span_authority(bytes@.skip(pos as int)) is None,
        },
{
    let len: usize = bytes.len();
    if len - pos < 65 {
        return None;
    }
    let tag: u8 = bytes[pos];
    assert(bytes@.skip(pos as int)[0] == tag);
    if tag == 0 {
        if len - pos < 97 {
            return None;
        }
        let authority = Authority::Client {
            client_key: take_32(bytes, pos + 1),
            proxy_node_name: XorName(take_64(bytes, pos + 33)),
        };
        assert(bytes@.subrange(pos as int, pos + 97) =~= wire_authority(authority));
        return Some((authority, pos + 97));
    }
    if tag > 3 {
        return None;
    }
    let name = XorName(take_64(bytes, pos + 1));
    let authority = if tag == 1 {
        Authority::ManagedNode(name)
    } else if tag == 2 {
        Authority::NodeManager(name)
    } else {
        Authority::NaeManager(name)
    };
    assert(bytes@.subrange(pos as int, pos + 65) =~= wire_authority(authority));
    Some((authority, pos + 65))
}

/// The kind of data that the byte `tag` stands for.
fn read_data_kind(tag: u8) -> (kind: DataKind)
    requires
        tag <= 2,
    ensures
        wire_data_kind(kind) == seq![tag],
{
    if tag == 0 {
        DataKind::Immutable
    } else if tag == 1 {
        DataKind::Structured
    } else {
        DataKind::Plain
    }
}

/// The piece of data at `pos`, and where it ends.
fn read_data(bytes: &[u8], pos: usize) -> (found: Option<(Data, usize)>)
    requires
        pos <= bytes@.len(),
    ensures
        match found {
            Some((data, end)) => {
                &&& pos <= end <= bytes@.len()
                &&& bytes@.subrange(pos as int, end as int) == wire_data(data)
                &&& span_data(bytes@.skip(pos as int)) == Some((end - pos) as nat)
            },
            None => span_data(bytes@.skip(pos as int)) is None,
        },
{
    let len: usize = bytes.len();
    if len - pos < 65 {
        return None;
    }
    let tag: u8 = bytes[pos];
    assert(bytes@.skip(pos as int)[0] == tag);
    if tag > 2 {
        return None;
    }
    assert(bytes@.skip(pos as int).skip(65) =~= bytes@.skip(pos + 65));
    let kind = read_data_kind(tag);
    let name = XorName(take_64(bytes, pos + 1));
    match read_blob(bytes, pos + 65) {
        Some((payload, end)) => {
            let data = Data { kind, name, payload };
            assert(bytes@.subrange(pos as int, end as int) =~= seq![tag] + bytes@.subrange(
                pos + 1,
                pos + 65,
            ) + bytes@.subrange(pos + 65, end as int));
            Some((data, end))
        },
        None => None,
    }
}

/// The length of a part that begins `lead` bytes into bytes of length
/// `len`, takes the length `inner` and is followed by `tail` bytes.
pub open spec fn span_between(inner: Option<nat>, len: nat, lead: nat, tail: nat) -> Option<nat> {
    match inner {
        Some(n) => if len >= lead + n + tail {
            Some(lead + n + tail)
        } else {
            None
        },
        None => None,
    }
}

/// The length of what a request asks for at the start of `s`.
#[verifier::opaque]
pub open spec fn span_request_content(s: Seq<u8>) -> Option<nat> {
    if s.len() == 0 {
        None
    } else if s[0] == 0 || s[0] == 1 {
        if s.len() >= 129 {
            Some(129)
        } else {
            None
        }
    } else if s[0] == 2 || s[0] == 3 || s[0] == 5 {
        Some(1)
    } else if s[0] == 4 || s[0] == 6 {
        span_between(span_blob(s.skip(1)), s.len(), 1, 24)
    } else if s[0] == 7 {
        if s.len() >= 130 && s[1] <= 2 {
            Some(130)
        } else {
            None
        }
    } else if 8 <= s[0] <= 10 {
        span_between(span_data(s.skip(1)), s.len(), 1, 64)
    } else if s[0] == 11 {
        span_between(span_blob(s.skip(1)), s.len(), 1, 0)
    } else {
        None
    }
}

/// The length of two byte strings, each behind its length, at the start
/// of `s`.
pub open spec fn span_two_blobs(s: Seq<u8>) -> Option<nat> {
    match span_blob(s) {
        Some(a) => match span_blob(s.skip(a as int)) {
            Some(b) => Some(a + b),
            None => None,
        },
        None => None,
    }
}

/// The length of what a response answers with at the start of `s`.
#[verifier::opaque]
pub open spec fn span_response_content(s: Seq<u8>) -> Option<nat> {
    if s.len() == 0 {
        None
    } else if s[0] == 0 || s[0] == 1 {
        if s.len() >= 129 {
            Some(129)
        } else {
            None
        }
    } else if s[0] == 2 {
        if s.len() >= 129 {
            span_between(span_blob(s.skip(129)), s.len(), 129, 24)
        } else {
            None
        }
    } else if s[0] == 3 {
        span_between(span_public_ids(s.skip(1)), s.len(), 1, 0)
    } else if s[0] == 4 {
        span_between(span_data(s.skip(1)), s.len(), 1, 64)
    } else if 5 <= s[0] <= 7 {
        if s.len() >= 65 {
            Some(65)
        } else {
            None
        }
    } else if 8 <= s[0] <= 11 {
        if s.len() >= 65 {
            span_between(span_two_blobs(s.skip(65)), s.len(), 65, 0)
        } else {
            None
        }
    } else {
        None
    }
}

/// The length of a routed message at the start of `s`.
pub open spec fn span_routing_message(s: Seq<u8>) -> Option<nat> {
    if s.len() >= 1 && s[0] <= 1 {
        match span_authority(s.skip(1)) {
            Some(a) => match span_authority(s.skip((1 + a) as int)) {
                Some(b) => match if s[0] == 0 {
                    span_request_content(s.skip((1 + a + b) as int))
                } else {
                    span_response_content(s.skip((1 + a + b) as int))
                } {
                    Some(c) => Some(1 + a + b + c),
                    None => None,
                },
                None => None,
            },
            None => None,
        }
    } else {
        None
    }
}

/// The length of a signed message at the start of `s`.
pub open spec fn span_signed_message(s: Seq<u8>) -> Option<nat> {
    span_between(span_routing_message(s), s.len(), 0, 192)
}

/// The length of a hop message at the start of `s`.
pub open spec fn span_hop_message(s: Seq<u8>) -> Option<nat> {
    span_between(span_signed_message(s), s.len(), 0, 128)
}

/// The length of a direct message at the start of `s`.
pub open spec fn span_direct_message(s: Seq<u8>) -> Option<nat> {
    if s.len() == 0 {
        None
    } else if s[0] == 0 {
        if s.len() >= 137 {
            Some(137)
        } else {
            None
        }
    } else if s[0] == 1 {
        Some(1)
    } else if s[0] == 2 {
        match span_between(span_blob(s.skip(1)), s.len(), 1, 65) {
            Some(n) => if s[n - 1] <= 1 {
                Some(n)
            } else {
                None
            },
            None => None,
        }
    } else if s[0] == 3 {
        span_between(span_blob(s.skip(1)), s.len(), 1, 64)
    } else {
        None
    }
}

/// The length of a message at the start of `s`.
pub open spec fn span_message(s: Seq<u8>) -> Option<nat> {
    if s.len() == 0 {
        None
    } else if s[0] == 0 {
        span_between(span_hop_message(s.skip(1)), s.len(), 1, 0)
    } else if s[0] == 1 {
        span_between(span_direct_message(s.skip(1)), s.len(), 1, 0)
    } else {
        None
    }
}

/// The encoding of what a request asks for is recognised at the start of
/// any bytes that begin with it.
pub proof fn lemma_span_request_content(content: RequestContent, rest: Seq<u8>)
    ensures
        span_request_content(wire_request_content(content) + rest) == Some(
            wire_request_content(content).len(),
        ),
{
    broadcast use vstd::array::group_array_axioms;

    reveal(span_request_content);
    let w = wire_request_content(content);
    let s = w + rest;
    match content {
        RequestContent::GetNetworkName { current_id } => {
            lemma_public_id_len(current_id);
            assert(s[0] == 0);
        },
        RequestContent::ExpectCloseNode { expect_id } => {
            lemma_public_id_len(expect_id);
            assert(s[0] == 1);
        },
        RequestContent::GetCloseGroup => {
            assert(s[0] == 2);
        },
        RequestContent::Connect => {
            assert(s[0] == 3);
        },
        RequestContent::Endpoints { encrypted_endpoints, nonce_bytes } => {
            assert(encrypted_endpoints@.len() == encrypted_endpoints.len());
            lemma_span_blob(encrypted_endpoints@, nonce_bytes@ + rest);
            assert(s[0] == 4);
            assert(s.skip(1) =~= wire_blob(encrypted_endpoints@) + (nonce_bytes@ + rest));
        },
        RequestContent::GetPublicId => {
            assert(s[0] == 5);
        },
        RequestContent::GetPublicIdWithEndpoints { encrypted_endpoints, nonce_bytes } => {
            assert(encrypted_endpoints@.len() == encrypted_endpoints.len());
            lemma_span_blob(encrypted_endpoints@, nonce_bytes@ + rest);
            assert(s[0] == 6);
            assert(s.skip(1) =~= wire_blob(encrypted_endpoints@) + (nonce_bytes@ + rest));
        },
        RequestContent::Get(request, id) => {
            assert(s[0] == 7);
            assert(s[1] == wire_data_kind(request.kind)[0]);
        },
        RequestContent::Put(data, id) => {
            lemma_span_data(data, id.0@ + rest);
            assert(s[0] == 8);
            assert(s.skip(1) =~= wire_data(data) + (id.0@ + rest));
        },
        RequestContent::Post(data, id) => {
            lemma_span_data(data, id.0@ + rest);
            assert(s[0] == 9);
            assert(s.skip(1) =~= wire_data(data) + (id.0@ + rest));
        },
        RequestContent::Delete(data, id) => {
            lemma_span_data(data, id.0@ + rest);
            assert(s[0] == 10);
            assert(s.skip(1) =~= wire_data(data) + (id.0@ + rest));
        },
        RequestContent::Refresh(payload) => {
            assert(payload@.len() == payload.len());
            lemma_span_blob(payload@, rest);
            assert(s[0] == 11);
            assert(s.skip(1) =~= wire_blob(payload@) + rest);
        },
    }
}

/// The encoding of two byte strings is recognised at the start of any
/// bytes that begin with it.
pub proof fn lemma_span_two_blobs(first: Seq<u8>, second: Seq<u8>, rest: Seq<u8>)
    requires
        first.len() <= u64::MAX,
        second.len() <= u64::MAX,
    ensures
        span_two_blobs(wire_blob(first) + wire_blob(second) + rest) == Some(
            wire_blob(first).len() + wire_blob(second).len(),
        ),
{
    let s = wire_blob(first) + wire_blob(second) + rest;
    lemma_span_blob(first, wire_blob(second) + rest);
    lemma_span_blob(second, rest);
    assert(s =~= wire_blob(first) + (wire_blob(second) + rest));
    assert(s.skip(wire_blob(first).len() as int) =~= wire_blob(second) + rest);
}

/// The encoding of what a response answers with is recognised at the
/// start of any bytes that begin with it.
pub proof fn lemma_span_response_content(content: ResponseContent, rest: Seq<u8>)
    ensures
        span_response_content(wire_response_content(content) + rest) == Some(
            wire_response_content(content).len(),
        ),
{
    broadcast use vstd::array::group_array_axioms;

    reveal(span_response_content);
    let w = wire_response_content(content);
    let s = w + rest;
    match content {
        ResponseContent::GetNetworkName { relocated_id } => {
            lemma_public_id_len(relocated_id);
            assert(s[0] == 0);
        },
        ResponseContent::GetPublicId { public_id } => {
            lemma_public_id_len(public_id);
            assert(s[0] == 1);
        },
        ResponseContent::GetPublicIdWithEndpoints {
            public_id,
            encrypted_endpoints,
            nonce_bytes,
        } => {
            lemma_public_id_len(public_id);
            assert(encrypted_endpoints@.len() == encrypted_endpoints.len());
            lemma_span_blob(encrypted_endpoints@, nonce_bytes@ + rest);
            assert(s[0] == 2);
            assert(s.skip(129) =~= wire_blob(encrypted_endpoints@) + (nonce_bytes@ + rest));
        },
        ResponseContent::GetCloseGroup { close_group_ids } => {
            assert(close_group_ids@.len() == close_group_ids.len());
            lemma_span_public_ids(close_group_ids@, rest);
            assert(s[0] == 3);
            assert(s.skip(1) =~= wire_public_ids(close_group_ids@) + rest);
        },
        ResponseContent::GetSuccess(data, id) => {
            lemma_span_data(data, id.0@ + rest);
            assert(s[0] == 4);
            assert(s.skip(1) =~= wire_data(data) + (id.0@ + rest));
        },
        ResponseContent::PutSuccess(id) => {
            assert(s[0] == 5);
        },
        ResponseContent::PostSuccess(id) => {
            assert(s[0] == 6);
        },
        ResponseContent::DeleteSuccess(id) => {
            assert(s[0] == 7);
        },
        ResponseContent::GetFailure { id, request, external_error_indicator } => {
            assert(request@.len() == request.len());
            assert(external_error_indicator@.len() == external_error_indicator.len());
            lemma_span_two_blobs(request@, external_error_indicator@, rest);
            assert(s[0] == 8);
            assert(s.skip(65) =~= wire_blob(request@) + wire_blob(external_error_indicator@)
                + rest);
        },
        ResponseContent::PutFailure { id, request, external_error_indicator } => {
            assert(request@.len() == request.len());
            assert(external_error_indicator@.len() == external_error_indicator.len());
            lemma_span_two_blobs(request@, external_error_indicator@, rest);
            assert(s[0] == 9);
            assert(s.skip(65) =~= wire_blob(request@) + wire_blob(external_error_indicator@)
                + rest);
        },
        ResponseContent::PostFailure { id, request, external_error_indicator } => {
            assert(request@.len() == request.len());
            assert(external_error_indicator@.len() == external_error_indicator.len());
            lemma_span_two_blobs(request@, external_error_indicator@, rest);
            assert(s[0] == 10);
            assert(s.skip(65) =~= wire_blob(request@) + wire_blob(external_error_indicator@)
                + rest);
        },
        ResponseContent::DeleteFailure { id, request, external_error_indicator } => {
            assert(request@.len() == request.len());
            assert(external_error_indicator@.len() == external_error_indicator.len());
            lemma_span_two_blobs(request@, external_error_indicator@, rest);
            assert(s[0] == 11);
            assert(s.skip(65) =~= wire_blob(request@) + wire_blob(external_error_indicator@)
                + rest);
        },
    }
}

/// The encoding of a routed message is recognised at the start of any
/// bytes that begin with it.
pub proof fn lemma_span_routing_message(message: RoutingMessage, rest: Seq<u8>)
    ensures
        span_routing_message(wire_routing_message(message) + rest) == Some(
            wire_routing_message(message).len(),
        ),
{
    let s = wire_routing_message(message) + rest;
    match message {
        RoutingMessage::Request(request) => {
            let a = wire_authority(request.src);
            let b = wire_authority(request.dst);
            let c = wire_request_content(request.content);
            lemma_span_authority(request.src, b + c + rest);
            lemma_span_authority(request.dst, c + rest);
            lemma_span_request_content(request.content, rest);
            assert(s[0] == 0);
            assert(s.skip(1) =~= a + (b + c + rest));
            assert(s.skip((1 + a.len()) as int) =~= b + (c + rest));
            assert(s.skip((1 + a.len() + b.len()) as int) =~= c + rest);
            assert(wire_routing_message(message).len() == 1 + a.len() + b.len() + c.len());
        },
        RoutingMessage::Response(response) => {
            let a = wire_authority(response.src);
            let b = wire_authority(response.dst);
            let c = wire_response_content(response.content);
            lemma_span_authority(response.src, b + c + rest);
            lemma_span_authority(response.dst, c + rest);
            lemma_span_response_content(response.content, rest);
            assert(s[0] == 1);
            assert(s.skip(1) =~= a + (b + c + rest));
            assert(s.skip((1 + a.len()) as int) =~= b + (c + rest));
            assert(s.skip((1 + a.len() + b.len()) as int) =~= c + rest);
            assert(wire_routing_message(message).len() == 1 + a.len() + b.len() + c.len());
        },
    }
}

/// The encoding of a signed message is recognised at the start of any
/// bytes that begin with it.
pub proof fn lemma_span_signed_message(message: SignedMessage, rest: Seq<u8>)
    ensures
        span_signed_message(wire_signed_message(message) + rest) == Some(
            wire_signed_message(message).len(),
        ),
{
    broadcast use vstd::array::group_array_axioms;

    let tail = wire_public_id(message.public_id) + message.signature@;
    lemma_public_id_len(message.public_id);
    lemma_span_routing_message(message.content, tail + rest);
    assert(wire_signed_message(message) + rest =~= wire_routing_message(message.content) + (tail
        + rest));
}

/// The encoding of a hop message is recognised at the start of any bytes
/// that begin with it.
pub proof fn lemma_span_hop_message(message: HopMessage, rest: Seq<u8>)
    ensures
        span_hop_message(wire_hop_message(message) + rest) == Some(
            wire_hop_message(message).len(),
        ),
{
    broadcast use vstd::array::group_array_axioms;

    let tail = message.name@ + message.signature@;
    lemma_span_signed_message(message.content, tail + rest);
    assert(wire_hop_message(message) + rest =~= wire_signed_message(message.content) + (tail
        + rest));
}

/// The encoding of a direct message is recognised at the start of any
/// bytes that begin with it.
pub proof fn lemma_span_direct_message(message: DirectMessage, rest: Seq<u8>)
    ensures
        span_direct_message(wire_direct_message(message) + rest) == Some(
            wire_direct_message(message).len(),
        ),
{
    broadcast use vstd::array::group_array_axioms;

    let w = wire_direct_message(message);
    let s = w + rest;
    match message {
        DirectMessage::BootstrapIdentify { public_id, current_quorum_size } => {
            lemma_public_id_len(public_id);
            lemma_length_round_trip(current_quorum_size, rest);
            assert(s[0] == 0);
        },
        DirectMessage::BootstrapDeny => {
            assert(s[0] == 1);
        },
        DirectMessage::ClientIdentify { serialised_public_id, signature, client_restriction } => {
            let tail = signature@ + wire_bool(client_restriction);
            assert(serialised_public_id@.len() == serialised_public_id.len());
            lemma_span_blob(serialised_public_id@, tail + rest);
            assert(s[0] == 2);
            assert(s.skip(1) =~= wire_blob(serialised_public_id@) + (tail + rest));
            assert(s[w.len() - 1] == wire_bool(client_restriction)[0]);
        },
        DirectMessage::NodeIdentify { serialised_public_id, signature } => {
            assert(serialised_public_id@.len() == serialised_public_id.len());
            lemma_span_blob(serialised_public_id@, signature@ + rest);
            assert(s[0] == 3);
            assert(s.skip(1) =~= wire_blob(serialised_public_id@) + (signature@ + rest));
        },
    }
}

/// The encoding of a message is recognised at the start of any bytes that
/// begin with it.
pub proof fn lemma_span_message(message: Message, rest: Seq<u8>)
    ensures
        span_message(wire_message(message) + rest) == Some(wire_message(message).len()),
{
    let s = wire_message(message) + rest;
    match message {
        Message::HopMessage(hop) => {
            lemma_span_hop_message(hop, rest);
            assert(s[0] == 0);
            assert(s.skip(1) =~= wire_hop_message(hop) + rest);
        },
        Message::DirectMessage(direct) => {
            lemma_span_direct_message(direct, rest);
            assert(s[0] == 1);
            assert(s.skip(1) =~= wire_direct_message(direct) + rest);
        },
    }
}

/// The sealed bytes behind their length at `pos` and the nonce that
/// follows them, and where they end.
fn read_sealed(bytes: &[u8], pos: usize) -> (found: Option<(Vec<u8>, [u8; 24], usize)>)
    requires
        pos <= bytes@.len(),
    ensures
        match found {
            Some((sealed, nonce, end)) => {
                &&& pos <= end <= bytes@.len()
                &&& bytes@.subrange(pos as int, end as int) == wire_blob(sealed@) + nonce@
                &&& span_between(
                    span_blob(bytes@.skip(pos as int)),
                    (bytes@.len() - pos) as nat,
                    0,
                    24,
                ) == Some((end - pos) as nat)
            },
            None => span_between(
                span_blob(bytes@.skip(pos as int)),
                (bytes@.len() - pos) as nat,
                0,
                24,
            ) is None,
        },
{
    let len: usize = bytes.len();
    match read_blob(bytes, pos) {
        Some((sealed, mid)) => {
            if len - mid < 24 {
                return None;
            }
            let nonce = take_24(bytes, mid);
            assert(bytes@.subrange(pos as int, mid + 24) =~= bytes@.subrange(
                pos as int,
                mid as int,
            ) + bytes@.subrange(mid as int, mid + 24));
            Some((sealed, nonce, mid + 24))
        },
        None => None,
    }
}

/// The piece of data at `pos` and the id that follows it, and where they
/// end.
fn read_stored(bytes: &[u8], pos: usize) -> (found: Option<(Data, MessageId, usize)>)
    requires
        pos <= bytes@.len(),
    ensures
        match found {
            Some((data, id, end)) => {
                &&& pos <= end <= bytes@.len()
                &&& bytes@.subrange(pos as int, end as int) == wire_data(data) + id.0@
                &&& span_between(
                    span_data(bytes@.skip(pos as int)),
                    (bytes@.len() - pos) as nat,
                    0,
                    64,
                ) == Some((end - pos) as nat)
            },
            None => span_between(
                span_data(bytes@.skip(pos as int)),
                (bytes@.len() - pos) as nat,
                0,
                64,
            ) is None,
        },
{
    let len: usize = bytes.len();
    match read_data(bytes, pos) {
        Some((data, mid)) => {
            if len - mid < 64 {
                return None;
            }
            let id = MessageId(take_64(bytes, mid));
            assert(bytes@.subrange(pos as int, mid + 64) =~= bytes@.subrange(
                pos as int,
                mid as int,
            ) + bytes@.subrange(mid as int, mid + 64));
            Some((data, id, mid + 64))
        },
        None => None,
    }
}

/// The id at `pos` and the two byte strings that follow it, and where
/// they end.
fn read_failure(bytes: &[u8], pos: usize) -> (found: Option<(MessageId, Vec<u8>, Vec<u8>, usize)>)
    requires
        pos + 64 <= bytes@.len(),
    ensures
        match found {
            Some((id, request, indicator, end)) => {
                &&& pos + 64 <= end <= bytes@.len()
                &&& bytes@.subrange(pos as int, end as int) == wire_failure(
                    id,
                    request@,
                    indicator@,
                )
                &&& span_two_blobs(bytes@.skip(pos + 64)) == Some((end - pos - 64) as nat)
            },
            None => span_two_blobs(bytes@.skip(pos + 64)) is None,
        },
{
    let len: usize = bytes.len();
    let id = MessageId(take_64(bytes, pos));
    match read_blob(bytes, pos + 64) {
        Some((request, mid)) => {
            assert(bytes@.skip(pos + 64).skip(mid - pos - 64) =~= bytes@.skip(mid as int));
            match read_blob(bytes, mid) {
                Some((indicator, end)) => {
                    assert(bytes@.subrange(pos as int, end as int) =~= bytes@.subrange(
                        pos as int,
                        pos + 64,
                    ) + bytes@.subrange(pos + 64, mid as int) + bytes@.subrange(
                        mid as int,
                        end as int,
                    ));
                    Some((id, request, indicator, end))
                },
                None => None,
            }
        },
        None => None,
    }
}

/// What a request asks for at `pos`, and where it ends.
fn read_request_content(bytes: &[u8], pos: usize) -> (found: Option<(RequestContent, usize)>)
    requires
        pos <= bytes@.len(),
    ensures
        match found {
            Some((content, end)) => {
                &&& pos <= end <= bytes@.len()
                &&& bytes@.subrange(pos as int, end as int) == wire_request_content(content)
                &&& span_request_content(bytes@.skip(pos as int)) == Some((end - pos) as nat)
            },
            None => span_request_content(bytes@.skip(pos as int)) is None,
        },
{
    reveal(span_request_content);
    let len: usize = bytes.len();
    if len - pos < 1 {
        return None;
    }
    let tag: u8 = bytes[pos];
    let ghost s = bytes@.skip(pos as int);
    assert(s[0] == tag);
    assert(s.skip(1) =~= bytes@.skip(pos + 1));
    if tag == 0 || tag == 1 {
        if len - pos < 129 {
            return None;
        }
        let id = read_public_id(bytes, pos + 1);
        let content = if tag == 0 {
            RequestContent::GetNetworkName { current_id: id }
        } else {
            RequestContent::ExpectCloseNode { expect_id: id }
        };
        assert(bytes@.subrange(pos as int, pos + 129) =~= seq![tag] + bytes@.subrange(
            pos + 1,
            pos + 129,
        ));
        return Some((content, pos + 129));
    }
    if tag == 2 || tag == 3 || tag == 5 {
        let content = if tag == 2 {
            RequestContent::GetCloseGroup
        } else if tag == 3 {
            RequestContent::Connect
        } else {
            RequestContent::GetPublicId
        };
        assert(bytes@.subrange(pos as int, pos + 1) =~= seq![tag]);
        return Some((content, pos + 1));
    }
    if tag == 4 || tag == 6 {
        return match read_sealed(bytes, pos + 1) {
            Some((encrypted_endpoints, nonce_bytes, end)) => {
                let content = if tag == 4 {
                    RequestContent::Endpoints { encrypted_endpoints, nonce_bytes }
                } else {
                    RequestContent::GetPublicIdWithEndpoints { encrypted_endpoints, nonce_bytes }
                };
                assert(bytes@.subrange(pos as int, end as int) =~= seq![tag] + bytes@.subrange(
                    pos + 1,
                    end as int,
                ));
                Some((content, end))
            },
            None => None,
        };
    }
    if tag == 7 {
        if len - pos < 130 {
            return None;
        }
        let kind_tag: u8 = bytes[pos + 1];
        assert(s[1] == kind_tag);
        if kind_tag > 2 {
            return None;
        }
        let request = DataRequest {
            kind: read_data_kind(kind_tag),
            name: XorName(take_64(bytes, pos + 2)),
        };
        let id = MessageId(take_64(bytes, pos + 66));
        let content = RequestContent::Get(request, id);
        assert(bytes@.subrange(pos as int, pos + 130) =~= wire_request_content(content));
        return Some((content, pos + 130));
    }
    if tag >= 8 && tag <= 10 {
        return match read_stored(bytes, pos + 1) {
            Some((data, id, end)) => {
                let content = if tag == 8 {
                    RequestContent::Put(data, id)
                } else if tag == 9 {
                    RequestContent::Post(data, id)
                } else {
                    RequestContent::Delete(data, id)
                };
                assert(bytes@.subrange(pos as int, end as int) =~= seq![tag] + bytes@.subrange(
                    pos + 1,
                    end as int,
                ));
                Some((content, end))
            },
            None => None,
        };
    }
    if tag == 11 {
        return match read_blob(bytes, pos + 1) {
            Some((payload, end)) => {
                let content = RequestContent::Refresh(payload);
                assert(bytes@.subrange(pos as int, end as int) =~= seq![tag] + bytes@.subrange(
                    pos + 1,
                    end as int,
                ));
                Some((content, end))
            },
            None => None,
        };
    }
    None
}

/// What a response answers with at `pos`, and where it ends.
fn read_response_content(bytes: &[u8], pos: usize) -> (found: Option<(ResponseContent, usize)>)
    requires
        pos <= bytes@.len(),
    ensures
        match found {
            Some((content, end)) => {
                &&& pos <= end <= bytes@.len()
                &&& bytes@.subrange(pos as int, end as int) == wire_response_content(content)
                &&& span_response_content(bytes@.skip(pos as int)) == Some((end - pos) as nat)
            },
            None => span_response_content(bytes@.skip(pos as int)) is None,
        },
{
    reveal(span_response_content);
    let len: usize = bytes.len();
    if len - pos < 1 {
        return None;
    }
    let tag: u8 = bytes[pos];
    let ghost s = bytes@.skip(pos as int);
    assert(s[0] == tag);
    assert(s.skip(1) =~= bytes@.skip(pos + 1));
    if tag == 0 || tag == 1 {
        if len - pos < 129 {
            return None;
        }
        let id = read_public_id(bytes, pos + 1);
        let content = if tag == 0 {
            ResponseContent::GetNetworkName { relocated_id: id }
        } else {
            ResponseContent::GetPublicId { public_id: id }
        };
        assert(bytes@.subrange(pos as int, pos + 129) =~= seq![tag] + bytes@.subrange(
            pos + 1,
            pos + 129,
        ));
        return Some((content, pos + 129));
    }
    if tag == 2 {
        if len - pos < 129 {
            return None;
        }
        assert(s.skip(129) =~= bytes@.skip(pos + 129));
        let public_id = read_public_id(bytes, pos + 1);
        return match read_sealed(bytes, pos + 129) {
            Some((encrypted_endpoints, nonce_bytes, end)) => {
                let content = ResponseContent::GetPublicIdWithEndpoints {
                    public_id,
                    encrypted_endpoints,
                    nonce_bytes,
                };
                assert(bytes@.subrange(pos as int, end as int) =~= seq![tag] + bytes@.subrange(
                    pos + 1,
                    pos + 129,
                ) + bytes@.subrange(pos + 129, end as int));
                Some((content, end))
            },
            None => None,
        };
    }
    if tag == 3 {
        return match read_public_ids(bytes, pos + 1) {
            Some((close_group_ids, end)) => {
                let content = ResponseContent::GetCloseGroup { close_group_ids };
                assert(bytes@.subrange(pos as int, end as int) =~= seq![tag] + bytes@.subrange(
                    pos + 1,
                    end as int,
                ));
                Some((content, end))
            },
            None => None,
        };
    }
    if tag == 4 {
        return match read_stored(bytes, pos + 1) {
            Some((data, id, end)) => {
                let content = ResponseContent::GetSuccess(data, id);
                assert(bytes@.subrange(pos as int, end as int) =~= seq![tag] + bytes@.subrange(
                    pos + 1,
                    end as int,
                ));
                Some((content, end))
            },
            None => None,
        };
    }
    if tag >= 5 && tag <= 7 {
        if len - pos < 65 {
            return None;
        }
        let id = MessageId(take_64(bytes, pos + 1));
        let content = if tag == 5 {
            ResponseContent::PutSuccess(id)
        } else if tag == 6 {
            ResponseContent::PostSuccess(id)
        } else {
            ResponseContent::DeleteSuccess(id)
        };
        assert(bytes@.subrange(pos as int, pos + 65) =~= seq![tag] + bytes@.subrange(
            pos + 1,
            pos + 65,
        ));
        return Some((content, pos + 65));
    }
    if tag >= 8 && tag <= 11 {
        if len - pos < 65 {
            return None;
        }
        assert(s.skip(65) =~= bytes@.skip(pos + 65));
        return match read_failure(bytes, pos + 1) {
            Some((id, request, external_error_indicator, end)) => {
                let content = if tag == 8 {
                    ResponseContent::GetFailure { id, request, external_error_indicator }
                } else if tag == 9 {
                    ResponseContent::PutFailure { id, request, external_error_indicator }
                } else if tag == 10 {
                    ResponseContent::PostFailure { id, request, external_error_indicator }
                } else {
                    ResponseContent::DeleteFailure { id, request, external_error_indicator }
                };
                assert(bytes@.subrange(pos as int, end as int) =~= seq![tag] + bytes@.subrange(
                    pos + 1,
                    end as int,
                ));
                Some((content, end))
            },
            None => None,
        };
    }
    None
}

/// The routed message at `pos`, and where it ends.
fn read_routing_message(bytes: &[u8], pos: usize) -> (found: Option<(RoutingMessage, usize)>)
    requires
        pos <= bytes@.len(),
    ensures
        match found {
            Some((message, end)) => {
                &&& pos <= end <= bytes@.len()
                &&& bytes@.subrange(pos as int, end as int) == wire_routing_message(message)
                &&& span_routing_message(bytes@.skip(pos as int)) == Some((end - pos) as nat)
            },
            None => span_routing_message(bytes@.skip(pos as int)) is None,
        },
{
    let len: usize = bytes.len();
    if len - pos < 1 {
        return None;
    }
    let tag: u8 = bytes[pos];
    let ghost s = bytes@.skip(pos as int);
    assert(s[0] == tag);
    if tag > 1 {
        return None;
    }
    assert(s.skip(1) =~= bytes@.skip(pos + 1));
    let (src, after_src) = match read_authority(bytes, pos + 1) {
        Some(found) => found,
        None => {
            return None;
        },
    };
    assert(s.skip((1 + (after_src - pos - 1)) as int) =~= bytes@.skip(after_src as int));
    let (dst, after_dst) = match read_authority(bytes, after_src) {
        Some(found) => found,
        None => {
            return None;
        },
    };
    assert(s.skip((1 + (after_src - pos - 1) + (after_dst - after_src)) as int) =~= bytes@.skip(
        after_dst as int,
    ));
    if tag == 0 {
        match read_request_content(bytes, after_dst) {
            Some((content, end)) => {
                let message = RoutingMessage::Request(RequestMessage { src, dst, content });
                assert(bytes@.subrange(pos as int, end as int) =~= seq![tag] + (bytes@.subrange(
                    pos + 1,
                    after_src as int,
                ) + bytes@.subrange(after_src as int, after_dst as int) + bytes@.subrange(
                    after_dst as int,
                    end as int,
                )));
                Some((message, end))
            },
            None => None,
        }
    } else {
        match read_response_content(bytes, after_dst) {
            Some((content, end)) => {
                let message = RoutingMessage::Response(ResponseMessage { src, dst, content });
                assert(bytes@.subrange(pos as int, end as int) =~= seq![tag] + (bytes@.subrange(
                    pos + 1,
                    after_src as int,
                ) + bytes@.subrange(after_src as int, after_dst as int) + bytes@.subrange(
                    after_dst as int,
                    end as int,
                )));
                Some((message, end))
            },
            None => None,
        }
    }
}

/// The signed message at `pos`, and where it ends.
fn read_signed_message(bytes: &[u8], pos: usize) -> (found: Option<(SignedMessage, usize)>)
    requires
        pos <= bytes@.len(),
    ensures
        match found {
            Some((message, end)) => {
                &&& pos <= end <= bytes@.len()
                &&& bytes@.subrange(pos as int, end as int) == wire_signed_message(message)
                &&& span_signed_message(bytes@.skip(pos as int)) == Some((end - pos) as nat)
            },
            None => span_signed_message(bytes@.skip(pos as int)) is None,
        },
{
    let len: usize = bytes.len();
    match read_routing_message(bytes, pos) {
        Some((content, mid)) => {
            if len - mid < 192 {
                return None;
            }
            let public_id = read_public_id(bytes, mid);
            let signature = take_64(bytes, mid + 128);
            let message = SignedMessage { content, public_id, signature };
            assert(bytes@.subrange(pos as int, mid + 192) =~= bytes@.subrange(
                pos as int,
                mid as int,
            ) + bytes@.subrange(mid as int, mid + 128) + bytes@.subrange(mid + 128, mid + 192));
            Some((message, mid + 192))
        },
        None => None,
    }
}

/// The hop message at `pos`, and where it ends.
fn read_hop_message(bytes: &[u8], pos: usize) -> (found: Option<(HopMessage, usize)>)
    requires
        pos <= bytes@.len(),
    ensures
        match found {
            Some((message, end)) => {
                &&& pos <= end <= bytes@.len()
                &&& bytes@.subrange(pos as int, end as int) == wire_hop_message(message)
                &&& span_hop_message(bytes@.skip(pos as int)) == Some((end - pos) as nat)
            },
            None => span_hop_message(bytes@.skip(pos as int)) is None,
        },
{
    let len: usize = bytes.len();
    match read_signed_message(bytes, pos) {
        Some((content, mid)) => {
            if len - mid < 128 {
                return None;
            }
            let name = XorName(take_64(bytes, mid));
            let signature = take_64(bytes, mid + 64);
            let message = HopMessage { content, name, signature };
            assert(bytes@.subrange(pos as int, mid + 128) =~= bytes@.subrange(
                pos as int,
                mid as int,
            ) + bytes@.subrange(mid as int, mid + 64) + bytes@.subrange(mid + 64, mid + 128));
            Some((message, mid + 128))
        },
        None => None,
    }
}

/// The direct message at `pos`, and where it ends.
fn read_direct_message(bytes: &[u8], pos: usize) -> (found: Option<(DirectMessage, usize)>)
    requires
        pos <= bytes@.len(),
    ensures
        match found {
            Some((message, end)) => {
                &&& pos <= end <= bytes@.len()
                &&& bytes@.subrange(pos as int, end as int) == wire_direct_message(message)
                &&& span_direct_message(bytes@.skip(pos as int)) == Some((end - pos) as nat)
            },
            None => span_direct_message(bytes@.skip(pos as int)) is None,
        },
{
    let len: usize = bytes.len();
    if len - pos < 1 {
        return None;
    }
    let tag: u8 = bytes[pos];
    let ghost s = bytes@.skip(pos as int);
    assert(s[0] == tag);
    assert(s.skip(1) =~= bytes@.skip(pos + 1));
    if tag == 0 {
        if len - pos < 137 {
            return None;
        }
        let public_id = read_public_id(bytes, pos + 1);
        let current_quorum_size = read_u64(bytes, pos + 129);
        let message = DirectMessage::BootstrapIdentify { public_id, current_quorum_size };
        assert(bytes@.subrange(pos as int, pos + 137) =~= seq![tag] + bytes@.subrange(
            pos + 1,
            pos + 129,
        ) + bytes@.subrange(pos + 129, pos + 137));
        return Some((message, pos + 137));
    }
    if tag == 1 {
        assert(bytes@.subrange(pos as int, pos + 1) =~= seq![tag]);
        return Some((DirectMessage::BootstrapDeny, pos + 1));
    }
    if tag > 3 {
        return None;
    }
    let (serialised_public_id, mid) = match read_blob(bytes, pos + 1) {
        Some(found) => found,
        None => {
            return None;
        },
    };
    if tag == 2 {
        if len - mid < 65 {
            return None;
        }
        let signature = take_64(bytes, mid);
        let flag: u8 = bytes[mid + 64];
        assert(s[mid + 65 - pos - 1] == flag);
        if flag > 1 {
            return None;
        }
        let client_restriction = flag == 1;
        let message = DirectMessage::ClientIdentify {
            serialised_public_id,
            signature,
            client_restriction,
        };
        assert(bytes@.subrange(pos as int, mid + 65) =~= seq![tag] + bytes@.subrange(
            pos + 1,
            mid as int,
        ) + bytes@.subrange(mid as int, mid + 64) + wire_bool(client_restriction));
        return Some((message, mid + 65));
    }
    if len - mid < 64 {
        return None;
    }
    let signature = take_64(bytes, mid);
    let message = DirectMessage::NodeIdentify { serialised_public_id, signature };
    assert(bytes@.subrange(pos as int, mid + 64) =~= seq![tag] + bytes@.subrange(
        pos + 1,
        mid as int,
    ) + bytes@.subrange(mid as int, mid + 64));
    Some((message, mid + 64))
}

/// The message that `bytes` are the canonical bytes of. Fails with
/// `SerialisationError` where they are those of none.
pub fn decode(bytes: &[u8]) -> (result: Result<Message, RoutingError>)
    ensures
        match result {
            Ok(message) => wire_message(message) == bytes@,
            Err(error) => error == RoutingError::SerialisationError && forall|message: Message|
                wire_message(message) != bytes@,
        },
{
    let len: usize = bytes.len();
    let ghost parsed_len: Option<nat> = span_message(bytes@);
    let found = if len == 0 {
        None
    } else {
        let tag: u8 = bytes[0];
        assert(bytes@.skip(1).len() == len - 1);
        if tag == 0 {
            match read_hop_message(bytes, 1) {
                Some((hop, end)) => {
                    assert(bytes@.subrange(0, end as int) =~= seq![tag] + bytes@.subrange(
                        1,
                        end as int,
                    ));
                    Some((Message::HopMessage(hop), end))
                },
                None => None,
            }
        } else if tag == 1 {
            match read_direct_message(bytes, 1) {
                Some((direct, end)) => {
                    assert(bytes@.subrange(0, end as int) =~= seq![tag] + bytes@.subrange(
                        1,
                        end as int,
                    ));
                    Some((Message::DirectMessage(direct), end))
                },
                None => None,
            }
        } else {
            None
        }
    };
    match found {
        Some((message, end)) => {
            if end == len {
                assert(bytes@.subrange(0, len as int) =~= bytes@);
                return Ok(message);
            }
        },
        None => {},
    }
    proof {
        assert forall|message: Message| wire_message(message) != bytes@ by {
            if wire_message(message) == bytes@ {
                lemma_span_message(message, Seq::empty());
                assert(wire_message(message) + Seq::<u8>::empty() =~= bytes@);
            }
        }
    }
    Err(RoutingError::SerialisationError)
}

} // verus!
