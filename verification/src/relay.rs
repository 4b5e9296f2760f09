//! What a node or client does with the signed messages that reach it.

use crate::bytes::{bytes_equal, copy_bytes};
use crate::cache::{cached_data, data_cache_get, data_cache_insert};
use crate::data::{Data, DataKind, MessageId};
use crate::error::RoutingError;
use crate::event::EffectView;
use crate::filter::{filter_contains, filter_insert, filter_items};
use crate::id::PublicId;
use crate::messages::{RequestContent, ResponseContent, RoutingMessage};
use crate::names::XorName;
use crate::quorum::{accumulated, accumulator_add, accumulator_set_quorum, byte_strings};
use crate::routing::{Core, State, Touched};
use crate::rules::{dynamic_quorum_size, quorum_for};
use crate::table::{table_len, table_names};
use crate::wire::{encode_routing_message, wire_routing_message};
use vstd::prelude::*;

verus! {

/// The number of different byte strings among `values`.
pub open spec fn distinct_count(values: Seq<Seq<u8>>) -> nat
    decreases values.len(),
{
    if values.len() == 0 {
        0
    } else {
        distinct_count(values.drop_last()) + if values.drop_last().contains(values.last()) {
            0nat
        } else {
            1nat
        }
    }
}

/// There are no more different values than values.
pub proof fn lemma_distinct_count_bound(values: Seq<Seq<u8>>)
    ensures
        distinct_count(values) <= values.len(),
    decreases values.len(),
{
    if values.len() > 0 {
        lemma_distinct_count_bound(values.drop_last());
    }
}

/// Whether `wanted` is one of the first `limit` of `values`.
fn occurs_before(values: &Vec<Vec<u8>>, limit: usize, wanted: &Vec<u8>) -> (found: bool)
    requires
        limit <= values@.len(),
    ensures
        found == byte_strings(values@).take(limit as int).contains(wanted@),
{
    let ghost strings = byte_strings(values@).take(limit as int);
    let mut i: usize = 0;
    while i < limit
        invariant
            i <= limit <= values@.len(),
            strings == byte_strings(values@).take(limit as int),
            forall|j: int| 0 <= j < i ==> strings[j] != wanted@,
        decreases limit - i,
    {
        if bytes_equal(values[i].as_slice(), wanted.as_slice()) {
            assert(strings[i as int] == wanted@);
            return true;
        }
        i += 1;
    }
    false
}

/// The number of different byte strings among `values`.
pub fn count_distinct(values: &Vec<Vec<u8>>) -> (count: usize)
    ensures
        count == distinct_count(byte_strings(values@)),
{
    let ghost strings = byte_strings(values@);
    let mut count: usize = 0;
    let mut i: usize = 0;
    assert(strings.take(0) =~= Seq::<Seq<u8>>::empty());
    while i < values.len()
        invariant
            i <= values@.len(),
            strings == byte_strings(values@),
            count == distinct_count(strings.take(i as int)),
            count <= i,
        decreases values@.len() - i,
    {
        proof {
            let done = strings.take(i + 1);
            assert(done.drop_last() =~= strings.take(i as int));
            assert(done.last() == values@[i as int]@);
        }
        if !occurs_before(values, i, &values[i]) {
            count += 1;
        }
        i += 1;
    }
    assert(strings.take(values@.len() as int) =~= strings);
    count
}

/// The name and id of a request for immutable data.
pub open spec fn immutable_get(content: RoutingMessage) -> Option<(XorName, MessageId)> {
    match content {
        RoutingMessage::Request(request) => match request.content {
            RequestContent::Get(wanted, id) => if wanted.kind == DataKind::Immutable {
                Some((wanted.name, id))
            } else {
                None
            },
            _ => None,
        },
        _ => None,
    }
}

/// The name and payload of immutable data that a response brings.
pub open spec fn immutable_success(content: RoutingMessage) -> Option<(XorName, Seq<u8>)> {
    match content {
        RoutingMessage::Response(response) => match response.content {
            ResponseContent::GetSuccess(data, id) => if data.kind == DataKind::Immutable {
                Some((data.name, data.payload@))
            } else {
                None
            },
            _ => None,
        },
        _ => None,
    }
}

/// Whether `content` is the answer to a request for the members of a
/// close group.
pub open spec fn is_close_group_response(content: RoutingMessage) -> bool {
    content matches RoutingMessage::Response(response) && response.content is GetCloseGroup
}

impl Core {
    /// What a look into the cache of data for what `content` asks for
    /// does: the cache has dropped what has expired, and where `content`
    /// asks for immutable data that the cache then holds, that is `found`.
    pub open spec fn fetched(
        &self,
        before: &Core,
        content: RoutingMessage,
        found: Option<(Data, MessageId)>,
    ) -> bool {
        &&& self.kept(before, Touched { data: true, ..Touched::nothing() })
        &&& cached_data(self.data_cache).submap_of(cached_data(before.data_cache))
        &&& match immutable_get(content) {
            Some((name, id)) => match found {
                Some((data, found_id)) => {
                    &&& data.kind == DataKind::Immutable
                    &&& data.name == name
                    &&& found_id == id
                    &&& cached_data(self.data_cache).contains_key(name@)
                    &&& cached_data(self.data_cache)[name@] == data.payload@
                },
                None => !cached_data(self.data_cache).contains_key(name@),
            },
            None => found is None && self.data_cache == before.data_cache,
        }
    }

    /// What keeping the immutable data that `content` brings does: it is
    /// in the cache under its name, and the cache holds nothing else that it
    /// was not holding.
    pub open spec fn stored(&self, before: &Core, content: RoutingMessage) -> bool {
        &&& self.kept(before, Touched { data: true, ..Touched::nothing() })
        &&& match immutable_success(content) {
            Some((name, payload)) => {
                &&& cached_data(self.data_cache).contains_key(name@)
                &&& cached_data(self.data_cache)[name@] == payload
                &&& forall|other: Seq<u8>|
                    other != name@ && #[trigger] cached_data(self.data_cache).contains_key(other)
                        ==> cached_data(before.data_cache).contains_key(other) && cached_data(
                        self.data_cache,
                    )[other] == cached_data(before.data_cache)[other]
            },
            None => self.data_cache == before.data_cache,
        }
    }

    /// What one more sender of the group message `message` does, where
    /// `reached` tells whether the message is now to be handled.
    ///
    /// A node goes by the quorum of its routing table. The sender's key is
    /// put behind those gathered for the message, or stands alone where
    /// these have expired. The message is to be handled where its senders
    /// are held, are at least a quorum, and at least a quorum of them are
    /// different.
    pub open spec fn gathered(
        &self,
        before: &Core,
        message: RoutingMessage,
        signer: Seq<u8>,
        reached: bool,
    ) -> bool {
        let key = wire_routing_message(message);
        let held = accumulated(self.message_accumulator);
        &&& self.kept(before, Touched { gathered: true, ..Touched::nothing() })
        &&& self.quorum_size == if before.state == State::Node {
            quorum_for(table_names(before.routing_table).len()) as usize
        } else {
            before.quorum_size
        }
        &&& forall|other: Seq<u8>|
            other != key && #[trigger] held.contains_key(other) ==> accumulated(
                before.message_accumulator,
            ).contains_key(other) && held[other] == accumulated(before.message_accumulator)[other]
        &&& held.contains_key(key) ==> held[key] == seq![signer] || (accumulated(
            before.message_accumulator,
        ).contains_key(key) && held[key] == accumulated(before.message_accumulator)[key].push(
            signer,
        ))
        &&& reached == (held.contains_key(key) && held[key].len() >= self.quorum_size
            && distinct_count(held[key]) >= self.quorum_size)
    }

    /// What a look into the filter of handled group messages does: the
    /// filter has dropped what has expired.
    pub open spec fn checked_handled(&self, before: &Core) -> bool {
        &&& self.kept(before, Touched { handled: true, ..Touched::nothing() })
        &&& filter_items(self.grp_msg_filter).subset_of(filter_items(before.grp_msg_filter))
    }

    /// What noting that the group message with the bytes `item` has been
    /// handled does: the filter holds it, and else only what it held.
    pub open spec fn marked_handled(&self, before: &Core, item: Seq<u8>) -> bool {
        &&& self.kept(before, Touched { handled: true, ..Touched::nothing() })
        &&& filter_items(self.grp_msg_filter).contains(item)
        &&& forall|other: Seq<u8>| #[trigger]
            filter_items(self.grp_msg_filter).contains(other) ==> other == item || filter_items(
                before.grp_msg_filter,
            ).contains(other)
    }

    /// What handing `message` to the handler of its kind does.
    pub open spec fn dispatched(
        &self,
        before: &Core,
        message: RoutingMessage,
        result: Result<(), RoutingError>,
    ) -> bool {
        match message {
            RoutingMessage::Request(request) => self.request_handled(before, request, result),
            RoutingMessage::Response(response) => self.response_handled(before, response, result),
        }
    }

    /// What a routed message that is for us does, where `public_id` is
    /// its sender's.
    ///
    /// A message of a single sender is handled. A message of a group that
    /// has been handled of late fails with `FilterCheckFailed`. The answer
    /// to a request for the members of a close group is handled as it
    /// comes, since each member answers for itself. Any other message of a
    /// group waits until a quorum of different members have sent it: the
    /// sender that completes the quorum has it handled, and noted as
    /// handled; before that nothing else happens.
    pub open spec fn routed_message(
        &self,
        before: &Core,
        message: RoutingMessage,
        public_id: PublicId,
        result: Result<(), RoutingError>,
    ) -> bool {
        if !message.source().group() {
            self.dispatched(before, message, result)
        } else {
            exists|checked: Core| #[trigger]
                self.routed_group_message(before, message, public_id, result, &checked)
        }
    }

    /// What a message of a group that is for us does, where `checked` is
    /// the core once the filter of handled group messages has been looked
    /// into.
    pub open spec fn routed_group_message(
        &self,
        before: &Core,
        message: RoutingMessage,
        public_id: PublicId,
        result: Result<(), RoutingError>,
        checked: &Core,
    ) -> bool {
        let item = wire_routing_message(message);
        &&& checked.checked_handled(before)
        &&& if filter_items(checked.grp_msg_filter).contains(item) {
            result == Err::<(), RoutingError>(RoutingError::FilterCheckFailed) && self.only_added(
                checked,
                Seq::empty(),
            )
        } else if is_close_group_response(message) {
            self.dispatched(checked, message, result)
        } else {
            exists|counted: Core, reached: bool|
                {
                    &&& #[trigger] counted.gathered(
                        checked,
                        message,
                        public_id.public_sign_key@,
                        reached,
                    )
                    &&& if reached {
                        exists|marked: Core| #[trigger]
                            marked.marked_handled(&counted, item) && self.dispatched(
                                &marked,
                                message,
                                result,
                            )
                    } else {
                        result == Ok::<(), RoutingError>(()) && self.only_added(
                            &counted,
                            Seq::empty(),
                        )
                    }
                }
        }
    }

    /// Looks into the cache of data for what `content` asks for, as
    /// `fetched` says.
    pub fn get_from_cache(&mut self, content: &RoutingMessage) -> (found: Option<(Data, MessageId)>)
        requires
            old(self).wf(),
        ensures
            final(self).wf(),
            final(self).fetched(old(self), *content, found),
    {
        match content {
            RoutingMessage::Request(request) => match &request.content {
                RequestContent::Get(wanted, id) => match wanted.kind {
                    DataKind::Immutable => {
                        match data_cache_get(&mut self.data_cache, &wanted.name.0) {
                            Some(payload) => Some(
                                (Data { kind: DataKind::Immutable, name: wanted.name, payload }, *id),
                            ),
                            None => None,
                        }
                    },
                    _ => None,
                },
                _ => None,
            },
            _ => None,
        }
    }

    /// Keeps the immutable data that `content` brings, as `stored` says.
    pub fn add_to_cache(&mut self, content: &RoutingMessage)
        requires
            old(self).wf(),
        ensures
            final(self).wf(),
            final(self).stored(old(self), *content),
    {
        match content {
            RoutingMessage::Response(response) => match &response.content {
                ResponseContent::GetSuccess(data, _) => match data.kind {
                    DataKind::Immutable => {
                        let payload = copy_bytes(data.payload.as_slice());
                        data_cache_insert(&mut self.data_cache, data.name.0, payload);
                    },
                    _ => {},
                },
                _ => {},
            },
            _ => {},
        }
    }

    /// Counts one more sender of the group message `message`, as
    /// `gathered` says, and tells whether the message is now to be handled.
    pub fn accumulate(&mut self, message: &RoutingMessage, public_id: &PublicId) -> (reached: bool)
        requires
            old(self).wf(),
        ensures
            final(self).wf(),
            final(self).gathered(old(self), *message, public_id.public_sign_key@, reached),
    {
        match self.state {
            State::Node => {
                let quorum = dynamic_quorum_size(table_len(&self.routing_table));
                accumulator_set_quorum(&mut self.message_accumulator, quorum);
                self.quorum_size = quorum;
            },
            _ => {},
        }
        let key = encode_routing_message(message);
        let signer = copy_bytes(public_id.public_sign_key.as_slice());
        match accumulator_add(&mut self.message_accumulator, key, signer) {
            Some(values) => count_distinct(&values) >= self.quorum_size,
            None => false,
        }
    }

    /// Hands `message` to the handler of its kind, as `dispatched` says.
    pub fn dispatch_request_response(&mut self, message: RoutingMessage) -> (result: Result<
        (),
        RoutingError,
    >)
        requires
            old(self).wf(),
        ensures
            final(self).wf(),
            final(self).dispatched(old(self), message, result),
    {
        match message {
            RoutingMessage::Request(request) => self.handle_request_message(request),
            RoutingMessage::Response(response) => self.handle_response_message(response),
        }
    }

    /// Handles a routed message that is for us, as `routed_message` says.
    pub fn handle_routing_message(&mut self, message: RoutingMessage, public_id: PublicId) -> (result:
        Result<(), RoutingError>)
        requires
            old(self).wf(),
        ensures
            final(self).wf(),
            final(self).routed_message(old(self), message, public_id, result),
    {
        if !message.src().is_group() {
            return self.dispatch_request_response(message);
        }
        let item = encode_routing_message(&message);
        let held = filter_contains(&mut self.grp_msg_filter, &item);
        let ghost checked = *self;
        assert(checked.checked_handled(old(self)));
        if held {
            assert(self.effects() =~= checked.effects() + Seq::<EffectView>::empty());
            assert(self.routed_group_message(
                old(self),
                message,
                public_id,
                Err(RoutingError::FilterCheckFailed),
                &checked,
            ));
            return Err(RoutingError::FilterCheckFailed);
        }
        let close_group_response = match &message {
            RoutingMessage::Response(response) => match &response.content {
                ResponseContent::GetCloseGroup { .. } => true,
                _ => false,
            },
            _ => false,
        };
        if close_group_response {
            let result = self.dispatch_request_response(message);
            assert(self.routed_group_message(old(self), message, public_id, result, &checked));
            return result;
        }
        let reached = self.accumulate(&message, &public_id);
        let ghost counted = *self;
        if !reached {
            assert(self.effects() =~= counted.effects() + Seq::<EffectView>::empty());
            assert(self.routed_group_message(old(self), message, public_id, Ok(()), &checked));
            return Ok(());
        }
        let _ = filter_insert(&mut self.grp_msg_filter, item);
        let ghost marked = *self;
        assert(marked.marked_handled(&counted, wire_routing_message(message)));
        let result = self.dispatch_request_response(message);
        assert(self.routed_group_message(old(self), message, public_id, result, &checked));
        result
    }
}

} // verus!
