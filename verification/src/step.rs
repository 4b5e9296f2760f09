//! The step of the core: one input from the transport or the user is
//! handled at a time.

use crate::authority::Authority;
use crate::error::{InterfaceError, RoutingError};
use crate::event::{Action, EffectView, Input, Reply, TransportEvent};
use crate::messages::{DirectMessage, HopMessage, Message, RequestMessage, RoutingMessage};
use crate::parse::decode;
use crate::routing::{Core, State, Touched};
use crate::rules::GROUP_SIZE;
use crate::table::{nearest_of, table_names};
use crate::wire::wire_message;
use vstd::prelude::*;

verus! {

/// The most messages of our own that are handled after one input. What is
/// left waits for the next input.
pub const LOCAL_DELIVERIES_PER_INPUT: usize = 1024;

/// What the user who asked for a message to be sent is told: a failure
/// that concerns the user, and else that all is well.
pub open spec fn reported(sending: Result<(), RoutingError>) -> Result<(), InterfaceError> {
    match sending {
        Err(RoutingError::Interface(error)) => Err(error),
        _ => Ok(()),
    }
}

/// What the user who asked for a message to be sent is told.
pub fn report(sending: Result<(), RoutingError>) -> (told: Result<(), InterfaceError>)
    ensures
        told == reported(sending),
{
    match sending {
        Err(RoutingError::Interface(error)) => Err(error),
        _ => Ok(()),
    }
}

impl Core {
    /// What a direct message on `connection` does, by its kind.
    pub open spec fn direct_handled(
        &self,
        before: &Core,
        message: DirectMessage,
        connection: u64,
        result: Result<(), RoutingError>,
    ) -> bool {
        match message {
            DirectMessage::BootstrapIdentify { public_id, current_quorum_size } =>
                self.bootstrap_identified(
                before,
                connection,
                public_id,
                current_quorum_size,
                result,
            ),
            DirectMessage::BootstrapDeny => result == Ok::<(), RoutingError>(())
                && self.bootstrap_denied(before, connection),
            DirectMessage::ClientIdentify { serialised_public_id, signature, client_restriction } =>
                result == Ok::<(), RoutingError>(()) && self.client_identified(
                    before,
                    connection,
                    serialised_public_id@,
                    signature@,
                    client_restriction,
                ),
            DirectMessage::NodeIdentify { serialised_public_id, signature } => result == Ok::<
                (),
                RoutingError,
            >(()) && self.node_identified(before, connection, serialised_public_id@, signature@),
        }
    }

    /// What bytes that came down `connection` do: bytes that encode no
    /// message fail with `SerialisationError` and nothing else happens, and
    /// the message that any other bytes encode is handled as a hop message
    /// or as a direct message.
    pub open spec fn message_handled(
        &self,
        before: &Core,
        connection: u64,
        bytes: Seq<u8>,
        result: Result<(), RoutingError>,
    ) -> bool {
        if forall|message: Message| wire_message(message) != bytes {
            result == Err::<(), RoutingError>(RoutingError::SerialisationError) && self.only_added(
                before,
                Seq::empty(),
            )
        } else {
            exists|message: Message|
                #![trigger wire_message(message)]
                wire_message(message) == bytes && match message {
                    Message::HopMessage(hop) => self.hop_handled(before, hop, connection, result),
                    Message::DirectMessage(direct) => self.direct_handled(
                        before,
                        direct,
                        connection,
                        result,
                    ),
                }
        }
    }

    /// What taking the first of the pending messages off does.
    pub open spec fn took_pending(&self, before: &Core) -> bool {
        &&& self.kept(before, Touched { pending: true, ..Touched::nothing() })
        &&& self.pending@ == before.pending@.drop_first()
    }

    /// What handling the first of the pending messages does, where
    /// `delivered` tells whether there was one: it is taken off and handled
    /// as a node handles a message that it brought itself.
    pub open spec fn delivered_next(&self, before: &Core, delivered: bool) -> bool {
        if before.pending@.len() == 0 {
            !delivered && self.only_added(before, Seq::empty())
        } else {
            delivered && exists|taken: Core, result: Result<(), RoutingError>|
                {
                    &&& taken.took_pending(before)
                    &&& #[trigger] self.node_handled(
                        &taken,
                        before.pending@[0],
                        before.full_id.public_id.name,
                        result,
                    )
                }
        }
    }

    /// What handling up to `limit` of the pending messages does, one after
    /// the other as `delivered_next` says, where `count` are handled: it
    /// ends with the limit or when none is pending.
    pub open spec fn delivered_pending(&self, before: &Core, limit: nat, count: nat) -> bool
        decreases limit,
    {
        if limit == 0 {
            count == 0 && self.only_added(before, Seq::empty())
        } else {
            exists|next: Core, delivered: bool| #[trigger]
                next.delivered_next(before, delivered) && if delivered {
                    count > 0 && self.delivered_pending(
                        &next,
                        (limit - 1) as nat,
                        (count - 1) as nat,
                    )
                } else {
                    count == 0 && self.only_added(&next, Seq::empty())
                }
        }
    }

    /// What an action of the user does, with the reply to it.
    pub open spec fn acted(&self, before: &Core, action: Action, reply: Reply) -> bool {
        match action {
            Action::NodeSendMessage { content } => exists|sending: Result<(), RoutingError>| #[trigger]
                self.sent_content(before, content, sending) && reply == Reply::Sent(
                    reported(sending),
                ),
            Action::ClientSendRequest { content, dst } => if before.proxy_map@.len() == 0 {
                reply == Reply::Sent(Err(InterfaceError::NotConnected)) && self.only_added(
                    before,
                    Seq::empty(),
                )
            } else {
                exists|sending: Result<(), RoutingError>| #[trigger]
                    self.sent_content(
                        before,
                        RoutingMessage::Request(
                            RequestMessage {
                                src: Authority::Client {
                                    client_key: before.full_id.public_id.public_sign_key,
                                    proxy_node_name: before.proxy_map@[0].public_id.name,
                                },
                                dst,
                                content,
                            },
                        ),
                        sending,
                    ) && reply == Reply::Sent(reported(sending))
            },
            Action::CloseGroup => self.only_added(before, Seq::empty()) && (
            reply matches Reply::CloseGroup(names) && nearest_of(
                table_names(before.routing_table),
                before.full_id.public_id.name@,
                GROUP_SIZE as nat,
                names@,
            )),
            Action::Name => self.only_added(before, Seq::empty()) && reply == Reply::Name(
                before.full_id.public_id.name,
            ),
            Action::Terminate => self.only_added(before, Seq::empty()) && reply
                == Reply::Terminated,
        }
    }

    /// What an event of the transport does. A failure to handle a message
    /// is not reported.
    pub open spec fn happened(&self, before: &Core, event: TransportEvent) -> bool {
        match event {
            TransportEvent::BootstrapFinished => if before.state == State::Disconnected {
                self.listening_started(before)
            } else {
                self.only_added(before, Seq::empty())
            },
            TransportEvent::OnAccept { connection, endpoints } => self.connection_accepted(
                before,
                endpoints@,
            ),
            TransportEvent::LostConnection { connection } => self.connection_lost(
                before,
                connection,
            ),
            TransportEvent::NewMessage { connection, bytes } => exists|
                result: Result<(), RoutingError>,
            | #[trigger] self.message_handled(before, connection, bytes@, result),
            TransportEvent::OnConnect { connection, endpoints } => self.connection_made(
                before,
                connection,
                endpoints@,
            ),
            TransportEvent::ExternalEndpoints { endpoints } => self.kept(
                before,
                Touched { endpoints: true, ..Touched::nothing() },
            ) && self.endpoints@ == endpoints@,
        }
    }

    /// What one input does, with the reply to it: an action of the user
    /// does what `acted` says, and an event of the transport what
    /// `happened` says, to which there is nothing to reply.
    pub open spec fn ran(&self, before: &Core, input: Input, reply: Reply) -> bool {
        match input {
            Input::Action(action) => self.acted(before, action, reply),
            Input::Transport(event) => reply == Reply::Nothing && self.happened(before, event),
        }
    }

    /// Handles a direct message, as `direct_handled` says.
    pub fn handle_direct_message(&mut self, message: DirectMessage, connection: u64) -> (result:
        Result<(), RoutingError>)
        requires
            old(self).wf(),
        ensures
            final(self).wf(),
            final(self).direct_handled(old(self), message, connection, result),
    {
        match message {
            DirectMessage::BootstrapIdentify { public_id, current_quorum_size } =>
                self.handle_bootstrap_identify(connection, public_id, current_quorum_size),
            DirectMessage::BootstrapDeny => {
                self.retry_bootstrap_with_blacklist(connection);
                Ok(())
            },
            DirectMessage::ClientIdentify { serialised_public_id, signature, client_restriction } => {
                self.handle_client_identify(
                    connection,
                    &serialised_public_id,
                    &signature,
                    client_restriction,
                );
                Ok(())
            },
            DirectMessage::NodeIdentify { serialised_public_id, signature } => {
                self.handle_node_identify(connection, &serialised_public_id, &signature);
                Ok(())
            },
        }
    }

    /// Handles bytes that came down `connection`, as `message_handled`
    /// says.
    pub fn handle_new_message(&mut self, connection: u64, bytes: Vec<u8>) -> (result: Result<
        (),
        RoutingError,
    >)
        requires
            old(self).wf(),
        ensures
            final(self).wf(),
            final(self).message_handled(old(self), connection, bytes@, result),
    {
        match decode(bytes.as_slice()) {
            Ok(Message::HopMessage(hop)) => {
                let result = self.handle_hop_message(hop, connection);
                assert(wire_message(Message::HopMessage(hop)) == bytes@);
                result
            },
            Ok(Message::DirectMessage(direct)) => {
                let result = self.handle_direct_message(direct, connection);
                assert(wire_message(Message::DirectMessage(direct)) == bytes@);
                result
            },
            Err(error) => {
                assert(self.effects() =~= old(self).effects() + Seq::<EffectView>::empty());
                Err(error)
            },
        }
    }

    /// Handles the first of the pending messages, as `delivered_next`
    /// says, and tells whether there was one.
    pub fn deliver_next(&mut self) -> (delivered: bool)
        requires
            old(self).wf(),
        ensures
            final(self).wf(),
            final(self).delivered_next(old(self), delivered),
    {
        if self.pending.len() == 0 {
            assert(self.effects() =~= old(self).effects() + Seq::<EffectView>::empty());
            return false;
        }
        let message = self.pending.remove(0);
        let ghost taken = *self;
        assert(taken.pending@ =~= old(self).pending@.drop_first());
        let own = self.full_id.public_id.name;
        let _ = self.handle_signed_message_for_node(message, &own);
        true
    }

    /// Handles up to `limit` of the pending messages, as `delivered_pending`
    /// says, and tells how many.
    pub fn deliver_pending(&mut self, limit: usize) -> (count: usize)
        requires
            old(self).wf(),
        ensures
            final(self).wf(),
            count <= limit,
            final(self).delivered_pending(old(self), limit as nat, count as nat),
        decreases limit,
    {
        if limit == 0 {
            assert(self.effects() =~= old(self).effects() + Seq::<EffectView>::empty());
            return 0;
        }
        let delivered = self.deliver_next();
        let ghost next = *self;
        if !delivered {
            assert(self.effects() =~= next.effects() + Seq::<EffectView>::empty());
            return 0;
        }
        let more = self.deliver_pending(limit - 1);
        more + 1
    }

    /// Handles an action of the user, as `acted` says.
    pub fn handle_action(&mut self, action: Action) -> (reply: Reply)
        requires
            old(self).wf(),
        ensures
            final(self).wf(),
            final(self).acted(old(self), action, reply),
    {
        match action {
            Action::NodeSendMessage { content } => {
                let sending = self.send_message(content);
                assert(self.sent_content(old(self), content, sending));
                Reply::Sent(report(sending))
            },
            Action::ClientSendRequest { content, dst } => {
                match self.get_client_authority() {
                    Ok(src) => {
                        let sending = self.send_request(src, dst, content);
                        Reply::Sent(report(sending))
                    },
                    Err(_) => {
                        assert(self.effects() =~= old(self).effects() + Seq::<EffectView>::empty());
                        Reply::Sent(Err(InterfaceError::NotConnected))
                    },
                }
            },
            Action::CloseGroup => {
                assert(self.effects() =~= old(self).effects() + Seq::<EffectView>::empty());
                Reply::CloseGroup(self.close_group_names())
            },
            Action::Name => {
                assert(self.effects() =~= old(self).effects() + Seq::<EffectView>::empty());
                Reply::Name(self.full_id.public_id.name)
            },
            Action::Terminate => {
                assert(self.effects() =~= old(self).effects() + Seq::<EffectView>::empty());
                Reply::Terminated
            },
        }
    }

    /// Handles an event of the transport, as `happened` says.
    pub fn handle_transport_event(&mut self, event: TransportEvent)
        requires
            old(self).wf(),
        ensures
            final(self).wf(),
            final(self).happened(old(self), event),
    {
        match event {
            TransportEvent::BootstrapFinished => self.handle_bootstrap_finished(),
            TransportEvent::OnAccept { connection, endpoints } => self.handle_on_accept(
                connection,
                endpoints,
            ),
            TransportEvent::LostConnection { connection } => self.handle_lost_connection(connection),
            TransportEvent::NewMessage { connection, bytes } => {
                let _ = self.handle_new_message(connection, bytes);
            },
            TransportEvent::OnConnect { connection, endpoints } => self.handle_on_connect(
                connection,
                endpoints,
            ),
            TransportEvent::ExternalEndpoints { endpoints } => {
                self.endpoints = endpoints;
            },
        }
    }

    /// Handles one input, as `ran` says.
    pub fn run(&mut self, input: Input) -> (reply: Reply)
        requires
            old(self).wf(),
        ensures
            final(self).wf(),
            final(self).ran(old(self), input, reply),
    {
        match input {
            Input::Action(action) => self.handle_action(action),
            Input::Transport(event) => {
                self.handle_transport_event(event);
                Reply::Nothing
            },
        }
    }
}

} // verus!
