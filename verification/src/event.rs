//! What goes into the core and what comes out of it.

use crate::authority::Authority;
use crate::data::MessageId;
use crate::error::InterfaceError;
use crate::messages::{RequestContent, RequestMessage, ResponseMessage, RoutingMessage};
use crate::names::XorName;
use vstd::prelude::*;

verus! {

/// What the core tells the user above it.
#[derive(Clone, Debug, PartialEq, Eq)]
pub enum Event {
    /// A client has found its proxy.
    Connected,
    /// The close group has changed. The id is made from the name of the node
    /// that came or went.
    Churn { id: MessageId, lost_close_node: Option<XorName> },
    /// A request for the user.
    Request(RequestMessage),
    /// A response for the user.
    Response(ResponseMessage),
}

/// What the core asks of the transport and the user. The core only says
/// what is to be done; whoever drives it does it.
#[derive(Clone, Debug, PartialEq, Eq)]
pub enum Effect {
    /// Send the bytes down the connection.
    Send { connection: u64, bytes: Vec<u8> },
    /// Close the connection.
    DropNode { connection: u64 },
    /// Connect to the peer whose serialised endpoints these are.
    Connect { endpoints: Vec<u8> },
    /// Hand the event to the user.
    Emit(Event),
    /// Start the beacon and start accepting connections, then report the
    /// external endpoints.
    StartListening,
    /// Look for a node to bootstrap from.
    Bootstrap,
    /// Stop looking for a node to bootstrap from.
    StopBootstrap,
    /// Wait before the next bootstrap attempt.
    Pause,
}

/// An effect with its bytes as a sequence.
pub enum EffectView {
    Send { connection: u64, bytes: Seq<u8> },
    DropNode { connection: u64 },
    Connect { endpoints: Seq<u8> },
    Emit(Event),
    StartListening,
    Bootstrap,
    StopBootstrap,
    Pause,
}

impl View for Effect {
    type V = EffectView;

    open spec fn view(&self) -> EffectView {
        match *self {
            Effect::Send { connection, bytes } => EffectView::Send { connection, bytes: bytes@ },
            Effect::DropNode { connection } => EffectView::DropNode { connection },
            Effect::Connect { endpoints } => EffectView::Connect { endpoints: endpoints@ },
            Effect::Emit(event) => EffectView::Emit(event),
            Effect::StartListening => EffectView::StartListening,
            Effect::Bootstrap => EffectView::Bootstrap,
            Effect::StopBootstrap => EffectView::StopBootstrap,
            Effect::Pause => EffectView::Pause,
        }
    }
}

/// The effects in order, each with its bytes as a sequence.
pub open spec fn effect_views(effects: Seq<Effect>) -> Seq<EffectView> {
    effects.map_values(|effect: Effect| effect@)
}

/// What the user asks of the core.
#[derive(Clone, Debug, PartialEq, Eq)]
pub enum Action {
    /// Sign the message and send it on.
    NodeSendMessage { content: RoutingMessage },
    /// Send the request as a client, through the proxy.
    ClientSendRequest { content: RequestContent, dst: Authority },
    /// Tell the names of the close group.
    CloseGroup,
    /// Tell our name.
    Name,
    /// Stop.
    Terminate,
}

/// What the transport reports. Where an event changes the endpoints that
/// we can be reached at, it brings their serialised list.
#[derive(Clone, Debug, PartialEq, Eq)]
pub enum TransportEvent {
    /// The search for a node to bootstrap from is over.
    BootstrapFinished,
    /// A peer has connected to us.
    OnAccept { connection: u64, endpoints: Vec<u8> },
    /// A connection is gone.
    LostConnection { connection: u64 },
    /// Bytes have come down a connection.
    NewMessage { connection: u64, bytes: Vec<u8> },
    /// A connection that we asked for is there; `None` where it failed.
    OnConnect { connection: Option<u64>, endpoints: Vec<u8> },
    /// The endpoints at which others see us.
    ExternalEndpoints { endpoints: Vec<u8> },
}

/// One thing for the core to handle.
#[derive(Clone, Debug, PartialEq, Eq)]
pub enum Input {
    Action(Action),
    Transport(TransportEvent),
}

/// What the core answers to an input.
#[derive(Debug, PartialEq, Eq)]
pub enum Reply {
    /// Nothing to report.
    Nothing,
    /// How sending went, for the user who asked for it.
    Sent(Result<(), InterfaceError>),
    /// The names of the close group.
    CloseGroup(Vec<XorName>),
    /// Our name.
    Name(XorName),
    /// The core has been told to stop.
    Terminated,
}

} // verus!
