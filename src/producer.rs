//! The producer's connection decisions. The producer loop performs the
//! action that is decided here and reports what the transport did.
use vstd::prelude::*;

verus! {

/// Where the producer stands with its transport.
#[derive(Clone, Copy, Debug, PartialEq, Eq, Structural)]
pub enum ConnectionState {
    Disconnected,
    Connecting,
    Connected,
}

/// What happened since the last decision.
#[derive(Clone, Copy, Debug, PartialEq, Eq, Structural)]
pub enum TransportEvent {
    /// A target device is selected.
    DeviceSelected,
    OpenSucceeded,
    OpenFailed,
    /// A read or a write failed in the middle of a session.
    IoError,
    DisconnectRequested,
}

/// What the producer does next.
#[derive(Clone, Copy, Debug, PartialEq, Eq, Structural)]
pub enum ProducerAction {
    /// Nothing to do until a device is selected.
    Idle,
    /// Try to open the selected device.
    Open,
    /// Read what is available, forward it, and write pending outgoing data.
    Transfer,
}

pub open spec fn transition(s: ConnectionState, e: TransportEvent) -> ConnectionState {
    match (s, e) {
        (ConnectionState::Disconnected, TransportEvent::DeviceSelected) => ConnectionState::Connecting,
        (ConnectionState::Connecting, TransportEvent::OpenSucceeded) => ConnectionState::Connected,
        (ConnectionState::Connecting, TransportEvent::OpenFailed) => ConnectionState::Disconnected,
        (ConnectionState::Connected, TransportEvent::IoError) => ConnectionState::Disconnected,
        (ConnectionState::Connected, TransportEvent::DisconnectRequested) => ConnectionState::Disconnected,
        _ => s,
    }
}

pub open spec fn action_for(s: ConnectionState) -> ProducerAction {
    match s {
        ConnectionState::Disconnected => ProducerAction::Idle,
        ConnectionState::Connecting => ProducerAction::Open,
        ConnectionState::Connected => ProducerAction::Transfer,
    }
}

impl ConnectionState {
    /// The state after `event`; events that do not apply leave it as it is.
    pub fn next(self, event: TransportEvent) -> (r: ConnectionState)
        ensures
            r == transition(self, event),
    {
        match (self, event) {
            (ConnectionState::Disconnected, TransportEvent::DeviceSelected) => ConnectionState::Connecting,
            (ConnectionState::Connecting, TransportEvent::OpenSucceeded) => ConnectionState::Connected,
            (ConnectionState::Connecting, TransportEvent::OpenFailed) => ConnectionState::Disconnected,
            (ConnectionState::Connected, TransportEvent::IoError) => ConnectionState::Disconnected,
            (ConnectionState::Connected, TransportEvent::DisconnectRequested) => ConnectionState::Disconnected,
            _ => self,
        }
    }

    /// What the producer does in this state.
    pub fn action(self) -> (r: ProducerAction)
        ensures
            r == action_for(self),
    {
        match self {
            ConnectionState::Disconnected => ProducerAction::Idle,
            ConnectionState::Connecting => ProducerAction::Open,
            ConnectionState::Connected => ProducerAction::Transfer,
        }
    }

    /// The shared connected flag that this state publishes.
    pub fn is_connected(self) -> (r: bool)
        ensures
            r == (self == ConnectionState::Connected),
    {
        match self {
            ConnectionState::Connected => true,
            _ => false,
        }
    }
}

} // verus!
