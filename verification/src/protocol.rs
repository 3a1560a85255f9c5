//! The wire protocol: code tables, message types, the decoder and the encoder.

use vstd::prelude::*;

pub use crate::protocol::cameras::CameraSet;
pub use crate::protocol::cameras::CameraSets;
pub use crate::protocol::cameras::HudPages;
pub use crate::protocol::inbound::BroadcastingEvent;
pub use crate::protocol::inbound::Driver;
pub use crate::protocol::inbound::EntrylistCar;
pub use crate::protocol::inbound::EntrylistUpdate;
pub use crate::protocol::inbound::InboundMessage;
pub use crate::protocol::inbound::IncomingMessage;
pub use crate::protocol::inbound::Lap;
pub use crate::protocol::inbound::RealtimeCarUpdate;
pub use crate::protocol::inbound::RealtimeUpdate;
pub use crate::protocol::inbound::RegistrationResult;
pub use crate::protocol::inbound::ReplayInfo;
pub use crate::protocol::inbound::TrackData;
pub use crate::protocol::inbound::WireFloat;
pub use crate::protocol::outbound::OutboundMessage;
pub use crate::protocol::outbound::RegistrationRequest;
pub use crate::protocol::outbound::UnregisterRequest;
pub use crate::protocol::wire::ParseError;
pub use crate::protocol::wire::ParseErrorKind;

pub mod acc_enum;
pub mod cameras;
pub mod inbound;
pub mod outbound;
pub mod parser;
pub mod splits;
pub mod text;
pub mod wire;

verus! {

/// The protocol version that a registration request announces.
pub const PROTOCOL_VERSION: u8 = 4;

/// A code that none of the protocol's tables lists, with the raw value that
/// was received.
#[derive(Debug, Clone, Copy, PartialEq, Eq)]
pub enum DecodeError {
    UnknownSessionType(u8),
    UnknownSessionPhase(u8),
    UnknownCarLocation(u8),
    UnknownDriverCategory(u8),
    UnknownNationality(u16),
    UnknownCarModel(u8),
    UnknownCupCategory(u8),
    UnknownBroadcastingEvent(u8),
}

} // verus!
