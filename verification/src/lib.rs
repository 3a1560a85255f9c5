//! Client side of a racing simulator's broadcasting protocol: a codec for its
//! datagrams and a session state that is folded from the decoded messages.

pub mod protocol;
pub mod session;

pub use crate::protocol::acc_enum::CarLocation;
pub use crate::protocol::acc_enum::SessionPhase;
pub use crate::protocol::acc_enum::SessionType;
pub use crate::protocol::inbound::IncomingMessage;
pub use crate::protocol::inbound::Lap;
pub use crate::protocol::inbound::RealtimeCarUpdate;
pub use crate::protocol::inbound::RealtimeUpdate;
pub use crate::protocol::inbound::RegistrationResult;
pub use crate::protocol::inbound::ReplayInfo;
pub use crate::protocol::DecodeError;
