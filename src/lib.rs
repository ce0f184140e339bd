//! Core of a FIX tag=value engine: the field model of outbound messages, the
//! wire encoder with its framing, and the decision-driven session lifecycle.

pub mod wire;
pub mod message;
pub mod encoding;
pub mod session;

pub use message::{encode_message, FieldError, Message, RepeatingGroup};
pub use session::{InboundDecision, OutboundDecision, SessionCore, SessionError, SessionState};
