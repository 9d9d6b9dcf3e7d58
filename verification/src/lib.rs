//! A single-connection Server-Sent-Events client core.
//!
//! The crate holds the protocol logic of the client: the registry of
//! connection identities, the line framer, the event assembler and the
//! state machine that drives one streaming request. Network and timer work
//! is left to the host, which feeds the driver with what it observed and
//! performs what the driver directs.

pub mod registry;
pub mod text;
pub mod framer;
pub mod assembler;
pub mod event;
pub mod status;
pub mod driver;
pub mod lifecycle;
