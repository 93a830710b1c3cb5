//! Ground control server for a rocket propulsion test and flight system.
//!
//! The library holds the server's rules as verified functions over plain data:
//! the channel-mapping authority, the forwarding-target registry, the sequence
//! registry, the operator command dispatcher, the flight-link decisions and the
//! export layouts. The program around it performs the network and disk work.
pub mod command;
pub mod deploy;
pub mod error;
pub mod export;
pub mod flight;
pub mod forwarding;
pub mod mappings;
pub mod migrations;
pub mod names;
pub mod protocol;
pub mod sequences;
pub mod server;
pub mod vehicle;
