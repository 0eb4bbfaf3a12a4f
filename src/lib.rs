//! Loading a declarative flow-based graph: records, wiring, initial packets.
//!
//! `network` builds the component instances and wires edges through plain
//! ports and lazily grown array ports; `inject` plans each initial packet
//! and forms the messages that resolve and build it; `directive` parses the
//! `contract:value~option` text and normalizes contract names.
pub mod directive;
pub mod error;
pub mod graph;
pub mod inject;
pub mod laws;
pub mod network;
