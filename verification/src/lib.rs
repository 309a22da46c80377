//! Relay of LAN broadcast traffic over point-to-point VPN tunnels.
//!
//! The crate holds the decision logic of the relay: rewriting captured IPv4
//! datagrams, partitioning configured peers over the tunnels, reacting to
//! discovery datagrams and fanning a captured broadcast out to every known
//! peer. Around that core stand the command line, the choice of the network
//! adapters and the wording of what the user is told. Sockets, capture
//! handles and threads live with the caller.

pub mod adapters;
pub mod capture;
pub mod cli;
pub mod directions;
pub mod discovery;
pub mod dotted;
pub mod logger;
pub mod net;
pub mod relay;
pub mod report;
pub mod text;
pub mod udp;
