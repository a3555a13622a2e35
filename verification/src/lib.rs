//! A minimal line-oriented chat relay, verified.
//!
//! A server accepts connections and broadcasts each line received from one
//! client to every connected client; a client forwards user input lines to
//! the server while printing the lines the server sends back. This crate
//! holds the relay's core: line framing, the broadcast hub with its bounded
//! per-subscriber queues and drop-oldest overflow policy, and the decision
//! logic of the server and client sessions. Socket and terminal plumbing
//! live outside the crate and hand these functions plain byte buffers.

pub mod hub;
pub mod line;
pub mod session;
