//! Core of an intercepting HTTPS policy gateway.
//!
//! The gateway terminates TLS from clients under a per-host leaf certificate
//! minted by its own certificate authority, opens a second TLS session to the
//! true upstream, inspects the first HTTP request, and either splices the two
//! streams or rejects the request against a host/path allow-list.  This crate
//! holds the verified core: destination discovery (CONNECT framing and raw
//! SNI parsing), leaf minting, policy evaluation, traffic-event formatting,
//! and the per-connection state machine.  The I/O shell around it performs
//! the reads, writes and handshakes the state machine asks for.

pub mod ca;
pub mod connect;
pub mod event;
pub mod pipeline;
pub mod policy;
pub mod sni;
pub mod text;
