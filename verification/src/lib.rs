//! Server-side engine for the Git smart transfer protocol.
//!
//! The crate implements the wire-level logic a Git hosting service needs:
//! pkt-line framing, the `info/refs` advertisement, the `upload-pack`
//! negotiation, the `receive-pack` command application sequence, and
//! side-band multiplexing. Repository access, authentication and the pack
//! codec are collaborators supplied by the caller; the engine computes over
//! plain values and tells the caller which collaborator calls to make.

pub mod advertise;
pub mod bstr;
pub mod buf;
pub mod caps;
pub mod lit;
pub mod pkt;
pub mod receive;
pub mod smart;
pub mod upload;
pub mod types;
