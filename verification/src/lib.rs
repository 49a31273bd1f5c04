//! A verified core for a universal machine: a 32-bit-word bytecode
//! interpreter with a segmented, reclaimable memory arena, together with
//! models of the byte-multiplexing state machines (broadcaster, byte
//! stream and byte sink adapters) that surround it.

pub mod adapters;
pub mod arena;
pub mod broadcaster;
pub mod error;
pub mod ops;
pub mod platter;
pub mod program;
