//! Verified core of a sandboxed content-ingestion guest plugin.
//!
//! A host process hands the guest a serialized entry at a (pointer, length)
//! location in a shared linear address space.  The guest decodes the entry,
//! runs an ingestion pipeline (fetch, extract, chunk, detect language,
//! checksum, persist) and reports results back through the same narrow
//! pointer/length calling convention.
//!
//! This crate holds the verified logic of that guest: the packed
//! pointer/length ABI values ([`abi`]), the linear allocator that stages
//! outgoing buffers ([`arena`]), the binary envelope codec ([`codec`]),
//! the text derivations ([`text`], [`lang`], [`checksum`]), the error
//! taxonomy ([`errors`]) and the pipeline state machine ([`pipeline`]).
//! The host calls themselves (network fetch, host-side chunking,
//! persistence, logging) are performed by an unverified shim that drives
//! the state machine, feeding each host reply back in as an event.

pub mod abi;
pub mod arena;
pub mod checksum;
pub mod codec;
pub mod errors;
pub mod lang;
pub mod pipeline;
pub mod text;
