//! Core of an N-body gravity simulator: the integer- and byte-level logic of
//! the engine, fully verified.
//!
//! Floating-point values (masses, positions, velocities, forces) are carried
//! through this crate as their IEEE 754 single-precision bit patterns
//! (`u32`), which the core treats as opaque payloads.  The floating-point
//! arithmetic itself — the pairwise force law and the Euler integration
//! step — is performed by the embedding program; this crate owns and proves
//! everything around it: the pair enumeration, the chunked work
//! distribution, the particle and frame bookkeeping, the binary frame
//! format with its compressed container, and the packed buffer layout used
//! by a GPU force backend.


pub mod codec;
pub mod distributor;
pub mod driver;
pub mod frames;
pub mod gpu;
pub mod particle;
pub mod pairs;
pub mod settings;
pub mod sink;
