//! World state and save-file codec for a small orbital sandbox.
//!
//! Every real-valued quantity of the simulation (positions, timers,
//! velocities) is stored as the raw bit pattern of an IEEE 754 binary32
//! number, kept in a `u32` field. The save-file codec reads and writes
//! those bit patterns verbatim, so encoding and decoding are exact and
//! proved to round-trip byte for byte. Decisions of the simulation that
//! only order such numbers (particle expiry, state transitions) are made
//! here as well, through a verified integer implementation of the IEEE
//! comparison; the embedding program performs the floating-point
//! arithmetic itself and hands the resulting bit patterns back in.

pub mod bytes;
pub mod codec;
pub mod fbits;
pub mod geom;
pub mod particle;
pub mod psystem;
pub mod rotating;
pub mod planet;
pub mod rng;
pub mod savedata;
pub mod star;
pub mod explconv;
pub mod fish;
