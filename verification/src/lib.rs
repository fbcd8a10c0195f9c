//! A growable, densely packed sequence of booleans.
//!
//! [`Bits32`] is a register of 32 flags held in one machine word; [`BitVec`]
//! stores its bits in a sequence of such registers and keeps the exact
//! number of bits in use.

pub mod bit_vec;
pub mod block;
pub mod error;
pub mod laws;
pub mod model;

pub use bit_vec::BitVec;
pub use block::Bits32;
pub use error::Error;
