//! An entropy-gathering state machine: a demon that watches a stream of noisy
//! 32-bit samples, admits the transitions that carry fresh low bits, and hands
//! out four bytes of whitened key material for every hundred of them.

pub mod bits;
pub mod demon;
pub mod driver;
pub mod stream;
pub mod word;

pub use demon::{Demon, Error};
