//! Derivation of a shared symmetric key from entangled-pair measurements.
//!
//! A role worker drives one exchange-and-measure round per key byte against a
//! quantum transport, assembles the outcome bits into an owned [`key::Key`],
//! and hands the finished key to the orchestrating thread over a one-shot
//! channel. The transport itself (pair creation, reception, measurement) and
//! the thread/channel plumbing are collaborators outside this crate; here live
//! the key container and the protocol state machine, with their contracts.

pub mod key;
pub mod worker;
