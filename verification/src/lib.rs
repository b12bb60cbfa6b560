//! Key references, ciphertext envelopes and the environment substitution
//! protocol of a secret-injection tool backed by a key-management service.
//!
//! The library holds the decisions; the network calls, the process
//! environment and the child process belong to the program around it.

pub mod text;
pub mod key;
pub mod codec;
pub mod environment;
pub mod gateway;
pub mod substitution;
