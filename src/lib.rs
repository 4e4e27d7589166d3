//! Building and parsing inscriptions: payloads carried in the witness of a
//! taproot script-path spend, inside an `OP_FALSE OP_IF ... OP_ENDIF` envelope.
//!
//! - [`script`]: script instructions and their bytes.
//! - [`inscription`]: the inscription record and the envelope written for it.
//! - [`parser`]: reading the first envelope of a witness.
//! - [`expansion`]: the JSON payload a wrapped body carries, and unwrapping it.
//! - [`builder`]: the decisions that turn a file into an inscription.
//! - [`off_chain`]: magnet links and bootstrap nodes of off-chain content.
//! - [`limit`]: a byte budget for reading untrusted input.
//! - [`laws`]: what holds of every envelope.

pub mod builder;
pub mod bytes;
pub mod expansion;
pub mod inscription;
pub mod laws;
pub mod limit;
pub mod off_chain;
pub mod parser;
pub mod script;
