//! Preparation of ledger payment and asset transactions for signing by an
//! external wallet: a typed transaction model, a wire-format encoder with
//! null-deletes-key merge semantics, input validation, and the state machine
//! that drives the sign-and-submit sequence.
pub mod codec;
pub mod encode;
pub mod model;
pub mod protocol;
pub mod validate;
pub mod wire;
