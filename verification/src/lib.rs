//! A verified protocol engine for device-onboarding trust provisioning: the
//! typed message catalogue with its deterministic binary codec, the phase
//! state machines with their ordering rules, the cryptographic handshake
//! (key exchange, session-key derivation, signed envelopes, nonce binding),
//! the session manager, and the ownership-voucher chain verifier.
//!
//! Every call into the cryptographic backend goes through the trusted
//! wrappers in `crypto`; everything else is verified against the contracts
//! the modules state. The transport binding, storage backends and process
//! bootstrapping live outside this crate and talk to it in plain values.

pub mod client;
pub mod codec;
pub mod constants;
pub mod cose;
pub mod crypto;
pub mod di;
pub mod diun;
pub mod errors;
pub mod handlers;
pub mod kex;
pub mod session;
pub mod to2;
pub mod types;
pub mod voucher;
