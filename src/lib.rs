//! A selector-routing registry: a persistent table that maps four-byte
//! selectors to independently deployed handler programs, with owner and
//! admin gated mutation, immutable entries and a pause gate.

pub mod access;
pub mod account;
pub mod codec;
pub mod counter;
pub mod cut;
pub mod error;
pub mod instruction;
pub mod pause;
pub mod pubkey;
pub mod record;
pub mod router;
pub mod setup;
pub mod state;
