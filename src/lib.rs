//! Identity material for a CometBFT node cluster: group planning, node and
//! validator keys, their derived identifiers and addresses, and the
//! chain-native public-key export.
pub mod error;
pub mod text;
pub mod groups;
pub mod naming;
pub mod keys;
pub mod pubkey;
pub mod generate;
