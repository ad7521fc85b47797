//! The session state of a wallet backend for several networks, verified.
//!
//! A session holds the active wallet, the active network, the networks that
//! can be selected and the connected peers. Its two transitions, a switch of
//! the wallet and a switch of the network, tell the peers of a change exactly
//! when the address or the chain id is another one, and a switch to another
//! chain id derives the signer again for it.
//!
//! - [`context`]: the session and its transitions, with the laws they obey.
//! - [`wallet`]: the signing identity and its derivation.
//! - [`descriptors`], [`network`]: the descriptor set and its entries.
//! - [`peers`], [`notify`]: the peer registry, and what peers are sent.
//! - [`path`], [`text`]: derivation paths; numbers and JSON strings as text.
//! - [`error`]: the errors.

pub mod context;
pub mod descriptors;
pub mod error;
pub mod network;
pub mod notify;
pub mod path;
pub mod peers;
pub mod text;
pub mod wallet;
