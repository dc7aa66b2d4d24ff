//! Taior: an anonymity-preserving overlay messaging library.
//!
//! Ephemeral peers exchange padded, authenticated-encrypted packets through a
//! multi-hop circuit of relays. Every executable function in this crate carries
//! a contract that Verus proves; the few calls into cryptographic and system
//! crates stand behind small trusted wrappers whose doc comments say what is
//! believed of them.

pub mod aead;
pub mod api;
pub mod builder;
pub mod bytes;
pub mod circuit;
mod clock;
pub mod cover;
pub mod cover_traffic;
pub mod discovery;
mod entropy;
pub mod identity;
pub mod modes;
pub mod name_map;
pub mod packet;
pub mod routing;
pub mod text;
pub mod transport;

pub use api::{SendOptions, Taior};
pub use builder::CircuitBuilder;
pub use circuit::{Circuit, CircuitNode, OnionEncryptor};
pub use cover_traffic::{AdaptiveCoverTraffic, CoverTrafficConfig, CoverTrafficGenerator};
pub use identity::TaiorAddress;
pub use modes::RoutingMode;
pub use transport::{MappedAddress, PinnedCertVerifier, RelayAuth};
