//! Vault registry, withdrawal policy engine and payload codec for a
//! single owning identity.

pub mod account;
pub mod constant;
pub mod error;
pub mod history;
pub mod key;
pub mod payload;
pub mod util;
pub mod wire;
