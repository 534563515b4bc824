//! Fixed capacities of the bounded lists, and the name spaces of the records.

use vstd::prelude::*;

verus! {

/// Root seed of an identity record.
pub const STACHE: &'static str = "stache";

/// Most submitters that a policy can name.
pub const MAX_SUBMITTERS: usize = 3;

/// Most approvers that a policy can name.
pub const MAX_APPROVERS: usize = 3;

/// Most vaults that one identity holds at a time.
pub const MAX_VAULTS: usize = 5;

/// Most actions that can be pending on one vault.
pub const MAX_VAULT_ACTIONS: usize = 5;

/// Most sessions that can be live on one vault.
pub const MAX_VAULT_SESSIONS: usize = 10;

/// Most automations that one identity holds at a time.
pub const MAX_AUTOS: usize = 5;

/// Most delegated keys that one session lists.
pub const MAX_SESSION_KEYS: usize = 5;

/// Name space of identities.
pub const BEARD_SPACE: &'static str = "beards";

/// Name space of vaults.
pub const VAULT_SPACE: &'static str = "vaults";

/// Name space of automations.
pub const AUTO_SPACE: &'static str = "automations";

/// Name space of sessions.
pub const SESSION_SPACE: &'static str = "sessions";

} // verus!
