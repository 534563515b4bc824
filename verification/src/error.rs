//! The failures that the transition functions report.

use vstd::prelude::*;

verus! {

/// Every way in which an operation on a record can fail.
///
/// Failures are reported to the caller and never retried; a failed
/// operation leaves the record as it was.
#[derive(Clone, Copy, Debug, PartialEq, Eq, Structural)]
pub enum StacheError {
    /// A bounded list already holds as many entries as its category allows.
    CapacityExceeded,
    /// The slot identifier named by the caller is not live.
    InvalidIndex,
    /// A withdrawal was requested on a locked vault.
    VaultLocked,
    /// The stored action kind is not the kind that the decoder was asked for.
    InvalidAction,
    /// The stored trigger kind is not the kind that the decoder was asked for.
    InvalidTrigger,
    /// The action kind or the action payload is absent.
    MissingAction,
    /// The trigger kind or the trigger payload is absent.
    MissingTrigger,
    /// The approver is already on the action's approver list.
    AlreadyApproved,
    /// The stored bytes do not decode under the declared kind.
    MalformedPayload,
}

} // verus!
