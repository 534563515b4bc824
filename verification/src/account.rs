//! The records of one identity: the identity itself, its vaults with their
//! pending actions, its automations and the sessions of a vault.

use vstd::prelude::*;
use vstd::std_specs::cmp::PartialEqSpecImpl;
use crate::constant::{
    MAX_AUTOS, MAX_SESSION_KEYS, MAX_VAULTS, MAX_VAULT_ACTIONS, MAX_VAULT_SESSIONS,
};
use crate::error::StacheError;
use crate::key::Pubkey;
use crate::payload::{stored_balance_trigger, stored_bytes, stored_transfer};
pub use crate::payload::{ActionType, BalanceTrigger, TransferAction, TriggerType};
use crate::util::{
    add_index, find_index, found, next_cursor, released, remove_index, swap_removed, LAST_INDEX,
};

verus! {

/// A cursor that hands out identifiers from 1 to `LAST_INDEX`.
pub open spec fn cursor_in_range(cursor: u8) -> bool {
    1 <= cursor <= LAST_INDEX
}

/// Every entry of `live` is an identifier that a cursor in range hands out.
pub open spec fn indices_in_range(live: Seq<u8>) -> bool {
    forall|i: int| 0 <= i < live.len() ==> cursor_in_range(#[trigger] live[i])
}

/// The top-level record of one principal: the vaults and automations that
/// are live, and the cursors that hand out their identifiers.
#[derive(Clone, Debug, PartialEq, Eq)]
pub struct CurrentStache {
    pub version: u8,
    pub bump: u8,
    pub keychain: Pubkey,
    pub domain: Pubkey,
    pub stacheid: String,
    /// Identifier of the next vault.
    pub next_vault_index: u8,
    /// Identifier of the next automation.
    pub next_auto_index: u8,
    /// Identifiers of the live vaults, in no particular order.
    pub vaults: Vec<u8>,
    /// Identifiers of the live automations, in no particular order.
    pub autos: Vec<u8>,
}

impl CurrentStache {
    /// Bytes that a stored identity takes.
    pub const MAX_SIZE: usize = 1 + 1 + 32 + 32 + 32 + 1 + 1 + (4 + (MAX_VAULTS)) + (4 + (MAX_AUTOS))
        + 128;

    /// Version of the record's layout.
    pub const CURRENT_VERSION: u8 = 1;

    /// Both lists are within their capacities, and cursors and identifiers
    /// are in range.
    pub open spec fn wf(&self) -> bool {
        &&& self.vaults@.len() <= MAX_VAULTS
        &&& self.autos@.len() <= MAX_AUTOS
        &&& cursor_in_range(self.next_vault_index)
        &&& cursor_in_range(self.next_auto_index)
        &&& indices_in_range(self.vaults@)
        &&& indices_in_range(self.autos@)
    }

    /// An identity without vaults and automations, whose cursors start at 1.
    pub fn new(bump: u8, keychain: Pubkey, domain: Pubkey, stacheid: String) -> (stache:
        CurrentStache)
        ensures
            stache.wf(),
            stache.version == CurrentStache::CURRENT_VERSION,
            stache.bump == bump,
            stache.keychain == keychain,
            stache.domain == domain,
            stache.stacheid == stacheid,
            stache.next_vault_index == 1,
            stache.next_auto_index == 1,
            stache.vaults@ == Seq::<u8>::empty(),
            stache.autos@ == Seq::<u8>::empty(),
    {
        CurrentStache {
            version: CurrentStache::CURRENT_VERSION,
            bump,
            keychain,
            domain,
            stacheid,
            next_vault_index: 1,
            next_auto_index: 1,
            vaults: Vec::new(),
            autos: Vec::new(),
        }
    }

    /// Takes the vault `index` out of the live list, by moving the last
    /// entry into its place. Fails with `InvalidIndex`, changing nothing,
    /// when no such vault is live.
    pub fn remove_vault(&mut self, index: u8) -> (res: Result<(), StacheError>)
        ensures
            res.is_ok() == old(self).vaults@.contains(index),
            res matches Err(e) ==> e == StacheError::InvalidIndex && *final(self) == *old(self),
            final(self).vaults@ == released(old(self).vaults@, index),
            *final(self) == (CurrentStache { vaults: final(self).vaults, ..*old(self) }),
            old(self).wf() ==> final(self).wf(),
    {
        match self.is_vault(index) {
            Some(at) => {
                self.vaults.swap_remove(at);
                Ok(())
            },
            None => Err(StacheError::InvalidIndex),
        }
    }

    /// Takes the automation `index` out of the live list, by moving the last
    /// entry into its place. Fails with `InvalidIndex`, changing nothing,
    /// when no such automation is live.
    pub fn remove_auto(&mut self, index: u8) -> (res: Result<(), StacheError>)
        ensures
            res.is_ok() == old(self).autos@.contains(index),
            res matches Err(e) ==> e == StacheError::InvalidIndex && *final(self) == *old(self),
            final(self).autos@ == released(old(self).autos@, index),
            *final(self) == (CurrentStache { autos: final(self).autos, ..*old(self) }),
            old(self).wf() ==> final(self).wf(),
    {
        match self.is_auto(index) {
            Some(at) => {
                self.autos.swap_remove(at);
                Ok(())
            },
            None => Err(StacheError::InvalidIndex),
        }
    }

    /// Position of the vault `index` in the live list, if it is live.
    pub fn is_vault(&self, index: u8) -> (res: Option<usize>)
        ensures
            found(self.vaults@, index, res),
            res.is_some() == self.vaults@.contains(index),
    {
        find_index(&self.vaults, index)
    }

    /// Position of the automation `index` in the live list, if it is live.
    pub fn is_auto(&self, index: u8) -> (res: Option<usize>)
        ensures
            found(self.autos@, index, res),
            res.is_some() == self.autos@.contains(index),
    {
        find_index(&self.autos, index)
    }

    /// Makes the identifier under the vault cursor live and returns it.
    /// Fails with `CapacityExceeded`, changing nothing, when `MAX_VAULTS`
    /// vaults are live.
    pub fn add_vault(&mut self) -> (res: Result<u8, StacheError>)
        ensures
            old(self).vaults@.len() >= MAX_VAULTS ==> {
                &&& res == Err::<u8, StacheError>(StacheError::CapacityExceeded)
                &&& *final(self) == *old(self)
            },
            old(self).vaults@.len() < MAX_VAULTS ==> {
                &&& res == Ok::<u8, StacheError>(old(self).next_vault_index)
                &&& final(self).vaults@ == old(self).vaults@.push(old(self).next_vault_index)
                &&& final(self).next_vault_index == next_cursor(old(self).next_vault_index)
                &&& *final(self) == (CurrentStache {
                    vaults: final(self).vaults,
                    next_vault_index: final(self).next_vault_index,
                    ..*old(self)
                })
            },
            old(self).wf() ==> final(self).wf(),
    {
        add_index(&mut self.vaults, MAX_VAULTS, &mut self.next_vault_index)
    }

    /// Makes the identifier under the automation cursor live and returns
    /// it. Fails with `CapacityExceeded`, changing nothing, when `MAX_AUTOS`
    /// automations are live.
    pub fn add_auto(&mut self) -> (res: Result<u8, StacheError>)
        ensures
            old(self).autos@.len() >= MAX_AUTOS ==> {
                &&& res == Err::<u8, StacheError>(StacheError::CapacityExceeded)
                &&& *final(self) == *old(self)
            },
            old(self).autos@.len() < MAX_AUTOS ==> {
                &&& res == Ok::<u8, StacheError>(old(self).next_auto_index)
                &&& final(self).autos@ == old(self).autos@.push(old(self).next_auto_index)
                &&& final(self).next_auto_index == next_cursor(old(self).next_auto_index)
                &&& *final(self) == (CurrentStache {
                    autos: final(self).autos,
                    next_auto_index: final(self).next_auto_index,
                    ..*old(self)
                })
            },
            old(self).wf() ==> final(self).wf(),
    {
        add_index(&mut self.autos, MAX_AUTOS, &mut self.next_auto_index)
    }
}

/// A key that may submit actions, and whether it is in force.
#[derive(Clone, Debug)]
pub struct Submitter {
    pub key: Pubkey,
    pub enabled: bool,
}

/// A key that may approve actions, and whether it is in force.
#[derive(Clone, Debug)]
pub struct Approver {
    pub key: Pubkey,
    pub enabled: bool,
}

/// The rule by which a vault lets funds go.
#[derive(Clone, Copy, Debug, Eq)]
pub enum VaultType {
    /// No approval is needed.
    Easy,
    /// A withdrawal waits for approvals.
    TwoSig,
    /// Approval is left to the multisig `multisig`, with `sigs` as its
    /// threshold.
    Squads { multisig: Pubkey, sigs: u8 },
}

impl PartialEq for VaultType {
    fn eq(&self, other: &VaultType) -> (r: bool) {
        match (self, other) {
            (VaultType::Easy, VaultType::Easy) => true,
            (VaultType::TwoSig, VaultType::TwoSig) => true,
            (
                VaultType::Squads { multisig: m1, sigs: s1 },
                VaultType::Squads { multisig: m2, sigs: s2 },
            ) => *m1 == *m2 && *s1 == *s2,
            _ => false,
        }
    }
}

impl PartialEqSpecImpl for VaultType {
    open spec fn obeys_eq_spec() -> bool {
        true
    }

    open spec fn eq_spec(&self, other: &VaultType) -> bool {
        *self == *other
    }
}

/// What a pending action holds, as plain values.
pub struct VaultActionView {
    pub action_index: u8,
    pub action_type: ActionType,
    pub approvers: Seq<Pubkey>,
    pub action: Seq<u8>,
}

/// A withdrawal that waits for approvals.
#[derive(Clone, Debug, PartialEq, Eq)]
pub struct VaultAction {
    /// Identifier of the action among those pending on its vault.
    pub action_index: u8,
    pub action_type: ActionType,
    /// Who has approved so far, the initiator first; nobody twice.
    pub approvers: Vec<Pubkey>,
    /// The encoded payload; what it holds depends on `action_type`.
    pub action: Vec<u8>,
}

impl View for VaultAction {
    type V = VaultActionView;

    open spec fn view(&self) -> VaultActionView {
        VaultActionView {
            action_index: self.action_index,
            action_type: self.action_type,
            approvers: self.approvers@,
            action: self.action@,
        }
    }
}

/// The approver list after `approver` has approved: the list with
/// `approver` at its end, or `AlreadyApproved` where the list holds
/// `approver` already.
pub open spec fn approved(approvers: Seq<Pubkey>, approver: Pubkey) -> Result<
    Seq<Pubkey>,
    StacheError,
> {
    if approvers.contains(approver) {
        Err(StacheError::AlreadyApproved)
    } else {
        Ok(approvers.push(approver))
    }
}

/// An approval counts once: a successful approval makes the list longer by
/// exactly the approver, keeps it free of duplicates, and the same approver
/// is then refused with `AlreadyApproved`. Nothing else is ever refused.
pub proof fn lemma_approve_once(approvers: Seq<Pubkey>, approver: Pubkey)
    ensures
        match approved(approvers, approver) {
            Ok(list) => {
                &&& !approvers.contains(approver)
                &&& list.len() == approvers.len() + 1
                &&& list.drop_last() == approvers
                &&& list.last() == approver
                &&& approved(list, approver) == Err::<Seq<Pubkey>, StacheError>(
                    StacheError::AlreadyApproved,
                )
                &&& approvers.no_duplicates() ==> list.no_duplicates()
            },
            Err(e) => e == StacheError::AlreadyApproved && approvers.contains(approver),
        },
{
    if !approvers.contains(approver) {
        let list = approvers.push(approver);
        assert(list.drop_last() =~= approvers);
        assert(list[approvers.len() as int] == approver);
    }
}

/// Whether `list` holds `key`.
fn holds_key(list: &Vec<Pubkey>, key: &Pubkey) -> (r: bool)
    ensures
        r == list@.contains(*key),
{
    let mut i: usize = 0;
    while i < list.len()
        invariant
            i <= list@.len(),
            forall|j: int| 0 <= j < i ==> list@[j] != *key,
        decreases list@.len() - i,
    {
        if list[i] == *key {
            return true;
        }
        i += 1;
    }
    false
}

impl VaultAction {
    /// Bytes that a stored action takes.
    pub const MAX_SIZE: usize = 1 + 1 + 4 + (32 * MAX_VAULTS) + 128;

    /// Nobody is on the approver list twice.
    pub open spec fn wf(&self) -> bool {
        self.approvers@.no_duplicates()
    }

    /// Decodes the payload as a transfer. Fails with `InvalidAction` when
    /// the action is of another kind, and with `MalformedPayload` when the
    /// bytes are no transfer. The action stays as it is.
    pub fn transfer_action(&mut self) -> (res: Result<TransferAction, StacheError>)
        ensures
            res == stored_transfer(Some(old(self).action_type), Some(old(self).action@)),
            *final(self) == *old(self),
    {
        if self.action_type != ActionType::Transfer {
            return Err(StacheError::InvalidAction);
        }
        TransferAction::decode(self.action.as_slice())
    }

    /// Puts `approver` on the approver list. Fails with `AlreadyApproved`,
    /// changing nothing, when `approver` is on it already.
    pub fn approve(&mut self, approver: &Pubkey) -> (res: Result<(), StacheError>)
        ensures
            match approved(old(self).approvers@, *approver) {
                Ok(list) => {
                    &&& res == Ok::<(), StacheError>(())
                    &&& final(self).approvers@ == list
                    &&& *final(self) == (VaultAction {
                        approvers: final(self).approvers,
                        ..*old(self)
                    })
                },
                Err(e) => res == Err::<(), StacheError>(e) && *final(self) == *old(self),
            },
            old(self).wf() ==> final(self).wf(),
    {
        if holds_key(&self.approvers, approver) {
            return Err(StacheError::AlreadyApproved);
        }
        self.approvers.push(*approver);
        Ok(())
    }

    /// How many have approved.
    pub fn count_approvers(&self) -> (n: usize)
        ensures
            n == self.approvers@.len(),
    {
        self.approvers.len()
    }
}

/// The identifiers of `actions`, in their order.
pub open spec fn action_ids(actions: Seq<VaultAction>) -> Seq<u8> {
    actions.map_values(|a: VaultAction| a.action_index)
}

/// Position of the first of `actions` whose identifier is `action_index`.
fn find_action(actions: &Vec<VaultAction>, action_index: u8) -> (res: Option<usize>)
    ensures
        found(action_ids(actions@), action_index, res),
        res.is_some() == action_ids(actions@).contains(action_index),
{
    let ghost ids = action_ids(actions@);
    let mut i: usize = 0;
    while i < actions.len()
        invariant
            i <= actions@.len(),
            ids == action_ids(actions@),
            forall|j: int| 0 <= j < i ==> ids[j] != action_index,
        decreases actions@.len() - i,
    {
        if actions[i].action_index == action_index {
            proof {
                assert(ids[i as int] == action_index);
                ids.index_of_first_ensures(action_index);
            }
            return Some(i);
        }
        i += 1;
    }
    proof {
        ids.index_of_first_ensures(action_index);
    }
    None
}

/// A container of funds with its own rule for withdrawals, the actions
/// that wait on it and the sessions that are open on it.
#[derive(Clone, Debug, PartialEq, Eq)]
pub struct Vault {
    pub stache: Pubkey,
    pub index: u8,
    pub bump: u8,
    pub vault_type: VaultType,
    /// A locked vault starts no withdrawal, whatever its rule.
    pub locked: bool,
    pub name: String,
    /// Identifier of the next action.
    pub next_action_index: u8,
    /// The pending actions, in no particular order.
    pub actions: Vec<VaultAction>,
    /// Identifier of the next session.
    pub next_session_index: u8,
    /// Identifiers of the live sessions, in no particular order.
    pub sessions: Vec<u8>,
}

impl Vault {
    /// Bytes that a stored vault takes.
    pub const MAX_SIZE: usize = 32 + 1 + 1 + 1 + 1 + 32 + 1 + 32 + (4 + (MAX_VAULT_ACTIONS
        * VaultAction::MAX_SIZE)) + 1 + (4 + (MAX_VAULT_SESSIONS)) + 128;

    /// Both lists are within their capacities, cursors and identifiers are
    /// in range, and no action has an approver twice.
    pub open spec fn wf(&self) -> bool {
        &&& self.actions@.len() <= MAX_VAULT_ACTIONS
        &&& self.sessions@.len() <= MAX_VAULT_SESSIONS
        &&& cursor_in_range(self.next_action_index)
        &&& cursor_in_range(self.next_session_index)
        &&& indices_in_range(action_ids(self.actions@))
        &&& indices_in_range(self.sessions@)
        &&& forall|i: int| 0 <= i < self.actions@.len() ==> (#[trigger] self.actions@[i]).wf()
    }

    /// An unlocked vault without pending actions and sessions, whose
    /// cursors start at 1.
    pub fn new(stache: Pubkey, index: u8, bump: u8, vault_type: VaultType, name: String) -> (vault:
        Vault)
        ensures
            vault.wf(),
            vault.stache == stache,
            vault.index == index,
            vault.bump == bump,
            vault.vault_type == vault_type,
            !vault.locked,
            vault.name == name,
            vault.next_action_index == 1,
            vault.actions@ == Seq::<VaultAction>::empty(),
            vault.next_session_index == 1,
            vault.sessions@ == Seq::<u8>::empty(),
    {
        Vault {
            stache,
            index,
            bump,
            vault_type,
            locked: false,
            name,
            next_action_index: 1,
            actions: Vec::new(),
            next_session_index: 1,
            sessions: Vec::new(),
        }
    }

    /// Whether a withdrawal asked for now would open a pending action.
    pub open spec fn opens_action(&self) -> bool {
        &&& !self.locked
        &&& self.vault_type == VaultType::TwoSig
        &&& self.actions@.len() < MAX_VAULT_ACTIONS
    }

    /// What a withdrawal asked for now would report: `Ok(true)` to go
    /// ahead, `Ok(false)` where funds must not move yet, or the failure.
    pub open spec fn withdraw_outcome(&self) -> Result<bool, StacheError> {
        if self.locked {
            Err(StacheError::VaultLocked)
        } else {
            match self.vault_type {
                VaultType::Easy => Ok(true),
                VaultType::TwoSig => if self.actions@.len() >= MAX_VAULT_ACTIONS {
                    Err(StacheError::CapacityExceeded)
                } else {
                    Ok(false)
                },
                VaultType::Squads { .. } => Ok(false),
            }
        }
    }

    /// The pending action `action_index`, to read or to change.
    pub fn get_action(&mut self, action_index: u8) -> (res: Option<&mut VaultAction>)
        ensures
            match action_ids(old(self).actions@).index_of_first(action_index) {
                Some(i) => {
                    &&& res.is_some()
                    &&& *res.unwrap() == old(self).actions@[i]
                    &&& final(self).actions@ == old(self).actions@.update(i, *final(res.unwrap()))
                    &&& *final(self) == (Vault { actions: final(self).actions, ..*old(self) })
                },
                None => res.is_none() && *final(self) == *old(self),
            },
    {
        match find_action(&self.actions, action_index) {
            Some(index) => Some(&mut self.actions[index]),
            None => None,
        }
    }

    /// Position of the pending action `action_index`, if there is one.
    pub fn is_action(&self, action_index: u8) -> (res: Option<usize>)
        ensures
            found(action_ids(self.actions@), action_index, res),
            res.is_some() == action_ids(self.actions@).contains(action_index),
    {
        find_action(&self.actions, action_index)
    }

    /// Takes the pending action `index` out of the list, by moving the last
    /// action into its place. Where no such action is pending, nothing
    /// changes and nothing is reported.
    pub fn remove_action(&mut self, index: u8)
        ensures
            final(self).actions@ == swap_removed(
                old(self).actions@,
                action_ids(old(self).actions@).index_of_first(index),
            ),
            action_ids(final(self).actions@) == released(action_ids(old(self).actions@), index),
            !action_ids(old(self).actions@).contains(index) ==> *final(self) == *old(self),
            *final(self) == (Vault { actions: final(self).actions, ..*old(self) }),
            old(self).wf() ==> final(self).wf(),
    {
        proof {
            action_ids(self.actions@).index_of_first_ensures(index);
        }
        match find_action(&self.actions, index) {
            Some(at) => {
                self.actions.swap_remove(at);
                proof {
                    assert(action_ids(self.actions@) =~= released(
                        action_ids(old(self).actions@),
                        index,
                    ));
                }
            },
            None => {},
        }
    }

    /// Makes the identifier under the session cursor live and returns it.
    /// Fails with `CapacityExceeded`, changing nothing, when
    /// `MAX_VAULT_SESSIONS` sessions are live.
    pub fn add_session(&mut self) -> (res: Result<u8, StacheError>)
        ensures
            old(self).sessions@.len() >= MAX_VAULT_SESSIONS ==> {
                &&& res == Err::<u8, StacheError>(StacheError::CapacityExceeded)
                &&& *final(self) == *old(self)
            },
            old(self).sessions@.len() < MAX_VAULT_SESSIONS ==> {
                &&& res == Ok::<u8, StacheError>(old(self).next_session_index)
                &&& final(self).sessions@ == old(self).sessions@.push(
                    old(self).next_session_index,
                )
                &&& final(self).next_session_index == next_cursor(old(self).next_session_index)
                &&& *final(self) == (Vault {
                    sessions: final(self).sessions,
                    next_session_index: final(self).next_session_index,
                    ..*old(self)
                })
            },
            old(self).wf() ==> final(self).wf(),
    {
        add_index(&mut self.sessions, MAX_VAULT_SESSIONS, &mut self.next_session_index)
    }

    /// Takes the session `index` out of the live list, by moving the last
    /// entry into its place. Where no such session is live, nothing changes
    /// and nothing is reported.
    pub fn remove_session(&mut self, index: u8)
        ensures
            final(self).sessions@ == released(old(self).sessions@, index),
            !old(self).sessions@.contains(index) ==> *final(self) == *old(self),
            *final(self) == (Vault { sessions: final(self).sessions, ..*old(self) }),
            old(self).wf() ==> final(self).wf(),
    {
        proof {
            self.sessions@.index_of_first_ensures(index);
        }
        remove_index(&mut self.sessions, index);
    }

    /// Asks for a withdrawal of `amount` from `from` to `to` on behalf of
    /// `initiator`, and says whether to go ahead with it.
    ///
    /// A locked vault fails with `VaultLocked`. An `Easy` vault answers
    /// `true`. A `TwoSig` vault opens a pending transfer under the
    /// identifier of its action cursor, with `initiator` as the first
    /// approver, moves the cursor on and answers `false`; with
    /// `MAX_VAULT_ACTIONS` actions pending it fails with
    /// `CapacityExceeded`. A `Squads` vault is left to its multisig and
    /// answers `false`. Only a `TwoSig` vault that opens an action changes.
    pub fn withdraw(&mut self, initiator: &Pubkey, from: &Pubkey, to: &Pubkey, amount: u64) -> (res:
        Result<bool, StacheError>)
        ensures
            res == old(self).withdraw_outcome(),
            old(self).locked ==> res == Err::<bool, StacheError>(StacheError::VaultLocked),
            !old(self).opens_action() ==> *final(self) == *old(self),
            action_ids(final(self).actions@) == if old(self).opens_action() {
                action_ids(old(self).actions@).push(old(self).next_action_index)
            } else {
                action_ids(old(self).actions@)
            },
            old(self).opens_action() ==> {
                &&& final(self).actions@.len() == old(self).actions@.len() + 1
                &&& final(self).actions@.drop_last() == old(self).actions@
                &&& final(self).actions@.last()@ == (VaultActionView {
                    action_index: old(self).next_action_index,
                    action_type: ActionType::Transfer,
                    approvers: seq![*initiator],
                    action: (TransferAction { from: *from, to: *to, amount }).wire(),
                })
                &&& final(self).next_action_index == next_cursor(old(self).next_action_index)
                &&& *final(self) == (Vault {
                    actions: final(self).actions,
                    next_action_index: final(self).next_action_index,
                    ..*old(self)
                })
            },
            old(self).wf() ==> final(self).wf(),
    {
        if self.locked {
            return Err(StacheError::VaultLocked);
        }
        match self.vault_type {
            VaultType::Easy => Ok(true),
            VaultType::TwoSig => {
                if self.actions.len() >= MAX_VAULT_ACTIONS {
                    return Err(StacheError::CapacityExceeded);
                }
                let action_index: u8 = self.next_action_index;
                self.next_action_index = if action_index >= LAST_INDEX {
                    1
                } else {
                    action_index + 1
                };
                let mut approvers: Vec<Pubkey> = Vec::new();
                approvers.push(*initiator);
                let action = VaultAction {
                    action_index,
                    action_type: ActionType::Transfer,
                    approvers,
                    action: (TransferAction { from: *from, to: *to, amount }).encode(),
                };
                self.actions.push(action);
                proof {
                    assert(self.actions@.drop_last() =~= old(self).actions@);
                    assert(action_ids(self.actions@) =~= action_ids(old(self).actions@).push(
                        action_index,
                    ));
                }
                Ok(false)
            },
            VaultType::Squads { .. } => Ok(false),
        }
    }

    /// Puts `approver` on the approver list of the pending action
    /// `action_index`. Fails with `InvalidIndex` when no such action is
    /// pending and with `AlreadyApproved` when `approver` is on the list
    /// already; either way nothing changes.
    pub fn approve(&mut self, action_index: u8, approver: &Pubkey) -> (res: Result<
        (),
        StacheError,
    >)
        ensures
            match action_ids(old(self).actions@).index_of_first(action_index) {
                None => res == Err::<(), StacheError>(StacheError::InvalidIndex) && *final(self)
                    == *old(self),
                Some(i) => match approved(old(self).actions@[i].approvers@, *approver) {
                    Err(e) => res == Err::<(), StacheError>(e) && *final(self) == *old(self),
                    Ok(list) => {
                        &&& res == Ok::<(), StacheError>(())
                        &&& final(self).actions@.len() == old(self).actions@.len()
                        &&& final(self).actions@[i]@ == (VaultActionView {
                            approvers: list,
                            ..old(self).actions@[i]@
                        })
                        &&& forall|j: int|
                            0 <= j < old(self).actions@.len() && j != i
                                ==> final(self).actions@[j] == old(self).actions@[j]
                        &&& *final(self) == (Vault { actions: final(self).actions, ..*old(self) })
                    },
                },
            },
            old(self).wf() ==> final(self).wf(),
    {
        let at = match find_action(&self.actions, action_index) {
            Some(at) => at,
            None => {
                return Err(StacheError::InvalidIndex);
            },
        };
        if holds_key(&self.actions[at].approvers, approver) {
            return Err(StacheError::AlreadyApproved);
        }
        let res = self.actions[at].approve(approver);
        proof {
            let before = old(self).actions@;
            let after = self.actions@;
            assert(action_ids(after) =~= action_ids(before));
            assert forall|j: int| 0 <= j < after.len() && old(self).wf() implies (
            #[trigger] after[j]).wf() by {
                if j != at {
                    assert(after[j] == before[j]);
                }
            }
        }
        res
    }

    /// Whether the vault's rule is `vault_type`.
    pub fn is_type(&self, vault_type: VaultType) -> (r: bool)
        ensures
            r == (self.vault_type == vault_type),
    {
        self.vault_type == vault_type
    }
}

/// An action with a trigger, kept for a scheduler to fire.
#[derive(Clone, Debug, PartialEq, Eq)]
pub struct Auto {
    pub stache: Pubkey,
    pub index: u8,
    pub bump: u8,
    pub active: bool,
    pub paused: bool,
    /// How often the trigger has fired.
    pub num_triggers: u32,
    /// How often the action has been taken.
    pub num_execs: u32,
    /// Handle of the scheduler's thread, if one is set up.
    pub thread: Option<Pubkey>,
    pub name: String,
    pub action_type: Option<ActionType>,
    /// The encoded action; what it holds depends on `action_type`.
    pub action: Option<Vec<u8>>,
    pub trigger_type: Option<TriggerType>,
    /// The encoded trigger; what it holds depends on `trigger_type`.
    pub trigger: Option<Vec<u8>>,
}

impl Auto {
    /// Bytes that a stored automation takes.
    pub const MAX_SIZE: usize = 32 + 1 + 1 + 1 + 1 + 4 + 4 + 1 + 32 + 32 + 1 + 1 + 1 + 1 + 128;

    /// Decodes the stored action as a transfer. Fails with `MissingAction`
    /// when kind or bytes are absent, with `InvalidAction` when the kind is
    /// another, and with `MalformedPayload` when the bytes are no transfer.
    /// The automation stays as it is.
    pub fn transfer_action(&mut self) -> (res: Result<TransferAction, StacheError>)
        ensures
            res == stored_transfer(old(self).action_type, stored_bytes(old(self).action)),
            *final(self) == *old(self),
    {
        match &self.action_type {
            Some(action_type) => {
                if *action_type != ActionType::Transfer {
                    return Err(StacheError::InvalidAction);
                }
            },
            None => {
                return Err(StacheError::MissingAction);
            },
        }
        match &self.action {
            Some(bytes) => TransferAction::decode(bytes.as_slice()),
            None => Err(StacheError::MissingAction),
        }
    }

    /// Decodes the stored trigger as a balance trigger. Fails with
    /// `MissingTrigger` when kind or bytes are absent, with `InvalidTrigger`
    /// when the kind is another, and with `MalformedPayload` when the bytes
    /// are no balance trigger. The automation stays as it is.
    pub fn balance_trigger(&mut self) -> (res: Result<BalanceTrigger, StacheError>)
        ensures
            res == stored_balance_trigger(old(self).trigger_type, stored_bytes(old(self).trigger)),
            *final(self) == *old(self),
    {
        match &self.trigger_type {
            Some(trigger_type) => {
                if *trigger_type != TriggerType::Balance {
                    return Err(StacheError::InvalidTrigger);
                }
            },
            None => {
                return Err(StacheError::MissingTrigger);
            },
        }
        match &self.trigger {
            Some(bytes) => BalanceTrigger::decode(bytes.as_slice()),
            None => Err(StacheError::MissingTrigger),
        }
    }
}

/// Keys that may act on a vault between two points in time.
#[derive(Clone, Debug, PartialEq, Eq)]
pub struct Session {
    pub vault: Pubkey,
    pub index: u8,
    pub bump: u8,
    pub start_time: i64,
    /// 0 for a session without an end.
    pub end_time: i64,
    pub allowed_keys: Vec<Pubkey>,
}

impl Session {
    /// Bytes that a stored session takes.
    pub const MAX_SIZE: usize = 32 + 1 + 1 + 8 + 8 + 4 + (32 * MAX_SESSION_KEYS);
}

} // verus!
