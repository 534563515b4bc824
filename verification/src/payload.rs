//! The closed set of action and trigger payloads, and their byte form.
//!
//! A payload is stored as a kind tag and, apart from it, the bytes of the
//! record: its fields one after the other, a key as its 32 bytes, an amount
//! as eight bytes least significant first, a flag as one byte.

use vstd::prelude::*;
use vstd::bytes::*;
use vstd::slice::*;
use crate::error::StacheError;
use crate::key::{lemma_key_by_bytes, Pubkey};
use crate::wire::{
    flag_byte, put_bool, put_bytes32, put_u64, take_bool, take_bytes32, take_u64, KEY_LEN, U64_LEN,
};

verus! {

/// What a stored action does.
#[derive(Clone, Copy, Debug, PartialEq, Eq, Structural)]
pub enum ActionType {
    /// Moves funds from one account to another.
    Transfer,
}

/// What sets a stored action off.
#[derive(Clone, Copy, Debug, PartialEq, Eq, Structural)]
pub enum TriggerType {
    /// A watched balance crosses a threshold.
    Balance,
}

/// A transfer of `amount` units from `from` to `to`.
#[derive(Clone, Copy, Debug, PartialEq, Eq)]
pub struct TransferAction {
    pub from: Pubkey,
    pub to: Pubkey,
    pub amount: u64,
}

/// Fires when the balance of `account` gets above `trigger_balance`
/// (`above`), or below it.
#[derive(Clone, Copy, Debug, PartialEq, Eq)]
pub struct BalanceTrigger {
    pub account: Pubkey,
    pub trigger_balance: u64,
    pub above: bool,
}

/// Length of an encoded transfer.
pub const TRANSFER_LEN: usize = 72;

/// Length of an encoded balance trigger.
pub const BALANCE_TRIGGER_LEN: usize = 41;

impl TransferAction {
    /// Bytes set aside for a transfer in a stored action.
    pub const MAX_SIZE: usize = 8 + 32;

    /// The bytes that stand for this transfer.
    pub open spec fn wire(self) -> Seq<u8> {
        self.from@ + self.to@ + spec_u64_to_le_bytes(self.amount)
    }

    /// The transfer that `bytes` begin with: the one whose encoding is their
    /// first 72 bytes. Bytes after those are not looked at.
    pub open spec fn parse(bytes: Seq<u8>) -> Option<TransferAction> {
        if bytes.len() >= TRANSFER_LEN {
            Some(
                choose|t: TransferAction|
                    t.wire() == bytes.subrange(0, TRANSFER_LEN as int),
            )
        } else {
            None
        }
    }

    /// An encoding has 72 bytes, and no two transfers share one.
    pub proof fn lemma_wire_injective(self, other: TransferAction)
        ensures
            self.wire().len() == TRANSFER_LEN,
            self.wire() == other.wire() <==> self == other,
    {
        lemma_auto_spec_u64_to_from_le_bytes();
        lemma_key_by_bytes(self.from, other.from);
        lemma_key_by_bytes(self.to, other.to);
        if self.wire() == other.wire() {
            assert(self.from@ =~= self.wire().subrange(0, 32));
            assert(other.from@ =~= other.wire().subrange(0, 32));
            assert(self.to@ =~= self.wire().subrange(32, 64));
            assert(other.to@ =~= other.wire().subrange(32, 64));
            assert(spec_u64_to_le_bytes(self.amount) =~= self.wire().subrange(64, 72));
            assert(spec_u64_to_le_bytes(other.amount) =~= other.wire().subrange(64, 72));
            assert(spec_u64_from_le_bytes(spec_u64_to_le_bytes(self.amount)) == self.amount);
            assert(spec_u64_from_le_bytes(spec_u64_to_le_bytes(other.amount)) == other.amount);
        }
    }

    /// Decoding what was encoded gives the transfer back, whatever follows
    /// the encoding.
    pub proof fn lemma_round_trip(self, tail: Seq<u8>)
        ensures
            TransferAction::parse(self.wire()) == Some(self),
            TransferAction::parse(self.wire() + tail) == Some(self),
    {
        self.lemma_wire_injective(self);
        assert(self.wire().subrange(0, TRANSFER_LEN as int) =~= self.wire());
        assert((self.wire() + tail).subrange(0, TRANSFER_LEN as int) =~= self.wire());
        let t = choose|t: TransferAction| t.wire() == self.wire();
        self.lemma_wire_injective(t);
    }

    /// Encodes the transfer.
    pub fn encode(&self) -> (out: Vec<u8>)
        ensures
            out@ == self.wire(),
            out@.len() == TRANSFER_LEN,
    {
        proof {
            self.lemma_wire_injective(*self);
        }
        let mut out = put_bytes32(&self.from.bytes);
        let mut to = put_bytes32(&self.to.bytes);
        let mut amount = put_u64(self.amount);
        out.append(&mut to);
        out.append(&mut amount);
        out
    }

    /// Decodes the transfer at the front of `bytes`.
    ///
    /// Fails with `MalformedPayload` exactly when `bytes` are too few.
    pub fn decode(bytes: &[u8]) -> (res: Result<TransferAction, StacheError>)
        ensures
            res == match TransferAction::parse(bytes@) {
                Some(t) => Ok::<TransferAction, StacheError>(t),
                None => Err::<TransferAction, StacheError>(StacheError::MalformedPayload),
            },
    {
        let from = match take_bytes32(bytes) {
            Some(b) => Pubkey { bytes: b },
            None => { return Err(StacheError::MalformedPayload); },
        };
        let rest = slice_subrange(bytes, KEY_LEN, bytes.len());
        let to = match take_bytes32(rest) {
            Some(b) => Pubkey { bytes: b },
            None => { return Err(StacheError::MalformedPayload); },
        };
        let rest = slice_subrange(rest, KEY_LEN, rest.len());
        let amount = match take_u64(rest) {
            Some(a) => a,
            None => { return Err(StacheError::MalformedPayload); },
        };
        let t = TransferAction { from, to, amount };
        proof {
            lemma_auto_spec_u64_to_from_le_bytes();
            let head = bytes@.subrange(0, TRANSFER_LEN as int);
            assert(bytes@.subrange(32, bytes@.len() as int).subrange(0, 32) =~= head.subrange(32, 64));
            assert(bytes@.subrange(32, bytes@.len() as int).subrange(32, bytes@.len() - 32).subrange(0, 8)
                =~= head.subrange(64, 72));
            assert(spec_u64_to_le_bytes(amount) == head.subrange(64, 72));
            assert(t.wire() =~= head);
            let c = choose|c: TransferAction| c.wire() == head;
            t.lemma_wire_injective(c);
        }
        Ok(t)
    }
}

impl BalanceTrigger {
    /// The bytes that stand for this trigger.
    pub open spec fn wire(self) -> Seq<u8> {
        self.account@ + spec_u64_to_le_bytes(self.trigger_balance) + seq![flag_byte(self.above)]
    }

    /// The trigger that `bytes` begin with: the one whose encoding is their
    /// first 41 bytes, where the last of those is a flag. Bytes after those
    /// are not looked at.
    pub open spec fn parse(bytes: Seq<u8>) -> Option<BalanceTrigger> {
        if bytes.len() >= BALANCE_TRIGGER_LEN && bytes[BALANCE_TRIGGER_LEN - 1] <= 1 {
            Some(
                choose|t: BalanceTrigger|
                    t.wire() == bytes.subrange(0, BALANCE_TRIGGER_LEN as int),
            )
        } else {
            None
        }
    }

    /// An encoding has 41 bytes, the last of them 0 or 1, and no two
    /// triggers share one.
    pub proof fn lemma_wire_injective(self, other: BalanceTrigger)
        ensures
            self.wire().len() == BALANCE_TRIGGER_LEN,
            self.wire()[BALANCE_TRIGGER_LEN - 1] == flag_byte(self.above),
            self.wire() == other.wire() <==> self == other,
    {
        lemma_auto_spec_u64_to_from_le_bytes();
        lemma_key_by_bytes(self.account, other.account);
        if self.wire() == other.wire() {
            assert(self.account@ =~= self.wire().subrange(0, 32));
            assert(other.account@ =~= other.wire().subrange(0, 32));
            assert(spec_u64_to_le_bytes(self.trigger_balance) =~= self.wire().subrange(32, 40));
            assert(spec_u64_to_le_bytes(other.trigger_balance) =~= other.wire().subrange(32, 40));
            assert(spec_u64_from_le_bytes(spec_u64_to_le_bytes(self.trigger_balance))
                == self.trigger_balance);
            assert(spec_u64_from_le_bytes(spec_u64_to_le_bytes(other.trigger_balance))
                == other.trigger_balance);
            assert(self.wire()[40] == flag_byte(self.above));
            assert(other.wire()[40] == flag_byte(other.above));
        }
    }

    /// Decoding what was encoded gives the trigger back, whatever follows
    /// the encoding.
    pub proof fn lemma_round_trip(self, tail: Seq<u8>)
        ensures
            BalanceTrigger::parse(self.wire()) == Some(self),
            BalanceTrigger::parse(self.wire() + tail) == Some(self),
    {
        self.lemma_wire_injective(self);
        assert(self.wire().subrange(0, BALANCE_TRIGGER_LEN as int) =~= self.wire());
        assert((self.wire() + tail).subrange(0, BALANCE_TRIGGER_LEN as int) =~= self.wire());
        let t = choose|t: BalanceTrigger| t.wire() == self.wire();
        self.lemma_wire_injective(t);
    }

    /// Encodes the trigger.
    pub fn encode(&self) -> (out: Vec<u8>)
        ensures
            out@ == self.wire(),
            out@.len() == BALANCE_TRIGGER_LEN,
    {
        proof {
            self.lemma_wire_injective(*self);
        }
        let mut out = put_bytes32(&self.account.bytes);
        let mut balance = put_u64(self.trigger_balance);
        let mut above = put_bool(self.above);
        out.append(&mut balance);
        out.append(&mut above);
        out
    }

    /// Decodes the trigger at the front of `bytes`.
    ///
    /// Fails with `MalformedPayload` exactly when `bytes` are too few or the
    /// byte of the flag is neither 0 nor 1.
    pub fn decode(bytes: &[u8]) -> (res: Result<BalanceTrigger, StacheError>)
        ensures
            res == match BalanceTrigger::parse(bytes@) {
                Some(t) => Ok::<BalanceTrigger, StacheError>(t),
                None => Err::<BalanceTrigger, StacheError>(StacheError::MalformedPayload),
            },
    {
        let account = match take_bytes32(bytes) {
            Some(b) => Pubkey { bytes: b },
            None => { return Err(StacheError::MalformedPayload); },
        };
        let rest = slice_subrange(bytes, KEY_LEN, bytes.len());
        let trigger_balance = match take_u64(rest) {
            Some(a) => a,
            None => { return Err(StacheError::MalformedPayload); },
        };
        let rest = slice_subrange(rest, U64_LEN, rest.len());
        let above = match take_bool(rest) {
            Some(b) => b,
            None => { return Err(StacheError::MalformedPayload); },
        };
        let t = BalanceTrigger { account, trigger_balance, above };
        proof {
            lemma_auto_spec_u64_to_from_le_bytes();
            let head = bytes@.subrange(0, BALANCE_TRIGGER_LEN as int);
            assert(bytes@.subrange(32, bytes@.len() as int).subrange(0, 8) =~= head.subrange(32, 40));
            assert(spec_u64_to_le_bytes(trigger_balance) == head.subrange(32, 40));
            assert(t.wire() =~= head);
            let c = choose|c: BalanceTrigger| c.wire() == head;
            t.lemma_wire_injective(c);
        }
        Ok(t)
    }
}

/// What is stored of a payload's bytes, as a sequence.
pub open spec fn stored_bytes(payload: Option<Vec<u8>>) -> Option<Seq<u8>> {
    match payload {
        Some(bytes) => Some(bytes@),
        None => None,
    }
}

/// What decoding a stored action as a transfer gives.
///
/// The kind is looked at first: none stored is `MissingAction`, another
/// kind than `Transfer` is `InvalidAction`. Then the bytes: none stored is
/// `MissingAction`, bytes that are no transfer are `MalformedPayload`.
pub open spec fn stored_transfer(kind: Option<ActionType>, payload: Option<Seq<u8>>) -> Result<
    TransferAction,
    StacheError,
> {
    match kind {
        None => Err(StacheError::MissingAction),
        Some(k) => if k != ActionType::Transfer {
            Err(StacheError::InvalidAction)
        } else {
            match payload {
                None => Err(StacheError::MissingAction),
                Some(bytes) => match TransferAction::parse(bytes) {
                    Some(t) => Ok(t),
                    None => Err(StacheError::MalformedPayload),
                },
            }
        },
    }
}

/// What decoding a stored trigger as a balance trigger gives.
///
/// The kind is looked at first: none stored is `MissingTrigger`, another
/// kind than `Balance` is `InvalidTrigger`. Then the bytes: none stored is
/// `MissingTrigger`, bytes that are no balance trigger are
/// `MalformedPayload`.
pub open spec fn stored_balance_trigger(
    kind: Option<TriggerType>,
    payload: Option<Seq<u8>>,
) -> Result<BalanceTrigger, StacheError> {
    match kind {
        None => Err(StacheError::MissingTrigger),
        Some(k) => if k != TriggerType::Balance {
            Err(StacheError::InvalidTrigger)
        } else {
            match payload {
                None => Err(StacheError::MissingTrigger),
                Some(bytes) => match BalanceTrigger::parse(bytes) {
                    Some(t) => Ok(t),
                    None => Err(StacheError::MalformedPayload),
                },
            }
        },
    }
}

/// A payload that was encoded and stored under its own kind decodes to
/// itself; under any other kind the decoder refuses it.
pub proof fn lemma_stored_round_trip(transfer: TransferAction, trigger: BalanceTrigger)
    ensures
        stored_transfer(Some(ActionType::Transfer), Some(transfer.wire())) == Ok::<
            TransferAction,
            StacheError,
        >(transfer),
        stored_balance_trigger(Some(TriggerType::Balance), Some(trigger.wire())) == Ok::<
            BalanceTrigger,
            StacheError,
        >(trigger),
        forall|kind: ActionType, payload: Option<Seq<u8>>|
            kind != ActionType::Transfer ==> #[trigger] stored_transfer(Some(kind), payload)
                == Err::<TransferAction, StacheError>(StacheError::InvalidAction),
        forall|kind: TriggerType, payload: Option<Seq<u8>>|
            kind != TriggerType::Balance ==> #[trigger] stored_balance_trigger(Some(kind), payload)
                == Err::<BalanceTrigger, StacheError>(StacheError::InvalidTrigger),
{
    transfer.lemma_round_trip(Seq::empty());
    trigger.lemma_round_trip(Seq::empty());
}

} // verus!
