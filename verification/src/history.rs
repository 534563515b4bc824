//! Histories of calls on a list of live identifiers, and what holds of the
//! list after any of them.

use vstd::prelude::*;
use crate::util::{cursor_after, next_cursor, released, LAST_INDEX};

verus! {

/// One call on a list of live identifiers and its cursor.
pub enum SlotCall {
    /// `add_index`.
    Allocate,
    /// `remove_index` of the identifier.
    Release(u8),
}

/// The list and the cursor after `call`, under the capacity `max`.
pub open spec fn after_call(live: Seq<u8>, cursor: u8, max: nat, call: SlotCall) -> (Seq<u8>, u8) {
    match call {
        SlotCall::Allocate => if live.len() >= max {
            (live, cursor)
        } else {
            (live.push(cursor), next_cursor(cursor))
        },
        SlotCall::Release(index) => (released(live, index), cursor),
    }
}

/// The list and the cursor after `calls`, one after the other.
pub open spec fn after_calls(live: Seq<u8>, cursor: u8, max: nat, calls: Seq<SlotCall>) -> (
    Seq<u8>,
    u8,
)
    decreases calls.len(),
{
    if calls.len() == 0 {
        (live, cursor)
    } else {
        let before = after_calls(live, cursor, max, calls.drop_last());
        after_call(before.0, before.1, max, calls.last())
    }
}

/// No allocation among `calls` that finds room hands out an identifier that
/// is live at that moment.
pub open spec fn issues_fresh(live: Seq<u8>, cursor: u8, max: nat, calls: Seq<SlotCall>) -> bool {
    forall|k: int|
        0 <= k < calls.len() && #[trigger] calls[k] == SlotCall::Allocate ==> {
            let before = after_calls(live, cursor, max, calls.take(k));
            before.0.len() >= max || !before.0.contains(before.1)
        }
}

/// The cycle of the cursor: it never comes to 0, and from a cursor between
/// 1 and `LAST_INDEX` the identifiers go up by one until `LAST_INDEX` and
/// start over at 1.
pub proof fn lemma_cursor_cycle(cursor: u8, n: nat)
    ensures
        1 <= next_cursor(cursor) <= LAST_INDEX,
        n >= 1 ==> 1 <= cursor_after(cursor, n) <= LAST_INDEX,
        cursor < LAST_INDEX ==> next_cursor(cursor) == cursor + 1,
        cursor == LAST_INDEX ==> next_cursor(cursor) == 1,
        1 <= cursor <= LAST_INDEX ==> cursor_after(cursor, n) == (cursor - 1 + n) % 254 + 1,
    decreases n,
{
    if n > 0 {
        lemma_cursor_cycle(cursor, (n - 1) as nat);
    }
}

/// Appending keeps a list free of duplicates exactly when the new entry is
/// not in it yet.
pub proof fn lemma_add_keeps_unique(live: Seq<u8>, cursor: u8)
    requires
        live.no_duplicates(),
    ensures
        live.push(cursor).no_duplicates() <==> !live.contains(cursor),
{
    let pushed = live.push(cursor);
    if live.contains(cursor) {
        let i = choose|i: int| 0 <= i < live.len() && live[i] == cursor;
        assert(pushed[i] == pushed[live.len() as int]);
    }
}

/// Releasing keeps a list free of duplicates, and takes out the released
/// identifier and no other.
pub proof fn lemma_release_keeps_unique(live: Seq<u8>, index: u8)
    requires
        live.no_duplicates(),
    ensures
        released(live, index).no_duplicates(),
        !released(live, index).contains(index),
        forall|other: u8|
            other != index ==> (released(live, index).contains(other) <==> live.contains(other)),
        released(live, index).len() == if live.contains(index) {
            live.len() - 1
        } else {
            live.len() as int
        },
{
    live.index_of_first_ensures(index);
    let after = released(live, index);
    match live.index_of_first(index) {
        Some(at) => {
            let last = live.len() - 1;
            assert forall|other: u8| other != index && live.contains(other) implies after.contains(
                other,
            ) by {
                let i = choose|i: int| 0 <= i < live.len() && live[i] == other;
                if i == last {
                    assert(after[at] == other);
                } else {
                    assert(after[i] == other);
                }
            }
        },
        None => {},
    }
}

/// Uniqueness of the live identifiers: where a list without duplicates goes
/// through any calls of `add_index` and `remove_index`, and no allocation
/// hands out an identifier that is live at that moment, the list has no
/// duplicates after any number of those calls.
pub proof fn lemma_live_stays_unique(live: Seq<u8>, cursor: u8, max: nat, calls: Seq<SlotCall>)
    requires
        live.no_duplicates(),
        issues_fresh(live, cursor, max, calls),
    ensures
        forall|k: int|
            0 <= k <= calls.len() ==> (#[trigger] after_calls(
                live,
                cursor,
                max,
                calls.take(k),
            )).0.no_duplicates(),
    decreases calls.len(),
{
    if calls.len() == 0 {
        assert forall|k: int| 0 <= k <= calls.len() implies (#[trigger] after_calls(
            live,
            cursor,
            max,
            calls.take(k),
        )).0.no_duplicates() by {
            assert(calls.take(k) =~= calls);
        }
    } else {
        let n = calls.len() - 1;
        let shorter = calls.drop_last();
        assert forall|k: int|
            0 <= k < shorter.len() && #[trigger] shorter[k] == SlotCall::Allocate implies {
            let before = after_calls(live, cursor, max, shorter.take(k));
            before.0.len() >= max || !before.0.contains(before.1)
        } by {
            assert(shorter.take(k) =~= calls.take(k));
            assert(calls[k] == SlotCall::Allocate);
        }
        lemma_live_stays_unique(live, cursor, max, shorter);
        assert forall|k: int| 0 <= k <= calls.len() implies (#[trigger] after_calls(
            live,
            cursor,
            max,
            calls.take(k),
        )).0.no_duplicates() by {
            if k <= n {
                assert(calls.take(k) =~= shorter.take(k));
            } else {
                assert(calls.take(k) =~= calls);
                assert(shorter.take(n) =~= shorter);
                assert(calls.take(n) =~= shorter);
                let before = after_calls(live, cursor, max, shorter);
                assert(before.0.no_duplicates());
                match calls.last() {
                    SlotCall::Allocate => {
                        assert(calls[n] == SlotCall::Allocate);
                        lemma_add_keeps_unique(before.0, before.1);
                    },
                    SlotCall::Release(index) => {
                        lemma_release_keeps_unique(before.0, index);
                    },
                }
            }
        }
    }
}

/// The other direction: where the list has no duplicates after any number
/// of `calls`, no allocation among them handed out a live identifier. So a
/// reissued identifier is the only way to a duplicate.
pub proof fn lemma_unique_only_if_fresh(live: Seq<u8>, cursor: u8, max: nat, calls: Seq<SlotCall>)
    requires
        forall|k: int|
            0 <= k <= calls.len() ==> (#[trigger] after_calls(
                live,
                cursor,
                max,
                calls.take(k),
            )).0.no_duplicates(),
    ensures
        issues_fresh(live, cursor, max, calls),
{
    assert forall|k: int|
        0 <= k < calls.len() && #[trigger] calls[k] == SlotCall::Allocate implies {
        let before = after_calls(live, cursor, max, calls.take(k));
        before.0.len() >= max || !before.0.contains(before.1)
    } by {
        let before = after_calls(live, cursor, max, calls.take(k));
        let longer = calls.take(k + 1);
        assert(longer.drop_last() =~= calls.take(k));
        assert(longer.last() == calls[k]);
        assert(after_calls(live, cursor, max, longer).0.no_duplicates());
        assert(before.0.no_duplicates());
        lemma_add_keeps_unique(before.0, before.1);
    }
}

/// How many of `calls` are allocations.
pub open spec fn allocations(calls: Seq<SlotCall>) -> nat
    decreases calls.len(),
{
    if calls.len() == 0 {
        0
    } else if calls.last() == SlotCall::Allocate {
        allocations(calls.drop_last()) + 1
    } else {
        allocations(calls.drop_last())
    }
}

/// Whether `index` is among the first `issued` identifiers that a cursor
/// hands out from `start`.
pub open spec fn in_window(index: u8, start: u8, issued: nat) -> bool {
    1 <= index <= LAST_INDEX && (index - start) % 254 < issued
}

/// A prefix of a history holds no more allocations than the history.
proof fn lemma_allocations_of_prefix(calls: Seq<SlotCall>, k: int)
    requires
        0 <= k <= calls.len(),
    ensures
        allocations(calls.take(k)) <= allocations(calls),
        k < calls.len() && calls[k] == SlotCall::Allocate ==> allocations(calls.take(k))
            < allocations(calls),
    decreases calls.len(),
{
    if k == calls.len() {
        assert(calls.take(k) =~= calls);
    } else {
        let shorter = calls.drop_last();
        assert(shorter.take(k) =~= calls.take(k));
        lemma_allocations_of_prefix(shorter, k);
        if k == shorter.len() {
            assert(shorter.take(k) =~= shorter);
        }
    }
}

/// After a history that starts with an empty list, the list holds only
/// identifiers that were handed out, and the cursor stands where that many
/// allocations put it.
proof fn lemma_run_from_empty(start: u8, max: nat, calls: Seq<SlotCall>) -> (issued: nat)
    requires
        1 <= start <= LAST_INDEX,
        allocations(calls) <= 254,
    ensures
        issued <= allocations(calls),
        after_calls(Seq::empty(), start, max, calls).1 == cursor_after(start, issued),
        forall|i: int|
            0 <= i < after_calls(Seq::empty(), start, max, calls).0.len() ==> in_window(
                #[trigger] after_calls(Seq::empty(), start, max, calls).0[i],
                start,
                issued,
            ),
    decreases calls.len(),
{
    if calls.len() == 0 {
        0
    } else {
        let before = after_calls(Seq::empty(), start, max, calls.drop_last());
        let after = after_calls(Seq::empty(), start, max, calls);
        let n = lemma_run_from_empty(start, max, calls.drop_last());
        lemma_cursor_cycle(start, n);
        match calls.last() {
            SlotCall::Allocate => {
                if before.0.len() >= max {
                    n
                } else {
                    lemma_cursor_cycle(start, n + 1);
                    assert forall|i: int| 0 <= i < after.0.len() implies in_window(
                        #[trigger] after.0[i],
                        start,
                        n + 1,
                    ) by {
                        if i < before.0.len() {
                            assert(in_window(before.0[i], start, n));
                        }
                    }
                    n + 1
                }
            },
            SlotCall::Release(index) => {
                before.0.index_of_first_ensures(index);
                assert forall|i: int| 0 <= i < after.0.len() implies in_window(
                    #[trigger] after.0[i],
                    start,
                    n,
                ) by {
                    assert(in_window(before.0[i], start, n));
                    assert(in_window(before.0[before.0.len() - 1], start, n));
                }
                n
            },
        }
    }
}

/// The first cycle: from an empty list and a cursor between 1 and
/// `LAST_INDEX`, no history with at most 254 allocations hands out a live
/// identifier, so the list has no duplicates at any point of it.
pub proof fn lemma_first_cycle_is_unique(start: u8, max: nat, calls: Seq<SlotCall>)
    requires
        1 <= start <= LAST_INDEX,
        allocations(calls) <= 254,
    ensures
        issues_fresh(Seq::empty(), start, max, calls),
        forall|k: int|
            0 <= k <= calls.len() ==> (#[trigger] after_calls(
                Seq::empty(),
                start,
                max,
                calls.take(k),
            )).0.no_duplicates(),
{
    assert forall|k: int|
        0 <= k < calls.len() && #[trigger] calls[k] == SlotCall::Allocate implies {
        let before = after_calls(Seq::<u8>::empty(), start, max, calls.take(k));
        before.0.len() >= max || !before.0.contains(before.1)
    } by {
        let before = after_calls(Seq::<u8>::empty(), start, max, calls.take(k));
        lemma_allocations_of_prefix(calls, k);
        let n = lemma_run_from_empty(start, max, calls.take(k));
        lemma_cursor_cycle(start, n);
        if before.0.contains(before.1) {
            let i = choose|i: int| 0 <= i < before.0.len() && before.0[i] == before.1;
            assert(in_window(before.0[i], start, n));
        }
    }
    lemma_live_stays_unique(Seq::empty(), start, max, calls);
}

} // verus!
