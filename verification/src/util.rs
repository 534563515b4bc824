//! Slot allocation over bounded lists of small identifiers, and the rule
//! for record names.

use vstd::prelude::*;
use vstd::string::*;
use crate::error::StacheError;

verus! {

/// The greatest identifier that a cursor hands out before it starts over.
pub const LAST_INDEX: u8 = 254;

/// The cursor that follows `cursor`: one more, or 1 where one more would
/// reach the greatest value of the type or pass it. 0 follows no cursor.
pub open spec fn next_cursor(cursor: u8) -> u8 {
    if cursor >= LAST_INDEX {
        1
    } else {
        (cursor + 1) as u8
    }
}

/// The cursor after `n` allocations that started at `cursor`.
pub open spec fn cursor_after(cursor: u8, n: nat) -> u8
    decreases n,
{
    if n == 0 {
        cursor
    } else {
        next_cursor(cursor_after(cursor, (n - 1) as nat))
    }
}

/// `live` after the first occurrence of `index` has been overwritten by the
/// last entry and the list shortened by one; `live` itself where `index`
/// does not occur.
pub open spec fn swap_removed<T>(live: Seq<T>, at: Option<int>) -> Seq<T> {
    match at {
        Some(i) => live.update(i, live.last()).drop_last(),
        None => live,
    }
}

/// `live` without the first occurrence of `index`, order not kept.
pub open spec fn released(live: Seq<u8>, index: u8) -> Seq<u8> {
    swap_removed(live, live.index_of_first(index))
}

/// Whether `at` is the position of the first entry of `live` equal to
/// `index`.
pub open spec fn first_at(live: Seq<u8>, index: u8, at: int) -> bool {
    &&& 0 <= at < live.len()
    &&& live[at] == index
    &&& forall|j: int| 0 <= j < at ==> live[j] != index
}

/// Whether `res` is what a search for `index` in `live` reports: the
/// position of its first occurrence, or nothing where there is none.
pub open spec fn found(live: Seq<u8>, index: u8, res: Option<usize>) -> bool {
    match res {
        Some(at) => first_at(live, index, at as int) && live.index_of_first(index) == Some(
            at as int,
        ),
        None => !live.contains(index) && live.index_of_first(index).is_none(),
    }
}

/// Position of the first entry of `list` equal to `index`, if there is one.
pub fn find_index(list: &Vec<u8>, index: u8) -> (res: Option<usize>)
    ensures
        found(list@, index, res),
        res.is_some() == list@.contains(index),
{
    let mut i: usize = 0;
    while i < list.len()
        invariant
            i <= list@.len(),
            forall|j: int| 0 <= j < i ==> list@[j] != index,
        decreases list@.len() - i,
    {
        if list[i] == index {
            proof {
                list@.index_of_first_ensures(index);
            }
            return Some(i);
        }
        i += 1;
    }
    proof {
        list@.index_of_first_ensures(index);
    }
    None
}

/// Hands out the identifier under the cursor and appends it to `list`.
///
/// Fails with `CapacityExceeded`, changing nothing, when `list` already
/// holds `max` entries. Whether the identifier is already in `list` is not
/// looked at.
pub fn add_index(list: &mut Vec<u8>, max: usize, next_index: &mut u8) -> (res: Result<
    u8,
    StacheError,
>)
    ensures
        old(list)@.len() >= max ==> {
            &&& res == Err::<u8, StacheError>(StacheError::CapacityExceeded)
            &&& *final(list) == *old(list)
            &&& *final(next_index) == *old(next_index)
        },
        old(list)@.len() < max ==> {
            &&& res == Ok::<u8, StacheError>(*old(next_index))
            &&& final(list)@ == old(list)@.push(*old(next_index))
            &&& *final(next_index) == next_cursor(*old(next_index))
        },
{
    if list.len() >= max {
        return Err(StacheError::CapacityExceeded);
    }
    let index: u8 = *next_index;
    if index >= LAST_INDEX {
        *next_index = 1;
    } else {
        *next_index = index + 1;
    }
    list.push(index);
    Ok(index)
}

/// Takes the first occurrence of `index` out of `list` by moving the last
/// entry into its place. An `index` that does not occur changes nothing.
pub fn remove_index(list: &mut Vec<u8>, index: u8)
    ensures
        final(list)@ == released(old(list)@, index),
        !old(list)@.contains(index) ==> *final(list) == *old(list),
{
    match find_index(list, index) {
        Some(i) => {
            list.swap_remove(i);
        },
        None => {},
    }
}

/// Whether `c` may stand in a name: a lowercase ASCII letter or a digit,
/// and an uppercase ASCII letter too unless `require_lower`.
pub open spec fn name_char(c: char, require_lower: bool) -> bool {
    ||| 'a' <= c <= 'z'
    ||| '0' <= c <= '9'
    ||| !require_lower && 'A' <= c <= 'Z'
}

/// A name has 2 to 32 characters, each of them a `name_char`. So it holds
/// no whitespace and nothing outside ASCII.
pub open spec fn valid_name(name: Seq<char>, require_lower: bool) -> bool {
    &&& 2 <= name.len() <= 32
    &&& forall|i: int| 0 <= i < name.len() ==> name_char(#[trigger] name[i], require_lower)
}

/// Whether `s` is a valid name.
pub fn is_valid_name(s: &str, require_lower: bool) -> (r: bool)
    ensures
        r == valid_name(s@, require_lower),
{
    if !s.is_ascii() {
        proof {
            let i = choose|i: int| 0 <= i < s@.len() && !('\0' <= #[trigger] s@[i] <= '\u{7f}');
            assert(!name_char(s@[i], require_lower));
        }
        return false;
    }
    let bytes = s.as_bytes();
    proof {
        is_ascii_spec_bytes(s);
    }
    let len: usize = bytes.len();
    if len > 32 || len < 2 {
        return false;
    }
    let mut i: usize = 0;
    while i < len
        invariant
            i <= len,
            len == s@.len(),
            s.is_ascii(),
            bytes@ == Seq::new(s@.len(), |i: int| s@[i] as u8),
            forall|j: int| 0 <= j < i ==> name_char(#[trigger] s@[j], require_lower),
        decreases len - i,
    {
        let b: u8 = bytes[i];
        // 'a'..='z', '0'..='9', 'A'..='Z'
        let allowed = (97 <= b && b <= 122) || (48 <= b && b <= 57) || (!require_lower && 65 <= b
            && b <= 90);
        proof {
            let c = s@[i as int];
            assert('\0' <= c <= '\u{7f}');
            assert(allowed == name_char(c, require_lower));
        }
        if !allowed {
            return false;
        }
        i += 1;
    }
    true
}

} // verus!
