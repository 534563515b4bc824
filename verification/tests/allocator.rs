use stache::account::CurrentStache;
use stache::constant::{MAX_AUTOS, MAX_VAULTS};
use stache::error::StacheError;
use stache::key::Pubkey;
use stache::util::{add_index, find_index, remove_index};

fn fresh() -> CurrentStache {
    CurrentStache::new(
        255,
        Pubkey::new_from_array([1; 32]),
        Pubkey::new_from_array([2; 32]),
        String::from("alice"),
    )
}

fn has_duplicate(list: &[u8]) -> bool {
    for i in 0..list.len() {
        for j in (i + 1)..list.len() {
            if list[i] == list[j] {
                return true;
            }
        }
    }
    false
}

#[test]
fn allocate_hands_out_the_cursor_and_moves_it_on() {
    let mut live: Vec<u8> = vec![];
    let mut cursor: u8 = 1;
    assert_eq!(add_index(&mut live, 3, &mut cursor), Ok(1));
    assert_eq!(add_index(&mut live, 3, &mut cursor), Ok(2));
    assert_eq!(live, vec![1, 2]);
    assert_eq!(cursor, 3);
}

#[test]
fn allocate_beyond_capacity_fails_and_changes_nothing() {
    let mut live: Vec<u8> = vec![4, 5, 6];
    let mut cursor: u8 = 7;
    assert_eq!(add_index(&mut live, 3, &mut cursor), Err(StacheError::CapacityExceeded));
    assert_eq!(live, vec![4, 5, 6]);
    assert_eq!(cursor, 7);
    assert_eq!(add_index(&mut live, 0, &mut cursor), Err(StacheError::CapacityExceeded));
    assert_eq!(live.len(), 3);
}

#[test]
fn cursor_wraps_to_one_after_the_last_identifier() {
    let mut live: Vec<u8> = vec![];
    let mut cursor: u8 = 252;
    let mut issued: Vec<u8> = vec![];
    for _ in 0..5 {
        let id = add_index(&mut live, 1, &mut cursor).unwrap();
        issued.push(id);
        remove_index(&mut live, id);
        assert!(live.is_empty());
    }
    assert_eq!(issued, vec![252, 253, 254, 1, 2]);
    assert_eq!(cursor, 3);
}

#[test]
fn a_full_cycle_never_issues_zero_and_comes_back() {
    let mut live: Vec<u8> = vec![];
    let mut cursor: u8 = 1;
    let mut previous: u8 = 0;
    for step in 0..254u32 {
        let id = add_index(&mut live, 1, &mut cursor).unwrap();
        assert_ne!(id, 0);
        assert!(id > previous, "step {}", step);
        previous = id;
        remove_index(&mut live, id);
    }
    assert_eq!(previous, 254);
    assert_eq!(cursor, 1);
    assert_eq!(add_index(&mut live, 1, &mut cursor), Ok(1));
}

#[test]
fn a_cursor_at_the_greatest_value_starts_over_too() {
    let mut live: Vec<u8> = vec![];
    let mut cursor: u8 = 255;
    assert_eq!(add_index(&mut live, 2, &mut cursor), Ok(255));
    assert_eq!(cursor, 1);
}

#[test]
fn live_list_stays_free_of_duplicates_under_churn() {
    let mut live: Vec<u8> = vec![];
    let mut cursor: u8 = 1;
    for round in 0..60u32 {
        let id = add_index(&mut live, 5, &mut cursor).unwrap();
        assert!(!has_duplicate(&live));
        if round % 3 != 0 {
            remove_index(&mut live, id);
        } else if live.len() == 5 {
            let oldest = live[0];
            remove_index(&mut live, oldest);
        }
        assert!(!has_duplicate(&live));
        assert!(live.len() <= 5);
    }
}

#[test]
fn a_wrapped_cursor_can_reissue_a_live_identifier() {
    let mut live: Vec<u8> = vec![1];
    let mut cursor: u8 = 254;
    assert_eq!(add_index(&mut live, 5, &mut cursor), Ok(254));
    assert_eq!(add_index(&mut live, 5, &mut cursor), Ok(1));
    assert_eq!(live, vec![1, 254, 1]);
    assert!(has_duplicate(&live));
}

#[test]
fn find_reports_the_first_position_or_nothing() {
    let live: Vec<u8> = vec![7, 3, 9, 3];
    assert_eq!(find_index(&live, 7), Some(0));
    assert_eq!(find_index(&live, 3), Some(1));
    assert_eq!(find_index(&live, 9), Some(2));
    assert_eq!(find_index(&live, 4), None);
    assert_eq!(find_index(&vec![], 0), None);
}

#[test]
fn release_moves_the_last_entry_into_the_gap() {
    let mut live: Vec<u8> = vec![1, 2, 3, 4];
    remove_index(&mut live, 2);
    assert_eq!(live, vec![1, 4, 3]);
    remove_index(&mut live, 3);
    assert_eq!(live, vec![1, 4]);
    remove_index(&mut live, 1);
    assert_eq!(live, vec![4]);
    remove_index(&mut live, 4);
    assert!(live.is_empty());
}

#[test]
fn release_of_an_unknown_identifier_is_silent() {
    let mut live: Vec<u8> = vec![1, 2, 3];
    remove_index(&mut live, 9);
    assert_eq!(live, vec![1, 2, 3]);
    let mut empty: Vec<u8> = vec![];
    remove_index(&mut empty, 1);
    assert!(empty.is_empty());
}

#[test]
fn new_identity_is_empty_with_cursors_at_one() {
    let s = fresh();
    assert_eq!(s.version, CurrentStache::CURRENT_VERSION);
    assert_eq!(s.bump, 255);
    assert_eq!(s.keychain, Pubkey::new_from_array([1; 32]));
    assert_eq!(s.domain, Pubkey::new_from_array([2; 32]));
    assert_eq!(s.stacheid, "alice");
    assert_eq!(s.next_vault_index, 1);
    assert_eq!(s.next_auto_index, 1);
    assert!(s.vaults.is_empty());
    assert!(s.autos.is_empty());
}

#[test]
fn identity_adds_vaults_up_to_its_capacity() {
    let mut s = fresh();
    for expected in 1..=(MAX_VAULTS as u8) {
        assert_eq!(s.add_vault(), Ok(expected));
    }
    assert_eq!(s.vaults, vec![1, 2, 3, 4, 5]);
    let before = s.clone();
    assert_eq!(s.add_vault(), Err(StacheError::CapacityExceeded));
    assert_eq!(s, before);
    assert_eq!(s.next_vault_index, 6);
    assert!(s.autos.is_empty());
}

#[test]
fn identity_adds_automations_up_to_its_capacity() {
    let mut s = fresh();
    for expected in 1..=(MAX_AUTOS as u8) {
        assert_eq!(s.add_auto(), Ok(expected));
    }
    let before = s.clone();
    assert_eq!(s.add_auto(), Err(StacheError::CapacityExceeded));
    assert_eq!(s, before);
    assert!(s.vaults.is_empty());
    assert_eq!(s.next_vault_index, 1);
}

#[test]
fn identity_removes_a_live_vault_and_frees_its_place() {
    let mut s = fresh();
    for _ in 0..5 {
        s.add_vault().unwrap();
    }
    assert_eq!(s.is_vault(2), Some(1));
    assert_eq!(s.remove_vault(2), Ok(()));
    assert_eq!(s.is_vault(2), None);
    assert_eq!(s.vaults, vec![1, 5, 3, 4]);
    assert_eq!(s.add_vault(), Ok(6));
    assert!(!has_duplicate(&s.vaults));
}

#[test]
fn identity_refuses_to_remove_what_is_not_live() {
    let mut s = fresh();
    s.add_vault().unwrap();
    s.add_auto().unwrap();
    let before = s.clone();
    assert_eq!(s.remove_vault(7), Err(StacheError::InvalidIndex));
    assert_eq!(s.remove_auto(7), Err(StacheError::InvalidIndex));
    assert_eq!(s, before);
    assert_eq!(s.remove_auto(1), Ok(()));
    assert_eq!(s.remove_auto(1), Err(StacheError::InvalidIndex));
    assert_eq!(s.is_auto(1), None);
    assert_eq!(s.is_vault(1), Some(0));
}

#[test]
fn record_sizes_follow_the_capacities() {
    assert_eq!(CurrentStache::MAX_SIZE, 246);
    assert_eq!(stache::account::VaultAction::MAX_SIZE, 294);
    assert_eq!(stache::account::Vault::MAX_SIZE, 1718);
    assert_eq!(stache::account::Auto::MAX_SIZE, 241);
    assert_eq!(stache::account::Session::MAX_SIZE, 214);
}
