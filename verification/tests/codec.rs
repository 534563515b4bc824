use stache::error::StacheError;
use stache::key::Pubkey;
use stache::payload::{
    BalanceTrigger, TransferAction, BALANCE_TRIGGER_LEN, TRANSFER_LEN,
};

fn ramp(start: u8) -> [u8; 32] {
    let mut bytes = [0u8; 32];
    for (i, b) in bytes.iter_mut().enumerate() {
        *b = start.wrapping_add(i as u8);
    }
    bytes
}

#[test]
fn transfer_is_encoded_field_after_field() {
    let t = TransferAction {
        from: Pubkey::new_from_array(ramp(0)),
        to: Pubkey::new_from_array(ramp(100)),
        amount: 0x0102_0304_0506_0708,
    };
    let bytes = t.encode();
    assert_eq!(bytes.len(), TRANSFER_LEN);
    assert_eq!(bytes.len(), 72);
    assert_eq!(&bytes[0..32], &ramp(0)[..]);
    assert_eq!(&bytes[32..64], &ramp(100)[..]);
    assert_eq!(&bytes[64..72], &[8, 7, 6, 5, 4, 3, 2, 1][..]);
}

#[test]
fn transfer_of_one_hundred_units_has_these_bytes() {
    let t = TransferAction {
        from: Pubkey::new_from_array([1; 32]),
        to: Pubkey::new_from_array([2; 32]),
        amount: 100,
    };
    let mut expected = vec![1u8; 32];
    expected.extend_from_slice(&[2u8; 32]);
    expected.extend_from_slice(&[100, 0, 0, 0, 0, 0, 0, 0]);
    assert_eq!(t.encode(), expected);
}

#[test]
fn transfer_encoding_agrees_with_the_framework() {
    let t = TransferAction {
        from: Pubkey::new_from_array(ramp(3)),
        to: Pubkey::new_from_array(ramp(77)),
        amount: 9_876_543_210,
    };
    let mut expected: Vec<u8> = vec![];
    anchor_lang::AnchorSerialize::serialize(&(ramp(3), ramp(77), 9_876_543_210u64), &mut expected)
        .unwrap();
    assert_eq!(t.encode(), expected);
    let mut rest: &[u8] = &expected;
    let read: ([u8; 32], [u8; 32], u64) =
        anchor_lang::AnchorDeserialize::deserialize(&mut rest).unwrap();
    let decoded = TransferAction::decode(&expected).unwrap();
    assert_eq!(decoded.from.to_bytes(), read.0);
    assert_eq!(decoded.to.to_bytes(), read.1);
    assert_eq!(decoded.amount, read.2);
}

#[test]
fn transfer_round_trips() {
    let amounts = [0u64, 1, 255, 256, 50, 100, u64::MAX, 0x8000_0000_0000_0000];
    for amount in amounts {
        let t = TransferAction {
            from: Pubkey::new_from_array(ramp(9)),
            to: Pubkey::new_from_array(ramp(200)),
            amount,
        };
        assert_eq!(TransferAction::decode(&t.encode()), Ok(t));
    }
}

#[test]
fn transfer_decoding_ignores_what_follows() {
    let t = TransferAction {
        from: Pubkey::new_from_array([4; 32]),
        to: Pubkey::new_from_array([5; 32]),
        amount: 6,
    };
    let mut bytes = t.encode();
    bytes.extend_from_slice(&[9, 9, 9]);
    assert_eq!(TransferAction::decode(&bytes), Ok(t));
}

#[test]
fn transfer_decoding_reads_the_bytes_it_is_given() {
    let mut bytes = vec![0u8; 72];
    bytes[0] = 1;
    bytes[31] = 2;
    bytes[32] = 3;
    bytes[63] = 4;
    bytes[64] = 0x2a;
    bytes[71] = 0x01;
    let t = TransferAction::decode(&bytes).unwrap();
    assert_eq!(t.from.to_bytes()[0], 1);
    assert_eq!(t.from.to_bytes()[31], 2);
    assert_eq!(t.to.to_bytes()[0], 3);
    assert_eq!(t.to.to_bytes()[31], 4);
    assert_eq!(t.amount, 0x0100_0000_0000_002a);
}

#[test]
fn short_transfer_is_malformed() {
    for len in [0usize, 1, 31, 32, 63, 64, 71] {
        assert_eq!(TransferAction::decode(&vec![0u8; len]), Err(StacheError::MalformedPayload));
    }
    assert!(TransferAction::decode(&vec![0u8; 72]).is_ok());
}

#[test]
fn trigger_is_encoded_field_after_field() {
    let t = BalanceTrigger {
        account: Pubkey::new_from_array(ramp(50)),
        trigger_balance: 1_000_000,
        above: true,
    };
    let bytes = t.encode();
    assert_eq!(bytes.len(), BALANCE_TRIGGER_LEN);
    assert_eq!(bytes.len(), 41);
    assert_eq!(&bytes[0..32], &ramp(50)[..]);
    assert_eq!(&bytes[32..40], &[0x40, 0x42, 0x0f, 0, 0, 0, 0, 0][..]);
    assert_eq!(bytes[40], 1);
    let below = BalanceTrigger { above: false, ..t };
    assert_eq!(below.encode()[40], 0);
    assert_eq!(&below.encode()[0..40], &bytes[0..40]);
}

#[test]
fn trigger_encoding_agrees_with_the_framework() {
    let t = BalanceTrigger {
        account: Pubkey::new_from_array(ramp(11)),
        trigger_balance: 42,
        above: false,
    };
    let mut expected: Vec<u8> = vec![];
    anchor_lang::AnchorSerialize::serialize(&(ramp(11), 42u64, false), &mut expected).unwrap();
    assert_eq!(t.encode(), expected);
}

#[test]
fn trigger_round_trips() {
    for above in [false, true] {
        for trigger_balance in [0u64, 1, 1_000_000, u64::MAX] {
            let t = BalanceTrigger {
                account: Pubkey::new_from_array(ramp(1)),
                trigger_balance,
                above,
            };
            assert_eq!(BalanceTrigger::decode(&t.encode()), Ok(t));
            let mut longer = t.encode();
            longer.push(7);
            assert_eq!(BalanceTrigger::decode(&longer), Ok(t));
        }
    }
}

#[test]
fn short_trigger_is_malformed() {
    for len in [0usize, 31, 32, 39, 40] {
        assert_eq!(BalanceTrigger::decode(&vec![0u8; len]), Err(StacheError::MalformedPayload));
    }
    assert!(BalanceTrigger::decode(&vec![0u8; 41]).is_ok());
}

#[test]
fn trigger_with_a_flag_that_is_no_flag_is_malformed() {
    let mut bytes = vec![0u8; 41];
    bytes[40] = 1;
    assert_eq!(BalanceTrigger::decode(&bytes).map(|t| t.above), Ok(true));
    for flag in [2u8, 3, 128, 255] {
        bytes[40] = flag;
        assert_eq!(BalanceTrigger::decode(&bytes), Err(StacheError::MalformedPayload));
    }
}

#[test]
fn a_trigger_is_no_transfer() {
    let t = BalanceTrigger {
        account: Pubkey::new_from_array(ramp(1)),
        trigger_balance: 5,
        above: true,
    };
    assert_eq!(TransferAction::decode(&t.encode()), Err(StacheError::MalformedPayload));
}
