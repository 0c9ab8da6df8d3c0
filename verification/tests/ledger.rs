use stellar_defi_hub::position::UserPosition;

fn empty_position() -> UserPosition {
    UserPosition {
        supplied_assets: vec![],
        borrowed_assets: vec![],
        staked_blend: 0,
        rewards_earned: 0,
        last_reward_update: 0,
        health_factor: 1_000_000_000_000_000_000,
        liquidation_threshold: 1_000_000_000_000_000_000,
    }
}

#[test]
fn supply_withdraw_roundtrip_fresh_entry() {
    // Crediting a new asset and debiting the same amount removes the
    // entry again: no zero entry is retained.
    let mut p = empty_position();
    assert!(p.credit_supplied(5, 10));
    assert_eq!(p.supplied_amount(5), 10);
    p.debit_supplied(5, 10);
    assert_eq!(p.supplied_amount(5), 0);
    assert!(p.supplied_assets.is_empty());
}

#[test]
fn supply_withdraw_roundtrip_existing_entry() {
    let mut p = empty_position();
    assert!(p.credit_supplied(5, 3));
    assert!(p.credit_supplied(5, 10));
    assert_eq!(p.supplied_amount(5), 13);
    p.debit_supplied(5, 10);
    assert_eq!(p.supplied_amount(5), 3);
    assert_eq!(p.supplied_assets, vec![(5, 3)]);
}

#[test]
fn debit_saturates_and_removes() {
    let mut p = empty_position();
    assert!(p.credit_borrowed(7, 4));
    p.debit_borrowed(7, 100);
    assert_eq!(p.borrowed_amount(7), 0);
    assert!(p.borrowed_assets.is_empty());
    // Debiting an absent key is a no-op.
    p.debit_borrowed(9, 1);
    assert!(p.borrowed_assets.is_empty());
}

#[test]
fn credit_overflow_rejected_without_mutation() {
    let mut p = empty_position();
    assert!(p.credit_supplied(1, u128::MAX));
    assert!(!p.credit_supplied(1, 1));
    assert_eq!(p.supplied_amount(1), u128::MAX);
}

#[test]
fn zero_credit_creates_no_entry() {
    let mut p = empty_position();
    assert!(p.credit_supplied(3, 0));
    assert!(p.supplied_assets.is_empty());
}

#[test]
fn entries_keep_other_keys() {
    let mut p = empty_position();
    assert!(p.credit_supplied(1, 10));
    assert!(p.credit_supplied(2, 20));
    p.debit_supplied(1, 10);
    assert_eq!(p.supplied_amount(2), 20);
    assert_eq!(p.supplied_assets, vec![(2, 20)]);
}
