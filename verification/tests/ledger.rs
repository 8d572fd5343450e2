use wall_of_wish::error::ErrorCode;
use wall_of_wish::keys::{Address, Identity};
use wall_of_wish::ledger::{
    allocation_verdict, Ledger, ACCOUNT_STORAGE_OVERHEAD, LAMPORTS_PER_BYTE, MAX_RECORD_SPACE,
};

fn alice() -> Identity {
    Identity::new([1u8; 32])
}

fn bob() -> Identity {
    Identity::new([2u8; 32])
}

fn somewhere() -> Address {
    Address::new([40u8; 32])
}

#[test]
fn a_new_ledger_is_empty() {
    let ledger = Ledger::new();
    assert_eq!(ledger.supply(), 0);
    assert_eq!(ledger.balance(&alice()), 0);
    assert_eq!(ledger.data_at(&somewhere()), None);
    assert_eq!(ledger.lamports_at(&somewhere()), None);
}

#[test]
fn credit_adds_to_the_funds_of_one_identity() {
    let mut ledger = Ledger::new();
    assert!(ledger.credit(&alice(), 10));
    assert!(ledger.credit(&bob(), 5));
    assert!(ledger.credit(&alice(), 7));
    assert_eq!(ledger.balance(&alice()), 17);
    assert_eq!(ledger.balance(&bob()), 5);
    assert_eq!(ledger.supply(), 22);
}

#[test]
fn credit_is_refused_where_the_supply_would_overflow() {
    let mut ledger = Ledger::new();
    assert!(ledger.credit(&alice(), u64::MAX - 1));
    assert!(!ledger.credit(&bob(), 2));
    assert_eq!(ledger.balance(&bob()), 0);
    assert_eq!(ledger.supply(), u64::MAX - 1);
    assert!(ledger.credit(&bob(), 1));
    assert_eq!(ledger.supply(), u64::MAX);
    assert!(!ledger.credit(&alice(), 1));
    assert!(ledger.credit(&alice(), 0));
}

#[test]
fn allocate_charges_the_rent_of_the_size() {
    let mut ledger = Ledger::new();
    assert!(ledger.credit(&alice(), 2_000_000));
    assert_eq!(ledger.allocate(&somewhere(), 49, &alice()), Ok(()));
    assert_eq!(ledger.lamports_at(&somewhere()), Some(1_231_920));
    assert_eq!(ledger.balance(&alice()), 2_000_000 - 1_231_920);
    assert_eq!(ledger.data_at(&somewhere()), Some(&vec![0u8; 49]));
    assert_eq!(ledger.supply(), 2_000_000);
}

#[test]
fn rent_is_overhead_and_size_times_the_price_of_a_byte() {
    assert_eq!(ACCOUNT_STORAGE_OVERHEAD, 128);
    assert_eq!(LAMPORTS_PER_BYTE, 6960);
    let mut ledger = Ledger::new();
    assert!(ledger.credit(&alice(), u64::MAX));
    assert_eq!(ledger.allocate(&Address::new([1u8; 32]), 0, &alice()), Ok(()));
    assert_eq!(ledger.lamports_at(&Address::new([1u8; 32])), Some(890_880));
    assert_eq!(ledger.allocate(&Address::new([2u8; 32]), MAX_RECORD_SPACE, &alice()), Ok(()));
    assert_eq!(
        ledger.lamports_at(&Address::new([2u8; 32])),
        Some((128 + 10_485_760) * 6960)
    );
    assert_eq!(ledger.data_at(&Address::new([2u8; 32])).unwrap().len(), MAX_RECORD_SPACE);
}

#[test]
fn allocate_refuses_an_occupied_address() {
    let mut ledger = Ledger::new();
    assert!(ledger.credit(&alice(), 10_000_000));
    assert_eq!(ledger.allocate(&somewhere(), 10, &alice()), Ok(()));
    let left = ledger.balance(&alice());
    assert_eq!(
        ledger.allocate(&somewhere(), 10, &alice()),
        Err(ErrorCode::DuplicateAddress)
    );
    assert_eq!(
        ledger.allocate(&somewhere(), 10, &bob()),
        Err(ErrorCode::DuplicateAddress)
    );
    assert_eq!(ledger.balance(&alice()), left);
}

#[test]
fn allocate_refuses_a_funder_who_cannot_pay() {
    let mut ledger = Ledger::new();
    assert_eq!(
        ledger.allocate(&somewhere(), 49, &alice()),
        Err(ErrorCode::InsufficientFunds)
    );
    assert!(ledger.credit(&alice(), 1_231_919));
    assert_eq!(
        ledger.allocate(&somewhere(), 49, &alice()),
        Err(ErrorCode::InsufficientFunds)
    );
    assert_eq!(ledger.balance(&alice()), 1_231_919);
    assert_eq!(ledger.data_at(&somewhere()), None);
    assert!(ledger.credit(&alice(), 1));
    assert_eq!(ledger.allocate(&somewhere(), 49, &alice()), Ok(()));
    assert_eq!(ledger.balance(&alice()), 0);
}

#[test]
fn write_fills_a_slot_exactly() {
    let mut ledger = Ledger::new();
    assert!(ledger.credit(&alice(), 10_000_000));
    assert!(!ledger.write(&somewhere(), vec![1, 2, 3]));
    assert_eq!(ledger.allocate(&somewhere(), 3, &alice()), Ok(()));
    assert!(!ledger.write(&somewhere(), vec![1, 2]));
    assert!(!ledger.write(&somewhere(), vec![1, 2, 3, 4]));
    assert_eq!(ledger.data_at(&somewhere()), Some(&vec![0, 0, 0]));
    assert!(ledger.write(&somewhere(), vec![1, 2, 3]));
    assert_eq!(ledger.data_at(&somewhere()), Some(&vec![1, 2, 3]));
    assert_eq!(ledger.lamports_at(&somewhere()), Some((128 + 3) * 6960));
}

#[test]
fn close_gives_all_that_the_slot_held_to_the_named_identity() {
    let mut ledger = Ledger::new();
    assert!(ledger.credit(&alice(), 1_000_000));
    assert_eq!(ledger.allocate(&somewhere(), 3, &alice()), Ok(()));
    assert!(ledger.close(&somewhere(), &bob()));
    assert_eq!(ledger.balance(&bob()), 131 * 6960);
    assert_eq!(ledger.balance(&alice()), 1_000_000 - 131 * 6960);
    assert_eq!(ledger.data_at(&somewhere()), None);
    assert_eq!(ledger.supply(), 1_000_000);
    assert!(!ledger.close(&somewhere(), &bob()));
    assert_eq!(ledger.balance(&bob()), 131 * 6960);
}

#[test]
fn slots_are_kept_apart() {
    let mut ledger = Ledger::new();
    assert!(ledger.credit(&alice(), 10_000_000));
    let first = Address::new([10u8; 32]);
    let second = Address::new([11u8; 32]);
    let third = Address::new([12u8; 32]);
    assert_eq!(ledger.allocate(&first, 1, &alice()), Ok(()));
    assert_eq!(ledger.allocate(&second, 2, &alice()), Ok(()));
    assert_eq!(ledger.allocate(&third, 3, &alice()), Ok(()));
    assert!(ledger.write(&second, vec![7, 7]));
    assert!(ledger.close(&first, &alice()));
    assert_eq!(ledger.data_at(&first), None);
    assert_eq!(ledger.data_at(&second), Some(&vec![7, 7]));
    assert_eq!(ledger.data_at(&third), Some(&vec![0, 0, 0]));
    assert_eq!(ledger.balance(&alice()), 10_000_000 - 130 * 6960 - 131 * 6960);
}

#[test]
fn the_verdict_on_an_allocation() {
    assert_eq!(allocation_verdict(false, 10, 10), Ok(()));
    assert_eq!(allocation_verdict(false, 11, 10), Ok(()));
    assert_eq!(allocation_verdict(false, 9, 10), Err(ErrorCode::InsufficientFunds));
    assert_eq!(allocation_verdict(true, 10, 10), Err(ErrorCode::DuplicateAddress));
    assert_eq!(allocation_verdict(true, 0, 10), Err(ErrorCode::DuplicateAddress));
    assert_eq!(allocation_verdict(false, 0, 0), Ok(()));
}
