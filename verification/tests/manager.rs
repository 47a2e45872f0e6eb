use bundle_manager::address::Address;
use bundle_manager::error::BundleError;
use bundle_manager::guard::{authority_guard, has_proof};
use bundle_manager::processor::{
    process_create_bundle, process_initialize, process_set_manager_status, slot_state, SlotState,
};
use bundle_manager::records::{
    all_distinct, bundle_record_len, BundleManager, BundleStatus, MANAGER_RECORD_LEN,
};

fn key(b: u8) -> Address {
    Address::new([b; 32])
}

fn manager() -> BundleManager {
    process_initialize(SlotState::Vacant, &key(1), &vec![key(1)], 5, 2).unwrap()
}

#[test]
fn address_compares_every_byte() {
    let a = key(7);
    let mut bytes = [7u8; 32];
    assert!(a.same(&Address::new(bytes)));
    bytes[31] = 8;
    assert!(!a.same(&Address::new(bytes)));
    bytes[31] = 7;
    bytes[0] = 0;
    assert!(!a.same(&Address::new(bytes)));
    assert_eq!(a.to_bytes(), [7u8; 32]);
}

#[test]
fn initialize_writes_a_fresh_manager() {
    let m = manager();
    assert_eq!(m.authority, key(1));
    assert_eq!(m.bundle_size, 5);
    assert_eq!(m.priority_fee_multiplier, 2);
    assert_eq!(m.active_bundles, 0);
    assert_eq!(m.total_bundles_executed, 0);
    assert!(!m.is_paused);
    assert_eq!(m.bundle_seed, 0);
}

#[test]
fn initialize_refuses_a_live_manager() {
    let r = process_initialize(SlotState::Owned, &key(1), &vec![key(1)], 5, 2);
    assert_eq!(r, Err(BundleError::AlreadyInitialized));
}

#[test]
fn initialize_refuses_a_foreign_place() {
    let r = process_initialize(SlotState::Foreign, &key(1), &vec![key(1)], 5, 2);
    assert_eq!(r, Err(BundleError::OwnershipMismatch));
}

#[test]
fn initialize_needs_the_authority_to_sign() {
    let r = process_initialize(SlotState::Vacant, &key(1), &vec![key(2)], 5, 2);
    assert_eq!(r, Err(BundleError::Unauthorized));
    let r = process_initialize(SlotState::Vacant, &key(1), &vec![], 5, 2);
    assert_eq!(r, Err(BundleError::Unauthorized));
}

#[test]
fn slot_state_tells_the_three_apart() {
    assert_eq!(slot_state(&key(9), &key(9), true), SlotState::Owned);
    assert_eq!(slot_state(&key(9), &key(9), false), SlotState::Owned);
    assert_eq!(slot_state(&key(0), &key(9), true), SlotState::Foreign);
    assert_eq!(slot_state(&key(0), &key(9), false), SlotState::Vacant);
}

#[test]
fn guard_checks_signature_then_pause() {
    let proofs = vec![key(3), key(1)];
    assert!(has_proof(&proofs, &key(1)));
    assert!(!has_proof(&proofs, &key(2)));
    assert_eq!(authority_guard(&key(1), &proofs, false, false), Ok(()));
    assert_eq!(authority_guard(&key(1), &proofs, true, false), Err(BundleError::ManagerPaused));
    assert_eq!(authority_guard(&key(1), &proofs, true, true), Ok(()));
    assert_eq!(authority_guard(&key(2), &proofs, true, false), Err(BundleError::Unauthorized));
    assert_eq!(authority_guard(&key(2), &proofs, false, true), Err(BundleError::Unauthorized));
}

#[test]
fn set_status_changes_only_the_flag() {
    let mut m = manager();
    let before = m;
    assert_eq!(process_set_manager_status(&mut m, &vec![key(1)], true), Ok(()));
    assert!(m.is_paused);
    assert_eq!(BundleManager { is_paused: false, ..m }, before);
    assert_eq!(process_set_manager_status(&mut m, &vec![key(1)], false), Ok(()));
    assert_eq!(m, before);
}

#[test]
fn set_status_needs_the_authority() {
    let mut m = manager();
    let before = m;
    assert_eq!(process_set_manager_status(&mut m, &vec![key(2)], true), Err(BundleError::Unauthorized));
    assert_eq!(m, before);
}

#[test]
fn set_status_works_on_a_paused_manager() {
    let mut m = manager();
    process_set_manager_status(&mut m, &vec![key(1)], true).unwrap();
    assert_eq!(process_set_manager_status(&mut m, &vec![key(1)], true), Ok(()));
    assert!(m.is_paused);
    assert_eq!(process_set_manager_status(&mut m, &vec![key(1)], false), Ok(()));
    assert!(!m.is_paused);
}

#[test]
fn create_bundle_takes_the_next_sequence() {
    let mut m = manager();
    let b = process_create_bundle(&mut m, &key(10), &vec![key(1)], vec![0, 1], vec![2, 1], 1000).unwrap();
    assert_eq!(b.bundle_id, 0);
    assert_eq!(b.manager, key(10));
    assert_eq!(b.authority, key(1));
    assert_eq!(b.created_at, 1000);
    assert_eq!(b.execution_started_at, 0);
    assert_eq!(b.execution_completed_at, 0);
    assert_eq!(b.wallet_count, 2);
    assert_eq!(b.wallet_indexes, vec![0, 1]);
    assert_eq!(b.instructions_per_wallet, vec![2, 1]);
    assert_eq!(b.status, BundleStatus::Created);
    assert_eq!(b.priority_fee, 0);
    assert!(b.is_well_formed());
    assert_eq!(m.active_bundles, 1);
    assert_eq!(m.bundle_seed, 1);
    let c = process_create_bundle(&mut m, &key(10), &vec![key(1)], vec![], vec![], 1001).unwrap();
    assert_eq!(c.bundle_id, 1);
    assert_eq!(c.wallet_count, 0);
    assert_eq!(m.active_bundles, 2);
    assert_eq!(m.bundle_seed, 2);
    assert_eq!(m.total_bundles_executed, 0);
}

#[test]
fn create_bundle_holds_twenty_wallets_and_no_more() {
    let mut m = manager();
    let twenty: Vec<u8> = (0..20).collect();
    let b = process_create_bundle(&mut m, &key(10), &vec![key(1)], twenty.clone(), vec![1; 20], 5).unwrap();
    assert_eq!(b.wallet_count, 20);
    let before = m;
    let twenty_one: Vec<u8> = (0..21).collect();
    let r = process_create_bundle(&mut m, &key(10), &vec![key(1)], twenty_one.clone(), vec![1; 21], 5);
    assert_eq!(r, Err(BundleError::CapacityExceeded));
    assert_eq!(m, before);
    let r = process_create_bundle(&mut m, &key(10), &vec![key(1)], twenty_one, vec![1; 3], 5);
    assert_eq!(r, Err(BundleError::CapacityExceeded));
    assert_eq!(m, before);
}

#[test]
fn create_bundle_refuses_mismatched_lengths() {
    let mut m = manager();
    let before = m;
    let r = process_create_bundle(&mut m, &key(10), &vec![key(1)], vec![0, 1], vec![2], 5);
    assert_eq!(r, Err(BundleError::ArityMismatch));
    let r = process_create_bundle(&mut m, &key(10), &vec![key(1)], vec![], vec![2], 5);
    assert_eq!(r, Err(BundleError::ArityMismatch));
    assert_eq!(m, before);
}

#[test]
fn create_bundle_refuses_a_stranger() {
    let mut m = manager();
    let before = m;
    let r = process_create_bundle(&mut m, &key(10), &vec![key(2)], vec![0, 1], vec![2, 1], 5);
    assert_eq!(r, Err(BundleError::Unauthorized));
    assert_eq!(m, before);
}

#[test]
fn create_bundle_refuses_a_repeated_wallet() {
    let mut m = manager();
    let before = m;
    let r = process_create_bundle(&mut m, &key(10), &vec![key(1)], vec![4, 1, 4], vec![2, 1, 1], 5);
    assert_eq!(r, Err(BundleError::DuplicateWallet));
    assert_eq!(m, before);
    assert!(all_distinct(&vec![4, 1, 5]));
    assert!(!all_distinct(&vec![4, 4]));
    assert!(all_distinct(&vec![]));
}

#[test]
fn create_bundle_stops_at_the_counters_limits() {
    let mut m = manager();
    m.active_bundles = u16::MAX;
    let before = m;
    let r = process_create_bundle(&mut m, &key(10), &vec![key(1)], vec![0], vec![1], 5);
    assert_eq!(r, Err(BundleError::CapacityExceeded));
    assert_eq!(m, before);
    let mut m = manager();
    m.bundle_seed = u32::MAX;
    let r = process_create_bundle(&mut m, &key(10), &vec![key(1)], vec![0], vec![1], 5);
    assert_eq!(r, Err(BundleError::CapacityExceeded));
    assert_eq!(m.bundle_seed, u32::MAX);
}

#[test]
fn pause_stops_create_and_resume_restores_it() {
    let mut m = manager();
    process_set_manager_status(&mut m, &vec![key(1)], true).unwrap();
    let before = m;
    let r = process_create_bundle(&mut m, &key(10), &vec![key(1)], vec![0, 1], vec![2, 1], 5);
    assert_eq!(r, Err(BundleError::ManagerPaused));
    assert_eq!(m, before);
    let r = process_create_bundle(&mut m, &key(10), &vec![key(2)], vec![0; 30], vec![], 5);
    assert_eq!(r, Err(BundleError::ManagerPaused));
    process_set_manager_status(&mut m, &vec![key(1)], false).unwrap();
    let b = process_create_bundle(&mut m, &key(10), &vec![key(1)], vec![0, 1], vec![2, 1], 5).unwrap();
    assert_eq!(b.bundle_id, 0);
    assert_eq!(m.active_bundles, 1);
}

#[test]
fn record_lengths_follow_the_layout() {
    assert_eq!(MANAGER_RECORD_LEN, 32 + 1 + 1 + 2 + 4 + 1 + 4);
    assert_eq!(bundle_record_len(0), 104);
    assert_eq!(bundle_record_len(2), 108);
    assert_eq!(bundle_record_len(20), 144);
    assert_eq!(bundle_record_len(255), 614);
}

#[test]
fn error_codes_are_distinct() {
    let all = [
        BundleError::Unauthorized,
        BundleError::ManagerPaused,
        BundleError::CapacityExceeded,
        BundleError::ArityMismatch,
        BundleError::AlreadyInitialized,
        BundleError::InvalidState,
        BundleError::IncompleteBundle,
        BundleError::ComputeBudgetExceeded,
        BundleError::OwnershipMismatch,
        BundleError::DeserializationFailure,
        BundleError::DuplicateWallet,
    ];
    for (i, e) in all.iter().enumerate() {
        assert_eq!(e.code(), i as u32);
    }
    assert_eq!(BundleError::ManagerPaused.code(), 1);
    assert_eq!(BundleError::CapacityExceeded.code(), 2);
    assert_eq!(BundleError::ArityMismatch.code(), 3);
}

#[test]
fn status_knows_open_and_terminal() {
    assert!(BundleStatus::Created.accepts_work());
    assert!(BundleStatus::Populating.accepts_work());
    assert!(!BundleStatus::Executing.accepts_work());
    assert!(!BundleStatus::Executed.accepts_work());
    assert!(!BundleStatus::Failed.accepts_work());
    assert!(BundleStatus::Executed.finished());
    assert!(BundleStatus::Failed.finished());
    assert!(!BundleStatus::Executing.finished());
    assert!(!BundleStatus::Created.finished());
    assert!(!BundleStatus::Populating.finished());
}
