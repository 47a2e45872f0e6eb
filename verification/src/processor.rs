use vstd::prelude::*;
use crate::address::Address;
use crate::error::BundleError;
use crate::guard::{authority_guard, guard_outcome, has_proof, is_signed_by};
use crate::records::{
    all_distinct, count_recorded, recorded_count, views, Bundle, BundleInstruction, BundleManager,
    BundleStatus, BundleView, InstructionAccountMeta, InstructionView, ManagerView, MAX_WALLETS,
};

verus! {

/// What stands at the place where a manager record is to be written.
#[derive(Clone, Copy, Debug, PartialEq, Eq, Structural)]
pub enum SlotState {
    /// Nothing has been provisioned there.
    Vacant,
    /// A record of this system lives there.
    Owned,
    /// Something lives there under another owner.
    Foreign,
}

/// Tells the three states of a place apart: `owner` holds it, `program` is
/// this system, and `provisioned` says whether anything was allocated there.
pub fn slot_state(owner: &Address, program: &Address, provisioned: bool) -> (s: SlotState)
    ensures
        s == if owner@ == program@ {
            SlotState::Owned
        } else if provisioned {
            SlotState::Foreign
        } else {
            SlotState::Vacant
        },
{
    if owner.same(program) {
        SlotState::Owned
    } else if provisioned {
        SlotState::Foreign
    } else {
        SlotState::Vacant
    }
}

/// A manager as it is first written: not paused, all counters at zero.
pub open spec fn fresh_manager(authority: Seq<u8>, bundle_size: u8, priority_fee_multiplier: u8) -> ManagerView {
    ManagerView {
        authority,
        bundle_size,
        priority_fee_multiplier,
        active_bundles: 0,
        total_bundles_executed: 0,
        is_paused: false,
        bundle_seed: 0,
    }
}

/// Why a manager cannot be initialized, if anything stands against it.
pub open spec fn initialize_error(slot: SlotState, proofs: Seq<Address>, authority: Seq<u8>) -> Option<BundleError> {
    if slot == SlotState::Owned {
        Some(BundleError::AlreadyInitialized)
    } else if slot == SlotState::Foreign {
        Some(BundleError::OwnershipMismatch)
    } else if !is_signed_by(proofs, authority) {
        Some(BundleError::Unauthorized)
    } else {
        None
    }
}

/// Binds a new manager to `authority`. A live manager is never written over.
pub fn process_initialize(
    slot: SlotState,
    authority: &Address,
    proofs: &Vec<Address>,
    bundle_size: u8,
    priority_fee_multiplier: u8,
) -> (r: Result<BundleManager, BundleError>)
    ensures
        match r {
            Ok(m) => {
                &&& initialize_error(slot, proofs@, authority@).is_none()
                &&& m@ == fresh_manager(authority@, bundle_size, priority_fee_multiplier)
                &&& !m@.is_paused
                &&& m@.active_bundles == 0
                &&& m@.total_bundles_executed == 0
                &&& m@.bundle_seed == 0
            },
            Err(e) => initialize_error(slot, proofs@, authority@) == Some(e),
        },
{
    match slot {
        SlotState::Owned => { return Err(BundleError::AlreadyInitialized); },
        SlotState::Foreign => { return Err(BundleError::OwnershipMismatch); },
        SlotState::Vacant => {},
    }
    if !has_proof(proofs, authority) {
        return Err(BundleError::Unauthorized);
    }
    Ok(
        BundleManager {
            authority: *authority,
            bundle_size,
            priority_fee_multiplier,
            active_bundles: 0,
            total_bundles_executed: 0,
            is_paused: false,
            bundle_seed: 0,
        },
    )
}

/// Pauses or resumes the manager. The pause flag itself never stands in the
/// way of this operation.
pub fn process_set_manager_status(
    manager: &mut BundleManager,
    proofs: &Vec<Address>,
    is_paused: bool,
) -> (r: Result<(), BundleError>)
    ensures
        r == guard_outcome(old(manager)@.authority, proofs@, old(manager)@.is_paused, true),
        r.is_ok() == is_signed_by(proofs@, old(manager)@.authority),
        r.is_ok() ==> final(manager)@ == (ManagerView { is_paused, ..old(manager)@ }),
        r.is_err() ==> final(manager)@ == old(manager)@,
{
    authority_guard(&manager.authority, proofs, manager.is_paused, true)?;
    manager.is_paused = is_paused;
    Ok(())
}

/// Why a bundle cannot be created, if anything stands against it.
pub open spec fn create_bundle_error(
    manager: ManagerView,
    proofs: Seq<Address>,
    wallet_indexes: Seq<u8>,
    instructions_per_wallet: Seq<u8>,
) -> Option<BundleError> {
    if manager.is_paused {
        Some(BundleError::ManagerPaused)
    } else if wallet_indexes.len() > MAX_WALLETS {
        Some(BundleError::CapacityExceeded)
    } else if wallet_indexes.len() != instructions_per_wallet.len() {
        Some(BundleError::ArityMismatch)
    } else if !is_signed_by(proofs, manager.authority) {
        Some(BundleError::Unauthorized)
    } else if !wallet_indexes.no_duplicates() {
        Some(BundleError::DuplicateWallet)
    } else if manager.active_bundles == u16::MAX || manager.bundle_seed == u32::MAX {
        Some(BundleError::CapacityExceeded)
    } else {
        None
    }
}

/// The bundle that a manager issues at time `now`.
pub open spec fn created_bundle(
    manager: ManagerView,
    manager_key: Seq<u8>,
    wallet_indexes: Seq<u8>,
    instructions_per_wallet: Seq<u8>,
    now: i64,
) -> BundleView {
    BundleView {
        manager: manager_key,
        authority: manager.authority,
        bundle_id: manager.bundle_seed,
        created_at: now,
        execution_started_at: 0,
        execution_completed_at: 0,
        wallet_count: wallet_indexes.len() as u8,
        wallet_indexes,
        instructions_per_wallet,
        status: BundleStatus::Created,
        priority_fee: 0,
    }
}

/// The manager once it has issued one more bundle.
pub open spec fn manager_after_create(manager: ManagerView) -> ManagerView {
    ManagerView {
        active_bundles: (manager.active_bundles + 1) as u16,
        bundle_seed: (manager.bundle_seed + 1) as u32,
        ..manager
    }
}

/// Issues a bundle under the manager. The bundle and the manager's new
/// counters come together or not at all.
pub fn process_create_bundle(
    manager: &mut BundleManager,
    manager_key: &Address,
    proofs: &Vec<Address>,
    wallet_indexes: Vec<u8>,
    instructions_per_wallet: Vec<u8>,
    now: i64,
) -> (r: Result<Bundle, BundleError>)
    ensures
        match r {
            Ok(b) => {
                &&& create_bundle_error(old(manager)@, proofs@, wallet_indexes@, instructions_per_wallet@).is_none()
                &&& b@ == created_bundle(old(manager)@, manager_key@, wallet_indexes@, instructions_per_wallet@, now)
                &&& b@.wf()
                &&& b@.bundle_id == old(manager)@.bundle_seed
                &&& final(manager)@ == manager_after_create(old(manager)@)
                &&& final(manager)@.active_bundles == old(manager)@.active_bundles + 1
                &&& final(manager)@.bundle_seed == old(manager)@.bundle_seed + 1
            },
            Err(e) => {
                &&& create_bundle_error(old(manager)@, proofs@, wallet_indexes@, instructions_per_wallet@) == Some(e)
                &&& final(manager)@ == old(manager)@
            },
        },
{
    if manager.is_paused {
        return Err(BundleError::ManagerPaused);
    }
    if wallet_indexes.len() > MAX_WALLETS {
        return Err(BundleError::CapacityExceeded);
    }
    if wallet_indexes.len() != instructions_per_wallet.len() {
        return Err(BundleError::ArityMismatch);
    }
    if !has_proof(proofs, &manager.authority) {
        return Err(BundleError::Unauthorized);
    }
    if !all_distinct(&wallet_indexes) {
        return Err(BundleError::DuplicateWallet);
    }
    if manager.active_bundles == u16::MAX || manager.bundle_seed == u32::MAX {
        return Err(BundleError::CapacityExceeded);
    }
    let bundle = Bundle {
        manager: *manager_key,
        authority: manager.authority,
        bundle_id: manager.bundle_seed,
        created_at: now,
        execution_started_at: 0,
        execution_completed_at: 0,
        wallet_count: wallet_indexes.len() as u8,
        wallet_indexes,
        instructions_per_wallet,
        status: BundleStatus::Created,
        priority_fee: 0,
    };
    manager.active_bundles += 1;
    manager.bundle_seed += 1;
    Ok(bundle)
}

/// Whether `wallet` is declared in the bundle and has not yet received all
/// the instructions it declared.
pub open spec fn has_room(bundle: BundleView, records: Seq<InstructionView>, bundle_key: Seq<u8>, wallet: u8) -> bool {
    exists|p: int|
        0 <= p < bundle.wallet_indexes.len() && p < bundle.instructions_per_wallet.len()
            && #[trigger] bundle.wallet_indexes[p] == wallet && recorded_count(records, bundle_key, wallet)
            < bundle.instructions_per_wallet[p]
}

/// Why an instruction cannot be added, if anything stands against it.
pub open spec fn add_instruction_error(
    manager: ManagerView,
    bundle: BundleView,
    bundle_key: Seq<u8>,
    records: Seq<InstructionView>,
    proofs: Seq<Address>,
    wallet: u8,
) -> Option<BundleError> {
    if !is_signed_by(proofs, bundle.authority) {
        Some(BundleError::Unauthorized)
    } else if manager.is_paused {
        Some(BundleError::ManagerPaused)
    } else if !bundle.status.is_open() {
        Some(BundleError::InvalidState)
    } else if !has_room(bundle, records, bundle_key, wallet) {
        Some(BundleError::CapacityExceeded)
    } else {
        None
    }
}

/// The record of an instruction that has just been added.
pub open spec fn added_instruction(
    bundle_key: Seq<u8>,
    wallet: u8,
    instruction_data: Seq<u8>,
    accounts: Seq<InstructionAccountMeta>,
) -> InstructionView {
    InstructionView { bundle: bundle_key, wallet_index: wallet, instruction_data, accounts, executed: false }
}

/// Exec form of `has_room`.
pub fn wallet_has_room(bundle: &Bundle, bundle_key: &Address, records: &Vec<BundleInstruction>, wallet: u8) -> (b: bool)
    requires
        bundle@.wf(),
    ensures
        b == has_room(bundle@, views(records@), bundle_key@, wallet),
{
    let n = bundle.wallet_indexes.len();
    let mut p: usize = 0;
    while p < n
        invariant
            bundle@.wf(),
            n == bundle@.wallet_indexes.len(),
            p <= n,
            forall|q: int| 0 <= q < p ==> bundle@.wallet_indexes[q] != wallet,
        decreases n - p,
    {
        if bundle.wallet_indexes[p] == wallet {
            let recorded = count_recorded(records, bundle_key, wallet);
            let declared = bundle.instructions_per_wallet[p] as usize;
            return recorded < declared;
        }
        p += 1;
    }
    false
}

/// Appends one instruction to a bundle that still takes them. The first
/// instruction moves the bundle from `Created` to `Populating`. On an error
/// neither the bundle nor the records change.
pub fn process_add_instruction(
    manager: &BundleManager,
    bundle: &mut Bundle,
    bundle_key: &Address,
    records: &mut Vec<BundleInstruction>,
    proofs: &Vec<Address>,
    wallet_index: u8,
    instruction_data: Vec<u8>,
    accounts: Vec<InstructionAccountMeta>,
) -> (r: Result<(), BundleError>)
    requires
        old(bundle)@.wf(),
    ensures
        match r {
            Ok(_) => {
                &&& add_instruction_error(manager@, old(bundle)@, bundle_key@, views(old(records)@), proofs@, wallet_index).is_none()
                &&& final(bundle)@ == (BundleView { status: BundleStatus::Populating, ..old(bundle)@ })
                &&& views(final(records)@) == views(old(records)@).push(
                    added_instruction(bundle_key@, wallet_index, instruction_data@, accounts@),
                )
            },
            Err(e) => {
                &&& add_instruction_error(manager@, old(bundle)@, bundle_key@, views(old(records)@), proofs@, wallet_index) == Some(e)
                &&& final(bundle)@ == old(bundle)@
                &&& final(records)@ == old(records)@
            },
        },
        final(bundle)@.wf(),
{
    authority_guard(&bundle.authority, proofs, manager.is_paused, false)?;
    if !bundle.status.accepts_work() {
        return Err(BundleError::InvalidState);
    }
    if !wallet_has_room(bundle, bundle_key, records, wallet_index) {
        return Err(BundleError::CapacityExceeded);
    }
    let record = BundleInstruction {
        bundle: *bundle_key,
        wallet_index,
        instruction_data,
        accounts,
        executed: false,
    };
    records.push(record);
    bundle.status = BundleStatus::Populating;
    assert(views(records@) =~= views(old(records)@).push(
        added_instruction(bundle_key@, wallet_index, instruction_data@, accounts@),
    ));
    Ok(())
}

} // verus!
