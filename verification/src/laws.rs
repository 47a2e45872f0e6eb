use vstd::prelude::*;
use crate::address::Address;
use crate::error::BundleError;
use crate::execution::{
    bundle_cost, bundle_executing, bundle_settled, execute_error, is_complete, manager_settled,
    mark_executed, settle_error,
};
use crate::guard::{guard_outcome, is_signed_by};
use crate::processor::{add_instruction_error, added_instruction, create_bundle_error, has_room};
use crate::records::{
    is_for, recorded_count, BundleStatus, BundleView, InstructionAccountMeta, InstructionView,
    ManagerView, MAX_WALLETS,
};

verus! {

/// A bundle of more than `MAX_WALLETS` wallets is refused as over capacity
/// by every manager that is not paused.
pub proof fn law_too_many_wallets(
    manager: ManagerView,
    proofs: Seq<Address>,
    wallet_indexes: Seq<u8>,
    instructions_per_wallet: Seq<u8>,
)
    requires
        !manager.is_paused,
        wallet_indexes.len() > MAX_WALLETS,
    ensures
        create_bundle_error(manager, proofs, wallet_indexes, instructions_per_wallet) == Some(
            BundleError::CapacityExceeded,
        ),
{
}

/// Wallet indexes and instruction counts of different lengths are refused
/// as an arity mismatch, by a manager that is not paused and for no more
/// than `MAX_WALLETS` wallets.
pub proof fn law_mismatched_lengths(
    manager: ManagerView,
    proofs: Seq<Address>,
    wallet_indexes: Seq<u8>,
    instructions_per_wallet: Seq<u8>,
)
    requires
        !manager.is_paused,
        wallet_indexes.len() <= MAX_WALLETS,
        wallet_indexes.len() != instructions_per_wallet.len(),
    ensures
        create_bundle_error(manager, proofs, wallet_indexes, instructions_per_wallet) == Some(
            BundleError::ArityMismatch,
        ),
{
}

/// A bundle that is executing or has ended takes no instruction: the
/// request always fails, and for a signed request under a manager that is
/// not paused it fails with `InvalidState`.
pub proof fn law_closed_bundle_takes_no_instruction(
    manager: ManagerView,
    bundle: BundleView,
    bundle_key: Seq<u8>,
    records: Seq<InstructionView>,
    proofs: Seq<Address>,
    wallet: u8,
)
    requires
        bundle.status == BundleStatus::Executing || bundle.status == BundleStatus::Executed || bundle.status
            == BundleStatus::Failed,
    ensures
        add_instruction_error(manager, bundle, bundle_key, records, proofs, wallet).is_some(),
        is_signed_by(proofs, bundle.authority) && !manager.is_paused ==> add_instruction_error(
            manager,
            bundle,
            bundle_key,
            records,
            proofs,
            wallet,
        ) == Some(BundleError::InvalidState),
{
}

/// An added instruction counts once for its wallet in its bundle and for
/// no other, so a wallet with room stays within what it declared.
pub proof fn law_added_instruction_counts_once(
    bundle: BundleView,
    records: Seq<InstructionView>,
    bundle_key: Seq<u8>,
    wallet: u8,
    instruction_data: Seq<u8>,
    accounts: Seq<InstructionAccountMeta>,
    other_key: Seq<u8>,
    other_wallet: u8,
)
    requires
        bundle.wf(),
    ensures
        ({
            let after = records.push(added_instruction(bundle_key, wallet, instruction_data, accounts));
            &&& recorded_count(after, bundle_key, wallet) == recorded_count(records, bundle_key, wallet) + 1
            &&& other_key != bundle_key || other_wallet != wallet ==> recorded_count(after, other_key, other_wallet)
                == recorded_count(records, other_key, other_wallet)
            &&& has_room(bundle, records, bundle_key, wallet) ==> forall|p: int|
                0 <= p < bundle.wallet_indexes.len() && #[trigger] bundle.wallet_indexes[p] == wallet
                    ==> recorded_count(after, bundle_key, wallet) <= bundle.instructions_per_wallet[p]
        }),
{
    let added = added_instruction(bundle_key, wallet, instruction_data, accounts);
    let after = records.push(added);
    assert(after.drop_last() =~= records);
    assert(after.last() == added);
    assert(is_for(added, bundle_key, wallet));
}

/// A bundle that lacks a declared instruction does not execute: a signed
/// request under a manager that is not paused, on a bundle that is still
/// open, fails with `IncompleteBundle`.
pub proof fn law_incomplete_bundle_does_not_execute(
    manager: ManagerView,
    bundle: BundleView,
    bundle_key: Seq<u8>,
    records: Seq<InstructionView>,
    costs: Seq<u32>,
    proofs: Seq<Address>,
    max_compute_units: u32,
)
    requires
        is_signed_by(proofs, bundle.authority),
        !manager.is_paused,
        bundle.status.is_open(),
        !is_complete(bundle, records, bundle_key),
    ensures
        execute_error(manager, bundle, bundle_key, records, costs, proofs, max_compute_units) == Some(
            BundleError::IncompleteBundle,
        ),
{
}

/// A bundle whose estimated cost is above the ceiling never begins to
/// execute; where nothing else stands against it, the error is
/// `ComputeBudgetExceeded`.
pub proof fn law_over_budget_does_not_execute(
    manager: ManagerView,
    bundle: BundleView,
    bundle_key: Seq<u8>,
    records: Seq<InstructionView>,
    costs: Seq<u32>,
    proofs: Seq<Address>,
    max_compute_units: u32,
)
    requires
        bundle_cost(records, costs, bundle_key) > max_compute_units,
    ensures
        execute_error(manager, bundle, bundle_key, records, costs, proofs, max_compute_units).is_some(),
        is_signed_by(proofs, bundle.authority) && !manager.is_paused && bundle.status.is_open() && is_complete(
            bundle,
            records,
            bundle_key,
        ) && costs.len() == records.len() ==> execute_error(
            manager,
            bundle,
            bundle_key,
            records,
            costs,
            proofs,
            max_compute_units,
        ) == Some(BundleError::ComputeBudgetExceeded),
{
}

/// A bundle that began at `started` and was settled with every instruction
/// applied at `finished` is `Executed`, all its instructions are marked,
/// the manager has one more executed and one less active bundle, and, with
/// a clock that does not run backwards, its three times are in order.
pub proof fn law_executed_bundle(
    manager: ManagerView,
    bundle: BundleView,
    bundle_key: Seq<u8>,
    records: Seq<InstructionView>,
    started: i64,
    finished: i64,
)
    requires
        bundle.created_at <= started <= finished,
        settle_error(manager, bundle_executing(bundle, started), true).is_none(),
    ensures
        ({
            let ended = bundle_settled(bundle_executing(bundle, started), true, finished);
            let counted = manager_settled(manager, true);
            let marked = mark_executed(records, bundle_key);
            &&& ended.status == BundleStatus::Executed
            &&& ended.execution_completed_at >= ended.execution_started_at >= ended.created_at
            &&& counted.total_bundles_executed == manager.total_bundles_executed + 1
            &&& counted.active_bundles == manager.active_bundles - 1
            &&& marked.len() == records.len()
            &&& forall|i: int| 0 <= i < marked.len() && (#[trigger] marked[i]).bundle == bundle_key ==> marked[i].executed
        }),
{
}

/// A bundle settled after a failed instruction is `Failed`, leaves the
/// active set once, and is not counted as executed.
pub proof fn law_failed_bundle(manager: ManagerView, bundle: BundleView, started: i64, finished: i64)
    requires
        settle_error(manager, bundle_executing(bundle, started), false).is_none(),
    ensures
        ({
            let ended = bundle_settled(bundle_executing(bundle, started), false, finished);
            let counted = manager_settled(manager, false);
            &&& ended.status == BundleStatus::Failed
            &&& counted.total_bundles_executed == manager.total_bundles_executed
            &&& counted.active_bundles == manager.active_bundles - 1
        }),
{
}

/// Of two attempts to execute one bundle only the first goes through. Once
/// the first has moved the bundle to `Executing`, and again once the bundle
/// was settled, any other attempt to begin fails, with `InvalidState` where
/// it is signed and the manager not paused; and a settled bundle cannot be
/// settled again, so it leaves the active set once.
pub proof fn law_executes_once(
    manager: ManagerView,
    bundle: BundleView,
    bundle_key: Seq<u8>,
    records: Seq<InstructionView>,
    costs: Seq<u32>,
    proofs: Seq<Address>,
    max_compute_units: u32,
    started: i64,
    finished: i64,
    all_applied: bool,
    again_applied: bool,
)
    ensures
        ({
            let running = bundle_executing(bundle, started);
            let ended = bundle_settled(running, all_applied, finished);
            &&& execute_error(manager, running, bundle_key, records, costs, proofs, max_compute_units).is_some()
            &&& execute_error(manager, ended, bundle_key, records, costs, proofs, max_compute_units).is_some()
            &&& is_signed_by(proofs, bundle.authority) && !manager.is_paused ==> {
                &&& execute_error(manager, running, bundle_key, records, costs, proofs, max_compute_units) == Some(
                    BundleError::InvalidState,
                )
                &&& execute_error(manager, ended, bundle_key, records, costs, proofs, max_compute_units) == Some(
                    BundleError::InvalidState,
                )
            }
            &&& settle_error(manager, ended, again_applied) == Some(BundleError::InvalidState)
        }),
{
}

/// Once a manager is paused it issues no bundle, whatever is asked of it
/// and whoever asks.
pub proof fn law_paused_manager_creates_nothing(
    manager: ManagerView,
    proofs: Seq<Address>,
    wallet_indexes: Seq<u8>,
    instructions_per_wallet: Seq<u8>,
)
    ensures
        create_bundle_error(
            (ManagerView { is_paused: true, ..manager }),
            proofs,
            wallet_indexes,
            instructions_per_wallet,
        ) == Some(BundleError::ManagerPaused),
{
}

/// Pausing a manager and resuming it gives back the manager as it was, so
/// every request is answered as before the pause.
pub proof fn law_resume_restores(manager: ManagerView)
    requires
        !manager.is_paused,
    ensures
        (ManagerView { is_paused: false, ..(ManagerView { is_paused: true, ..manager }) }) == manager,
{
}

/// The pause flag never stands in the way of setting it: the guard answers
/// an exempt operation alike on a paused and on a running manager, and
/// never with `ManagerPaused`.
pub proof fn law_pause_is_exempt(authority: Seq<u8>, proofs: Seq<Address>, paused: bool)
    ensures
        guard_outcome(authority, proofs, paused, true) == guard_outcome(authority, proofs, !paused, true),
        guard_outcome(authority, proofs, paused, true) != Err::<(), BundleError>(BundleError::ManagerPaused),
        guard_outcome(authority, proofs, paused, true).is_ok() == is_signed_by(proofs, authority),
{
}

} // verus!
