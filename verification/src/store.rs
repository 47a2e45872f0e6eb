use vstd::prelude::*;
use crate::address::Address;
use crate::execution::{bundle_executing, bundle_settled, manager_settled, mark_executed, settle_error};
use crate::processor::{
    added_instruction, create_bundle_error, created_bundle, fresh_manager, has_room, manager_after_create,
};
use crate::records::{
    is_for, recorded_count, BundleStatus, BundleView, InstructionAccountMeta, InstructionView, ManagerView,
};

verus! {

/// Whether a bundle is counted: as executed, or else as active.
pub open spec fn is_counted(bundle: BundleView, executed: bool) -> bool {
    if executed {
        bundle.status == BundleStatus::Executed
    } else {
        !bundle.status.is_terminal()
    }
}

/// How many of the bundles are counted.
pub open spec fn tally(bundles: Seq<BundleView>, executed: bool) -> nat
    decreases bundles.len(),
{
    if bundles.len() == 0 {
        0
    } else {
        tally(bundles.drop_last(), executed) + if is_counted(bundles.last(), executed) {
            1nat
        } else {
            0nat
        }
    }
}

/// The bundles that have not reached a terminal state.
pub open spec fn active_count(bundles: Seq<BundleView>) -> nat {
    tally(bundles, false)
}

/// The bundles that were executed.
pub open spec fn executed_count(bundles: Seq<BundleView>) -> nat {
    tally(bundles, true)
}

/// A manager and the bundles issued under it, in the order of issue, agree:
/// the manager counts the active and the executed bundles, its sequence is
/// the number of bundles issued, and every bundle carries its place in that
/// order as its id and keeps the invariant of a bundle.
pub open spec fn consistent(manager: ManagerView, bundles: Seq<BundleView>) -> bool {
    &&& manager.active_bundles == active_count(bundles)
    &&& manager.total_bundles_executed == executed_count(bundles)
    &&& manager.bundle_seed == bundles.len()
    &&& forall|i: int| 0 <= i < bundles.len() ==> (#[trigger] bundles[i]).bundle_id == i && bundles[i].wf()
}

/// Active and executed bundles together are no more than all bundles.
pub proof fn lemma_tally_bound(bundles: Seq<BundleView>)
    ensures
        active_count(bundles) + executed_count(bundles) <= bundles.len(),
    decreases bundles.len(),
{
    if bundles.len() > 0 {
        lemma_tally_bound(bundles.drop_last());
    }
}

/// Replacing one bundle changes a count by that bundle alone.
pub proof fn lemma_tally_update(bundles: Seq<BundleView>, i: int, bundle: BundleView, executed: bool)
    requires
        0 <= i < bundles.len(),
    ensures
        tally(bundles.update(i, bundle), executed) + (if is_counted(bundles[i], executed) {
            1nat
        } else {
            0nat
        }) == tally(bundles, executed) + (if is_counted(bundle, executed) {
            1nat
        } else {
            0nat
        }),
    decreases bundles.len(),
{
    let after = bundles.update(i, bundle);
    if i == bundles.len() - 1 {
        assert(after.drop_last() =~= bundles.drop_last());
    } else {
        lemma_tally_update(bundles.drop_last(), i, bundle, executed);
        assert(after.drop_last() =~= bundles.drop_last().update(i, bundle));
    }
}

/// A fresh manager agrees with a store that holds no bundle.
pub proof fn law_fresh_store(authority: Seq<u8>, bundle_size: u8, priority_fee_multiplier: u8)
    ensures
        consistent(fresh_manager(authority, bundle_size, priority_fee_multiplier), Seq::empty()),
{
}

/// Issuing a bundle keeps manager and bundles in agreement, and the new
/// bundle's id is one that no earlier bundle has.
pub proof fn law_create_keeps_store(
    manager: ManagerView,
    bundles: Seq<BundleView>,
    manager_key: Seq<u8>,
    proofs: Seq<Address>,
    wallet_indexes: Seq<u8>,
    instructions_per_wallet: Seq<u8>,
    now: i64,
)
    requires
        consistent(manager, bundles),
        create_bundle_error(manager, proofs, wallet_indexes, instructions_per_wallet).is_none(),
    ensures
        ({
            let issued = created_bundle(manager, manager_key, wallet_indexes, instructions_per_wallet, now);
            &&& consistent(manager_after_create(manager), bundles.push(issued))
            &&& forall|i: int| 0 <= i < bundles.len() ==> (#[trigger] bundles[i]).bundle_id != issued.bundle_id
            &&& manager_after_create(manager).bundle_seed > manager.bundle_seed
        }),
{
    let issued = created_bundle(manager, manager_key, wallet_indexes, instructions_per_wallet, now);
    let after = bundles.push(issued);
    assert(after.drop_last() =~= bundles);
    assert(after.last() == issued);
}

/// A bundle that takes an instruction, or begins to execute, stays in the
/// active set: manager and bundles remain in agreement.
pub proof fn law_open_bundle_keeps_store(
    manager: ManagerView,
    bundles: Seq<BundleView>,
    i: int,
    now: i64,
)
    requires
        consistent(manager, bundles),
        0 <= i < bundles.len(),
        bundles[i].status.is_open(),
    ensures
        consistent(manager, bundles.update(i, (BundleView { status: BundleStatus::Populating, ..bundles[i] }))),
        consistent(manager, bundles.update(i, bundle_executing(bundles[i], now))),
        manager.active_bundles >= 1,
        manager.total_bundles_executed < u32::MAX,
{
    let populating = BundleView { status: BundleStatus::Populating, ..bundles[i] };
    let executing = bundle_executing(bundles[i], now);
    lemma_tally_update(bundles, i, populating, false);
    lemma_tally_update(bundles, i, populating, true);
    lemma_tally_update(bundles, i, executing, false);
    lemma_tally_update(bundles, i, executing, true);
    let executed = bundle_settled(bundles[i], true, now);
    lemma_tally_update(bundles, i, executed, false);
    lemma_tally_update(bundles, i, executed, true);
    lemma_tally_bound(bundles.update(i, executed));
}

/// In a store that agrees with its manager an executing bundle can always
/// be settled, and settling it keeps the agreement: the active count goes
/// down by this one bundle, and the executed count goes up only where every
/// instruction was applied.
pub proof fn law_settle_keeps_store(
    manager: ManagerView,
    bundles: Seq<BundleView>,
    i: int,
    all_applied: bool,
    now: i64,
)
    requires
        consistent(manager, bundles),
        0 <= i < bundles.len(),
        bundles[i].status == BundleStatus::Executing,
    ensures
        settle_error(manager, bundles[i], all_applied).is_none(),
        consistent(
            manager_settled(manager, all_applied),
            bundles.update(i, bundle_settled(bundles[i], all_applied, now)),
        ),
{
    let settled = bundle_settled(bundles[i], all_applied, now);
    lemma_tally_update(bundles, i, settled, false);
    lemma_tally_update(bundles, i, settled, true);
    lemma_tally_bound(bundles);
}

/// Pausing or resuming a manager leaves it in agreement with its bundles.
pub proof fn law_pause_keeps_store(manager: ManagerView, bundles: Seq<BundleView>, is_paused: bool)
    requires
        consistent(manager, bundles),
    ensures
        consistent((ManagerView { is_paused, ..manager }), bundles),
{
}

/// No declared wallet of the bundle at `bundle_key` holds more instructions
/// than it declared.
pub open spec fn within_declared(bundle: BundleView, bundle_key: Seq<u8>, records: Seq<InstructionView>) -> bool {
    forall|p: int|
        0 <= p < bundle.wallet_indexes.len() && p < bundle.instructions_per_wallet.len()
            ==> recorded_count(records, bundle_key, #[trigger] bundle.wallet_indexes[p])
            <= bundle.instructions_per_wallet[p]
}

/// No instruction of the bundle at `bundle_key` is marked as executed.
pub open spec fn none_executed(records: Seq<InstructionView>, bundle_key: Seq<u8>) -> bool {
    forall|i: int| 0 <= i < records.len() && (#[trigger] records[i]).bundle == bundle_key ==> !records[i].executed
}

/// Marking instructions as executed changes no count.
pub proof fn lemma_mark_keeps_count(records: Seq<InstructionView>, marked_key: Seq<u8>, bundle_key: Seq<u8>, wallet: u8)
    ensures
        recorded_count(mark_executed(records, marked_key), bundle_key, wallet) == recorded_count(
            records,
            bundle_key,
            wallet,
        ),
    decreases records.len(),
{
    if records.len() > 0 {
        lemma_mark_keeps_count(records.drop_last(), marked_key, bundle_key, wallet);
        assert(mark_executed(records, marked_key).drop_last() =~= mark_executed(records.drop_last(), marked_key));
    }
}

/// An instruction added where its wallet has room keeps every bundle within
/// what it declared: the bundle it was added to, and any bundle at another
/// place. The new record is not marked, so a bundle none of whose
/// instructions is marked stays so.
pub proof fn law_add_keeps_records(
    bundle: BundleView,
    bundle_key: Seq<u8>,
    other: BundleView,
    other_key: Seq<u8>,
    records: Seq<InstructionView>,
    wallet: u8,
    instruction_data: Seq<u8>,
    accounts: Seq<InstructionAccountMeta>,
)
    requires
        bundle.wf(),
        has_room(bundle, records, bundle_key, wallet),
    ensures
        ({
            let after = records.push(added_instruction(bundle_key, wallet, instruction_data, accounts));
            &&& within_declared(bundle, bundle_key, records) ==> within_declared(bundle, bundle_key, after)
            &&& other_key != bundle_key && within_declared(other, other_key, records) ==> within_declared(
                other,
                other_key,
                after,
            )
            &&& none_executed(records, other_key) ==> none_executed(after, other_key)
        }),
{
    let added = added_instruction(bundle_key, wallet, instruction_data, accounts);
    let after = records.push(added);
    assert(after.drop_last() =~= records);
    assert(after.last() == added);
    assert forall|key: Seq<u8>, w: u8| key != bundle_key || w != wallet implies #[trigger] recorded_count(after, key, w)
        == recorded_count(records, key, w) by {
        assert(!is_for(added, key, w));
    }
    assert(recorded_count(after, bundle_key, wallet) == recorded_count(records, bundle_key, wallet) + 1);
}

/// Settling a bundle as executed marks its instructions and touches no
/// other: every bundle stays within what it declared, and a bundle at
/// another place none of whose instructions is marked stays so.
pub proof fn law_mark_keeps_records(
    records: Seq<InstructionView>,
    marked_key: Seq<u8>,
    other: BundleView,
    other_key: Seq<u8>,
)
    ensures
        within_declared(other, other_key, records) ==> within_declared(
            other,
            other_key,
            mark_executed(records, marked_key),
        ),
        other_key != marked_key && none_executed(records, other_key) ==> none_executed(
            mark_executed(records, marked_key),
            other_key,
        ),
{
    assert forall|p: int|
        0 <= p < other.wallet_indexes.len() && p < other.instructions_per_wallet.len() implies recorded_count(
        mark_executed(records, marked_key),
        other_key,
        #[trigger] other.wallet_indexes[p],
    ) == recorded_count(records, other_key, other.wallet_indexes[p]) by {
        lemma_mark_keeps_count(records, marked_key, other_key, other.wallet_indexes[p]);
    }
}

} // verus!
