use vstd::prelude::*;
use crate::address::Address;
use crate::error::BundleError;
use crate::guard::{authority_guard, is_signed_by};
use crate::records::{
    count_recorded, recorded_count, views, Bundle, BundleInstruction, BundleManager, BundleStatus,
    BundleView, InstructionView, ManagerView,
};

verus! {

/// Every declared wallet has received exactly the instructions it declared.
pub open spec fn is_complete(bundle: BundleView, records: Seq<InstructionView>, bundle_key: Seq<u8>) -> bool {
    forall|p: int|
        0 <= p < bundle.wallet_indexes.len() && p < bundle.instructions_per_wallet.len()
            ==> recorded_count(records, bundle_key, #[trigger] bundle.wallet_indexes[p])
            == bundle.instructions_per_wallet[p]
}

/// Exec form of `is_complete`.
pub fn check_complete(bundle: &Bundle, bundle_key: &Address, records: &Vec<BundleInstruction>) -> (b: bool)
    requires
        bundle@.wf(),
    ensures
        b == is_complete(bundle@, views(records@), bundle_key@),
{
    let n = bundle.wallet_indexes.len();
    let mut p: usize = 0;
    while p < n
        invariant
            bundle@.wf(),
            n == bundle@.wallet_indexes.len(),
            p <= n,
            forall|q: int|
                0 <= q < p ==> recorded_count(views(records@), bundle_key@, #[trigger] bundle@.wallet_indexes[q])
                    == bundle@.instructions_per_wallet[q],
        decreases n - p,
    {
        let recorded = count_recorded(records, bundle_key, bundle.wallet_indexes[p]);
        if recorded != bundle.instructions_per_wallet[p] as usize {
            return false;
        }
        p += 1;
    }
    true
}

/// The estimated cost of those among the first `n` records that belong to
/// the bundle at `bundle_key`; `costs[i]` is the estimate for `records[i]`.
pub open spec fn cost_of_first(records: Seq<InstructionView>, costs: Seq<u32>, bundle_key: Seq<u8>, n: nat) -> nat
    decreases n,
{
    if n == 0 {
        0
    } else {
        cost_of_first(records, costs, bundle_key, (n - 1) as nat) + if records[n - 1].bundle == bundle_key {
            costs[n - 1] as nat
        } else {
            0nat
        }
    }
}

/// The estimated cost of the whole bundle.
pub open spec fn bundle_cost(records: Seq<InstructionView>, costs: Seq<u32>, bundle_key: Seq<u8>) -> nat {
    cost_of_first(records, costs, bundle_key, records.len())
}

/// What the budget check answers: every record needs its estimate, and
/// the estimates of the bundle's records must sum to no more than
/// `max_compute_units`.
pub open spec fn budget_outcome(
    records: Seq<InstructionView>,
    costs: Seq<u32>,
    bundle_key: Seq<u8>,
    max_compute_units: u32,
) -> Result<(), BundleError> {
    if costs.len() != records.len() {
        Err(BundleError::ArityMismatch)
    } else if bundle_cost(records, costs, bundle_key) > max_compute_units {
        Err(BundleError::ComputeBudgetExceeded)
    } else {
        Ok(())
    }
}

/// Holds the estimated cost of a bundle against the caller's ceiling.
pub fn check_budget(
    records: &Vec<BundleInstruction>,
    costs: &Vec<u32>,
    bundle_key: &Address,
    max_compute_units: u32,
) -> (r: Result<(), BundleError>)
    ensures
        r == budget_outcome(views(records@), costs@, bundle_key@, max_compute_units),
{
    if costs.len() != records.len() {
        Err(BundleError::ArityMismatch)
    } else if !within_budget(records, costs, bundle_key, max_compute_units) {
        Err(BundleError::ComputeBudgetExceeded)
    } else {
        Ok(())
    }
}

/// Whether the estimated cost of the bundle stays within `max_compute_units`.
fn within_budget(
    records: &Vec<BundleInstruction>,
    costs: &Vec<u32>,
    bundle_key: &Address,
    max_compute_units: u32,
) -> (b: bool)
    requires
        costs@.len() == records@.len(),
    ensures
        b == (bundle_cost(views(records@), costs@, bundle_key@) <= max_compute_units),
{
    let n = records.len();
    let mut total: u64 = 0;
    let mut over = false;
    let mut i: usize = 0;
    while i < n
        invariant
            n == records@.len(),
            n == costs@.len(),
            i <= n,
            over ==> cost_of_first(views(records@), costs@, bundle_key@, i as nat) > max_compute_units,
            !over ==> total == cost_of_first(views(records@), costs@, bundle_key@, i as nat) && total
                <= max_compute_units,
        decreases n - i,
    {
        if !over && records[i].bundle.same(bundle_key) {
            total = total + costs[i] as u64;
            if total > max_compute_units as u64 {
                over = true;
            }
        }
        i += 1;
    }
    !over
}

/// Whether record `a` is applied before record `b`: the lower wallet index
/// first, and within one wallet the record that was added first.
pub open spec fn comes_before(records: Seq<InstructionView>, a: int, b: int) -> bool {
    records[a].wallet_index < records[b].wallet_index || (records[a].wallet_index == records[b].wallet_index
        && a < b)
}

/// `plan` lists the places of exactly the records of the bundle at
/// `bundle_key`, each once, in the order in which they are applied.
pub open spec fn is_execution_order(plan: Seq<usize>, records: Seq<InstructionView>, bundle_key: Seq<u8>) -> bool {
    &&& forall|k: int|
        0 <= k < plan.len() ==> (#[trigger] plan[k]) < records.len() && records[plan[k] as int].bundle
            == bundle_key
    &&& forall|a: int, b: int| 0 <= a < b < plan.len() ==> comes_before(records, #[trigger] plan[a] as int, #[trigger] plan[b] as int)
    &&& forall|i: int| 0 <= i < records.len() && (#[trigger] records[i]).bundle == bundle_key ==> plan.contains(i as usize)
}

/// The order in which the instructions of a bundle are applied.
pub fn execution_order(records: &Vec<BundleInstruction>, bundle_key: &Address) -> (plan: Vec<usize>)
    ensures
        is_execution_order(plan@, views(records@), bundle_key@),
{
    let n = records.len();
    let ghost rs = views(records@);
    let ghost key = bundle_key@;
    let mut plan: Vec<usize> = Vec::new();
    let mut w: usize = 0;
    while w < 256
        invariant
            n == records@.len(),
            rs == views(records@),
            key == bundle_key@,
            w <= 256,
            forall|k: int|
                0 <= k < plan@.len() ==> (#[trigger] plan@[k]) < n && rs[plan@[k] as int].bundle == key
                    && rs[plan@[k] as int].wallet_index < w,
            forall|a: int, b: int| 0 <= a < b < plan@.len() ==> comes_before(rs, #[trigger] plan@[a] as int, #[trigger] plan@[b] as int),
            forall|i: int|
                0 <= i < n && (#[trigger] rs[i]).bundle == key && rs[i].wallet_index < w ==> plan@.contains(
                    i as usize,
                ),
        decreases 256 - w,
    {
        let mut i: usize = 0;
        while i < n
            invariant
                n == records@.len(),
                rs == views(records@),
                key == bundle_key@,
                w < 256,
                i <= n,
                forall|k: int|
                    0 <= k < plan@.len() ==> (#[trigger] plan@[k]) < n && rs[plan@[k] as int].bundle == key && (
                    rs[plan@[k] as int].wallet_index < w || (rs[plan@[k] as int].wallet_index == w && plan@[k]
                        < i)),
                forall|a: int, b: int|
                    0 <= a < b < plan@.len() ==> comes_before(rs, #[trigger] plan@[a] as int, #[trigger] plan@[b] as int),
                forall|j: int|
                    0 <= j < n && (#[trigger] rs[j]).bundle == key && (rs[j].wallet_index < w || (
                    rs[j].wallet_index == w && j < i)) ==> plan@.contains(j as usize),
            decreases n - i,
        {
            if records[i].wallet_index as usize == w && records[i].bundle.same(bundle_key) {
                let ghost before = plan@;
                plan.push(i);
                proof {
                    assert(plan@[before.len() as int] == i);
                    assert forall|j: int|
                        0 <= j < n && (#[trigger] rs[j]).bundle == key && (rs[j].wallet_index < w || (
                        rs[j].wallet_index == w && j < i + 1)) implies plan@.contains(j as usize) by {
                        if j == i {
                            assert(plan@[before.len() as int] == j as usize);
                        } else {
                            assert(before.contains(j as usize));
                            let k = choose|k: int| 0 <= k < before.len() && before[k] == j as usize;
                            assert(plan@[k] == j as usize);
                        }
                    }
                }
            }
            i += 1;
        }
        w += 1;
    }
    plan
}

/// Why the execution of a bundle cannot begin, if anything stands against it.
pub open spec fn execute_error(
    manager: ManagerView,
    bundle: BundleView,
    bundle_key: Seq<u8>,
    records: Seq<InstructionView>,
    costs: Seq<u32>,
    proofs: Seq<Address>,
    max_compute_units: u32,
) -> Option<BundleError> {
    if !is_signed_by(proofs, bundle.authority) {
        Some(BundleError::Unauthorized)
    } else if manager.is_paused {
        Some(BundleError::ManagerPaused)
    } else if !bundle.status.is_open() {
        Some(BundleError::InvalidState)
    } else if !is_complete(bundle, records, bundle_key) {
        Some(BundleError::IncompleteBundle)
    } else if budget_outcome(records, costs, bundle_key, max_compute_units) is Err {
        budget_outcome(records, costs, bundle_key, max_compute_units).err()
    } else if manager.active_bundles == 0 {
        Some(BundleError::InvalidState)
    } else if manager.total_bundles_executed == u32::MAX {
        Some(BundleError::CapacityExceeded)
    } else {
        None
    }
}

/// The bundle once its execution has begun at time `now`.
pub open spec fn bundle_executing(bundle: BundleView, now: i64) -> BundleView {
    BundleView { status: BundleStatus::Executing, execution_started_at: now, ..bundle }
}

/// Begins the execution of a bundle: checks that it is ready and within the
/// budget, moves it to `Executing`, and hands out the order in which its
/// instructions are to be applied. `costs[i]` is the estimate for
/// `records[i]`. On an error nothing changes. No instruction may be applied
/// before this has returned `Ok`.
pub fn process_execute_bundle(
    manager: &BundleManager,
    bundle: &mut Bundle,
    bundle_key: &Address,
    records: &Vec<BundleInstruction>,
    costs: &Vec<u32>,
    proofs: &Vec<Address>,
    max_compute_units: u32,
    now: i64,
) -> (r: Result<Vec<usize>, BundleError>)
    requires
        old(bundle)@.wf(),
    ensures
        match r {
            Ok(plan) => {
                &&& execute_error(manager@, old(bundle)@, bundle_key@, views(records@), costs@, proofs@, max_compute_units).is_none()
                &&& final(bundle)@ == bundle_executing(old(bundle)@, now)
                &&& is_execution_order(plan@, views(records@), bundle_key@)
            },
            Err(e) => {
                &&& execute_error(manager@, old(bundle)@, bundle_key@, views(records@), costs@, proofs@, max_compute_units) == Some(e)
                &&& final(bundle)@ == old(bundle)@
            },
        },
        final(bundle)@.wf(),
{
    authority_guard(&bundle.authority, proofs, manager.is_paused, false)?;
    if !bundle.status.accepts_work() {
        return Err(BundleError::InvalidState);
    }
    if !check_complete(bundle, bundle_key, records) {
        return Err(BundleError::IncompleteBundle);
    }
    check_budget(records, costs, bundle_key, max_compute_units)?;
    if manager.active_bundles == 0 {
        return Err(BundleError::InvalidState);
    }
    if manager.total_bundles_executed == u32::MAX {
        return Err(BundleError::CapacityExceeded);
    }
    let plan = execution_order(records, bundle_key);
    bundle.status = BundleStatus::Executing;
    bundle.execution_started_at = now;
    Ok(plan)
}

/// What the caller does next while a bundle executes.
#[derive(Clone, Copy, Debug, PartialEq, Eq, Structural)]
pub enum ExecutionStep {
    /// Apply the record at this place.
    Apply(usize),
    /// Every instruction was applied: settle the bundle as executed.
    Commit,
    /// An instruction failed: apply no other, settle the bundle as failed.
    Abort,
}

/// Decides the next step from how many instructions of the plan were
/// applied and whether the last one failed.
pub fn next_step(plan: &Vec<usize>, applied: usize, last_failed: bool) -> (s: ExecutionStep)
    ensures
        s == if last_failed {
            ExecutionStep::Abort
        } else if applied < plan@.len() {
            ExecutionStep::Apply(plan@[applied as int])
        } else {
            ExecutionStep::Commit
        },
{
    if last_failed {
        ExecutionStep::Abort
    } else if applied < plan.len() {
        ExecutionStep::Apply(plan[applied])
    } else {
        ExecutionStep::Commit
    }
}

/// The records once every instruction of the bundle at `bundle_key` is
/// marked as executed.
pub open spec fn mark_executed(records: Seq<InstructionView>, bundle_key: Seq<u8>) -> Seq<InstructionView> {
    records.map_values(
        |r: InstructionView|
            if r.bundle == bundle_key {
                InstructionView { executed: true, ..r }
            } else {
                r
            },
    )
}

/// Why an execution cannot be settled, if anything stands against it.
pub open spec fn settle_error(manager: ManagerView, bundle: BundleView, all_applied: bool) -> Option<BundleError> {
    if bundle.status != BundleStatus::Executing {
        Some(BundleError::InvalidState)
    } else if manager.active_bundles == 0 {
        Some(BundleError::InvalidState)
    } else if all_applied && manager.total_bundles_executed == u32::MAX {
        Some(BundleError::CapacityExceeded)
    } else {
        None
    }
}

/// The bundle once its execution has ended at time `now`.
pub open spec fn bundle_settled(bundle: BundleView, all_applied: bool, now: i64) -> BundleView {
    BundleView {
        status: if all_applied {
            BundleStatus::Executed
        } else {
            BundleStatus::Failed
        },
        execution_completed_at: now,
        ..bundle
    }
}

/// The manager once one of its bundles has left the active set.
pub open spec fn manager_settled(manager: ManagerView, all_applied: bool) -> ManagerView {
    ManagerView {
        active_bundles: (manager.active_bundles - 1) as u16,
        total_bundles_executed: if all_applied {
            (manager.total_bundles_executed + 1) as u32
        } else {
            manager.total_bundles_executed
        },
        ..manager
    }
}

/// Marks every instruction of the bundle at `bundle_key` as executed.
pub fn mark_records_executed(records: &mut Vec<BundleInstruction>, bundle_key: &Address)
    ensures
        views(final(records)@) == mark_executed(views(old(records)@), bundle_key@),
{
    let ghost before = views(records@);
    let n = records.len();
    let mut i: usize = 0;
    while i < n
        invariant
            n == records@.len(),
            n == before.len(),
            i <= n,
            forall|k: int| 0 <= k < i ==> views(records@)[k] == mark_executed(before, bundle_key@)[k],
            forall|k: int| i <= k < n ==> views(records@)[k] == before[k],
        decreases n - i,
    {
        if records[i].bundle.same(bundle_key) {
            records[i].executed = true;
        }
        i += 1;
    }
    assert(views(records@) =~= mark_executed(before, bundle_key@));
}

/// Ends the execution of a bundle. With `all_applied` the bundle becomes
/// `Executed`, its instructions are marked and the manager counts one more
/// executed bundle; without, the bundle becomes `Failed` and its
/// instructions stay unmarked. Either way the bundle leaves the active set.
/// Only a bundle that is `Executing` can be settled, so a bundle leaves the
/// active set once.
pub fn settle_execution(
    manager: &mut BundleManager,
    bundle: &mut Bundle,
    bundle_key: &Address,
    records: &mut Vec<BundleInstruction>,
    all_applied: bool,
    now: i64,
) -> (r: Result<BundleStatus, BundleError>)
    ensures
        match r {
            Ok(status) => {
                &&& settle_error(old(manager)@, old(bundle)@, all_applied).is_none()
                &&& status == final(bundle)@.status
                &&& status.is_terminal()
                &&& final(bundle)@ == bundle_settled(old(bundle)@, all_applied, now)
                &&& final(manager)@ == manager_settled(old(manager)@, all_applied)
                &&& views(final(records)@) == if all_applied {
                    mark_executed(views(old(records)@), bundle_key@)
                } else {
                    views(old(records)@)
                }
            },
            Err(e) => {
                &&& settle_error(old(manager)@, old(bundle)@, all_applied) == Some(e)
                &&& final(bundle)@ == old(bundle)@
                &&& final(manager)@ == old(manager)@
                &&& final(records)@ == old(records)@
            },
        },
        old(bundle)@.wf() ==> final(bundle)@.wf(),
{
    match bundle.status {
        BundleStatus::Executing => {},
        _ => { return Err(BundleError::InvalidState); },
    }
    if manager.active_bundles == 0 {
        return Err(BundleError::InvalidState);
    }
    if all_applied && manager.total_bundles_executed == u32::MAX {
        return Err(BundleError::CapacityExceeded);
    }
    manager.active_bundles -= 1;
    bundle.execution_completed_at = now;
    if all_applied {
        mark_records_executed(records, bundle_key);
        manager.total_bundles_executed += 1;
        bundle.status = BundleStatus::Executed;
        Ok(BundleStatus::Executed)
    } else {
        bundle.status = BundleStatus::Failed;
        Ok(BundleStatus::Failed)
    }
}

} // verus!
