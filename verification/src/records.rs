use vstd::prelude::*;
use crate::address::Address;
use crate::error::BundleError;

verus! {

/// The most wallets one bundle may name.
pub const MAX_WALLETS: usize = 20;

/// Where a bundle stands in its lifecycle.
#[derive(Clone, Copy, Debug, PartialEq, Eq, Structural)]
pub enum BundleStatus {
    Created,
    Populating,
    Executing,
    Executed,
    Failed,
}

impl BundleStatus {
    /// A bundle still takes instructions and may start to execute.
    pub open spec fn is_open(self) -> bool {
        self == BundleStatus::Created || self == BundleStatus::Populating
    }

    /// A bundle has left the active set for good.
    pub open spec fn is_terminal(self) -> bool {
        self == BundleStatus::Executed || self == BundleStatus::Failed
    }

    /// Whether the bundle still takes instructions and may start to execute.
    pub fn accepts_work(&self) -> (b: bool)
        ensures
            b == self.is_open(),
    {
        match self {
            BundleStatus::Created => true,
            BundleStatus::Populating => true,
            _ => false,
        }
    }

    /// Whether the bundle has reached a terminal state.
    pub fn finished(&self) -> (b: bool)
        ensures
            b == self.is_terminal(),
    {
        match self {
            BundleStatus::Executed => true,
            BundleStatus::Failed => true,
            _ => false,
        }
    }
}

/// The manager record: policy and counters of one authority.
#[derive(Clone, Copy, Debug, PartialEq, Eq)]
pub struct BundleManager {
    pub authority: Address,
    pub bundle_size: u8,
    pub priority_fee_multiplier: u8,
    pub active_bundles: u16,
    pub total_bundles_executed: u32,
    pub is_paused: bool,
    pub bundle_seed: u32,
}

/// What a manager record holds.
pub ghost struct ManagerView {
    pub authority: Seq<u8>,
    pub bundle_size: u8,
    pub priority_fee_multiplier: u8,
    pub active_bundles: u16,
    pub total_bundles_executed: u32,
    pub is_paused: bool,
    pub bundle_seed: u32,
}

impl View for BundleManager {
    type V = ManagerView;

    open spec fn view(&self) -> ManagerView {
        ManagerView {
            authority: self.authority@,
            bundle_size: self.bundle_size,
            priority_fee_multiplier: self.priority_fee_multiplier,
            active_bundles: self.active_bundles,
            total_bundles_executed: self.total_bundles_executed,
            is_paused: self.is_paused,
            bundle_seed: self.bundle_seed,
        }
    }
}

/// The bundle record.
#[derive(Clone, Debug, PartialEq, Eq)]
pub struct Bundle {
    pub manager: Address,
    pub authority: Address,
    pub bundle_id: u32,
    pub created_at: i64,
    pub execution_started_at: i64,
    pub execution_completed_at: i64,
    pub wallet_count: u8,
    pub wallet_indexes: Vec<u8>,
    pub instructions_per_wallet: Vec<u8>,
    pub status: BundleStatus,
    pub priority_fee: u16,
}

/// What a bundle record holds.
pub ghost struct BundleView {
    pub manager: Seq<u8>,
    pub authority: Seq<u8>,
    pub bundle_id: u32,
    pub created_at: i64,
    pub execution_started_at: i64,
    pub execution_completed_at: i64,
    pub wallet_count: u8,
    pub wallet_indexes: Seq<u8>,
    pub instructions_per_wallet: Seq<u8>,
    pub status: BundleStatus,
    pub priority_fee: u16,
}

impl BundleView {
    /// The two arrays run in parallel over at most `MAX_WALLETS` wallets,
    /// and no wallet is named twice.
    pub open spec fn wf(self) -> bool {
        &&& self.wallet_indexes.len() == self.wallet_count
        &&& self.instructions_per_wallet.len() == self.wallet_count
        &&& self.wallet_count <= MAX_WALLETS
        &&& self.wallet_indexes.no_duplicates()
    }
}

impl View for Bundle {
    type V = BundleView;

    open spec fn view(&self) -> BundleView {
        BundleView {
            manager: self.manager@,
            authority: self.authority@,
            bundle_id: self.bundle_id,
            created_at: self.created_at,
            execution_started_at: self.execution_started_at,
            execution_completed_at: self.execution_completed_at,
            wallet_count: self.wallet_count,
            wallet_indexes: self.wallet_indexes@,
            instructions_per_wallet: self.instructions_per_wallet@,
            status: self.status,
            priority_fee: self.priority_fee,
        }
    }
}

/// The bytes that a manager record takes in storage: the authority, two
/// bytes of policy, the two counters, the pause flag and the sequence.
pub const MANAGER_RECORD_LEN: usize = 45;

/// The bytes that a bundle record takes apart from its two arrays: two
/// addresses, the id, three times, the wallet count, the length prefixes of
/// the arrays, the status and the fee.
pub const BUNDLE_RECORD_BASE_LEN: usize = 104;

/// The bytes that the record of a bundle of `wallet_count` wallets takes in
/// storage: one byte per wallet in each of its two arrays.
pub fn bundle_record_len(wallet_count: u8) -> (n: usize)
    ensures
        n == BUNDLE_RECORD_BASE_LEN + 2 * wallet_count,
{
    BUNDLE_RECORD_BASE_LEN + 2 * (wallet_count as usize)
}

/// Whether no byte occurs twice.
pub fn all_distinct(items: &Vec<u8>) -> (b: bool)
    ensures
        b == items@.no_duplicates(),
{
    let n = items.len();
    let mut i: usize = 0;
    while i < n
        invariant
            n == items@.len(),
            i <= n,
            forall|a: int, c: int| 0 <= a < i && 0 <= c < n && a != c ==> items@[a] != items@[c],
        decreases n - i,
    {
        let mut j: usize = 0;
        while j < n
            invariant
                n == items@.len(),
                i < n,
                j <= n,
                forall|a: int, c: int| 0 <= a < i && 0 <= c < n && a != c ==> items@[a] != items@[c],
                forall|c: int| 0 <= c < j && c != i ==> items@[i as int] != items@[c],
            decreases n - j,
        {
            if j != i && items[j] == items[i] {
                return false;
            }
            j += 1;
        }
        i += 1;
    }
    true
}

impl Bundle {
    /// Whether the record keeps the invariant of a bundle.
    pub fn is_well_formed(&self) -> (b: bool)
        ensures
            b == self@.wf(),
    {
        self.wallet_indexes.len() == self.wallet_count as usize
            && self.instructions_per_wallet.len() == self.wallet_count as usize
            && self.wallet_count as usize <= MAX_WALLETS
            && all_distinct(&self.wallet_indexes)
    }

    /// Accepts a record that was read from storage: one that breaks the
    /// invariant of a bundle cannot have been written by this system.
    pub fn validate(&self) -> (r: Result<(), BundleError>)
        ensures
            r == if self@.wf() {
                Ok::<(), BundleError>(())
            } else {
                Err::<(), BundleError>(BundleError::DeserializationFailure)
            },
    {
        if self.is_well_formed() {
            Ok(())
        } else {
            Err(BundleError::DeserializationFailure)
        }
    }
}

/// One account that an instruction touches.
#[derive(Clone, Copy, Debug, PartialEq, Eq)]
pub struct InstructionAccountMeta {
    pub pubkey: Address,
    pub is_signer: bool,
    pub is_writable: bool,
}

/// The instruction record: one sub-instruction of a bundle.
#[derive(Clone, Debug, PartialEq, Eq)]
pub struct BundleInstruction {
    pub bundle: Address,
    pub wallet_index: u8,
    pub instruction_data: Vec<u8>,
    pub accounts: Vec<InstructionAccountMeta>,
    pub executed: bool,
}

/// What an instruction record holds.
pub ghost struct InstructionView {
    pub bundle: Seq<u8>,
    pub wallet_index: u8,
    pub instruction_data: Seq<u8>,
    pub accounts: Seq<InstructionAccountMeta>,
    pub executed: bool,
}

impl View for BundleInstruction {
    type V = InstructionView;

    open spec fn view(&self) -> InstructionView {
        InstructionView {
            bundle: self.bundle@,
            wallet_index: self.wallet_index,
            instruction_data: self.instruction_data@,
            accounts: self.accounts@,
            executed: self.executed,
        }
    }
}

/// The records of a store, each by what it holds.
pub open spec fn views(records: Seq<BundleInstruction>) -> Seq<InstructionView> {
    records.map_values(|r: BundleInstruction| r@)
}

/// Whether a record is an instruction of `wallet` in the bundle at `bundle`.
pub open spec fn is_for(r: InstructionView, bundle: Seq<u8>, wallet: u8) -> bool {
    r.bundle == bundle && r.wallet_index == wallet
}

/// How many of the records are instructions of `wallet` in the bundle at
/// `bundle`.
pub open spec fn recorded_count(records: Seq<InstructionView>, bundle: Seq<u8>, wallet: u8) -> nat
    decreases records.len(),
{
    if records.len() == 0 {
        0
    } else {
        recorded_count(records.drop_last(), bundle, wallet) + if is_for(
            records.last(),
            bundle,
            wallet,
        ) {
            1nat
        } else {
            0nat
        }
    }
}

/// Counts the instructions that `records` holds for `wallet` in the bundle
/// at `bundle`.
pub fn count_recorded(records: &Vec<BundleInstruction>, bundle: &Address, wallet: u8) -> (n: usize)
    ensures
        n == recorded_count(views(records@), bundle@, wallet),
{
    let len = records.len();
    let mut n: usize = 0;
    let mut i: usize = 0;
    while i < len
        invariant
            len == records@.len(),
            i <= len,
            n <= i,
            n == recorded_count(views(records@).take(i as int), bundle@, wallet),
        decreases len - i,
    {
        proof {
            let next = views(records@).take(i + 1);
            assert(next.drop_last() =~= views(records@).take(i as int));
            assert(next.last() == records@[i as int]@);
        }
        if records[i].wallet_index == wallet && records[i].bundle.same(bundle) {
            n += 1;
        }
        i += 1;
    }
    assert(views(records@).take(len as int) =~= views(records@));
    n
}

} // verus!
