//! Reading the treasury state of the format before pending splits and top-ups.
use vstd::prelude::*;
use crate::ids::{Account, PrincipalId, Table};
use crate::treasury::{Stats, TreasuryState};

verus! {

/// The treasury state before payments were split in stages and canisters topped up.
pub struct OldTreasuryState {
    pub owner: PrincipalId,
    pub lottery_canister: Option<PrincipalId>,
    pub icp_ledger: Option<PrincipalId>,
    pub dev_account: Option<Account>,
    pub liquidity_account: Option<Account>,
    pub burn_account: Option<Account>,
    pub claimed_by_subaccount: Table<Vec<u8>, u64>,
    pub stats: Stats,
}

/// Reads a treasury state of the earlier format: nothing is pending or being processed, and
/// no top-up targets are configured.
pub fn migrate_old_state(old: OldTreasuryState) -> (r: TreasuryState)
    requires
        old.claimed_by_subaccount.wf(),
    ensures
        r.wf(),
        r.owner == old.owner,
        r.lottery_canister == old.lottery_canister,
        r.icp_ledger == old.icp_ledger,
        r.dev_account == old.dev_account,
        r.liquidity_account == old.liquidity_account,
        r.burn_account == old.burn_account,
        r.claimed_by_subaccount == old.claimed_by_subaccount,
        r.pending_splits@.len() == 0,
        r.processing_subaccounts@.len() == 0,
        r.topup_canisters@.len() == 0,
        r.stats == old.stats,
{
    TreasuryState {
        owner: old.owner,
        lottery_canister: old.lottery_canister,
        icp_ledger: old.icp_ledger,
        dev_account: old.dev_account,
        liquidity_account: old.liquidity_account,
        burn_account: old.burn_account,
        claimed_by_subaccount: old.claimed_by_subaccount,
        pending_splits: Table::new(),
        processing_subaccounts: Table::new(),
        topup_canisters: Vec::new(),
        stats: old.stats,
    }
}

} // verus!
