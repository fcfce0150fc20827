//! The treasury: claiming a ticket payment from its deposit subaccount, and the state of
//! each payment's distribution (development transfer, cycles top-ups or burn transfer).
use vstd::prelude::*;
use crate::ids::{
    anonymous_bytes, copy_bytes, principal_text_spec, principal_to_text, Account, PrincipalId, Table,
};
use crate::digest::{
    account_identifier_spec, cmc_account_for_canister, principal_subaccount_spec,
    CMC_PRINCIPAL_TEXT,
};
use crate::ids::principal_bytes_of_text;
use crate::text::{decimal, push_decimal, push_str};
use crate::topups::{
    build_pending_topups, first_too_small, fresh_topup, planned_amount, split_amount, split_spec,
    topup_net_amount, validate_topup_targets, validation_matches, validation_ok, ClaimResult, PendingTopUp, PlanError,
    TargetError, TopUpTarget, BURN_BPS, DEFAULT_ICP_FEE_E8S, DEV_BPS, LIQUIDITY_BPS,
    SPLIT_TRANSFERS,
};

verus! {

/// Running totals of the treasury (amounts in e8s).
#[derive(Clone, Copy)]
pub struct Stats {
    pub total_received: u64,
    pub total_dev: u64,
    pub total_liquidity: u64,
    pub total_burn: u64,
    pub claim_count: u64,
    pub pending_distributions: u64,

}

impl Stats {
    pub fn zero() -> (s: Stats)
        ensures
            s == (Stats {
                total_received: 0,
                total_dev: 0,
                total_liquidity: 0,
                total_burn: 0,
                claim_count: 0,
                pending_distributions: 0,
            }),
    {
        Stats {
            total_received: 0,
            total_dev: 0,
            total_liquidity: 0,
            total_burn: 0,
            claim_count: 0,
            pending_distributions: 0,
        }
    }
}

/// Whether the top-ups of `burn_e8s` can be planned over `targets`: the targets are valid,
/// there is at least one, and every planned share exceeds the ledger fee.
pub open spec fn plan_succeeds(burn_e8s: u64, targets: Seq<TopUpTarget>) -> bool {
    &&& validation_ok(targets)
    &&& targets.len() > 0
    &&& first_too_small(burn_e8s, targets, targets.len() as int) is None
}

/// A claimed payment whose distribution is not finished yet.
pub struct PendingSplit {
    pub buyer: PrincipalId,
    pub result: ClaimResult,
    pub dev_done: bool,
    pub liquidity_done: bool,
    pub burn_done: bool,
    pub topups: Vec<PendingTopUp>,
}

/// The memo of a cycles top-up transfer ("TPUP"), as the cycles minting canister expects.
pub const TOPUP_MEMO: u64 = 0x50555054;

/// The next thing to do for the top-ups of a payment.
pub enum TopUpStep {
    /// No pending split, or all its top-ups are done.
    Finished,
    /// A top-up failed earlier in this run; the run stops and a later one retries.
    Halt,
    /// The top-up at `index` was transferred (at `block_index`); ask the cycles minting
    /// canister to top up `canister_id` again, without transferring again.
    Notify { index: usize, block_index: u64, canister_id: PrincipalId },
    /// The top-up at `index` has not been transferred yet.
    Transfer { index: usize, topup: PendingTopUp },
}

/// A transfer to the cycles minting canister through the ledger's legacy interface.
pub struct CmcTransferRequest {
    pub to: Vec<u8>,
    pub amount_e8s: u64,
    pub fee_e8s: u64,
    pub memo: u64,
    pub from_subaccount: Vec<u8>,
    pub created_at_time: u64,
}

/// Why a top-up's transfer request cannot be built.
pub enum CmcRequestError {
    AmountTooSmall,
    BadCmcPrincipal,
}

/// The transfer that sends `topup` from the deposit `from_subaccount` to the cycles minting
/// canister: its amount less the standard fee, to the CMC account of the canister to top up,
/// with the top-up memo and the top-up's creation time (so that a retry is deduplicated).
pub fn cmc_transfer_request(topup: &PendingTopUp, from_subaccount: &Vec<u8>) -> (r: Result<
    CmcTransferRequest,
    CmcRequestError,
>)
    requires
        topup.canister_id@.len() <= 31,
    ensures
        topup.amount_e8s <= DEFAULT_ICP_FEE_E8S ==> (r matches Err(CmcRequestError::AmountTooSmall)),
        topup.amount_e8s > DEFAULT_ICP_FEE_E8S ==> match principal_bytes_of_text(
            CMC_PRINCIPAL_TEXT@,
        ) {
            None => (r matches Err(CmcRequestError::BadCmcPrincipal)),
            Some(cmc) => (r matches Ok(req) && req.to@ == account_identifier_spec(
                cmc,
                principal_subaccount_spec(topup.canister_id@),
            ) && req.amount_e8s == topup.amount_e8s - DEFAULT_ICP_FEE_E8S && req.fee_e8s
                == DEFAULT_ICP_FEE_E8S && req.memo == TOPUP_MEMO && req.from_subaccount@
                == from_subaccount@ && req.created_at_time == topup.created_at_time),
        },
{
    let amount_e8s = match topup_net_amount(topup.amount_e8s) {
        Some(a) => a,
        None => {
            return Err(CmcRequestError::AmountTooSmall);
        },
    };
    let to = match cmc_account_for_canister(&topup.canister_id) {
        Some(a) => a,
        None => {
            return Err(CmcRequestError::BadCmcPrincipal);
        },
    };
    Ok(
        CmcTransferRequest {
            to,
            amount_e8s,
            fee_e8s: DEFAULT_ICP_FEE_E8S,
            memo: TOPUP_MEMO,
            from_subaccount: copy_bytes(from_subaccount.as_slice()),
            created_at_time: topup.created_at_time,
        },
    )
}

/// A leg of a payment's distribution.
pub enum SplitLeg {
    Dev,
    Liquidity,
    Burn,
}

/// The public status of a top-up.
pub struct TopUpStatus {
    pub canister_id: PrincipalId,
    pub name: String,
    pub amount_e8s: u64,
    pub block_index: Option<u64>,
    pub cycles_minted: Option<u128>,
    pub done: bool,
    pub last_error: Option<String>,
}

/// Settings that the owner may change; absent ones are left as they are.
pub struct ConfigureArgs {
    pub lottery_canister: Option<PrincipalId>,
    pub icp_ledger: Option<PrincipalId>,
    pub dev_account: Option<Account>,
    pub liquidity_account: Option<Account>,
    pub burn_account: Option<Account>,
    pub topup_canisters: Option<Vec<TopUpTarget>>,
}

pub enum ConfigError {
    NotOwner,
    InvalidTargets(TargetError),
}

/// Why a payment claim (or a retried distribution) is refused.
pub enum ClaimError {
    BadSubaccountLength,
    NotLottery,
    NotOwner,
    AlreadyProcessing,
    LedgerNotConfigured,
    DevAccountNotConfigured,
    BurnAccountNotConfigured,
    AlreadyClaimed,
    PaymentNotFound { required_e8s: u64, balance_e8s: u64 },
}

/// The text with which a refused claim is reported; `buyer_text` is the buyer's principal
/// as text.
pub open spec fn claim_error_text(e: ClaimError, buyer_text: Seq<char>) -> Seq<char> {
    match e {
        ClaimError::BadSubaccountLength => "Deposit subaccount must be 32 bytes"@,
        ClaimError::NotLottery => "Only lottery canister can claim ticket payments"@,
        ClaimError::NotOwner => "Only owner"@,
        ClaimError::AlreadyProcessing => "Payment claim already in progress for this subaccount"@,
        ClaimError::LedgerNotConfigured => "ICP ledger not configured"@,
        ClaimError::DevAccountNotConfigured => "Development account not configured"@,
        ClaimError::BurnAccountNotConfigured => "Burn/cycles account not configured"@,
        ClaimError::AlreadyClaimed => "Payment already claimed for this subaccount"@,
        ClaimError::PaymentNotFound { required_e8s, balance_e8s } => "Payment not found for "@
            + buyer_text + ". Required "@ + decimal(required_e8s as nat)
            + " e8s including split fees, balance "@ + decimal(balance_e8s as nat) + " e8s"@,
    }
}

impl ClaimError {
    /// The error's text, for a claim by the principal whose text is `buyer_text`.
    pub fn message_for(&self, buyer_text: &str) -> (r: String)
        ensures
            r@ == claim_error_text(*self, buyer_text@),
    {
        match self {
            ClaimError::BadSubaccountLength => String::from_str("Deposit subaccount must be 32 bytes"),
            ClaimError::NotLottery => String::from_str("Only lottery canister can claim ticket payments"),
            ClaimError::NotOwner => String::from_str("Only owner"),
            ClaimError::AlreadyProcessing => String::from_str("Payment claim already in progress for this subaccount"),
            ClaimError::LedgerNotConfigured => String::from_str("ICP ledger not configured"),
            ClaimError::DevAccountNotConfigured => String::from_str("Development account not configured"),
            ClaimError::BurnAccountNotConfigured => String::from_str("Burn/cycles account not configured"),
            ClaimError::AlreadyClaimed => String::from_str("Payment already claimed for this subaccount"),
            ClaimError::PaymentNotFound { required_e8s, balance_e8s } => {
                let mut out = String::from_str("Payment not found for ");
                push_str(&mut out, buyer_text);
                push_str(&mut out, ". Required ");
                push_decimal(&mut out, *required_e8s as u128);
                push_str(&mut out, " e8s including split fees, balance ");
                push_decimal(&mut out, *balance_e8s as u128);
                push_str(&mut out, " e8s");
                out
            },
        }
    }

    /// The error's text, for a claim by `buyer`.
    pub fn message(&self, buyer: &PrincipalId) -> (r: String)
        requires
            buyer@.len() <= 29,
        ensures
            r@ == claim_error_text(*self, principal_text_spec(buyer@)),
    {
        let text = principal_to_text(buyer);
        self.message_for(text.as_str())
    }
}

/// What a claim on a subaccount whose earlier payment is still recorded is told: whether
/// that payment's distribution has now completed or is still pending.
pub open spec fn already_claimed_text(buyer_text: Seq<char>, complete: bool) -> Seq<char> {
    if complete {
        "Payment for "@ + buyer_text
            + " was already claimed; send a new deposit before buying another ticket"@
    } else {
        "Payment for "@ + buyer_text + " was already claimed and distribution is still pending"@
    }
}

pub fn already_claimed_message(earlier_buyer: &PrincipalId, complete: bool) -> (r: String)
    requires
        earlier_buyer@.len() <= 29,
    ensures
        r@ == already_claimed_text(principal_text_spec(earlier_buyer@), complete),
{
    let text = principal_to_text(earlier_buyer);
    already_claimed_message_for(text.as_str(), complete)
}

/// The answer to a repeated claim, the earlier buyer's principal given as text.
pub fn already_claimed_message_for(buyer_text: &str, complete: bool) -> (r: String)
    ensures
        r@ == already_claimed_text(buyer_text@, complete),
{
    let mut out = String::from_str("Payment for ");
    push_str(&mut out, buyer_text);
    if complete {
        push_str(&mut out, " was already claimed; send a new deposit before buying another ticket");
    } else {
        push_str(&mut out, " was already claimed and distribution is still pending");
    }
    out
}

/// What a claim needs once it is let through.
pub struct ClaimSetup {
    pub ledger: PrincipalId,
    pub dev_account: Account,
    /// The liquidity account, if one is configured; without one the liquidity leg waits.
    pub liquidity_account: Option<Account>,
    pub burn_account: Option<Account>,
    pub topup_enabled: bool,
    /// The buyer of an earlier claim on the same subaccount whose distribution is pending.
    pub pending_buyer: Option<PrincipalId>,
}

/// What a retried distribution needs once it is let through.
pub struct RetrySetup {
    pub ledger: PrincipalId,
    pub dev_account: Account,
    pub liquidity_account: Option<Account>,
    pub burn_account: Option<Account>,
}

/// What remains to be done for the cycles (or burn) leg of a payment.
pub enum BurnStep {
    /// No pending split, or its burn leg is done.
    Nothing,
    /// Send to the top-up canisters; `initialize` when their top-ups are not planned yet.
    TopUps { initialize: bool, burn_e8s: u64 },
    /// Transfer to the burn account.
    BurnAccount { account: Account, burn_e8s: u64 },
    /// Neither a burn account nor top-up targets are configured.
    Stuck,
}

pub struct TreasuryState {
    pub owner: PrincipalId,
    pub lottery_canister: Option<PrincipalId>,
    pub icp_ledger: Option<PrincipalId>,
    pub dev_account: Option<Account>,
    pub liquidity_account: Option<Account>,
    pub burn_account: Option<Account>,
    pub claimed_by_subaccount: Table<Vec<u8>, u64>,
    pub pending_splits: Table<Vec<u8>, PendingSplit>,
    pub processing_subaccounts: Table<Vec<u8>, ()>,
    pub topup_canisters: Vec<TopUpTarget>,
    pub stats: Stats,
}

fn copy_opt_account(a: &Option<Account>) -> (r: Option<Account>)
    ensures
        match *a {
            Some(x) => (r matches Some(y) && y@ == x@),
            None => r is None,
        },
{
    match a {
        Some(x) => Some(x.duplicate()),
        None => None,
    }
}

pub open spec fn same_opt_principal(a: Option<PrincipalId>, b: Option<PrincipalId>) -> bool {
    match (a, b) {
        (Some(x), Some(y)) => x@ == y@,
        (None, None) => true,
        _ => false,
    }
}

pub open spec fn same_opt_account(a: Option<Account>, b: Option<Account>) -> bool {
    match (a, b) {
        (Some(x), Some(y)) => x@ == y@,
        (None, None) => true,
        _ => false,
    }
}

/// The top-up with the same fields as `t` except those given.
pub open spec fn topup_with(
    t: PendingTopUp,
    block_index: Option<u64>,
    cycles_minted: Option<u128>,
    done: bool,
    last_error: Option<String>,
    created_at_time: u64,
) -> PendingTopUp {
    PendingTopUp {
        canister_id: t.canister_id,
        name: t.name,
        amount_e8s: t.amount_e8s,
        created_at_time,
        block_index,
        cycles_minted,
        done,
        last_error,
    }
}

/// The balance a deposit must hold for a payment of `amount_e8s`: the price plus the split's
/// ledger fees (at most the largest amount).
pub open spec fn required_spec(amount_e8s: u64, ledger_fee_e8s: u64) -> u64 {
    let total = amount_e8s + split_spec(amount_e8s, ledger_fee_e8s).ledger_fees_e8s;
    if total > u64::MAX {
        u64::MAX
    } else {
        total as u64
    }
}

/// Whether `record_claim` records the payment: no payment of the subaccount is pending and
/// the deposit holds what is required.
pub open spec fn claim_recordable(
    t: TreasuryState,
    sub: Seq<u8>,
    amount_e8s: u64,
    ledger_fee_e8s: u64,
    balance_e8s: u64,
) -> bool {
    &&& !t.pending_splits@.contains_key(sub)
    &&& balance_e8s >= required_spec(amount_e8s, ledger_fee_e8s)
}

/// The balance a deposit must hold for a payment of `amount_e8s`.
pub fn claim_required(amount_e8s: u64, ledger_fee_e8s: u64) -> (r: u64)
    requires
        ledger_fee_e8s * SPLIT_TRANSFERS <= u64::MAX,
    ensures
        r == required_spec(amount_e8s, ledger_fee_e8s),
{
    amount_e8s.saturating_add(ledger_fee_e8s * SPLIT_TRANSFERS)
}

impl TreasuryState {
    pub open spec fn wf(&self) -> bool {
        &&& self.claimed_by_subaccount.wf()
        &&& self.pending_splits.wf()
        &&& self.processing_subaccounts.wf()
    }

    /// Everything but the pending splits and the statistics is as in `other`.
    pub open spec fn same_config(&self, other: &TreasuryState) -> bool {
        &&& self.owner == other.owner
        &&& self.lottery_canister == other.lottery_canister
        &&& self.icp_ledger == other.icp_ledger
        &&& self.dev_account == other.dev_account
        &&& self.liquidity_account == other.liquidity_account
        &&& self.burn_account == other.burn_account
        &&& self.topup_canisters == other.topup_canisters
    }

    pub fn new(owner: PrincipalId) -> (s: TreasuryState)
        ensures
            s.wf(),
            s.owner@ == owner@,
            s.lottery_canister is None && s.icp_ledger is None && s.dev_account is None
                && s.liquidity_account is None && s.burn_account is None,
            s.claimed_by_subaccount@.len() == 0 && s.pending_splits@.len() == 0
                && s.processing_subaccounts@.len() == 0,
            s.topup_canisters@.len() == 0,
            s.stats == Stats::zero_spec(),
    {
        let claimed: Table<Vec<u8>, u64> = Table::new();
        let pending: Table<Vec<u8>, PendingSplit> = Table::new();
        let processing: Table<Vec<u8>, ()> = Table::new();
        TreasuryState {
            owner,
            lottery_canister: None,
            icp_ledger: None,
            dev_account: None,
            liquidity_account: None,
            burn_account: None,
            claimed_by_subaccount: claimed,
            pending_splits: pending,
            processing_subaccounts: processing,
            topup_canisters: Vec::new(),
            stats: Stats::zero(),
        }
    }

    /// Lets the owner change the settings. Top-up targets must pass validation; otherwise
    /// nothing changes.
    pub fn configure(&mut self, caller: &PrincipalId, args: ConfigureArgs) -> (r: Result<
        (),
        ConfigError,
    >)
        requires
            old(self).wf(),
        ensures
            final(self).wf(),
            caller@ != old(self).owner@ ==> (r matches Err(ConfigError::NotOwner)) && *final(self)
                == *old(self),
            caller@ == old(self).owner@ && (args.topup_canisters matches Some(ts)
                && !validation_ok(ts@)) ==> (r matches Err(ConfigError::InvalidTargets(_)))
                && *final(self) == *old(self),
            caller@ == old(self).owner@ && !(args.topup_canisters matches Some(ts)
                && !validation_ok(ts@)) ==> {
                &&& r is Ok
                &&& final(self).lottery_canister == (if args.lottery_canister is Some {
                    args.lottery_canister
                } else {
                    old(self).lottery_canister
                })
                &&& final(self).icp_ledger == (if args.icp_ledger is Some {
                    args.icp_ledger
                } else {
                    old(self).icp_ledger
                })
                &&& final(self).dev_account == (if args.dev_account is Some {
                    args.dev_account
                } else {
                    old(self).dev_account
                })
                &&& final(self).liquidity_account == (if args.liquidity_account is Some {
                    args.liquidity_account
                } else {
                    old(self).liquidity_account
                })
                &&& final(self).burn_account == (if args.burn_account is Some {
                    args.burn_account
                } else {
                    old(self).burn_account
                })
                &&& final(self).topup_canisters == (match args.topup_canisters {
                    Some(ts) => ts,
                    None => old(self).topup_canisters,
                })
                &&& final(self).owner == old(self).owner
                &&& final(self).claimed_by_subaccount == old(self).claimed_by_subaccount
                &&& final(self).pending_splits == old(self).pending_splits
                &&& final(self).processing_subaccounts == old(self).processing_subaccounts
                &&& final(self).stats == old(self).stats
            },
    {
        if !caller.same(&self.owner) {
            return Err(ConfigError::NotOwner);
        }
        if let Some(ts) = &args.topup_canisters {
            if let Err(e) = validate_topup_targets(ts) {
                return Err(ConfigError::InvalidTargets(e));
            }
        }
        let ConfigureArgs {
            lottery_canister,
            icp_ledger,
            dev_account,
            liquidity_account,
            burn_account,
            topup_canisters,
        } = args;
        if lottery_canister.is_some() {
            self.lottery_canister = lottery_canister;
        }
        if icp_ledger.is_some() {
            self.icp_ledger = icp_ledger;
        }
        if dev_account.is_some() {
            self.dev_account = dev_account;
        }
        if liquidity_account.is_some() {
            self.liquidity_account = liquidity_account;
        }
        if burn_account.is_some() {
            self.burn_account = burn_account;
        }
        if let Some(ts) = topup_canisters {
            self.topup_canisters = ts;
        }
        Ok(())
    }

    /// The checks a payment claim passes before any ledger call. When they pass, the
    /// subaccount is marked as being processed (until `end_processing`).
    pub fn begin_claim(&mut self, caller: &PrincipalId, deposit_subaccount: &Vec<u8>) -> (r: Result<
        ClaimSetup,
        ClaimError,
    >)
        requires
            old(self).wf(),
        ensures
            final(self).wf(),
            r is Err ==> *final(self) == *old(self),
            deposit_subaccount@.len() != 32 ==> (r matches Err(ClaimError::BadSubaccountLength)),
            deposit_subaccount@.len() == 32 && !(old(self).lottery_canister matches Some(l) && l@
                == caller@) ==> (r matches Err(ClaimError::NotLottery)),
            deposit_subaccount@.len() == 32 && (old(self).lottery_canister matches Some(l) && l@
                == caller@) ==> {
                let processing = old(self).processing_subaccounts@.contains_key(deposit_subaccount@);
                let topup = old(self).topup_canisters@.len() > 0;
                if processing {
                    r matches Err(ClaimError::AlreadyProcessing)
                } else if old(self).icp_ledger is None {
                    r matches Err(ClaimError::LedgerNotConfigured)
                } else if old(self).dev_account is None {
                    r matches Err(ClaimError::DevAccountNotConfigured)
                } else if !topup && old(self).burn_account is None {
                    r matches Err(ClaimError::BurnAccountNotConfigured)
                } else {
                    &&& r matches Ok(setup) && {
                        &&& same_opt_principal(Some(setup.ledger), old(self).icp_ledger)
                        &&& same_opt_account(Some(setup.dev_account), old(self).dev_account)
                        &&& same_opt_account(setup.liquidity_account, old(self).liquidity_account)
                        &&& same_opt_account(setup.burn_account, old(self).burn_account)
                        &&& setup.topup_enabled == topup
                        &&& (if old(self).pending_splits@.contains_key(deposit_subaccount@) {
                            setup.pending_buyer matches Some(b) && b@ == old(
                                self,
                            ).pending_splits@[deposit_subaccount@].buyer@
                        } else {
                            setup.pending_buyer is None
                        })
                    }
                    &&& final(self).processing_subaccounts@ == old(
                        self,
                    ).processing_subaccounts@.insert(deposit_subaccount@, ())
                    &&& final(self).same_config(old(self))
                    &&& final(self).claimed_by_subaccount == old(self).claimed_by_subaccount
                    &&& final(self).pending_splits == old(self).pending_splits
                    &&& final(self).stats == old(self).stats
                }
            },
    {
        if deposit_subaccount.len() != 32 {
            return Err(ClaimError::BadSubaccountLength);
        }
        let is_lottery = match &self.lottery_canister {
            Some(l) => l.same(caller),
            None => false,
        };
        if !is_lottery {
            return Err(ClaimError::NotLottery);
        }
        if self.processing_subaccounts.contains(deposit_subaccount) {
            return Err(ClaimError::AlreadyProcessing);
        }
        let ledger = match &self.icp_ledger {
            Some(l) => l.duplicate(),
            None => {
                return Err(ClaimError::LedgerNotConfigured);
            },
        };
        let dev_account = match &self.dev_account {
            Some(a) => a.duplicate(),
            None => {
                return Err(ClaimError::DevAccountNotConfigured);
            },
        };
        let liquidity_account = copy_opt_account(&self.liquidity_account);
        let topup_enabled = self.topup_canisters.len() > 0;
        if !topup_enabled && self.burn_account.is_none() {
            return Err(ClaimError::BurnAccountNotConfigured);
        }
        let pending_buyer = match self.pending_splits.get(deposit_subaccount) {
            Some(p) => Some(p.buyer.duplicate()),
            None => None,
        };
        let burn_account = copy_opt_account(&self.burn_account);
        self.processing_subaccounts.insert(copy_bytes(deposit_subaccount.as_slice()), ());
        Ok(
            ClaimSetup {
                ledger,
                dev_account,
                liquidity_account,
                burn_account,
                topup_enabled,
                pending_buyer,
            },
        )
    }

    /// After an upgrade, a treasury whose owner is still the anonymous principal takes the
    /// (non-anonymous) upgrading caller as its owner.
    pub fn adopt_owner(&mut self, caller: &PrincipalId)
        ensures
            final(self).owner@ == (if old(self).owner@ == anonymous_bytes() && caller@
                != anonymous_bytes() {
                caller@
            } else {
                old(self).owner@
            }),
            final(self).lottery_canister == old(self).lottery_canister,
            final(self).icp_ledger == old(self).icp_ledger,
            final(self).dev_account == old(self).dev_account,
            final(self).liquidity_account == old(self).liquidity_account,
            final(self).burn_account == old(self).burn_account,
            final(self).topup_canisters == old(self).topup_canisters,
            final(self).claimed_by_subaccount == old(self).claimed_by_subaccount,
            final(self).pending_splits == old(self).pending_splits,
            final(self).processing_subaccounts == old(self).processing_subaccounts,
            final(self).stats == old(self).stats,
    {
        if self.owner.is_anonymous() && !caller.is_anonymous() {
            self.owner = caller.duplicate();
        }
    }

    /// The checks the owner's retry of a pending distribution passes before any ledger call.
    /// When they pass, the subaccount is marked as being processed (until `end_processing`).
    pub fn begin_retry(&mut self, caller: &PrincipalId, deposit_subaccount: &Vec<u8>) -> (r: Result<
        RetrySetup,
        ClaimError,
    >)
        requires
            old(self).wf(),
        ensures
            final(self).wf(),
            r is Err ==> *final(self) == *old(self),
            caller@ != old(self).owner@ ==> (r matches Err(ClaimError::NotOwner)),
            caller@ == old(self).owner@ && deposit_subaccount@.len() != 32 ==> (r matches Err(
                ClaimError::BadSubaccountLength,
            )),
            caller@ == old(self).owner@ && deposit_subaccount@.len() == 32 ==> {
                if old(self).processing_subaccounts@.contains_key(deposit_subaccount@) {
                    r matches Err(ClaimError::AlreadyProcessing)
                } else if old(self).icp_ledger is None {
                    r matches Err(ClaimError::LedgerNotConfigured)
                } else if old(self).dev_account is None {
                    r matches Err(ClaimError::DevAccountNotConfigured)
                } else {
                    &&& r matches Ok(setup) && {
                        &&& same_opt_principal(Some(setup.ledger), old(self).icp_ledger)
                        &&& same_opt_account(Some(setup.dev_account), old(self).dev_account)
                        &&& same_opt_account(setup.liquidity_account, old(self).liquidity_account)
                        &&& same_opt_account(setup.burn_account, old(self).burn_account)
                    }
                    &&& final(self).processing_subaccounts@ == old(
                        self,
                    ).processing_subaccounts@.insert(deposit_subaccount@, ())
                    &&& final(self).same_config(old(self))
                    &&& final(self).claimed_by_subaccount == old(self).claimed_by_subaccount
                    &&& final(self).pending_splits == old(self).pending_splits
                    &&& final(self).stats == old(self).stats
                }
            },
    {
        if !caller.same(&self.owner) {
            return Err(ClaimError::NotOwner);
        }
        if deposit_subaccount.len() != 32 {
            return Err(ClaimError::BadSubaccountLength);
        }
        if self.processing_subaccounts.contains(deposit_subaccount) {
            return Err(ClaimError::AlreadyProcessing);
        }
        let ledger = match &self.icp_ledger {
            Some(l) => l.duplicate(),
            None => {
                return Err(ClaimError::LedgerNotConfigured);
            },
        };
        let dev_account = match &self.dev_account {
            Some(a) => a.duplicate(),
            None => {
                return Err(ClaimError::DevAccountNotConfigured);
            },
        };
        let liquidity_account = copy_opt_account(&self.liquidity_account);
        let burn_account = copy_opt_account(&self.burn_account);
        self.processing_subaccounts.insert(copy_bytes(deposit_subaccount.as_slice()), ());
        Ok(RetrySetup { ledger, dev_account, liquidity_account, burn_account })
    }

    /// Ends the processing of a subaccount (however the claim or retry ended).
    pub fn end_processing(&mut self, deposit_subaccount: &Vec<u8>)
        requires
            old(self).wf(),
        ensures
            final(self).wf(),
            final(self).processing_subaccounts@ == old(self).processing_subaccounts@.remove(
                deposit_subaccount@,
            ),
            final(self).same_config(old(self)),
            final(self).claimed_by_subaccount == old(self).claimed_by_subaccount,
            final(self).pending_splits == old(self).pending_splits,
            final(self).stats == old(self).stats,
    {
        self.processing_subaccounts.remove(deposit_subaccount);
    }

    /// Records a claimed payment once the deposit's balance is known: the deposit must hold
    /// the price plus the split's ledger fees, and the subaccount must have no recorded
    /// payment still pending. The payment's split then waits for distribution.
    pub fn record_claim(
        &mut self,
        buyer: PrincipalId,
        deposit_subaccount: &Vec<u8>,
        amount_e8s: u64,
        ledger_fee_e8s: u64,
        balance_e8s: u64,
    ) -> (r: Result<ClaimResult, ClaimError>)
        requires
            old(self).wf(),
            ledger_fee_e8s * SPLIT_TRANSFERS <= u64::MAX,
            claim_recordable(*old(self), deposit_subaccount@, amount_e8s, ledger_fee_e8s, balance_e8s)
                ==> old(self).stats.total_received + amount_e8s <= u64::MAX
                && old(self).stats.claim_count < u64::MAX && old(self).stats.pending_distributions
                < u64::MAX,
        ensures
            final(self).wf(),
            ({
                let split = split_spec(amount_e8s, ledger_fee_e8s);
                let required = required_spec(amount_e8s, ledger_fee_e8s);
                if old(self).pending_splits@.contains_key(deposit_subaccount@) {
                    r == Err::<ClaimResult, ClaimError>(ClaimError::AlreadyClaimed) && *final(self)
                        == *old(self)
                } else if balance_e8s < required {
                    r == Err::<ClaimResult, ClaimError>(
                        ClaimError::PaymentNotFound { required_e8s: required, balance_e8s },
                    ) && *final(self) == *old(self)
                } else {
                    &&& r == Ok::<ClaimResult, ClaimError>(split)
                    &&& final(self).claimed_by_subaccount@ == old(
                        self,
                    ).claimed_by_subaccount@.insert(deposit_subaccount@, required)
                    &&& final(self).pending_splits@.contains_key(deposit_subaccount@)
                    &&& final(self).pending_splits@.remove(deposit_subaccount@) == old(
                        self,
                    ).pending_splits@
                    &&& ({
                        let p = final(self).pending_splits@[deposit_subaccount@];
                        &&& p.buyer@ == buyer@
                        &&& p.result == split
                        &&& !p.dev_done && !p.liquidity_done && !p.burn_done
                        &&& p.topups@.len() == 0
                    })
                    &&& final(self).stats == Stats {
                        total_received: (old(self).stats.total_received + amount_e8s) as u64,
                        claim_count: (old(self).stats.claim_count + 1) as u64,
                        pending_distributions: (old(self).stats.pending_distributions + 1) as u64,
                        ..old(self).stats
                    }
                    &&& final(self).same_config(old(self))
                    &&& final(self).processing_subaccounts == old(self).processing_subaccounts
                }
            }),
    {
        if self.pending_splits.contains(deposit_subaccount) {
            return Err(ClaimError::AlreadyClaimed);
        }
        let result = split_amount(amount_e8s, ledger_fee_e8s);
        let required = amount_e8s.saturating_add(result.ledger_fees_e8s);
        if balance_e8s < required {
            return Err(ClaimError::PaymentNotFound { required_e8s: required, balance_e8s });
        }
        self.claimed_by_subaccount.insert(copy_bytes(deposit_subaccount.as_slice()), required);
        let ghost before = self.pending_splits@;
        self.pending_splits.insert(
            copy_bytes(deposit_subaccount.as_slice()),
            PendingSplit {
                buyer,
                result,
                dev_done: false,
                liquidity_done: false,
                burn_done: false,
                topups: Vec::new(),
            },
        );
        assert(self.pending_splits@.remove(deposit_subaccount@) =~= before);
        self.stats.total_received = self.stats.total_received + result.amount_e8s;
        self.stats.claim_count = self.stats.claim_count + 1;
        self.stats.pending_distributions = self.stats.pending_distributions + 1;
        Ok(result)
    }

    /// Marks a leg of a pending split as done (once) and counts its amount.
    pub fn mark_split_done(&mut self, deposit_subaccount: &Vec<u8>, leg: SplitLeg, amount_e8s: u64)
        requires
            old(self).wf(),
            match leg {
                SplitLeg::Dev => old(self).stats.total_dev + amount_e8s <= u64::MAX,
                SplitLeg::Liquidity => old(self).stats.total_liquidity + amount_e8s <= u64::MAX,
                SplitLeg::Burn => old(self).stats.total_burn + amount_e8s <= u64::MAX,
            },
        ensures
            final(self).wf(),
            final(self).same_config(old(self)),
            final(self).claimed_by_subaccount == old(self).claimed_by_subaccount,
            final(self).processing_subaccounts == old(self).processing_subaccounts,
            ({
                let m = old(self).pending_splits@;
                let k = deposit_subaccount@;
                let already = match leg {
                    SplitLeg::Dev => m[k].dev_done,
                    SplitLeg::Liquidity => m[k].liquidity_done,
                    SplitLeg::Burn => m[k].burn_done,
                };
                if !m.contains_key(k) || already {
                    *final(self) == *old(self)
                } else {
                    &&& final(self).pending_splits@ == m.insert(
                        k,
                        match leg {
                            SplitLeg::Dev => PendingSplit { dev_done: true, ..m[k] },
                            SplitLeg::Liquidity => PendingSplit { liquidity_done: true, ..m[k] },
                            SplitLeg::Burn => PendingSplit { burn_done: true, ..m[k] },
                        },
                    )
                    &&& final(self).stats == match leg {
                        SplitLeg::Dev => Stats {
                            total_dev: (old(self).stats.total_dev + amount_e8s) as u64,
                            ..old(self).stats
                        },
                        SplitLeg::Liquidity => Stats {
                            total_liquidity: (old(self).stats.total_liquidity + amount_e8s) as u64,
                            ..old(self).stats
                        },
                        SplitLeg::Burn => Stats {
                            total_burn: (old(self).stats.total_burn + amount_e8s) as u64,
                            ..old(self).stats
                        },
                    }
                }
            }),
    {
        let already = match self.pending_splits.get(deposit_subaccount) {
            Some(p) => match leg {
                SplitLeg::Dev => p.dev_done,
                SplitLeg::Liquidity => p.liquidity_done,
                SplitLeg::Burn => p.burn_done,
            },
            None => {
                return;
            },
        };
        if already {
            return;
        }
        let p = self.pending_splits.remove(deposit_subaccount).unwrap();
        let PendingSplit { buyer, result, dev_done, liquidity_done, burn_done, topups } = p;
        let key = copy_bytes(deposit_subaccount.as_slice());
        match leg {
            SplitLeg::Dev => {
                self.pending_splits.insert(
                    key,
                    PendingSplit { buyer, result, dev_done: true, liquidity_done, burn_done, topups },
                );
                self.stats.total_dev = self.stats.total_dev + amount_e8s;
            },
            SplitLeg::Liquidity => {
                self.pending_splits.insert(
                    key,
                    PendingSplit { buyer, result, dev_done, liquidity_done: true, burn_done, topups },
                );
                self.stats.total_liquidity = self.stats.total_liquidity + amount_e8s;
            },
            SplitLeg::Burn => {
                self.pending_splits.insert(
                    key,
                    PendingSplit { buyer, result, dev_done, liquidity_done, burn_done: true, topups },
                );
                self.stats.total_burn = self.stats.total_burn + amount_e8s;
            },
        }
        proof {
            let m = old(self).pending_splits@;
            let k = deposit_subaccount@;
            assert(self.pending_splits@ =~= m.insert(
                k,
                match leg {
                    SplitLeg::Dev => PendingSplit { dev_done: true, ..m[k] },
                    SplitLeg::Liquidity => PendingSplit { liquidity_done: true, ..m[k] },
                    SplitLeg::Burn => PendingSplit { burn_done: true, ..m[k] },
                },
            ));
        }
    }

    /// Removes a pending split whose legs are all done, and forgets its claim.
    /// True when nothing remains pending for the subaccount.
    pub fn finalize_split(&mut self, deposit_subaccount: &Vec<u8>) -> (done: bool)
        requires
            old(self).wf(),
        ensures
            final(self).wf(),
            final(self).same_config(old(self)),
            final(self).processing_subaccounts == old(self).processing_subaccounts,
            ({
                let m = old(self).pending_splits@;
                let k = deposit_subaccount@;
                if !m.contains_key(k) {
                    done && *final(self) == *old(self)
                } else if m[k].dev_done && m[k].liquidity_done && m[k].burn_done {
                    &&& done
                    &&& final(self).pending_splits@ == m.remove(k)
                    &&& final(self).claimed_by_subaccount@ == old(
                        self,
                    ).claimed_by_subaccount@.remove(k)
                    &&& final(self).stats == Stats {
                        pending_distributions: if old(self).stats.pending_distributions > 0 {
                            (old(self).stats.pending_distributions - 1) as u64
                        } else {
                            0
                        },
                        ..old(self).stats
                    }
                } else {
                    !done && *final(self) == *old(self)
                }
            }),
    {
        let complete = match self.pending_splits.get(deposit_subaccount) {
            Some(p) => p.dev_done && p.liquidity_done && p.burn_done,
            None => {
                return true;
            },
        };
        if !complete {
            return false;
        }
        self.pending_splits.remove(deposit_subaccount);
        self.claimed_by_subaccount.remove(deposit_subaccount);
        self.stats.pending_distributions = self.stats.pending_distributions.saturating_sub(1);
        true
    }

    /// What remains to be done for the burn leg of the pending split of a subaccount, with
    /// `burn_account` the burn account as it was when the claim or retry began.
    pub fn burn_step(&self, deposit_subaccount: &Vec<u8>, burn_account: &Option<Account>) -> (r: BurnStep)
        requires
            self.wf(),
        ensures
            ({
                let m = self.pending_splits@;
                let k = deposit_subaccount@;
                if !m.contains_key(k) || m[k].burn_done {
                    r is Nothing
                } else if m[k].topups@.len() > 0 || self.topup_canisters@.len() > 0 {
                    r == BurnStep::TopUps {
                        initialize: m[k].topups@.len() == 0,
                        burn_e8s: m[k].result.burn_e8s,
                    }
                } else {
                    match *burn_account {
                        Some(a) => (r matches BurnStep::BurnAccount { account, burn_e8s } && account@
                            == a@ && burn_e8s == m[k].result.burn_e8s),
                        None => r is Stuck,
                    }
                }
            }),
    {
        let p = match self.pending_splits.get(deposit_subaccount) {
            Some(p) => p,
            None => {
                return BurnStep::Nothing;
            },
        };
        if p.burn_done {
            return BurnStep::Nothing;
        }
        if p.topups.len() > 0 || self.topup_canisters.len() > 0 {
            return BurnStep::TopUps {
                initialize: p.topups.len() == 0,
                burn_e8s: p.result.burn_e8s,
            };
        }
        match burn_account {
            Some(a) => BurnStep::BurnAccount { account: a.duplicate(), burn_e8s: p.result.burn_e8s },
            None => BurnStep::Stuck,
        }
    }

    /// The development amount still to transfer for a subaccount's pending split.
    pub fn dev_transfer_due(&self, deposit_subaccount: &Vec<u8>) -> (r: Option<u64>)
        requires
            self.wf(),
        ensures
            ({
                let m = self.pending_splits@;
                let k = deposit_subaccount@;
                if m.contains_key(k) && !m[k].dev_done {
                    r == Some(m[k].result.dev_e8s)
                } else {
                    r is None
                }
            }),
    {
        match self.pending_splits.get(deposit_subaccount) {
            Some(p) => if p.dev_done {
                None
            } else {
                Some(p.result.dev_e8s)
            },
            None => None,
        }
    }

    /// The liquidity amount still to transfer for a subaccount's pending split.
    pub fn liquidity_transfer_due(&self, deposit_subaccount: &Vec<u8>) -> (r: Option<u64>)
        requires
            self.wf(),
        ensures
            ({
                let m = self.pending_splits@;
                let k = deposit_subaccount@;
                if m.contains_key(k) && !m[k].liquidity_done {
                    r == Some(m[k].result.liquidity_e8s)
                } else {
                    r is None
                }
            }),
    {
        match self.pending_splits.get(deposit_subaccount) {
            Some(p) => if p.liquidity_done {
                None
            } else {
                Some(p.result.liquidity_e8s)
            },
            None => None,
        }
    }

    /// Plans the top-ups of a pending split whose top-ups are not planned yet.
    pub fn initialize_pending_topups(
        &mut self,
        deposit_subaccount: &Vec<u8>,
        burn_e8s: u64,
        now: u64,
    ) -> (r: Result<(), InitError>)
        requires
            old(self).wf(),
        ensures
            final(self).wf(),
            final(self).same_config(old(self)),
            final(self).claimed_by_subaccount == old(self).claimed_by_subaccount,
            final(self).processing_subaccounts == old(self).processing_subaccounts,
            final(self).stats == old(self).stats,
            r is Err ==> *final(self) == *old(self),
            r is Ok <==> (plan_succeeds(burn_e8s, old(self).topup_canisters@)
                && old(self).pending_splits@.contains_key(deposit_subaccount@)),
            !validation_ok(old(self).topup_canisters@) ==> (r matches Err(
                InitError::Plan(PlanError::Invalid(e)),
            ) && validation_matches(old(self).topup_canisters@, Err(e))),
            validation_ok(old(self).topup_canisters@) && old(self).topup_canisters@.len() == 0
                ==> (r matches Err(InitError::Plan(PlanError::NoTargets))),
            validation_ok(old(self).topup_canisters@) && old(self).topup_canisters@.len() > 0
                ==> match first_too_small(
                burn_e8s,
                old(self).topup_canisters@,
                old(self).topup_canisters@.len() as int,
            ) {
                Some(i) => (r matches Err(InitError::Plan(PlanError::ShareBelowFee { name, amount_e8s }))
                    && name@ == old(self).topup_canisters@[i].name@ && amount_e8s == planned_amount(
                    burn_e8s,
                    old(self).topup_canisters@,
                    i,
                )),
                None => true,
            },
            plan_succeeds(burn_e8s, old(self).topup_canisters@)
                && !old(self).pending_splits@.contains_key(deposit_subaccount@)
                ==> (r matches Err(InitError::SplitMissing)),
            r is Ok && old(self).pending_splits@[deposit_subaccount@].topups@.len() == 0 ==> forall|i: int|
                0 <= i < old(self).topup_canisters@.len() ==> fresh_topup(
                    #[trigger] final(self).pending_splits@[deposit_subaccount@].topups@[i],
                    old(self).topup_canisters@[i],
                    planned_amount(burn_e8s, old(self).topup_canisters@, i),
                    now,
                ),
            r is Ok ==> {
                let m = old(self).pending_splits@;
                let k = deposit_subaccount@;
                &&& m.contains_key(k)
                &&& final(self).pending_splits@.contains_key(k)
                &&& final(self).pending_splits@.remove(k) == m.remove(k)
                &&& final(self).pending_splits@[k].buyer == m[k].buyer
                &&& final(self).pending_splits@[k].result == m[k].result
                &&& final(self).pending_splits@[k].dev_done == m[k].dev_done
                &&& final(self).pending_splits@[k].liquidity_done == m[k].liquidity_done
                &&& final(self).pending_splits@[k].burn_done == m[k].burn_done
                &&& m[k].topups@.len() > 0 ==> final(self).pending_splits@[k].topups == m[k].topups
                &&& m[k].topups@.len() == 0 ==> final(self).pending_splits@[k].topups@.len()
                    == old(self).topup_canisters@.len()
            },
    {
        let topups = match build_pending_topups(burn_e8s, &self.topup_canisters, now) {
            Ok(t) => t,
            Err(e) => {
                return Err(InitError::Plan(e));
            },
        };
        if !self.pending_splits.contains(deposit_subaccount) {
            return Err(InitError::SplitMissing);
        }
        let p = self.pending_splits.remove(deposit_subaccount).unwrap();
        let ghost m = old(self).pending_splits@;
        let PendingSplit { buyer, result, dev_done, liquidity_done, burn_done, topups: existing } = p;
        let chosen = if existing.len() == 0 {
            topups
        } else {
            existing
        };
        self.pending_splits.insert(
            copy_bytes(deposit_subaccount.as_slice()),
            PendingSplit { buyer, result, dev_done, liquidity_done, burn_done, topups: chosen },
        );
        assert(self.pending_splits@.remove(deposit_subaccount@) =~= m.remove(deposit_subaccount@));
        Ok(())
    }

    /// The first top-up of a subaccount's pending split that is not done, with its position.
    pub fn next_pending_topup(&self, deposit_subaccount: &Vec<u8>) -> (r: Option<(usize, PendingTopUp)>)
        requires
            self.wf(),
        ensures
            ({
                let m = self.pending_splits@;
                let k = deposit_subaccount@;
                match r {
                    Some((i, t)) => m.contains_key(k) && i < m[k].topups@.len() && !m[k].topups@[i as int].done
                        && t.amount_e8s == m[k].topups@[i as int].amount_e8s
                        && t.canister_id@ == m[k].topups@[i as int].canister_id@
                        && t.block_index == m[k].topups@[i as int].block_index
                        && t.created_at_time == m[k].topups@[i as int].created_at_time
                        && forall|j: int| 0 <= j < i ==> #[trigger] m[k].topups@[j].done,
                    None => !m.contains_key(k) || forall|j: int|
                        0 <= j < m[k].topups@.len() ==> #[trigger] m[k].topups@[j].done,
                }
            }),
    {
        let p = match self.pending_splits.get(deposit_subaccount) {
            Some(p) => p,
            None => {
                return None;
            },
        };
        let mut i: usize = 0;
        while i < p.topups.len()
            invariant
                0 <= i <= p.topups@.len(),
                self.pending_splits@.contains_key(deposit_subaccount@),
                *p == self.pending_splits@[deposit_subaccount@],
                forall|j: int| 0 <= j < i ==> #[trigger] p.topups@[j].done,
            decreases p.topups@.len() - i,
        {
            if !p.topups[i].done {
                let t = &p.topups[i];
                return Some(
                    (
                        i,
                        PendingTopUp {
                            canister_id: t.canister_id.duplicate(),
                            name: t.name.clone(),
                            amount_e8s: t.amount_e8s,
                            created_at_time: t.created_at_time,
                            block_index: t.block_index,
                            cycles_minted: t.cycles_minted,
                            done: t.done,
                            last_error: t.last_error.clone(),
                        },
                    ),
                );
            }
            i += 1;
        }
        None
    }

    /// The next step for the top-ups of a subaccount's pending split, in order: the first
    /// top-up not done is notified again when its transfer is recorded, and transferred
    /// otherwise. Once a step has failed in this run (`failed`), the run halts.
    pub fn topup_step(&self, deposit_subaccount: &Vec<u8>, failed: bool) -> (r: TopUpStep)
        requires
            self.wf(),
        ensures
            failed ==> r is Halt,
            !failed ==> ({
                let m = self.pending_splits@;
                let k = deposit_subaccount@;
                &&& (r is Finished <==> (!m.contains_key(k) || forall|j: int|
                    0 <= j < m[k].topups@.len() ==> #[trigger] m[k].topups@[j].done))
                &&& (r matches TopUpStep::Notify { index, block_index, canister_id } ==> {
                    &&& m.contains_key(k)
                    &&& index < m[k].topups@.len()
                    &&& !m[k].topups@[index as int].done
                    &&& forall|j: int| 0 <= j < index ==> #[trigger] m[k].topups@[j].done
                    &&& m[k].topups@[index as int].block_index == Some(block_index)
                    &&& canister_id@ == m[k].topups@[index as int].canister_id@
                })
                &&& (r matches TopUpStep::Transfer { index, topup } ==> {
                    &&& m.contains_key(k)
                    &&& index < m[k].topups@.len()
                    &&& !m[k].topups@[index as int].done
                    &&& forall|j: int| 0 <= j < index ==> #[trigger] m[k].topups@[j].done
                    &&& m[k].topups@[index as int].block_index is None
                    &&& topup.canister_id@ == m[k].topups@[index as int].canister_id@
                    &&& topup.amount_e8s == m[k].topups@[index as int].amount_e8s
                    &&& topup.created_at_time == m[k].topups@[index as int].created_at_time
                })
                &&& r !is Halt
            }),
    {
        if failed {
            return TopUpStep::Halt;
        }
        match self.next_pending_topup(deposit_subaccount) {
            None => TopUpStep::Finished,
            Some((index, topup)) => match topup.block_index {
                Some(block_index) => TopUpStep::Notify {
                    index,
                    block_index,
                    canister_id: topup.canister_id,
                },
                None => TopUpStep::Transfer { index, topup },
            },
        }
    }

    /// Rewrites the top-up at `index` of a subaccount's pending split, if it exists.
    fn update_topup(
        &mut self,
        deposit_subaccount: &Vec<u8>,
        index: usize,
        block_index: Option<Option<u64>>,
        cycles_minted: Option<Option<u128>>,
        done: Option<bool>,
        last_error: Option<Option<String>>,
        created_at_time: Option<u64>,
    )
        requires
            old(self).wf(),
        ensures
            final(self).wf(),
            final(self).same_config(old(self)),
            final(self).claimed_by_subaccount == old(self).claimed_by_subaccount,
            final(self).processing_subaccounts == old(self).processing_subaccounts,
            final(self).stats == old(self).stats,
            ({
                let m = old(self).pending_splits@;
                let k = deposit_subaccount@;
                if m.contains_key(k) && index < m[k].topups@.len() {
                    let t = m[k].topups@[index as int];
                    let t2 = topup_with(
                        t,
                        match block_index { Some(b) => b, None => t.block_index },
                        match cycles_minted { Some(c) => c, None => t.cycles_minted },
                        match done { Some(d) => d, None => t.done },
                        match last_error { Some(e) => e, None => t.last_error },
                        match created_at_time { Some(c) => c, None => t.created_at_time },
                    );
                    &&& final(self).pending_splits@.contains_key(k)
                    &&& final(self).pending_splits@.remove(k) == m.remove(k)
                    &&& final(self).pending_splits@[k].topups@ == m[k].topups@.update(index as int, t2)
                    &&& final(self).pending_splits@[k].buyer == m[k].buyer
                    &&& final(self).pending_splits@[k].result == m[k].result
                    &&& final(self).pending_splits@[k].dev_done == m[k].dev_done
                    &&& final(self).pending_splits@[k].liquidity_done == m[k].liquidity_done
                    &&& final(self).pending_splits@[k].burn_done == m[k].burn_done
                } else {
                    *final(self) == *old(self)
                }
            }),
    {
        let fits = match self.pending_splits.get(deposit_subaccount) {
            Some(p) => index < p.topups.len(),
            None => false,
        };
        if !fits {
            return;
        }
        let ghost m = old(self).pending_splits@;
        let p = self.pending_splits.remove(deposit_subaccount).unwrap();
        let PendingSplit { buyer, result, dev_done, liquidity_done, burn_done, topups } = p;
        let mut topups = topups;
        let ghost before = topups@;
        let t = topups.remove(index);
        let PendingTopUp {
            canister_id,
            name,
            amount_e8s,
            created_at_time: t_created,
            block_index: t_block,
            cycles_minted: t_cycles,
            done: t_done,
            last_error: t_error,
        } = t;
        let t2 = PendingTopUp {
            canister_id,
            name,
            amount_e8s,
            created_at_time: match created_at_time {
                Some(c) => c,
                None => t_created,
            },
            block_index: match block_index {
                Some(b) => b,
                None => t_block,
            },
            cycles_minted: match cycles_minted {
                Some(c) => c,
                None => t_cycles,
            },
            done: match done {
                Some(d) => d,
                None => t_done,
            },
            last_error: match last_error {
                Some(e) => e,
                None => t_error,
            },
        };
        topups.insert(index, t2);
        assert(topups@ =~= before.update(index as int, t2));
        self.pending_splits.insert(
            copy_bytes(deposit_subaccount.as_slice()),
            PendingSplit { buyer, result, dev_done, liquidity_done, burn_done, topups },
        );
        assert(self.pending_splits@.remove(deposit_subaccount@) =~= m.remove(deposit_subaccount@));
    }

    /// Records the ledger block of a top-up's transfer and clears its error.
    pub fn mark_topup_block_index(&mut self, deposit_subaccount: &Vec<u8>, index: usize, block_index: u64)
        requires
            old(self).wf(),
        ensures
            final(self).wf(),
            final(self).same_config(old(self)),
            final(self).stats == old(self).stats,
            final(self).claimed_by_subaccount == old(self).claimed_by_subaccount,
            final(self).processing_subaccounts == old(self).processing_subaccounts,
            ({
                let m = old(self).pending_splits@;
                let k = deposit_subaccount@;
                if m.contains_key(k) && index < m[k].topups@.len() {
                    let t = m[k].topups@[index as int];
                    &&& final(self).pending_splits@.remove(k) == m.remove(k)
                    &&& final(self).pending_splits@[k].topups@ == m[k].topups@.update(
                        index as int,
                        topup_with(t, Some(block_index), t.cycles_minted, t.done, None, t.created_at_time),
                    )
                } else {
                    *final(self) == *old(self)
                }
            }),
    {
        self.update_topup(deposit_subaccount, index, Some(Some(block_index)), None, None, Some(None), None);
    }

    /// Marks a top-up done with the cycles it minted, and clears its error.
    pub fn mark_topup_done(&mut self, deposit_subaccount: &Vec<u8>, index: usize, cycles: u128)
        requires
            old(self).wf(),
        ensures
            final(self).wf(),
            final(self).same_config(old(self)),
            final(self).stats == old(self).stats,
            final(self).claimed_by_subaccount == old(self).claimed_by_subaccount,
            final(self).processing_subaccounts == old(self).processing_subaccounts,
            ({
                let m = old(self).pending_splits@;
                let k = deposit_subaccount@;
                if m.contains_key(k) && index < m[k].topups@.len() {
                    let t = m[k].topups@[index as int];
                    &&& final(self).pending_splits@.remove(k) == m.remove(k)
                    &&& final(self).pending_splits@[k].topups@ == m[k].topups@.update(
                        index as int,
                        topup_with(t, t.block_index, Some(cycles), true, None, t.created_at_time),
                    )
                } else {
                    *final(self) == *old(self)
                }
            }),
    {
        self.update_topup(deposit_subaccount, index, None, Some(Some(cycles)), Some(true), Some(None), None);
    }

    /// Records the error of a top-up's last attempt.
    pub fn mark_topup_failed(&mut self, deposit_subaccount: &Vec<u8>, index: usize, error: String)
        requires
            old(self).wf(),
        ensures
            final(self).wf(),
            final(self).same_config(old(self)),
            final(self).stats == old(self).stats,
            final(self).claimed_by_subaccount == old(self).claimed_by_subaccount,
            final(self).processing_subaccounts == old(self).processing_subaccounts,
            ({
                let m = old(self).pending_splits@;
                let k = deposit_subaccount@;
                if m.contains_key(k) && index < m[k].topups@.len() {
                    let t = m[k].topups@[index as int];
                    &&& final(self).pending_splits@.remove(k) == m.remove(k)
                    &&& final(self).pending_splits@[k].topups@ == m[k].topups@.update(
                        index as int,
                        topup_with(t, t.block_index, t.cycles_minted, t.done, Some(error), t.created_at_time),
                    )
                } else {
                    *final(self) == *old(self)
                }
            }),
    {
        self.update_topup(deposit_subaccount, index, None, None, None, Some(Some(error)), None);
    }

    /// Gives a top-up a fresh transfer timestamp (after the ledger found the old one too old).
    pub fn refresh_topup_created_at_time(&mut self, deposit_subaccount: &Vec<u8>, index: usize, now: u64)
        requires
            old(self).wf(),
        ensures
            final(self).wf(),
            final(self).same_config(old(self)),
            final(self).stats == old(self).stats,
            final(self).claimed_by_subaccount == old(self).claimed_by_subaccount,
            final(self).processing_subaccounts == old(self).processing_subaccounts,
            ({
                let m = old(self).pending_splits@;
                let k = deposit_subaccount@;
                if m.contains_key(k) && index < m[k].topups@.len() {
                    let t = m[k].topups@[index as int];
                    &&& final(self).pending_splits@.remove(k) == m.remove(k)
                    &&& final(self).pending_splits@[k].topups@ == m[k].topups@.update(
                        index as int,
                        topup_with(t, t.block_index, t.cycles_minted, t.done, t.last_error, now),
                    )
                } else {
                    *final(self) == *old(self)
                }
            }),
    {
        self.update_topup(deposit_subaccount, index, None, None, None, None, Some(now));
    }

    /// The statuses of a subaccount's top-ups (none without a pending split).
    pub fn pending_topups(&self, deposit_subaccount: &Vec<u8>) -> (r: Vec<TopUpStatus>)
        requires
            self.wf(),
        ensures
            ({
                let m = self.pending_splits@;
                let k = deposit_subaccount@;
                if m.contains_key(k) {
                    &&& r@.len() == m[k].topups@.len()
                    &&& forall|i: int|
                        0 <= i < r@.len() ==> {
                            let t = #[trigger] m[k].topups@[i];
                            &&& r@[i].canister_id@ == t.canister_id@
                            &&& r@[i].name == t.name
                            &&& r@[i].amount_e8s == t.amount_e8s
                            &&& r@[i].block_index == t.block_index
                            &&& r@[i].cycles_minted == t.cycles_minted
                            &&& r@[i].done == t.done
                            &&& r@[i].last_error == t.last_error
                        }
                } else {
                    r@.len() == 0
                }
            }),
    {
        let mut out: Vec<TopUpStatus> = Vec::new();
        let p = match self.pending_splits.get(deposit_subaccount) {
            Some(p) => p,
            None => {
                return out;
            },
        };
        let mut i: usize = 0;
        while i < p.topups.len()
            invariant
                0 <= i <= p.topups@.len(),
                out@.len() == i,
                forall|j: int|
                    0 <= j < i ==> {
                        let t = #[trigger] p.topups@[j];
                        &&& out@[j].canister_id@ == t.canister_id@
                        &&& out@[j].name == t.name
                        &&& out@[j].amount_e8s == t.amount_e8s
                        &&& out@[j].block_index == t.block_index
                        &&& out@[j].cycles_minted == t.cycles_minted
                        &&& out@[j].done == t.done
                        &&& out@[j].last_error == t.last_error
                    },
            decreases p.topups@.len() - i,
        {
            let t = &p.topups[i];
            out.push(
                TopUpStatus {
                    canister_id: t.canister_id.duplicate(),
                    name: t.name.clone(),
                    amount_e8s: t.amount_e8s,
                    block_index: t.block_index,
                    cycles_minted: t.cycles_minted,
                    done: t.done,
                    last_error: t.last_error.clone(),
                },
            );
            i += 1;
        }
        out
    }
}

/// Why the top-ups of a pending split could not be planned.
pub enum InitError {
    Plan(PlanError),
    SplitMissing,
}

impl Stats {
    pub open spec fn zero_spec() -> Stats {
        Stats {
            total_received: 0,
            total_dev: 0,
            total_liquidity: 0,
            total_burn: 0,
            claim_count: 0,
            pending_distributions: 0,
        }
    }
}

/// The treasury's split in basis points: development, liquidity, burn.
pub fn get_split() -> (r: (u64, u64, u64))
    ensures
        r == (DEV_BPS, LIQUIDITY_BPS, BURN_BPS),
        r.0 + r.1 + r.2 == 10_000,
{
    (DEV_BPS, LIQUIDITY_BPS, BURN_BPS)
}

} // verus!
