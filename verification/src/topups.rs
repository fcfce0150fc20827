//! How the treasury splits a ticket payment, and how its burn share is divided among
//! the canisters to top up.
use vstd::prelude::*;
use crate::ids::{principal_text_spec, principal_to_text, PrincipalId};
use crate::text::{decimal, push_decimal, push_str, trim_spec, trim_text};

verus! {

/// Development share: 5%.
pub const DEV_BPS: u64 = 500;

/// Liquidity share: 15%.
pub const LIQUIDITY_BPS: u64 = 1_500;

/// Burn share: the remaining 80%, sent to the cycles top-ups or the burn account.
pub const BURN_BPS: u64 = 8_000;

/// The split moves a payment out of its deposit in three transfers, each paying a fee.
pub const SPLIT_TRANSFERS: u64 = 3;

pub const DEFAULT_ICP_FEE_E8S: u64 = 10_000;

/// How a ticket payment is split (amounts in e8s).
#[derive(Clone, Copy)]
pub struct ClaimResult {
    pub amount_e8s: u64,
    pub dev_e8s: u64,
    pub liquidity_e8s: u64,
    pub burn_e8s: u64,
    pub ledger_fees_e8s: u64,
    pub distribution_complete: bool,
}

/// The split of `amount_e8s`: 5% to development, 15% to liquidity, the rest (80%) to the
/// burn, and the ledger fees of the split's three transfers.
pub open spec fn split_spec(amount_e8s: u64, ledger_fee_e8s: u64) -> ClaimResult {
    let dev = amount_e8s * DEV_BPS / 10_000;
    let liquidity = amount_e8s * LIQUIDITY_BPS / 10_000;
    ClaimResult {
        amount_e8s,
        dev_e8s: dev as u64,
        liquidity_e8s: liquidity as u64,
        burn_e8s: (amount_e8s - dev - liquidity) as u64,
        ledger_fees_e8s: (ledger_fee_e8s * SPLIT_TRANSFERS) as u64,
        distribution_complete: false,
    }
}

pub fn split_amount(amount_e8s: u64, ledger_fee_e8s: u64) -> (r: ClaimResult)
    requires
        ledger_fee_e8s * SPLIT_TRANSFERS <= u64::MAX,
    ensures
        r == split_spec(amount_e8s, ledger_fee_e8s),
        r.dev_e8s + r.liquidity_e8s + r.burn_e8s == amount_e8s,
        r.dev_e8s * 10_000 <= amount_e8s * DEV_BPS < (r.dev_e8s + 1) * 10_000,
        r.liquidity_e8s * 10_000 <= amount_e8s * LIQUIDITY_BPS < (r.liquidity_e8s + 1) * 10_000,
        r.burn_e8s * 10_000 >= amount_e8s * BURN_BPS,
{
    let wide = amount_e8s as u128;
    let dev_e8s = (wide * DEV_BPS as u128 / 10_000) as u64;
    let liquidity_e8s = (wide * LIQUIDITY_BPS as u128 / 10_000) as u64;
    let burn_e8s = amount_e8s - dev_e8s - liquidity_e8s;
    ClaimResult {
        amount_e8s,
        dev_e8s,
        liquidity_e8s,
        burn_e8s,
        ledger_fees_e8s: ledger_fee_e8s * SPLIT_TRANSFERS,
        distribution_complete: false,
    }
}

/// A canister that receives a share of the cycles allocation.
pub struct TopUpTarget {
    pub canister_id: PrincipalId,
    pub name: String,
    pub share_bps: u16,
}

/// Why a list of top-up targets is refused.
pub enum TargetError {
    EmptyName,
    ZeroShare { name: String },
    Duplicate { canister_id: PrincipalId },
    BadTotal { total_bps: u64 },
}

/// Why the top-ups of a payment cannot be planned.
pub enum PlanError {
    Invalid(TargetError),
    NoTargets,
    ShareBelowFee { name: String, amount_e8s: u64 },
}

/// The text with which a refused list of top-up targets is reported; `id_text` is the
/// text of a duplicated canister's principal.
pub open spec fn target_error_text(e: TargetError, id_text: Seq<char>) -> Seq<char> {
    match e {
        TargetError::EmptyName => "Top-up target name cannot be empty"@,
        TargetError::ZeroShare { name } => "Top-up target "@ + name@ + " has zero share"@,
        TargetError::Duplicate { .. } => "Duplicate top-up target "@ + id_text,
        TargetError::BadTotal { total_bps } => "Top-up shares must sum to 10000 bps, got "@
            + decimal(total_bps as nat),
    }
}

/// The principal a duplicate-target error names (no other error names one).
pub open spec fn duplicate_id(e: TargetError) -> Seq<u8> {
    match e {
        TargetError::Duplicate { canister_id } => canister_id@,
        _ => Seq::empty(),
    }
}

impl TargetError {
    /// The error's text, a duplicated canister's principal given as text.
    pub fn message_for(&self, id_text: &str) -> (r: String)
        ensures
            r@ == target_error_text(*self, id_text@),
    {
        match self {
            TargetError::EmptyName => String::from_str("Top-up target name cannot be empty"),
            TargetError::ZeroShare { name } => {
                let mut out = String::from_str("Top-up target ");
                push_str(&mut out, name.as_str());
                push_str(&mut out, " has zero share");
                out
            },
            TargetError::Duplicate { .. } => {
                let mut out = String::from_str("Duplicate top-up target ");
                push_str(&mut out, id_text);
                out
            },
            TargetError::BadTotal { total_bps } => {
                let mut out = String::from_str("Top-up shares must sum to 10000 bps, got ");
                push_decimal(&mut out, *total_bps as u128);
                out
            },
        }
    }

    /// The error's text.
    pub fn message(&self) -> (r: String)
        requires
            duplicate_id(*self).len() <= 29,
        ensures
            r@ == target_error_text(*self, principal_text_spec(duplicate_id(*self))),
    {
        match self {
            TargetError::Duplicate { canister_id } => {
                let id = principal_to_text(canister_id);
                self.message_for(id.as_str())
            },
            _ => self.message_for(""),
        }
    }
}

/// The text with which a refused top-up plan is reported.
pub open spec fn plan_error_text(e: PlanError, id_text: Seq<char>) -> Seq<char> {
    match e {
        PlanError::Invalid(t) => target_error_text(t, id_text),
        PlanError::NoTargets => "No top-up targets configured"@,
        PlanError::ShareBelowFee { name, amount_e8s } => "Top-up share for "@ + name@ + " is "@
            + decimal(amount_e8s as nat) + " e8s, below the "@ + decimal(DEFAULT_ICP_FEE_E8S as nat)
            + " e8s ledger fee"@,
    }
}

/// The principal a plan error names, if it is a duplicate-target error.
pub open spec fn plan_duplicate_id(e: PlanError) -> Seq<u8> {
    match e {
        PlanError::Invalid(t) => duplicate_id(t),
        _ => Seq::empty(),
    }
}

impl PlanError {
    /// The error's text.
    pub fn message(&self) -> (r: String)
        requires
            plan_duplicate_id(*self).len() <= 29,
        ensures
            r@ == plan_error_text(*self, principal_text_spec(plan_duplicate_id(*self))),
    {
        match self {
            PlanError::Invalid(t) => t.message(),
            PlanError::NoTargets => String::from_str("No top-up targets configured"),
            PlanError::ShareBelowFee { name, amount_e8s } => {
                let mut out = String::from_str("Top-up share for ");
                push_str(&mut out, name.as_str());
                push_str(&mut out, " is ");
                push_decimal(&mut out, *amount_e8s as u128);
                push_str(&mut out, " e8s, below the ");
                push_decimal(&mut out, DEFAULT_ICP_FEE_E8S as u128);
                push_str(&mut out, " e8s ledger fee");
                out
            },
        }
    }
}

/// The problem that the target at `i` has given the ones before it, if any: a blank name,
/// a zero share, or a canister already listed.
pub open spec fn target_problem(ts: Seq<TopUpTarget>, i: int) -> Option<int> {
    if trim_spec(ts[i].name@).len() == 0 {
        Some(0)
    } else if ts[i].share_bps == 0 {
        Some(1)
    } else if exists|j: int| 0 <= j < i && ts[j].canister_id@ == ts[i].canister_id@ {
        Some(2)
    } else {
        None
    }
}

/// The first target (from index `i` on) that has a problem.
pub open spec fn first_problem(ts: Seq<TopUpTarget>, i: int) -> Option<int>
    decreases ts.len() - i,
{
    if i < 0 || i >= ts.len() {
        None
    } else if target_problem(ts, i) is Some {
        Some(i)
    } else {
        first_problem(ts, i + 1)
    }
}

/// Sum of the shares of the first `k` targets.
pub open spec fn shares_sum(ts: Seq<TopUpTarget>, k: int) -> int
    decreases k,
{
    if k <= 0 {
        0
    } else {
        shares_sum(ts, k - 1) + ts[k - 1].share_bps
    }
}

/// Whether `err` is the error that target `i` (the first with a problem) reports.
pub open spec fn reports(ts: Seq<TopUpTarget>, i: int, err: TargetError) -> bool {
    match target_problem(ts, i) {
        Some(k) => if k == 0 {
            err is EmptyName
        } else if k == 1 {
            err matches TargetError::ZeroShare { name } && name@ == ts[i].name@
        } else {
            err matches TargetError::Duplicate { canister_id } && canister_id@ == ts[i].canister_id@
        },
        None => false,
    }
}

/// The outcome of validating targets: an empty list is fine; otherwise the first target
/// with a problem is reported, and without one the shares must sum to 10,000 bps.
pub open spec fn validation_ok(ts: Seq<TopUpTarget>) -> bool {
    ts.len() == 0 || (first_problem(ts, 0) is None && shares_sum(ts, ts.len() as int) == 10_000)
}

pub open spec fn validation_matches(ts: Seq<TopUpTarget>, r: Result<(), TargetError>) -> bool {
    if ts.len() == 0 {
        r is Ok
    } else {
        match first_problem(ts, 0) {
            Some(i) => (r matches Err(e) && reports(ts, i, e)),
            None => if shares_sum(ts, ts.len() as int) == 10_000 {
                r is Ok
            } else {
                r == Err::<(), TargetError>(
                    TargetError::BadTotal {
                        total_bps: if shares_sum(ts, ts.len() as int) > u64::MAX {
                            u64::MAX
                        } else {
                            shares_sum(ts, ts.len() as int) as u64
                        },
                    },
                )
            },
        }
    }
}

proof fn lemma_first_problem_skip(ts: Seq<TopUpTarget>, i: int)
    requires
        0 <= i <= ts.len(),
        forall|j: int| 0 <= j < i ==> target_problem(ts, j) is None,
    ensures
        first_problem(ts, 0) == first_problem(ts, i),
    decreases i,
{
    if i > 0 {
        lemma_first_problem_skip(ts, i - 1);
    }
}

fn copy_string(s: &String) -> (r: String)
    ensures
        r@ == s@,
{
    s.clone()
}

/// Checks a list of top-up targets.
pub fn validate_topup_targets(targets: &Vec<TopUpTarget>) -> (r: Result<(), TargetError>)
    ensures
        validation_matches(targets@, r),
        r is Ok <==> validation_ok(targets@),
{
    if targets.len() == 0 {
        return Ok(());
    }
    let mut total_bps: u128 = 0;
    let mut i: usize = 0;
    while i < targets.len()
        invariant
            0 <= i <= targets@.len(),
            targets@.len() <= usize::MAX,
            total_bps == shares_sum(targets@, i as int),
            total_bps <= i * 0xffff,
            forall|j: int| 0 <= j < i ==> target_problem(targets@, j) is None,
        decreases targets@.len() - i,
    {
        proof {
            lemma_first_problem_skip(targets@, i as int);
        }
        if trim_text(targets[i].name.as_str()).is_empty() {
            return Err(TargetError::EmptyName);
        }
        if targets[i].share_bps == 0 {
            return Err(TargetError::ZeroShare { name: copy_string(&targets[i].name) });
        }
        let mut j: usize = 0;
        while j < i
            invariant
                0 <= j <= i < targets@.len(),
                forall|m: int| 0 <= m < j ==> targets@[m].canister_id@ != targets@[i as int].canister_id@,
                trim_spec(targets@[i as int].name@).len() != 0,
                targets@[i as int].share_bps != 0,
                first_problem(targets@, 0) == first_problem(targets@, i as int),
            decreases i - j,
        {
            if targets[j].canister_id.same(&targets[i].canister_id) {
                assert(0 <= j < i && targets@[j as int].canister_id@ == targets@[i as int].canister_id@);
                return Err(TargetError::Duplicate { canister_id: targets[i].canister_id.duplicate() });
            }
            j += 1;
        }
        total_bps = total_bps + targets[i].share_bps as u128;
        i += 1;
    }
    proof {
        lemma_first_problem_skip(targets@, targets@.len() as int);
    }
    if total_bps != 10_000 {
        let reported: u64 = if total_bps > u64::MAX as u128 {
            u64::MAX
        } else {
            total_bps as u64
        };
        return Err(TargetError::BadTotal { total_bps: reported });
    }
    Ok(())
}

/// A pending top-up of one canister.
pub struct PendingTopUp {
    pub canister_id: PrincipalId,
    pub name: String,
    pub amount_e8s: u64,
    pub created_at_time: u64,
    pub block_index: Option<u64>,
    pub cycles_minted: Option<u128>,
    pub done: bool,
    pub last_error: Option<String>,
}

pub open spec fn sat_mul(a: u64, b: u64) -> u64 {
    if a * b > u64::MAX {
        u64::MAX
    } else {
        (a * b) as u64
    }
}

pub open spec fn sat_add(a: u64, b: u64) -> u64 {
    if a + b > u64::MAX {
        u64::MAX
    } else {
        (a + b) as u64
    }
}

/// The share of `burn_e8s` for a target with `bps` basis points (rounded down).
pub open spec fn share_of(burn_e8s: u64, bps: u16) -> u64 {
    sat_mul(burn_e8s, bps as u64) / 10_000
}

/// What the first `k` targets are given.
pub open spec fn allocated(burn_e8s: u64, ts: Seq<TopUpTarget>, k: int) -> u64
    decreases k,
{
    if k <= 0 {
        0
    } else {
        sat_add(allocated(burn_e8s, ts, k - 1), share_of(burn_e8s, ts[k - 1].share_bps))
    }
}

/// What target `i` is given: its share, and for the last target whatever the others left.
pub open spec fn planned_amount(burn_e8s: u64, ts: Seq<TopUpTarget>, i: int) -> u64 {
    if i == ts.len() - 1 {
        if burn_e8s >= allocated(burn_e8s, ts, i) {
            (burn_e8s - allocated(burn_e8s, ts, i)) as u64
        } else {
            0
        }
    } else {
        share_of(burn_e8s, ts[i].share_bps)
    }
}

/// The first target (before `k`) whose planned amount does not exceed the ledger fee.
pub open spec fn first_too_small(burn_e8s: u64, ts: Seq<TopUpTarget>, k: int) -> Option<int>
    decreases k,
{
    if k <= 0 {
        None
    } else {
        match first_too_small(burn_e8s, ts, k - 1) {
            Some(i) => Some(i),
            None => if planned_amount(burn_e8s, ts, k - 1) <= DEFAULT_ICP_FEE_E8S {
                Some(k - 1)
            } else {
                None
            },
        }
    }
}

/// Top-up `p` is the fresh plan for target `t` with `amount` e8s created at `now`.
pub open spec fn fresh_topup(p: PendingTopUp, t: TopUpTarget, amount: u64, now: u64) -> bool {
    &&& p.canister_id@ == t.canister_id@
    &&& p.name@ == t.name@
    &&& p.amount_e8s == amount
    &&& p.created_at_time == now
    &&& p.block_index is None
    &&& p.cycles_minted is None
    &&& !p.done
    &&& p.last_error is None
}

/// Plans the top-ups of `burn_e8s` over valid targets: each target its share of the amount,
/// the last one the remainder; every top-up must exceed the ledger fee.
pub fn build_pending_topups(burn_e8s: u64, targets: &Vec<TopUpTarget>, now: u64) -> (r: Result<
    Vec<PendingTopUp>,
    PlanError,
>)
    ensures
        !validation_ok(targets@) ==> (r matches Err(PlanError::Invalid(e)) && validation_matches(
            targets@,
            Err(e),
        )),
        validation_ok(targets@) && targets@.len() == 0 ==> (r matches Err(PlanError::NoTargets)),
        validation_ok(targets@) && targets@.len() > 0 ==> match first_too_small(
            burn_e8s,
            targets@,
            targets@.len() as int,
        ) {
            Some(i) => (r matches Err(PlanError::ShareBelowFee { name, amount_e8s }) && name@
                == targets@[i].name@ && amount_e8s == planned_amount(burn_e8s, targets@, i)),
            None => (r matches Ok(ps) && ps@.len() == targets@.len() && forall|i: int|
                0 <= i < ps@.len() ==> fresh_topup(
                    #[trigger] ps@[i],
                    targets@[i],
                    planned_amount(burn_e8s, targets@, i),
                    now,
                )),
        },
{
    match validate_topup_targets(targets) {
        Ok(()) => {},
        Err(e) => {
            return Err(PlanError::Invalid(e));
        },
    }
    if targets.len() == 0 {
        return Err(PlanError::NoTargets);
    }
    let last_index = targets.len() - 1;
    let mut allocated_e8s: u64 = 0;
    let mut topups: Vec<PendingTopUp> = Vec::new();
    let mut i: usize = 0;
    while i < targets.len()
        invariant
            0 <= i <= targets@.len(),
            last_index == targets@.len() - 1,
            validation_ok(targets@),
            allocated_e8s == allocated(burn_e8s, targets@, if i <= last_index {
                i as int
            } else {
                last_index as int
            }),
            first_too_small(burn_e8s, targets@, i as int) is None,
            topups@.len() == i,
            forall|j: int|
                0 <= j < i ==> fresh_topup(
                    #[trigger] topups@[j],
                    targets@[j],
                    planned_amount(burn_e8s, targets@, j),
                    now,
                ),
        decreases targets@.len() - i,
    {
        let amount_e8s = if i == last_index {
            burn_e8s.saturating_sub(allocated_e8s)
        } else {
            let product = match burn_e8s.checked_mul(targets[i].share_bps as u64) {
                Some(v) => v,
                None => u64::MAX,
            };
            let share = product / 10_000;
            allocated_e8s = allocated_e8s.saturating_add(share);
            share
        };
        assert(amount_e8s == planned_amount(burn_e8s, targets@, i as int));
        if amount_e8s <= DEFAULT_ICP_FEE_E8S {
            proof {
                lemma_first_too_small_stable(burn_e8s, targets@, i as int + 1, targets@.len() as int);
            }
            return Err(PlanError::ShareBelowFee { name: copy_string(&targets[i].name), amount_e8s });
        }
        topups.push(
            PendingTopUp {
                canister_id: targets[i].canister_id.duplicate(),
                name: copy_string(&targets[i].name),
                amount_e8s,
                created_at_time: now,
                block_index: None,
                cycles_minted: None,
                done: false,
                last_error: None,
            },
        );
        i += 1;
    }
    Ok(topups)
}

proof fn lemma_first_too_small_stable(burn_e8s: u64, ts: Seq<TopUpTarget>, k: int, m: int)
    requires
        0 <= k <= m,
        first_too_small(burn_e8s, ts, k) is Some,
    ensures
        first_too_small(burn_e8s, ts, m) == first_too_small(burn_e8s, ts, k),
    decreases m - k,
{
    if m > k {
        lemma_first_too_small_stable(burn_e8s, ts, k, m - 1);
    }
}

/// Sum of the planned amounts of the first `k` targets.
pub open spec fn planned_sum(burn_e8s: u64, ts: Seq<TopUpTarget>, k: int) -> int
    decreases k,
{
    if k <= 0 {
        0
    } else {
        planned_sum(burn_e8s, ts, k - 1) + planned_amount(burn_e8s, ts, k - 1)
    }
}

proof fn lemma_shares_nonneg(ts: Seq<TopUpTarget>, k: int, m: int)
    requires
        0 <= k <= m <= ts.len(),
    ensures
        0 <= shares_sum(ts, k) <= shares_sum(ts, m),
    decreases m,
{
    if m > k {
        lemma_shares_nonneg(ts, k, m - 1);
    } else if k > 0 {
        lemma_shares_nonneg(ts, k - 1, k - 1);
    }
}

proof fn lemma_allocated_exact(burn_e8s: u64, ts: Seq<TopUpTarget>, k: int)
    requires
        0 <= k <= ts.len(),
        burn_e8s * 10_000 <= u64::MAX,
        shares_sum(ts, k) <= 10_000,
    ensures
        allocated(burn_e8s, ts, k) * 10_000 <= burn_e8s * shares_sum(ts, k),
        allocated(burn_e8s, ts, k) <= burn_e8s,
    decreases k,
{
    if k > 0 {
        lemma_shares_nonneg(ts, k - 1, k - 1);
        let s = ts[k - 1].share_bps as int;
        let a = allocated(burn_e8s, ts, k - 1) as int;
        let p = shares_sum(ts, k - 1);
        assert(shares_sum(ts, k) == p + s);
        lemma_allocated_exact(burn_e8s, ts, k - 1);
        assert(burn_e8s * s <= burn_e8s * 10_000) by (nonlinear_arith)
            requires
                0 <= s <= 10_000,
        ;
        assert(sat_mul(burn_e8s, s as u64) == burn_e8s * s);
        assert(((burn_e8s * s) / 10_000) * 10_000 <= burn_e8s * s) by (nonlinear_arith)
            requires
                burn_e8s * s >= 0,
        ;
        let q = (burn_e8s * s) / 10_000;
        assert(share_of(burn_e8s, ts[k - 1].share_bps) == q);
        assert(burn_e8s * p + burn_e8s * s == burn_e8s * (p + s)) by (nonlinear_arith);
        assert(burn_e8s * (p + s) <= burn_e8s * 10_000) by (nonlinear_arith)
            requires
                p + s <= 10_000,
                burn_e8s >= 0,
        ;
        assert(a + q <= burn_e8s);
    }
}

proof fn lemma_planned_prefix(burn_e8s: u64, ts: Seq<TopUpTarget>, k: int)
    requires
        0 <= k <= ts.len() - 1,
        burn_e8s * 10_000 <= u64::MAX,
        shares_sum(ts, ts.len() as int) == 10_000,
    ensures
        planned_sum(burn_e8s, ts, k) == allocated(burn_e8s, ts, k),
    decreases k,
{
    if k > 0 {
        lemma_planned_prefix(burn_e8s, ts, k - 1);
        lemma_shares_nonneg(ts, k, ts.len() as int);
        lemma_shares_nonneg(ts, k - 1, ts.len() as int);
        lemma_allocated_exact(burn_e8s, ts, k);
        lemma_allocated_exact(burn_e8s, ts, k - 1);
        let s = ts[k - 1].share_bps as int;
        assert(burn_e8s * s <= burn_e8s * 10_000) by (nonlinear_arith)
            requires
                0 <= s <= 10_000,
        ;
    }
}

/// With valid shares and no saturation, the top-ups together are exactly the burn share.
pub proof fn lemma_topups_cover_burn(burn_e8s: u64, ts: Seq<TopUpTarget>)
    requires
        ts.len() > 0,
        validation_ok(ts),
        burn_e8s * 10_000 <= u64::MAX,
    ensures
        planned_sum(burn_e8s, ts, ts.len() as int) == burn_e8s,
{
    lemma_shares_nonneg(ts, ts.len() - 1, ts.len() as int);
    lemma_allocated_exact(burn_e8s, ts, ts.len() - 1);
    lemma_planned_prefix(burn_e8s, ts, ts.len() - 1);
}

/// How a top-up transfer to the cycles minting canister can fail.
pub enum TopUpTransferError {
    /// The transfer's timestamp is too old; it was refreshed for the next attempt.
    RefreshTimestamp(String),
    Other(String),
}

impl TopUpTransferError {
    /// The error's message.
    pub fn message(self) -> (r: String)
        ensures
            match self {
                TopUpTransferError::RefreshTimestamp(m) => r == m,
                TopUpTransferError::Other(m) => r == m,
            },
    {
        match self {
            TopUpTransferError::RefreshTimestamp(message) => message,
            TopUpTransferError::Other(message) => message,
        }
    }
}

/// The reply of the ICP ledger's legacy `transfer`.
pub enum LegacyTransferOutcome {
    Accepted(u64),
    TxDuplicate { duplicate_of: u64 },
    TxTooOld,
    OtherError,
}

/// What a legacy transfer reply means for a top-up: a block index (a duplicate counts as
/// done, at the earlier block), a stale timestamp, or another failure.
pub enum TopUpTransferStatus {
    Sent(u64),
    TimestampTooOld,
    Rejected,
}

pub fn classify_topup_transfer(outcome: LegacyTransferOutcome) -> (r: TopUpTransferStatus)
    ensures
        match outcome {
            LegacyTransferOutcome::Accepted(i) => r == TopUpTransferStatus::Sent(i),
            LegacyTransferOutcome::TxDuplicate { duplicate_of } => r == TopUpTransferStatus::Sent(
                duplicate_of,
            ),
            LegacyTransferOutcome::TxTooOld => r is TimestampTooOld,
            LegacyTransferOutcome::OtherError => r is Rejected,
        },
{
    match outcome {
        LegacyTransferOutcome::Accepted(i) => TopUpTransferStatus::Sent(i),
        LegacyTransferOutcome::TxDuplicate { duplicate_of } => TopUpTransferStatus::Sent(duplicate_of),
        LegacyTransferOutcome::TxTooOld => TopUpTransferStatus::TimestampTooOld,
        LegacyTransferOutcome::OtherError => TopUpTransferStatus::Rejected,
    }
}

/// The amount a top-up transfers after the ledger fee, or `None` if nothing is left.
pub fn topup_net_amount(amount_e8s: u64) -> (r: Option<u64>)
    ensures
        amount_e8s <= DEFAULT_ICP_FEE_E8S ==> r is None,
        amount_e8s > DEFAULT_ICP_FEE_E8S ==> r == Some((amount_e8s - DEFAULT_ICP_FEE_E8S) as u64),
{
    let net = amount_e8s.saturating_sub(DEFAULT_ICP_FEE_E8S);
    if net == 0 {
        None
    } else {
        Some(net)
    }
}

} // verus!
