//! The LUCKY token ledger: balances, transfers, staking, reward minting and burning.
//!
//! Its accounting invariant (part of `TokenState::wf`) is that the recorded total supply
//! equals the sum of all liquid balances plus all staked batches, and never exceeds the
//! maximum supply.
use vstd::prelude::*;
use crate::ids::{
    lemma_sum_by_nonneg, lemma_table_value_le_sum, opt_bytes_view, sum_by, Account, AccountView,
    PrincipalId, Table,
};
use crate::text::{decimal, push_decimal, push_str};
use crate::staking::{
    batches_total, batches_unlockable, boost_bps, boost_for, drain_unlocked,
    drain_unlocked_batches, lemma_drain_totals, lemma_total_nonneg, total_staked, unlock_time,
    unlockable_amount, StakeBatch, ONE_LUCKY, STAKE_LOCK_NANOS,
};

verus! {

pub const DECIMALS: u8 = 8;

pub const MAX_SUPPLY: u128 = 100_000_000 * ONE_LUCKY;

pub const DEV_RESERVE: u128 = 10_000_000 * ONE_LUCKY;

pub const REWARD_POOL: u128 = 70_000_000 * ONE_LUCKY;

pub const TRANSFER_FEE: u128 = 10_000;

/// Errors of an ICRC-1 transfer or a burn (amounts in e8s).
pub enum TransferError {
    BadFee { expected_fee: u128 },
    InsufficientFunds { balance: u128 },
    TooOld,
    CreatedInFuture { ledger_time: u64 },
    Duplicate { duplicate_of: u128 },
    TemporarilyUnavailable,
    GenericError { error_code: u128, message: String },
}

/// The arguments of an ICRC-1 transfer (amounts in e8s).
pub struct TransferArgs {
    pub from_subaccount: Option<Vec<u8>>,
    pub to: Account,
    pub amount: u128,
    pub fee: Option<u128>,
    pub memo: Option<Vec<u8>>,
    pub created_at_time: Option<u64>,
}

/// Why a staking or minting request was refused.
pub enum TokenError {
    ZeroAmount,
    InsufficientLiquid,
    InsufficientUnlocked { unlockable: u128, requested: u128 },
    MintingAccountNotSet,
    NotMinter,
    RewardPoolExhausted,
    MaxSupplyExceeded,
}

/// The text with which a staking or minting refusal is reported.
pub open spec fn token_error_text(e: TokenError) -> Seq<char> {
    match e {
        TokenError::ZeroAmount => "Amount must be greater than zero"@,
        TokenError::InsufficientLiquid => "Insufficient liquid LUCKY"@,
        TokenError::InsufficientUnlocked { unlockable, requested } => "Insufficient unlocked LUCKY. "@
            + decimal((unlockable / ONE_LUCKY) as nat) + " unlockable, "@ + decimal(
            (requested / ONE_LUCKY) as nat,
        ) + " requested"@,
        TokenError::MintingAccountNotSet => "Minting account not set"@,
        TokenError::NotMinter => "Only lottery canister can mint rewards"@,
        TokenError::RewardPoolExhausted => "Reward pool exhausted"@,
        TokenError::MaxSupplyExceeded => "Max supply exceeded"@,
    }
}

impl TokenError {
    /// The error's text (whole LUCKY in the amounts).
    pub fn message(&self) -> (r: String)
        ensures
            r@ == token_error_text(*self),
    {
        match self {
            TokenError::ZeroAmount => String::from_str("Amount must be greater than zero"),
            TokenError::InsufficientLiquid => String::from_str("Insufficient liquid LUCKY"),
            TokenError::InsufficientUnlocked { unlockable, requested } => {
                let mut out = String::from_str("Insufficient unlocked LUCKY. ");
                push_decimal(&mut out, *unlockable / ONE_LUCKY);
                push_str(&mut out, " unlockable, ");
                push_decimal(&mut out, *requested / ONE_LUCKY);
                push_str(&mut out, " requested");
                out
            },
            TokenError::MintingAccountNotSet => String::from_str("Minting account not set"),
            TokenError::NotMinter => String::from_str("Only lottery canister can mint rewards"),
            TokenError::RewardPoolExhausted => String::from_str("Reward pool exhausted"),
            TokenError::MaxSupplyExceeded => String::from_str("Max supply exceeded"),
        }
    }
}

/// A summary of one principal's holdings.
pub struct StakeInfo {
    pub liquid: u128,
    pub staked: u128,
    pub unlockable: u128,
    pub locked: u128,
    pub total: u128,
    pub boost_bps: u64,
}

/// One stake batch as shown to its owner.
pub struct StakeBatchInfo {
    pub amount: u128,
    pub staked_at: u64,
    pub unlocks_at: u64,
    pub unlocked: bool,
}

pub open spec fn amount_weight() -> spec_fn(u128) -> int {
    |v: u128| v as int
}

pub open spec fn stake_weight() -> spec_fn(Vec<StakeBatch>) -> int {
    |v: Vec<StakeBatch>| batches_total(v@)
}

pub proof fn lemma_weights_nonneg()
    ensures
        forall|t: u128| #[trigger] amount_weight()(t) >= 0,
        forall|v: Vec<StakeBatch>| #[trigger] stake_weight()(v) >= 0,
{
    assert forall|v: Vec<StakeBatch>| #[trigger] stake_weight()(v) >= 0 by {
        lemma_total_nonneg(v@, 0);
    }
}

/// The balance a map of balances gives an account (zero when it has no entry).
pub open spec fn bal(m: Map<AccountView, u128>, a: AccountView) -> u128 {
    if m.contains_key(a) {
        m[a]
    } else {
        0
    }
}

/// The stake batches a map of stakes gives a principal (none when it has no entry).
pub open spec fn batches_of(m: Map<Seq<u8>, Vec<StakeBatch>>, p: Seq<u8>) -> Seq<StakeBatch> {
    if m.contains_key(p) {
        m[p]@
    } else {
        Seq::empty()
    }
}

pub open spec fn default_account(p: Seq<u8>) -> AccountView {
    AccountView { owner: p, subaccount: None }
}

/// Balances after moving `amount` from `from` to `to` and charging `fee` to `from`.
pub open spec fn transferred(
    m: Map<AccountView, u128>,
    from: AccountView,
    to: AccountView,
    amount: int,
    fee: int,
) -> Map<AccountView, u128> {
    let m1 = m.insert(from, (bal(m, from) - amount - fee) as u128);
    m1.insert(to, (bal(m1, to) + amount) as u128)
}

/// What a map of stakes holds, with each principal's batches taken by value.
pub open spec fn staked_view(m: Map<Seq<u8>, Vec<StakeBatch>>) -> Map<Seq<u8>, Seq<StakeBatch>> {
    m.map_values(|v: Vec<StakeBatch>| v@)
}

/// An explicit fee that differs from the ledger fee.
pub open spec fn bad_fee(fee: Option<u128>) -> bool {
    fee matches Some(f) && f != TRANSFER_FEE
}

fn table_bal(t: &Table<Account, u128>, a: &Account) -> (r: u128)
    requires
        t.wf(),
    ensures
        r == bal(t@, a@),
{
    match t.get(a) {
        Some(v) => *v,
        None => 0,
    }
}

pub struct TokenState {
    pub owner: PrincipalId,
    pub minting_account: Option<PrincipalId>,
    pub balances: Table<Account, u128>,
    pub staked: Table<PrincipalId, Vec<StakeBatch>>,
    pub total_minted: u128,
    pub rewards_minted: u128,
    pub next_block_index: u128,
}

impl TokenState {
    pub open spec fn liquid_sum(&self) -> int {
        sum_by(self.balances.entries@, amount_weight())
    }

    pub open spec fn staked_sum(&self) -> int {
        sum_by(self.staked.entries@, stake_weight())
    }

    /// The tables are well formed, and the supply equals what is held, within the cap.
    pub open spec fn wf(&self) -> bool {
        &&& self.balances.wf()
        &&& self.staked.wf()
        &&& self.total_minted == self.liquid_sum() + self.staked_sum()
        &&& self.total_minted <= MAX_SUPPLY
    }

    pub open spec fn liquid_spec(&self, p: Seq<u8>) -> u128 {
        bal(self.balances@, default_account(p))
    }

    pub open spec fn stake_info_spec(&self, p: Seq<u8>, now: u64) -> StakeInfo {
        let liquid = self.liquid_spec(p);
        let s = batches_of(self.staked@, p);
        let staked = batches_total(s);
        let unlockable = batches_unlockable(s, now);
        StakeInfo {
            liquid,
            staked: staked as u128,
            unlockable: unlockable as u128,
            locked: (staked - unlockable) as u128,
            total: (liquid + staked) as u128,
            boost_bps: boost_for(staked as u128),
        }
    }

    /// In a consistent state, an account holds at most the liquid total, and a principal's
    /// unlockable stake at most its stake, itself at most the staked total.
    pub proof fn lemma_bounds(&self, a: AccountView, p: Seq<u8>, now: u64)
        requires
            self.wf(),
        ensures
            bal(self.balances@, a) <= self.liquid_sum(),
            0 <= batches_unlockable(batches_of(self.staked@, p), now) <= batches_total(
                batches_of(self.staked@, p),
            ) <= self.staked_sum(),
            0 <= self.liquid_sum(),
            0 <= self.staked_sum(),
    {
        lemma_weights_nonneg();
        lemma_sum_by_nonneg(self.balances.entries@, amount_weight());
        lemma_sum_by_nonneg(self.staked.entries@, stake_weight());
        if self.balances@.contains_key(a) {
            lemma_table_value_le_sum(self.balances.entries@, a, amount_weight());
        }
        if self.staked@.contains_key(p) {
            lemma_table_value_le_sum(self.staked.entries@, p, stake_weight());
        }
        lemma_total_nonneg(batches_of(self.staked@, p), now);
    }

    /// In a consistent state no account holds more than the supply, so crediting an amount
    /// that the supply can take never wraps.
    pub proof fn lemma_balance_within_supply(&self, a: AccountView)
        requires
            self.wf(),
        ensures
            bal(self.balances@, a) <= self.total_minted <= MAX_SUPPLY,
    {
        self.lemma_bounds(a, Seq::empty(), 0);
    }

    /// A new token whose development reserve is credited to `dev_reserve`.
    pub fn new(owner: PrincipalId, dev_reserve: PrincipalId) -> (s: TokenState)
        ensures
            s.wf(),
            s.owner@ == owner@,
            s.minting_account is None,
            s.balances@ == Map::<AccountView, u128>::empty().insert(
                default_account(dev_reserve@),
                DEV_RESERVE,
            ),
            s.staked@ == Map::<Seq<u8>, Vec<StakeBatch>>::empty(),
            s.total_minted == DEV_RESERVE,
            s.rewards_minted == 0,
            s.next_block_index == 0,
    {
        let mut balances: Table<Account, u128> = Table::new();
        assert(sum_by(balances.entries@, amount_weight()) == 0);
        balances.insert(Account::default_of(dev_reserve), DEV_RESERVE);
        let staked: Table<PrincipalId, Vec<StakeBatch>> = Table::new();
        assert(sum_by(staked.entries@, stake_weight()) == 0);
        TokenState {
            owner,
            minting_account: None,
            balances,
            staked,
            total_minted: DEV_RESERVE,
            rewards_minted: 0,
            next_block_index: 0,
        }
    }

    /// Lets the owner name the canister allowed to mint rewards; refuses anyone else.
    pub fn set_minting_account(&mut self, caller: &PrincipalId, lottery: PrincipalId) -> (ok: bool)
        ensures
            ok == (caller@ == old(self).owner@),
            ok ==> (final(self).minting_account matches Some(m) && m@ == lottery@),
            ok ==> final(self).balances == old(self).balances && final(self).staked == old(self).staked && final(self).total_minted == old(self).total_minted
                && final(self).rewards_minted == old(self).rewards_minted
                && final(self).next_block_index == old(self).next_block_index && final(self).owner
                == old(self).owner,
            !ok ==> *final(self) == *old(self),
    {
        if !caller.same(&self.owner) {
            return false;
        }
        self.minting_account = Some(lottery);
        true
    }

    /// The account that mints rewards, if one is set.
    pub fn minting_account_of(&self) -> (r: Option<Account>)
        ensures
            match self.minting_account {
                Some(m) => (r matches Some(a) && a@ == default_account(m@)),
                None => r is None,
            },
    {
        match &self.minting_account {
            Some(m) => Some(Account::default_of(m.duplicate())),
            None => None,
        }
    }

    pub fn balance_of(&self, account: &Account) -> (r: u128)
        requires
            self.wf(),
        ensures
            r == bal(self.balances@, account@),
    {
        match self.balances.get(account) {
            Some(v) => *v,
            None => 0,
        }
    }

    /// The principal's staked batches (a copy), none if it has never staked.
    fn batches_copy(&self, p: &PrincipalId) -> (r: Vec<StakeBatch>)
        requires
            self.wf(),
        ensures
            r@ == batches_of(self.staked@, p@),
    {
        match self.staked.get(p) {
            Some(v) => v.clone(),
            None => Vec::new(),
        }
    }

    /// Total staked by `p`.
    pub fn staked_balance_of(&self, p: &PrincipalId) -> (r: u128)
        requires
            self.wf(),
        ensures
            r == batches_total(batches_of(self.staked@, p@)),
    {
        proof {
            self.lemma_bounds(default_account(p@), p@, 0);
        }
        match self.staked.get(p) {
            Some(v) => total_staked(v.as_slice()),
            None => 0,
        }
    }

    /// Liquid balance of `p`'s default account plus everything `p` has staked.
    pub fn total_balance_of(&self, p: &PrincipalId) -> (r: u128)
        requires
            self.wf(),
        ensures
            r == self.liquid_spec(p@) + batches_total(batches_of(self.staked@, p@)),
    {
        proof {
            self.lemma_bounds(default_account(p@), p@, 0);
        }
        let liquid = self.balance_of(&Account::default_of(p.duplicate()));
        let staked = self.staked_balance_of(p);
        liquid + staked
    }

    pub fn stake_info(&self, p: &PrincipalId, now: u64) -> (r: StakeInfo)
        requires
            self.wf(),
        ensures
            r == self.stake_info_spec(p@, now),
    {
        proof {
            self.lemma_bounds(default_account(p@), p@, now);
        }
        let liquid = self.balance_of(&Account::default_of(p.duplicate()));
        let (staked, unlockable) = match self.staked.get(p) {
            Some(v) => (total_staked(v.as_slice()), unlockable_amount(v.as_slice(), now)),
            None => (0, 0),
        };
        let locked = staked.saturating_sub(unlockable);
        StakeInfo {
            liquid,
            staked,
            unlockable,
            locked,
            total: liquid + staked,
            boost_bps: boost_bps(staked),
        }
    }

    /// Each of `p`'s batches with the time it unlocks and whether it has.
    pub fn stake_batches(&self, p: &PrincipalId, now: u64) -> (r: Vec<StakeBatchInfo>)
        requires
            self.wf(),
        ensures
            r@.len() == batches_of(self.staked@, p@).len(),
            forall|i: int|
                0 <= i < r@.len() ==> {
                    let b = #[trigger] batches_of(self.staked@, p@)[i];
                    &&& r@[i].amount == b.amount
                    &&& r@[i].staked_at == b.staked_at
                    &&& r@[i].unlocks_at == unlock_time(b)
                    &&& r@[i].unlocked == (now >= unlock_time(b))
                },
    {
        let batches = self.batches_copy(p);
        let mut out: Vec<StakeBatchInfo> = Vec::new();
        let mut i: usize = 0;
        while i < batches.len()
            invariant
                0 <= i <= batches@.len(),
                out@.len() == i,
                forall|j: int|
                    0 <= j < i ==> {
                        let b = #[trigger] batches@[j];
                        &&& out@[j].amount == b.amount
                        &&& out@[j].staked_at == b.staked_at
                        &&& out@[j].unlocks_at == unlock_time(b)
                        &&& out@[j].unlocked == (now >= unlock_time(b))
                    },
            decreases batches@.len() - i,
        {
            let b = batches[i];
            let unlocks_at = b.staked_at.saturating_add(STAKE_LOCK_NANOS);
            out.push(
                StakeBatchInfo {
                    amount: b.amount,
                    staked_at: b.staked_at,
                    unlocks_at,
                    unlocked: now >= unlocks_at,
                },
            );
            i += 1;
        }
        out
    }

    /// The reward multiplier that `p`'s stake earns.
    pub fn boost_of(&self, p: &PrincipalId) -> (r: u64)
        requires
            self.wf(),
        ensures
            r == boost_for(batches_total(batches_of(self.staked@, p@)) as u128),
    {
        let staked = self.staked_balance_of(p);
        boost_bps(staked)
    }

    /// The reward multiplier of each principal in `ps`, in order.
    pub fn boost_of_each(&self, ps: &Vec<PrincipalId>) -> (r: Vec<u64>)
        requires
            self.wf(),
        ensures
            r@.len() == ps@.len(),
            forall|i: int|
                0 <= i < ps@.len() ==> #[trigger] r@[i] == boost_for(
                    batches_total(batches_of(self.staked@, ps@[i]@)) as u128,
                ),
    {
        let mut out: Vec<u64> = Vec::new();
        let mut i: usize = 0;
        while i < ps.len()
            invariant
                self.wf(),
                0 <= i <= ps@.len(),
                out@.len() == i,
                forall|j: int|
                    0 <= j < i ==> #[trigger] out@[j] == boost_for(
                        batches_total(batches_of(self.staked@, ps@[j]@)) as u128,
                    ),
            decreases ps@.len() - i,
        {
            out.push(self.boost_of(&ps[i]));
            i += 1;
        }
        out
    }
    /// Owner, minting account, rewards counter and block index are as in `other`.
    pub open spec fn same_meta(&self, other: &TokenState) -> bool {
        &&& self.owner == other.owner
        &&& self.minting_account == other.minting_account
        &&& self.rewards_minted == other.rewards_minted
    }

    /// The ICRC-1 transfer that `caller` asks for, from its account with the given
    /// subaccount; the memo and creation time are not checked.
    pub fn icrc1_transfer(&mut self, caller: PrincipalId, args: TransferArgs) -> (r: Result<
        u128,
        TransferError,
    >)
        requires
            old(self).wf(),
            old(self).next_block_index < u128::MAX,
        ensures
            ({
                let from = AccountView {
                    owner: caller@,
                    subaccount: opt_bytes_view(args.from_subaccount),
                };
                &&& final(self).wf()
                &&& bad_fee(args.fee) ==> r == Err::<u128, TransferError>(
                    TransferError::BadFee { expected_fee: TRANSFER_FEE },
                ) && *final(self) == *old(self)
                &&& !bad_fee(args.fee) && bal(old(self).balances@, from) < args.amount
                    + TRANSFER_FEE ==> r == Err::<u128, TransferError>(
                    TransferError::InsufficientFunds { balance: bal(old(self).balances@, from) },
                ) && *final(self) == *old(self)
                &&& !bad_fee(args.fee) && bal(old(self).balances@, from) >= args.amount
                    + TRANSFER_FEE ==> {
                    &&& r == Ok::<u128, TransferError>(old(self).next_block_index)
                    &&& bal(
                        old(self).balances@.insert(
                            from,
                            (bal(old(self).balances@, from) - args.amount - TRANSFER_FEE) as u128,
                        ),
                        args.to@,
                    ) + args.amount <= MAX_SUPPLY
                    &&& final(self).balances@ == transferred(
                        old(self).balances@,
                        from,
                        args.to@,
                        args.amount as int,
                        TRANSFER_FEE as int,
                    )
                    &&& final(self).total_minted == old(self).total_minted - TRANSFER_FEE
                    &&& final(self).next_block_index == old(self).next_block_index + 1
                    &&& final(self).staked == old(self).staked
                    &&& final(self).same_meta(old(self))
                }
            }),
    {
        let TransferArgs { from_subaccount, to, amount, fee, memo: _, created_at_time: _ } = args;
        let from = Account { owner: caller, subaccount: from_subaccount };
        self.transfer(from, to, amount, fee)
    }

    /// ICRC-1 transfer of `amount` e8s from `from` to `to`. An explicit fee must equal the
    /// ledger fee; the fee is charged to the sender and leaves the supply.
    pub fn transfer(&mut self, from: Account, to: Account, amount: u128, fee: Option<u128>) -> (r:
        Result<u128, TransferError>)
        requires
            old(self).wf(),
            old(self).next_block_index < u128::MAX,
        ensures
            final(self).wf(),
            bad_fee(fee) ==> r == Err::<u128, TransferError>(
                TransferError::BadFee { expected_fee: TRANSFER_FEE },
            ) && *final(self) == *old(self),
            !bad_fee(fee) && bal(old(self).balances@, from@) < amount + TRANSFER_FEE ==> r == Err::<
                u128,
                TransferError,
            >(TransferError::InsufficientFunds { balance: bal(old(self).balances@, from@) })
                && *final(self) == *old(self),
            !bad_fee(fee) && bal(old(self).balances@, from@) >= amount + TRANSFER_FEE ==> {
                &&& r == Ok::<u128, TransferError>(old(self).next_block_index)
                &&& bal(
                    old(self).balances@.insert(
                        from@,
                        (bal(old(self).balances@, from@) - amount - TRANSFER_FEE) as u128,
                    ),
                    to@,
                ) + amount <= MAX_SUPPLY
                &&& final(self).balances@ == transferred(
                    old(self).balances@,
                    from@,
                    to@,
                    amount as int,
                    TRANSFER_FEE as int,
                )
                &&& final(self).total_minted == old(self).total_minted - TRANSFER_FEE
                &&& final(self).next_block_index == old(self).next_block_index + 1
                &&& final(self).staked == old(self).staked
                &&& final(self).same_meta(old(self))
            },
    {
        let fee = match fee {
            Some(f) => f,
            None => TRANSFER_FEE,
        };
        if fee != TRANSFER_FEE {
            return Err(TransferError::BadFee { expected_fee: TRANSFER_FEE });
        }
        let total = amount.saturating_add(fee);
        let balance = table_bal(&self.balances, &from);
        if balance < total {
            return Err(TransferError::InsufficientFunds { balance });
        }
        proof {
            self.lemma_bounds(from@, Seq::empty(), 0);
        }
        self.balances.insert(from, balance - total);
        let to_bal = table_bal(&self.balances, &to);
        proof {
            lemma_weights_nonneg();
            if self.balances@.contains_key(to@) {
                lemma_table_value_le_sum(self.balances.entries@, to@, amount_weight());
            }
        }
        let ghost to_view = to@;
        self.balances.insert(to, to_bal + amount);
        self.total_minted = self.total_minted.saturating_sub(fee);
        let index = self.next_block_index;
        self.next_block_index = index + 1;
        proof {
            self.lemma_balance_within_supply(to_view);
        }
        Ok(index)
    }

    /// Burns `amount` e8s from the caller's default account.
    pub fn burn(&mut self, caller: &PrincipalId, amount: u128) -> (r: Result<u128, TransferError>)
        requires
            old(self).wf(),
            old(self).next_block_index < u128::MAX,
        ensures
            final(self).wf(),
            old(self).liquid_spec(caller@) < amount ==> r == Err::<u128, TransferError>(
                TransferError::InsufficientFunds { balance: old(self).liquid_spec(caller@) },
            ) && *final(self) == *old(self),
            old(self).liquid_spec(caller@) >= amount ==> {
                &&& r == Ok::<u128, TransferError>(old(self).next_block_index)
                &&& final(self).balances@ == old(self).balances@.insert(
                    default_account(caller@),
                    (old(self).liquid_spec(caller@) - amount) as u128,
                )
                &&& final(self).total_minted == old(self).total_minted - amount
                &&& final(self).next_block_index == old(self).next_block_index + 1
                &&& final(self).staked == old(self).staked
                &&& final(self).same_meta(old(self))
            },
    {
        let account = Account::default_of(caller.duplicate());
        let balance = table_bal(&self.balances, &account);
        if balance < amount {
            return Err(TransferError::InsufficientFunds { balance });
        }
        proof {
            self.lemma_bounds(account@, Seq::empty(), 0);
        }
        self.balances.insert(account, balance - amount);
        self.total_minted = self.total_minted.saturating_sub(amount);
        let index = self.next_block_index;
        self.next_block_index = index + 1;
        Ok(index)
    }

    /// Mints a reward of `amount` e8s to `to`; only the minting account may, and neither the
    /// reward pool nor the maximum supply may be exceeded.
    pub fn mint(&mut self, caller: &PrincipalId, to: PrincipalId, amount: u128) -> (r: Result<
        (),
        TokenError,
    >)
        requires
            old(self).wf(),
        ensures
            final(self).wf(),
            old(self).rewards_minted <= REWARD_POOL ==> final(self).rewards_minted <= REWARD_POOL,
            old(self).minting_account is None ==> r == Err::<(), TokenError>(
                TokenError::MintingAccountNotSet,
            ) && *final(self) == *old(self),
            (old(self).minting_account matches Some(m) && m@ != caller@) ==> r == Err::<
                (),
                TokenError,
            >(TokenError::NotMinter) && *final(self) == *old(self),
            (old(self).minting_account matches Some(m) && m@ == caller@) ==> {
                if old(self).rewards_minted + amount > REWARD_POOL {
                    r == Err::<(), TokenError>(TokenError::RewardPoolExhausted) && *final(self)
                        == *old(self)
                } else if old(self).total_minted + amount > MAX_SUPPLY {
                    r == Err::<(), TokenError>(TokenError::MaxSupplyExceeded) && *final(self)
                        == *old(self)
                } else {
                    &&& r == Ok::<(), TokenError>(())
                    &&& old(self).liquid_spec(to@) + amount <= MAX_SUPPLY
                    &&& final(self).balances@ == old(self).balances@.insert(
                        default_account(to@),
                        (old(self).liquid_spec(to@) + amount) as u128,
                    )
                    &&& final(self).rewards_minted == old(self).rewards_minted + amount
                    &&& final(self).total_minted == old(self).total_minted + amount
                    &&& final(self).next_block_index == old(self).next_block_index
                    &&& final(self).staked == old(self).staked
                    &&& final(self).owner == old(self).owner
                    &&& final(self).minting_account == old(self).minting_account
                }
            },
    {
        let allowed = match &self.minting_account {
            Some(m) => m.same(caller),
            None => {
                return Err(TokenError::MintingAccountNotSet);
            },
        };
        if !allowed {
            return Err(TokenError::NotMinter);
        }
        if self.rewards_minted.saturating_add(amount) > REWARD_POOL {
            return Err(TokenError::RewardPoolExhausted);
        }
        if self.total_minted.saturating_add(amount) > MAX_SUPPLY {
            return Err(TokenError::MaxSupplyExceeded);
        }
        let account = Account::default_of(to);
        let balance = table_bal(&self.balances, &account);
        proof {
            self.lemma_bounds(account@, Seq::empty(), 0);
        }
        self.balances.insert(account, balance + amount);
        self.rewards_minted = self.rewards_minted + amount;
        self.total_minted = self.total_minted + amount;
        Ok(())
    }

    /// Moves `amount` e8s of `user`'s liquid balance into a new stake batch dated `now`.
    pub fn stake(&mut self, user: PrincipalId, amount: u128, now: u64) -> (r: Result<
        StakeInfo,
        TokenError,
    >)
        requires
            old(self).wf(),
        ensures
            final(self).wf(),
            amount == 0 ==> r == Err::<StakeInfo, TokenError>(TokenError::ZeroAmount) && *final(self) == *old(self),
            amount > 0 && old(self).liquid_spec(user@) < amount ==> r == Err::<
                StakeInfo,
                TokenError,
            >(TokenError::InsufficientLiquid) && *final(self) == *old(self),
            amount > 0 && old(self).liquid_spec(user@) >= amount ==> {
                &&& r == Ok::<StakeInfo, TokenError>(final(self).stake_info_spec(user@, now))
                &&& final(self).balances@ == old(self).balances@.insert(
                    default_account(user@),
                    (old(self).liquid_spec(user@) - amount) as u128,
                )
                &&& staked_view(final(self).staked@) == staked_view(old(self).staked@).insert(
                    user@,
                    batches_of(old(self).staked@, user@).push(
                        StakeBatch { amount, staked_at: now },
                    ),
                )
                &&& final(self).total_minted == old(self).total_minted
                &&& final(self).next_block_index == old(self).next_block_index
                &&& final(self).same_meta(old(self))
            },
    {
        if amount == 0 {
            return Err(TokenError::ZeroAmount);
        }
        let account = Account::default_of(user.duplicate());
        let liquid = table_bal(&self.balances, &account);
        if liquid < amount {
            return Err(TokenError::InsufficientLiquid);
        }
        self.balances.insert(account, liquid - amount);
        let ghost old_staked = self.staked@;
        let mut batches = match self.staked.remove(&user) {
            Some(v) => v,
            None => Vec::new(),
        };
        let ghost before = batches@;
        batches.push(StakeBatch { amount, staked_at: now });
        proof {
            assert(batches@.drop_last() =~= before);
            assert(batches_total(batches@) == batches_total(before) + amount);
            assert(stake_weight()(batches) == batches_total(before) + amount);
            assert(self.liquid_sum() == old(self).liquid_sum() - amount);
            assert(self.staked_sum() == old(self).staked_sum() - batches_total(before));
        }
        self.staked.insert(user.duplicate(), batches);
        proof {
            assert(self.staked_sum() == old(self).staked_sum() + amount);
            assert(staked_view(self.staked@) =~= staked_view(old_staked).insert(
                user@,
                before.push(StakeBatch { amount, staked_at: now }),
            ));
        }
        Ok(self.stake_info(&user, now))
    }

    /// Withdraws `amount` e8s from `user`'s unlocked stake, oldest batches first, back into
    /// the liquid balance. Locked batches are never touched.
    pub fn unstake(&mut self, user: PrincipalId, amount: u128, now: u64) -> (r: Result<
        StakeInfo,
        TokenError,
    >)
        requires
            old(self).wf(),
        ensures
            final(self).wf(),
            amount == 0 ==> r == Err::<StakeInfo, TokenError>(TokenError::ZeroAmount) && *final(self) == *old(self),
            amount > 0 ==> {
                let s = batches_of(old(self).staked@, user@);
                let unlockable = batches_unlockable(s, now);
                &&& final(self).total_minted == old(self).total_minted
                &&& final(self).next_block_index == old(self).next_block_index
                &&& final(self).same_meta(old(self))
                &&& unlockable < amount ==> {
                    &&& r == Err::<StakeInfo, TokenError>(
                        TokenError::InsufficientUnlocked {
                            unlockable: unlockable as u128,
                            requested: amount,
                        },
                    )
                    &&& final(self).balances == old(self).balances
                    &&& staked_view(final(self).staked@) == staked_view(old(self).staked@).insert(
                        user@,
                        s,
                    )
                }
                &&& unlockable >= amount ==> {
                    &&& r == Ok::<StakeInfo, TokenError>(final(self).stake_info_spec(user@, now))
                    &&& old(self).liquid_spec(user@) + amount <= MAX_SUPPLY
                    &&& final(self).balances@ == old(self).balances@.insert(
                        default_account(user@),
                        (old(self).liquid_spec(user@) + amount) as u128,
                    )
                    &&& staked_view(final(self).staked@) == staked_view(old(self).staked@).insert(
                        user@,
                        drain_unlocked(s, amount as int, now),
                    )
                }
            },
    {
        if amount == 0 {
            return Err(TokenError::ZeroAmount);
        }
        proof {
            self.lemma_bounds(default_account(user@), user@, now);
        }
        let ghost old_staked = self.staked@;
        let mut batches = match self.staked.remove(&user) {
            Some(v) => v,
            None => Vec::new(),
        };
        let ghost before = batches@;
        let unlockable = unlockable_amount(batches.as_slice(), now);
        if unlockable < amount {
            self.staked.insert(user.duplicate(), batches);
            proof {
                assert(staked_view(self.staked@) =~= staked_view(old_staked).insert(user@, before));
            }
            return Err(TokenError::InsufficientUnlocked { unlockable, requested: amount });
        }
        drain_unlocked_batches(&mut batches, amount, now);
        proof {
            lemma_drain_totals(before, amount as int, now);
        }
        self.staked.insert(user.duplicate(), batches);
        proof {
            assert(staked_view(self.staked@) =~= staked_view(old_staked).insert(
                user@,
                drain_unlocked(before, amount as int, now),
            ));
        }
        let account = Account::default_of(user.duplicate());
        let liquid = table_bal(&self.balances, &account);
        proof {
            lemma_weights_nonneg();
            lemma_sum_by_nonneg(self.staked.entries@, stake_weight());
            if self.balances@.contains_key(account@) {
                lemma_table_value_le_sum(self.balances.entries@, account@, amount_weight());
            }
        }
        self.balances.insert(account, liquid + amount);
        Ok(self.stake_info(&user, now))
    }
}


pub const TOKEN_NAME: &'static str = "Lucky";

pub const TOKEN_SYMBOL: &'static str = "LUCKY";

/// A value in the token's ICRC-1 metadata.
pub enum MetadataValue {
    Nat(u128),
    Int(i128),
    Text(String),
    Blob(Vec<u8>),
}

/// A standard the token supports, with the address of its text.
pub struct SupportedStandard {
    pub name: String,
    pub url: String,
}

/// The entry `i` of the metadata is `key` with the text `text`.
pub open spec fn text_entry(m: Seq<(String, MetadataValue)>, i: int, key: Seq<char>, text: Seq<char>) -> bool {
    m[i].0@ == key && (m[i].1 matches MetadataValue::Text(t) && t@ == text)
}

/// The token's ICRC-1 metadata: its name, symbol, decimals and fee.
pub fn icrc1_metadata() -> (r: Vec<(String, MetadataValue)>)
    ensures
        r@.len() == 4,
        text_entry(r@, 0, "icrc1:name"@, TOKEN_NAME@),
        text_entry(r@, 1, "icrc1:symbol"@, TOKEN_SYMBOL@),
        r@[2].0@ == "icrc1:decimals"@ && r@[2].1 == MetadataValue::Nat(DECIMALS as u128),
        r@[3].0@ == "icrc1:fee"@ && r@[3].1 == MetadataValue::Nat(TRANSFER_FEE),
{
    let mut v: Vec<(String, MetadataValue)> = Vec::new();
    v.push((String::from_str("icrc1:name"), MetadataValue::Text(String::from_str(TOKEN_NAME))));
    v.push(
        (String::from_str("icrc1:symbol"), MetadataValue::Text(String::from_str(TOKEN_SYMBOL))),
    );
    v.push((String::from_str("icrc1:decimals"), MetadataValue::Nat(DECIMALS as u128)));
    v.push((String::from_str("icrc1:fee"), MetadataValue::Nat(TRANSFER_FEE)));
    v
}

/// The standards the token supports: ICRC-1.
pub fn icrc1_supported_standards() -> (r: Vec<SupportedStandard>)
    ensures
        r@.len() == 1,
        r@[0].name@ == "ICRC-1"@,
        r@[0].url@ == "https://github.com/dfinity/ICRC-1/tree/main/standards/ICRC-1"@,
{
    let mut v: Vec<SupportedStandard> = Vec::new();
    v.push(
        SupportedStandard {
            name: String::from_str("ICRC-1"),
            url: String::from_str("https://github.com/dfinity/ICRC-1/tree/main/standards/ICRC-1"),
        },
    );
    v
}

/// A transfer error of the generic kind, with error code 1.
pub fn generic_error(message: &str) -> (r: TransferError)
    ensures
        r matches TransferError::GenericError { error_code, message: m } && error_code == 1
            && m@ == message@,
{
    TransferError::GenericError { error_code: 1, message: String::from_str(message) }
}

} // verus!
