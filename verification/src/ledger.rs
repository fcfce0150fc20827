//! A local ICP ledger for testing: a faucet, ICRC-1 transfers with a fixed fee, and a
//! log of every transfer.
use vstd::prelude::*;
use crate::ids::{opt_bytes_view, Account, AccountView, PrincipalId, Table};
use crate::token::{bal, transferred};

verus! {

pub const ICP_FEE_E8S: u128 = 10_000;

/// One entry of the transfer log.
pub struct Transfer {
    pub index: u64,
    pub from: Account,
    pub to: Account,
    pub amount: u128,
    pub fee: u128,
    pub timestamp: u64,
}

/// A transfer's value.
pub struct TransferView {
    pub index: u64,
    pub from: AccountView,
    pub to: AccountView,
    pub amount: u128,
    pub fee: u128,
    pub timestamp: u64,
}

impl View for Transfer {
    type V = TransferView;

    open spec fn view(&self) -> TransferView {
        TransferView {
            index: self.index,
            from: self.from@,
            to: self.to@,
            amount: self.amount,
            fee: self.fee,
            timestamp: self.timestamp,
        }
    }
}

pub open spec fn log_view(s: Seq<Transfer>) -> Seq<TransferView> {
    s.map_values(|t: Transfer| t@)
}

/// Errors of an ICRC-1 transfer (amounts in e8s).
pub enum TransferError {
    BadFee { expected_fee: u128 },
    BadBurn { min_burn_amount: u128 },
    InsufficientFunds { balance: u128 },
    TooOld,
    CreatedInFuture { ledger_time: u64 },
    Duplicate { duplicate_of: u128 },
    TemporarilyUnavailable,
    GenericError { error_code: u128, message: String },
}

pub struct LedgerState {
    pub owner: PrincipalId,
    pub balances: Table<Account, u128>,
    pub transfers: Vec<Transfer>,
}

/// What a transfer of `amount` debits: the amount plus the fee, saturating.
pub open spec fn debit_of(amount: u128) -> int {
    if amount + ICP_FEE_E8S > u128::MAX {
        u128::MAX as int
    } else {
        amount + ICP_FEE_E8S
    }
}

/// What a transfer of `amount` from `from` to `to` does: an explicit fee other than the
/// ledger fee is refused, so is a sender that cannot pay amount and fee; otherwise the
/// amount moves, the fee leaves the sender, and the transfer is logged.
pub open spec fn transfer_outcome(
    pre: LedgerState,
    post: LedgerState,
    from: AccountView,
    to: AccountView,
    amount: u128,
    fee: Option<u128>,
    now: u64,
    r: Result<u64, TransferError>,
) -> bool {
    let bad_fee = fee matches Some(f) && f != ICP_FEE_E8S;
    &&& bad_fee ==> r == Err::<u64, TransferError>(
        TransferError::BadFee { expected_fee: ICP_FEE_E8S },
    ) && post == pre
    &&& !bad_fee && bal(pre.balances@, from) < debit_of(amount) ==> r == Err::<u64, TransferError>(
        TransferError::InsufficientFunds { balance: bal(pre.balances@, from) },
    ) && post == pre
    &&& !bad_fee && bal(pre.balances@, from) >= debit_of(amount) ==> {
        &&& r == Ok::<u64, TransferError>(pre.transfers@.len() as u64)
        &&& post.balances@ == transferred(
            pre.balances@,
            from,
            to,
            amount as int,
            debit_of(amount) - amount,
        )
        &&& log_view(post.transfers@) == log_view(pre.transfers@).push(
            TransferView {
                index: pre.transfers@.len() as u64,
                from,
                to,
                amount,
                fee: ICP_FEE_E8S,
                timestamp: now,
            },
        )
        &&& post.owner == pre.owner
    }
}

/// Whether a transfer of `amount` from `from` is carried out: its fee, if given, is the
/// ledger fee, and the sender can pay amount and fee.
pub open spec fn transfer_accepted(pre: LedgerState, from: AccountView, amount: u128, fee: Option<u128>) -> bool {
    &&& !(fee matches Some(f) && f != ICP_FEE_E8S)
    &&& bal(pre.balances@, from) >= debit_of(amount)
}

/// The arguments of an ICRC-1 transfer (amounts in e8s).
pub struct TransferArg {
    pub from_subaccount: Option<Vec<u8>>,
    pub to: Account,
    pub amount: u128,
    pub fee: Option<u128>,
    pub memo: Option<Vec<u8>>,
    pub created_at_time: Option<u64>,
}

impl LedgerState {
    pub open spec fn wf(&self) -> bool {
        self.balances.wf()
    }

    pub fn new(owner: PrincipalId) -> (s: LedgerState)
        ensures
            s.wf(),
            s.owner@ == owner@,
            s.balances@ == Map::<AccountView, u128>::empty(),
            s.transfers@.len() == 0,
    {
        LedgerState { owner, balances: Table::new(), transfers: Vec::new() }
    }

    pub fn balance_of(&self, account: &Account) -> (r: u128)
        requires
            self.wf(),
        ensures
            r == bal(self.balances@, account@),
    {
        match self.balances.get(account) {
            Some(v) => *v,
            None => 0,
        }
    }

    /// Credits `amount` e8s to `to` out of nothing, logged as a transfer from `source`
    /// (the anonymous principal's account) with no fee. Returns the log index.
    pub fn faucet(&mut self, source: Account, to: Account, amount: u128, now: u64) -> (r: u64)
        requires
            old(self).wf(),
            bal(old(self).balances@, to@) + amount <= u128::MAX,
            old(self).transfers@.len() < u64::MAX,
        ensures
            final(self).wf(),
            r == old(self).transfers@.len(),
            final(self).balances@ == old(self).balances@.insert(
                to@,
                (bal(old(self).balances@, to@) + amount) as u128,
            ),
            log_view(final(self).transfers@) == log_view(old(self).transfers@).push(
                TransferView { index: r, from: source@, to: to@, amount, fee: 0, timestamp: now },
            ),
            final(self).owner == old(self).owner,
    {
        let balance = self.balance_of(&to);
        let index = self.transfers.len() as u64;
        self.balances.insert(to.duplicate(), balance + amount);
        let ghost before = self.transfers@;
        self.transfers.push(Transfer { index, from: source, to, amount, fee: 0, timestamp: now });
        assert(log_view(self.transfers@) =~= log_view(before).push(self.transfers@.last()@));
        index
    }

    /// ICRC-1 transfer of `amount` e8s from `from` to `to`, charging the fixed fee to the
    /// sender; an explicit fee must equal it. Returns the log index.
    pub fn transfer(&mut self, from: Account, to: Account, amount: u128, fee: Option<u128>, now: u64) -> (r:
        Result<u64, TransferError>)
        requires
            old(self).wf(),
            old(self).transfers@.len() < u64::MAX,
            transfer_accepted(*old(self), from@, amount, fee) ==> bal(old(self).balances@.insert(
                from@,
                (bal(old(self).balances@, from@) - debit_of(amount)) as u128,
            ), to@) + amount <= u128::MAX,
        ensures
            final(self).wf(),
            transfer_outcome(*old(self), *final(self), from@, to@, amount, fee, now, r),
    {
        let fee = match fee {
            Some(f) => f,
            None => ICP_FEE_E8S,
        };
        if fee != ICP_FEE_E8S {
            return Err(TransferError::BadFee { expected_fee: ICP_FEE_E8S });
        }
        let total = amount.saturating_add(fee);
        let balance = self.balance_of(&from);
        if balance < total {
            return Err(TransferError::InsufficientFunds { balance });
        }
        self.balances.insert(from.duplicate(), balance - total);
        let to_balance = self.balance_of(&to);
        self.balances.insert(to.duplicate(), to_balance + amount);
        let index = self.transfers.len() as u64;
        let ghost before = self.transfers@;
        self.transfers.push(Transfer { index, from, to, amount, fee, timestamp: now });
        assert(log_view(self.transfers@) =~= log_view(before).push(self.transfers@.last()@));
        Ok(index)
    }

    /// The ICRC-1 transfer that `caller` asks for, from its account with the given
    /// subaccount; the memo and creation time are not checked.
    pub fn icrc1_transfer(&mut self, caller: PrincipalId, args: TransferArg, now: u64) -> (r: Result<
        u64,
        TransferError,
    >)
        requires
            old(self).wf(),
            old(self).transfers@.len() < u64::MAX,
            ({
                let from = AccountView {
                    owner: caller@,
                    subaccount: opt_bytes_view(args.from_subaccount),
                };
                transfer_accepted(*old(self), from, args.amount, args.fee) ==> bal(
                    old(self).balances@.insert(
                        from,
                        (bal(old(self).balances@, from) - debit_of(args.amount)) as u128,
                    ),
                    args.to@,
                ) + args.amount <= u128::MAX
            }),
        ensures
            final(self).wf(),
            transfer_outcome(
                *old(self),
                *final(self),
                AccountView { owner: caller@, subaccount: opt_bytes_view(args.from_subaccount) },
                args.to@,
                args.amount,
                args.fee,
                now,
                r,
            ),
    {
        let TransferArg { from_subaccount, to, amount, fee, memo: _, created_at_time: _ } = args;
        let from = Account { owner: caller, subaccount: from_subaccount };
        self.transfer(from, to, amount, fee, now)
    }

    /// A copy of the transfer log.
    pub fn transactions(&self) -> (r: Vec<Transfer>)
        ensures
            log_view(r@) == log_view(self.transfers@),
    {
        let mut out: Vec<Transfer> = Vec::new();
        let mut i: usize = 0;
        while i < self.transfers.len()
            invariant
                0 <= i <= self.transfers@.len(),
                log_view(out@) == log_view(self.transfers@.subrange(0, i as int)),
            decreases self.transfers@.len() - i,
        {
            let t = &self.transfers[i];
            let ghost before = out@;
            out.push(
                Transfer {
                    index: t.index,
                    from: t.from.duplicate(),
                    to: t.to.duplicate(),
                    amount: t.amount,
                    fee: t.fee,
                    timestamp: t.timestamp,
                },
            );
            proof {
                let s0 = self.transfers@.subrange(0, i as int);
                let s1 = self.transfers@.subrange(0, i as int + 1);
                assert(s1 =~= s0.push(self.transfers@[i as int]));
                assert(out@ =~= before.push(out@.last()));
                assert(out@.last()@ == self.transfers@[i as int]@);
                assert(log_view(out@) =~= log_view(before).push(out@.last()@));
                assert(log_view(s1) =~= log_view(s0).push(self.transfers@[i as int]@));
            }
            i += 1;
        }
        assert(self.transfers@.subrange(0, self.transfers@.len() as int) =~= self.transfers@);
        out
    }
}

} // verus!
