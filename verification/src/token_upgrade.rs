//! Reading the token state of earlier formats: stakes that were one amount per principal
//! become one batch staked at time zero, and balances that were kept per principal move to
//! the principal's default account.
use vstd::prelude::*;
use crate::ids::{
    entries_map, keys_unique, lemma_entries_map_lacks, sum_by, Account, AccountView, PrincipalId,
    Table,
};
use crate::staking::{batches_total, StakeBatch};
use crate::token::{amount_weight, default_account, stake_weight, staked_view, TokenState, MAX_SUPPLY};

verus! {

/// The token state before stakes were kept in batches.
pub struct OldTokenState {
    pub owner: PrincipalId,
    pub minting_account: Option<PrincipalId>,
    pub balances: Table<Account, u128>,
    pub staked: Table<PrincipalId, u128>,
    pub total_minted: u128,
    pub rewards_minted: u128,
    pub next_block_index: u128,
}

/// The token state of the first format, with balances kept per principal.
pub struct LegacyTokenState {
    pub owner: PrincipalId,
    pub minting_account: Option<PrincipalId>,
    pub balances: Table<PrincipalId, u128>,
    pub staked: Table<PrincipalId, u128>,
    pub total_minted: u128,
    pub rewards_minted: u128,
}

/// Each non-zero stake as one batch staked at time zero; zero stakes are dropped.
pub open spec fn migrated_stakes(m: Map<Seq<u8>, u128>) -> Map<Seq<u8>, Seq<StakeBatch>> {
    Map::new(
        |k: Seq<u8>| m.contains_key(k) && m[k] > 0,
        |k: Seq<u8>| seq![StakeBatch { amount: m[k], staked_at: 0 }],
    )
}

/// Each principal's balance, held by its default account.
pub open spec fn default_account_balances(m: Map<Seq<u8>, u128>) -> Map<AccountView, u128> {
    Map::new(
        |a: AccountView| a.subaccount is None && m.contains_key(a.owner),
        |a: AccountView| m[a.owner],
    )
}

proof fn lemma_next_key_is_new<K: View, T>(s: Seq<(K, T)>, i: int)
    requires
        keys_unique(s),
        0 <= i < s.len(),
    ensures
        !entries_map(s.subrange(0, i)).contains_key(s[i].0@),
        entries_map(s.subrange(0, i + 1)) == entries_map(s.subrange(0, i)).insert(s[i].0@, s[i].1),
        forall|f: spec_fn(T) -> int| #[trigger]
            sum_by(s.subrange(0, i + 1), f) == sum_by(s.subrange(0, i), f) + f(s[i].1),
{
    let p = s.subrange(0, i);
    assert forall|j: int| 0 <= j < p.len() implies #[trigger] p[j].0@ != s[i].0@ by {
        assert(p[j] == s[j]);
        assert(s[j].0@ != s[i].0@);
    }
    lemma_entries_map_lacks(p, s[i].0@);
    assert(s.subrange(0, i + 1).drop_last() =~= p);
}

proof fn lemma_one_batch_total(b: StakeBatch)
    ensures
        batches_total(seq![b]) == b.amount,
{
    assert(seq![b].drop_last() =~= Seq::<StakeBatch>::empty());
    assert(batches_total(Seq::<StakeBatch>::empty()) == 0);
    assert(seq![b].last() == b);
}

/// Turns per-principal stake amounts into stake batches.
pub fn migrate_stakes(old: &Table<PrincipalId, u128>) -> (r: Table<PrincipalId, Vec<StakeBatch>>)
    requires
        old.wf(),
    ensures
        r.wf(),
        staked_view(r@) == migrated_stakes(old@),
        sum_by(r.entries@, stake_weight()) == sum_by(old.entries@, amount_weight()),
{
    let mut out: Table<PrincipalId, Vec<StakeBatch>> = Table::new();
    let mut i: usize = 0;
    assert(old.entries@.subrange(0, 0) =~= Seq::<(PrincipalId, u128)>::empty());
    assert(staked_view(out@) =~= migrated_stakes(entries_map(old.entries@.subrange(0, 0))));
    while i < old.entries.len()
        invariant
            old.wf(),
            out.wf(),
            0 <= i <= old.entries@.len(),
            staked_view(out@) == migrated_stakes(entries_map(old.entries@.subrange(0, i as int))),
            sum_by(out.entries@, stake_weight()) == sum_by(
                old.entries@.subrange(0, i as int),
                amount_weight(),
            ),
        decreases old.entries@.len() - i,
    {
        let ghost m = entries_map(old.entries@.subrange(0, i as int));
        let ghost before = out@;
        proof {
            lemma_next_key_is_new(old.entries@, i as int);
        }
        let k = &old.entries[i].0;
        let amount = old.entries[i].1;
        if amount > 0 {
            let batch = StakeBatch { amount, staked_at: 0 };
            let mut v: Vec<StakeBatch> = Vec::new();
            v.push(batch);
            proof {
                lemma_one_batch_total(batch);
                assert(v@ =~= seq![batch]);
                assert(!staked_view(before).contains_key(k@));
            }
            let ghost vv = v@;
            out.insert(k.duplicate(), v);
            proof {
                assert(staked_view(out@) =~= staked_view(before).insert(k@, vv));
                assert(migrated_stakes(m.insert(k@, amount)) =~= migrated_stakes(m).insert(
                    k@,
                    seq![batch],
                ));
                assert(staked_view(out@) =~= migrated_stakes(m.insert(k@, amount)));
            }
        } else {
            proof {
                assert(migrated_stakes(m.insert(k@, amount)) =~= migrated_stakes(m));
            }
        }
        i += 1;
    }
    assert(old.entries@.subrange(0, i as int) =~= old.entries@);
    out
}

/// Moves per-principal balances to the principals' default accounts.
pub fn migrate_balances(old: &Table<PrincipalId, u128>) -> (r: Table<Account, u128>)
    requires
        old.wf(),
    ensures
        r.wf(),
        r@ == default_account_balances(old@),
        sum_by(r.entries@, amount_weight()) == sum_by(old.entries@, amount_weight()),
{
    let mut out: Table<Account, u128> = Table::new();
    let mut i: usize = 0;
    assert(old.entries@.subrange(0, 0) =~= Seq::<(PrincipalId, u128)>::empty());
    assert(out@ =~= default_account_balances(entries_map(old.entries@.subrange(0, 0))));
    while i < old.entries.len()
        invariant
            old.wf(),
            out.wf(),
            0 <= i <= old.entries@.len(),
            out@ == default_account_balances(entries_map(old.entries@.subrange(0, i as int))),
            sum_by(out.entries@, amount_weight()) == sum_by(
                old.entries@.subrange(0, i as int),
                amount_weight(),
            ),
        decreases old.entries@.len() - i,
    {
        let ghost m = entries_map(old.entries@.subrange(0, i as int));
        proof {
            lemma_next_key_is_new(old.entries@, i as int);
        }
        let k = &old.entries[i].0;
        let amount = old.entries[i].1;
        proof {
            assert(!out@.contains_key(default_account(k@)));
        }
        out.insert(Account::default_of(k.duplicate()), amount);
        proof {
            assert(out@ =~= default_account_balances(m.insert(k@, amount)));
        }
        i += 1;
    }
    assert(old.entries@.subrange(0, i as int) =~= old.entries@);
    out
}

impl OldTokenState {
    /// The supply equals what is held, within the cap, as the earlier format kept it.
    pub open spec fn consistent(&self) -> bool {
        &&& self.total_minted == sum_by(self.balances.entries@, amount_weight()) + sum_by(
            self.staked.entries@,
            amount_weight(),
        )
        &&& self.total_minted <= MAX_SUPPLY
    }
}

impl LegacyTokenState {
    /// The supply equals what is held, within the cap, as the first format kept it.
    pub open spec fn consistent(&self) -> bool {
        &&& self.total_minted == sum_by(self.balances.entries@, amount_weight()) + sum_by(
            self.staked.entries@,
            amount_weight(),
        )
        &&& self.total_minted <= MAX_SUPPLY
    }
}

/// Reads a token state of the format before stake batches.
pub fn migrate_old_state(old: OldTokenState) -> (r: TokenState)
    requires
        old.balances.wf(),
        old.staked.wf(),
    ensures
        r.balances.wf() && r.staked.wf(),
        old.consistent() ==> r.wf(),
        r.owner == old.owner,
        r.minting_account == old.minting_account,
        r.balances@ == old.balances@,
        staked_view(r.staked@) == migrated_stakes(old.staked@),
        r.total_minted == old.total_minted,
        r.rewards_minted == old.rewards_minted,
        r.next_block_index == old.next_block_index,
{
    let staked = migrate_stakes(&old.staked);
    TokenState {
        owner: old.owner,
        minting_account: old.minting_account,
        balances: old.balances,
        staked,
        total_minted: old.total_minted,
        rewards_minted: old.rewards_minted,
        next_block_index: old.next_block_index,
    }
}

/// Reads a token state of the first format; the block index starts again at zero.
pub fn migrate_legacy_state(old: LegacyTokenState) -> (r: TokenState)
    requires
        old.balances.wf(),
        old.staked.wf(),
    ensures
        r.balances.wf() && r.staked.wf(),
        old.consistent() ==> r.wf(),
        r.owner == old.owner,
        r.minting_account == old.minting_account,
        r.balances@ == default_account_balances(old.balances@),
        staked_view(r.staked@) == migrated_stakes(old.staked@),
        r.total_minted == old.total_minted,
        r.rewards_minted == old.rewards_minted,
        r.next_block_index == 0,
{
    let balances = migrate_balances(&old.balances);
    let staked = migrate_stakes(&old.staked);
    TokenState {
        owner: old.owner,
        minting_account: old.minting_account,
        balances,
        staked,
        total_minted: old.total_minted,
        rewards_minted: old.rewards_minted,
        next_block_index: 0,
    }
}

} // verus!
