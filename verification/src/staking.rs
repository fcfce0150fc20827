//! Stake batches of the LUCKY token: lock periods, totals, the reward multiplier table,
//! and first-in first-out withdrawal of unlocked stake.
use vstd::prelude::*;

verus! {

pub const ONE_LUCKY: u128 = 100_000_000;

/// How long a stake batch stays locked: 24 hours.
pub const STAKE_LOCK_NANOS: u64 = 86_400 * 1_000_000_000;

/// An amount of LUCKY staked at one moment.
#[derive(Clone, Copy)]
pub struct StakeBatch {
    pub amount: u128,
    pub staked_at: u64,
}

/// When a batch unlocks (saturating at the end of time).
pub open spec fn unlock_time(b: StakeBatch) -> u64 {
    if b.staked_at + STAKE_LOCK_NANOS > u64::MAX {
        u64::MAX
    } else {
        (b.staked_at + STAKE_LOCK_NANOS) as u64
    }
}

pub open spec fn is_unlocked(b: StakeBatch, now: u64) -> bool {
    now >= unlock_time(b)
}

/// Total amount held in a sequence of batches.
pub open spec fn batches_total(s: Seq<StakeBatch>) -> int
    decreases s.len(),
{
    if s.len() == 0 {
        0
    } else {
        batches_total(s.drop_last()) + s.last().amount
    }
}

/// Amount held in the batches that are unlocked at `now`.
pub open spec fn batches_unlockable(s: Seq<StakeBatch>, now: u64) -> int
    decreases s.len(),
{
    if s.len() == 0 {
        0
    } else {
        batches_unlockable(s.drop_last(), now) + if is_unlocked(s.last(), now) {
            s.last().amount as int
        } else {
            0
        }
    }
}

/// Withdraws `r` from the unlocked batches, oldest first: an unlocked batch that fits in
/// what is left is removed, the first one that does not is reduced, locked batches stay.
pub open spec fn drain_unlocked(s: Seq<StakeBatch>, r: int, now: u64) -> Seq<StakeBatch>
    decreases s.len(),
{
    if s.len() == 0 || r <= 0 {
        s
    } else if !is_unlocked(s[0], now) {
        seq![s[0]] + drain_unlocked(s.drop_first(), r, now)
    } else if s[0].amount <= r {
        drain_unlocked(s.drop_first(), r - s[0].amount, now)
    } else {
        seq![StakeBatch { amount: (s[0].amount - r) as u128, staked_at: s[0].staked_at }]
            + s.drop_first()
    }
}

/// Staking `amount` at `staked_at` and, once that batch has unlocked, unstaking the same
/// amount takes out exactly what was put in: it can be withdrawn, and the total staked is
/// back where it was.
pub proof fn lemma_unstake_returns_stake(s: Seq<StakeBatch>, amount: u128, staked_at: u64, now: u64)
    requires
        is_unlocked(StakeBatch { amount, staked_at }, now),
    ensures
        amount <= batches_unlockable(s.push(StakeBatch { amount, staked_at }), now),
        batches_total(drain_unlocked(s.push(StakeBatch { amount, staked_at }), amount as int, now))
            == batches_total(s),
{
    let b = StakeBatch { amount, staked_at };
    assert(s.push(b).drop_last() =~= s);
    assert(s.push(b).last() == b);
    lemma_total_nonneg(s, now);
    lemma_drain_totals(s.push(b), amount as int, now);
}

/// The reward multiplier, in basis points, that a staked amount (in e8s) earns.
pub open spec fn boost_for(staked_e8s: u128) -> u64 {
    let lucky = staked_e8s / ONE_LUCKY;
    if lucky < 1_000 {
        10_000
    } else if lucky < 5_000 {
        11_000
    } else if lucky < 10_000 {
        12_500
    } else if lucky < 25_000 {
        15_000
    } else if lucky < 50_000 {
        20_000
    } else {
        30_000
    }
}

pub proof fn lemma_total_cons(s: Seq<StakeBatch>)
    requires
        s.len() > 0,
    ensures
        batches_total(s) == s[0].amount + batches_total(s.drop_first()),
    decreases s.len(),
{
    if s.len() > 1 {
        lemma_total_cons(s.drop_last());
        assert(s.drop_last().drop_first() =~= s.drop_first().drop_last());
        assert(s.drop_last()[0] == s[0]);
        assert(s.drop_first().last() == s.last());
        assert(batches_total(s) == batches_total(s.drop_last()) + s.last().amount);
        assert(batches_total(s.drop_first()) == batches_total(s.drop_first().drop_last())
            + s.drop_first().last().amount);
    } else {
        assert(s.last() == s[0]);
        assert(s.drop_first().len() == 0);
        assert(s.drop_last().len() == 0);
        assert(batches_total(s.drop_first()) == 0);
        assert(batches_total(s.drop_last()) == 0);
    }
}

pub proof fn lemma_unlockable_cons(s: Seq<StakeBatch>, now: u64)
    requires
        s.len() > 0,
    ensures
        batches_unlockable(s, now) == (if is_unlocked(s[0], now) {
            s[0].amount as int
        } else {
            0
        }) + batches_unlockable(s.drop_first(), now),
    decreases s.len(),
{
    if s.len() > 1 {
        lemma_unlockable_cons(s.drop_last(), now);
        assert(s.drop_last().drop_first() =~= s.drop_first().drop_last());
        assert(s.drop_last()[0] == s[0]);
        assert(s.drop_first().last() == s.last());
        assert(batches_unlockable(s.drop_first(), now) == batches_unlockable(
            s.drop_first().drop_last(),
            now,
        ) + if is_unlocked(s.last(), now) {
            s.last().amount as int
        } else {
            0
        });
    } else {
        assert(s.last() == s[0]);
        assert(s.drop_first().len() == 0);
        assert(s.drop_last().len() == 0);
        assert(batches_unlockable(s.drop_first(), now) == 0);
        assert(batches_unlockable(s.drop_last(), now) == 0);
    }
}

pub proof fn lemma_total_nonneg(s: Seq<StakeBatch>, now: u64)
    ensures
        0 <= batches_unlockable(s, now) <= batches_total(s),
    decreases s.len(),
{
    if s.len() > 0 {
        lemma_total_nonneg(s.drop_last(), now);
    }
}

pub proof fn lemma_total_concat(a: Seq<StakeBatch>, b: Seq<StakeBatch>, now: u64)
    ensures
        batches_total(a + b) == batches_total(a) + batches_total(b),
        batches_unlockable(a + b, now) == batches_unlockable(a, now) + batches_unlockable(b, now),
    decreases b.len(),
{
    if b.len() == 0 {
        assert(a + b =~= a);
    } else {
        assert((a + b).drop_last() =~= a + b.drop_last());
        lemma_total_concat(a, b.drop_last(), now);
    }
}

/// Draining takes exactly `r` from the unlocked stake, when enough is unlocked.
pub proof fn lemma_drain_totals(s: Seq<StakeBatch>, r: int, now: u64)
    requires
        0 <= r <= batches_unlockable(s, now),
    ensures
        batches_total(drain_unlocked(s, r, now)) == batches_total(s) - r,
        batches_unlockable(drain_unlocked(s, r, now), now) == batches_unlockable(s, now) - r,
    decreases s.len(),
{
    if s.len() == 0 || r <= 0 {
    } else {
        lemma_total_cons(s);
        lemma_unlockable_cons(s, now);
        let rest = s.drop_first();
        if !is_unlocked(s[0], now) {
            lemma_drain_totals(rest, r, now);
            lemma_total_concat(seq![s[0]], drain_unlocked(rest, r, now), now);
            lemma_total_cons(seq![s[0]]);
            lemma_unlockable_cons(seq![s[0]], now);
        } else if s[0].amount <= r {
            lemma_drain_totals(rest, r - s[0].amount, now);
        } else {
            let b = StakeBatch { amount: (s[0].amount - r) as u128, staked_at: s[0].staked_at };
            lemma_total_concat(seq![b], rest, now);
            lemma_total_cons(seq![b]);
            lemma_unlockable_cons(seq![b], now);
            assert(unlock_time(b) == unlock_time(s[0]));
        }
    }
}

/// Sum of the amounts of `batches`.
pub fn total_staked(batches: &[StakeBatch]) -> (r: u128)
    requires
        batches_total(batches@) <= u128::MAX,
    ensures
        r == batches_total(batches@),
{
    let mut acc: u128 = 0;
    let mut i: usize = 0;
    while i < batches.len()
        invariant
            0 <= i <= batches.len(),
            batches_total(batches@) <= u128::MAX,
            acc == batches_total(batches@.subrange(0, i as int)),
        decreases batches.len() - i,
    {
        proof {
            let p = batches@.subrange(0, i as int + 1);
            assert(p.drop_last() =~= batches@.subrange(0, i as int));
            lemma_total_concat(p, batches@.subrange(i as int + 1, batches@.len() as int), 0);
            assert(p + batches@.subrange(i as int + 1, batches@.len() as int) =~= batches@);
            lemma_total_nonneg(batches@.subrange(i as int + 1, batches@.len() as int), 0);
        }
        acc = acc + batches[i].amount;
        i += 1;
    }
    assert(batches@.subrange(0, batches@.len() as int) =~= batches@);
    acc
}

/// Sum of the amounts of the batches of `batches` that are unlocked at `now`.
pub fn unlockable_amount(batches: &[StakeBatch], now: u64) -> (r: u128)
    requires
        batches_total(batches@) <= u128::MAX,
    ensures
        r == batches_unlockable(batches@, now),
{
    let mut acc: u128 = 0;
    let mut i: usize = 0;
    while i < batches.len()
        invariant
            0 <= i <= batches.len(),
            batches_total(batches@) <= u128::MAX,
            acc == batches_unlockable(batches@.subrange(0, i as int), now),
        decreases batches.len() - i,
    {
        proof {
            let p = batches@.subrange(0, i as int + 1);
            let q = batches@.subrange(i as int + 1, batches@.len() as int);
            assert(p.drop_last() =~= batches@.subrange(0, i as int));
            lemma_total_concat(p, q, now);
            assert(p + q =~= batches@);
            lemma_total_nonneg(q, now);
            lemma_total_nonneg(p, now);
        }
        if now >= batches[i].staked_at.saturating_add(STAKE_LOCK_NANOS) {
            acc = acc + batches[i].amount;
        }
        i += 1;
    }
    assert(batches@.subrange(0, batches@.len() as int) =~= batches@);
    acc
}

/// The reward multiplier, in basis points, for a staked amount in e8s:
/// 1.0x below 1,000 LUCKY, then 1.1x, 1.25x, 1.5x, 2.0x, and 3.0x from 50,000 LUCKY.
pub fn boost_bps(staked_e8s: u128) -> (r: u64)
    ensures
        r == boost_for(staked_e8s),
        10_000 <= r <= 30_000,
{
    let lucky = staked_e8s / ONE_LUCKY;
    if lucky <= 999 {
        10_000
    } else if lucky <= 4_999 {
        11_000
    } else if lucky <= 9_999 {
        12_500
    } else if lucky <= 24_999 {
        15_000
    } else if lucky <= 49_999 {
        20_000
    } else {
        30_000
    }
}

/// Staking more never lowers the multiplier.
pub proof fn lemma_boost_monotone(a: u128, b: u128)
    requires
        a <= b,
    ensures
        boost_for(a) <= boost_for(b),
{
    assert(a / ONE_LUCKY <= b / ONE_LUCKY) by (nonlinear_arith)
        requires
            a <= b,
    ;
}

/// The multiplier table of the staking tiers, by the amount staked (in e8s, 10^8 to a
/// LUCKY): 1.0x below 1,000 LUCKY, 1.1x from 1,000, 1.25x from 5,000, 1.5x from 10,000,
/// 2.0x from 25,000, and 3.0x from 50,000 LUCKY.
pub proof fn lemma_boost_tiers(staked: u128)
    ensures
        staked < 1_000 * 100_000_000 ==> boost_for(staked) == 10_000,
        1_000 * 100_000_000 <= staked < 5_000 * 100_000_000 ==> boost_for(staked) == 11_000,
        5_000 * 100_000_000 <= staked < 10_000 * 100_000_000 ==> boost_for(staked) == 12_500,
        10_000 * 100_000_000 <= staked < 25_000 * 100_000_000 ==> boost_for(staked) == 15_000,
        25_000 * 100_000_000 <= staked < 50_000 * 100_000_000 ==> boost_for(staked) == 20_000,
        50_000 * 100_000_000 <= staked ==> boost_for(staked) == 30_000,
{
    let n = staked / ONE_LUCKY;
    assert(n * 100_000_000 <= staked < (n + 1) * 100_000_000) by (nonlinear_arith)
        requires
            n == staked / 100_000_000,
    ;
    assert(n < 1_000 <==> staked < 1_000 * 100_000_000) by (nonlinear_arith)
        requires
            n * 100_000_000 <= staked < (n + 1) * 100_000_000,
    ;
    assert(n < 5_000 <==> staked < 5_000 * 100_000_000) by (nonlinear_arith)
        requires
            n * 100_000_000 <= staked < (n + 1) * 100_000_000,
    ;
    assert(n < 10_000 <==> staked < 10_000 * 100_000_000) by (nonlinear_arith)
        requires
            n * 100_000_000 <= staked < (n + 1) * 100_000_000,
    ;
    assert(n < 25_000 <==> staked < 25_000 * 100_000_000) by (nonlinear_arith)
        requires
            n * 100_000_000 <= staked < (n + 1) * 100_000_000,
    ;
    assert(n < 50_000 <==> staked < 50_000 * 100_000_000) by (nonlinear_arith)
        requires
            n * 100_000_000 <= staked < (n + 1) * 100_000_000,
    ;
}

/// Withdraws `amount` from the unlocked batches, oldest first, in place.
pub fn drain_unlocked_batches(batches: &mut Vec<StakeBatch>, amount: u128, now: u64)
    requires
        amount <= batches_unlockable(old(batches)@, now),
    ensures
        final(batches)@ == drain_unlocked(old(batches)@, amount as int, now),
{
    let ghost orig = batches@;
    let mut remaining = amount;
    let mut i: usize = 0;
    assert(batches@.subrange(0, 0) + drain_unlocked(batches@.subrange(0, batches@.len() as int), amount as int, now)
        =~= drain_unlocked(orig, amount as int, now)) by {
        assert(batches@.subrange(0, batches@.len() as int) =~= orig);
    }
    while remaining > 0 && i < batches.len()
        invariant
            0 <= i <= batches@.len(),
            batches@.subrange(0, i as int) + drain_unlocked(
                batches@.subrange(i as int, batches@.len() as int),
                remaining as int,
                now,
            ) == drain_unlocked(orig, amount as int, now),
        decreases batches@.len() - i, remaining,
    {
        let ghost cur = batches@;
        let ghost tail = cur.subrange(i as int, cur.len() as int);
        assert(tail.drop_first() =~= cur.subrange(i as int + 1, cur.len() as int));
        assert(tail[0] == cur[i as int]);
        let b = batches[i];
        if now < b.staked_at.saturating_add(STAKE_LOCK_NANOS) {
            assert(cur.subrange(0, i as int + 1) =~= cur.subrange(0, i as int) + seq![cur[i as int]]);
            i += 1;
            proof {
                assert(cur.subrange(0, i as int) + drain_unlocked(
                    cur.subrange(i as int, cur.len() as int),
                    remaining as int,
                    now,
                ) =~= cur.subrange(0, i as int - 1) + drain_unlocked(tail, remaining as int, now));
            }
            continue;
        }
        if b.amount <= remaining {
            remaining = remaining - b.amount;
            batches.remove(i);
            proof {
                let nxt = batches@;
                assert(nxt.subrange(0, i as int) =~= cur.subrange(0, i as int));
                assert(nxt.subrange(i as int, nxt.len() as int) =~= cur.subrange(
                    i as int + 1,
                    cur.len() as int,
                ));
            }
        } else {
            let reduced = StakeBatch { amount: b.amount - remaining, staked_at: b.staked_at };
            batches.set(i, reduced);
            proof {
                let nxt = batches@;
                assert(nxt.subrange(0, i as int) =~= cur.subrange(0, i as int));
                assert(nxt.subrange(i as int, nxt.len() as int) =~= seq![reduced] + cur.subrange(
                    i as int + 1,
                    cur.len() as int,
                ));
                let t2 = nxt.subrange(i as int, nxt.len() as int);
                assert(drain_unlocked(t2, 0, now) == t2);
            }
            remaining = 0;
        }
    }
    proof {
        let cur = batches@;
        let t = cur.subrange(i as int, cur.len() as int);
        assert(drain_unlocked(t, remaining as int, now) == t);
        assert(cur.subrange(0, i as int) + t =~= cur);
    }
}

} // verus!
