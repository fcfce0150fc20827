//! LUCKY reward emission of the lottery: halvings, the per-draw reward target,
//! the daily emission cap, and reserving or returning a draw's reward.
use vstd::prelude::*;

verus! {

pub const ONE_LUCKY: u128 = 100_000_000;

pub const DAY_NANOS: u64 = 86_400 * 1_000_000_000;

pub const BASE_REWARD_LUCKY: u128 = 50 * ONE_LUCKY;

pub const PER_PLAYER_REWARD_LUCKY: u128 = 10 * ONE_LUCKY;

pub const MAX_REWARD_LUCKY: u128 = 500 * ONE_LUCKY;

pub const DAILY_EMISSION_CAP_LUCKY: u128 = 500_000 * ONE_LUCKY;

pub const REWARD_POOL_LUCKY: u128 = 70_000_000 * ONE_LUCKY;

/// Halvings counted from the tranche `tranche` whose end is `threshold`: each tranche is half
/// the previous one, and halving stops once tranches are no larger than one LUCKY.
pub open spec fn halvings_from(minted: u128, tranche: u128, threshold: u128) -> nat
    decreases tranche,
{
    if tranche > ONE_LUCKY && minted >= threshold {
        1 + halvings_from(
            minted,
            tranche / 2,
            if threshold + tranche / 2 > u128::MAX {
                u128::MAX
            } else {
                (threshold + tranche / 2) as u128
            },
        )
    } else {
        0
    }
}

/// The halving level: how many tranches (half the pool, then a quarter, ...) have been minted.
pub open spec fn halving_level_spec(minted: u128) -> nat {
    halvings_from(minted, REWARD_POOL_LUCKY / 2, REWARD_POOL_LUCKY / 2)
}

pub open spec fn min_nat(a: nat, b: nat) -> nat {
    if a < b {
        a
    } else {
        b
    }
}

pub open spec fn min_int(a: int, b: int) -> int {
    if a < b {
        a
    } else {
        b
    }
}

pub open spec fn max_int(a: int, b: int) -> int {
    if a > b {
        a
    } else {
        b
    }
}

/// Rewards and the daily cap are divided by 2^level (the exponent capped at 32).
pub open spec fn halving_divisor_spec(minted: u128) -> int {
    vstd::arithmetic::power2::pow2(min_nat(halving_level_spec(minted), 32)) as int
}

/// The daily emission cap after halvings, never below one LUCKY.
pub open spec fn daily_cap_spec(minted: u128) -> int {
    max_int(DAILY_EMISSION_CAP_LUCKY as int / halving_divisor_spec(minted), ONE_LUCKY as int)
}

/// 50 LUCKY plus 10 LUCKY per active player, capped at 500 LUCKY, divided by the halving
/// divisor, and never below one LUCKY.
pub open spec fn reward_target_spec(minted: u128, active_players: u64) -> int {
    let target = min_int(
        BASE_REWARD_LUCKY as int + active_players as int * PER_PLAYER_REWARD_LUCKY as int,
        MAX_REWARD_LUCKY as int,
    );
    max_int(target / halving_divisor_spec(minted), ONE_LUCKY as int)
}

/// Number of times `t` can be halved before reaching one.
pub open spec fn bits(t: int) -> nat
    decreases t,
{
    if t <= 1 {
        0
    } else {
        1 + bits(t / 2)
    }
}

proof fn lemma_halvings_bound(minted: u128, tranche: u128, threshold: u128)
    ensures
        halvings_from(minted, tranche, threshold) <= bits(tranche as int),
    decreases tranche,
{
    if tranche > ONE_LUCKY && minted >= threshold {
        let t2 = if threshold + tranche / 2 > u128::MAX {
            u128::MAX
        } else {
            (threshold + tranche / 2) as u128
        };
        lemma_halvings_bound(minted, tranche / 2, t2);
    }
}

proof fn lemma_halvings_monotone(a: u128, b: u128, tranche: u128, threshold: u128)
    requires
        a <= b,
    ensures
        halvings_from(a, tranche, threshold) <= halvings_from(b, tranche, threshold),
    decreases tranche,
{
    if tranche > ONE_LUCKY && a >= threshold {
        let t2 = if threshold + tranche / 2 > u128::MAX {
            u128::MAX
        } else {
            (threshold + tranche / 2) as u128
        };
        lemma_halvings_monotone(a, b, tranche / 2, t2);
    }
}

/// Minting more never lowers the halving level.
pub proof fn lemma_halving_level_monotone(a: u128, b: u128)
    requires
        a <= b,
    ensures
        halving_level_spec(a) <= halving_level_spec(b),
        halving_divisor_spec(a) <= halving_divisor_spec(b),
{
    lemma_halvings_monotone(a, b, REWARD_POOL_LUCKY / 2, REWARD_POOL_LUCKY / 2);
    let la = min_nat(halving_level_spec(a), 32);
    let lb = min_nat(halving_level_spec(b), 32);
    if la < lb {
        vstd::arithmetic::power2::lemma_pow2_strictly_increases(la, lb);
    }
}

/// The halving level of `total_rewards_minted`.
pub fn halving_level(total_rewards_minted: u128) -> (r: u32)
    ensures
        r == halving_level_spec(total_rewards_minted),
{
    let mut level: u32 = 0;
    let mut tranche: u128 = REWARD_POOL_LUCKY / 2;
    let mut threshold: u128 = tranche;
    assert(bits(REWARD_POOL_LUCKY as int / 2) <= 64) by {
        reveal_with_fuel(bits, 60);
    }
    while tranche > ONE_LUCKY && total_rewards_minted >= threshold
        invariant
            level + halvings_from(total_rewards_minted, tranche, threshold) == halving_level_spec(
                total_rewards_minted,
            ),
            level + bits(tranche as int) <= 64,
        decreases tranche,
    {
        proof {
            assert(bits(tranche as int) == 1 + bits(tranche as int / 2));
        }
        level += 1;
        tranche /= 2;
        threshold = threshold.saturating_add(tranche);
    }
    level
}

proof fn lemma_shift_is_pow2(k: u32)
    requires
        k <= 32,
    ensures
        (1u128 << k) == vstd::arithmetic::power2::pow2(k as nat),
        0 < vstd::arithmetic::power2::pow2(k as nat) <= 0x1_0000_0000,
{
    assert((1u128 << k) == ((1u64 << (k as u64)) as u128)) by (bit_vector)
        requires
            k <= 32,
    ;
    vstd::bits::lemma_u64_pow2_no_overflow(k as nat);
    vstd::arithmetic::power2::lemma_pow2_pos(k as nat);
    vstd::bits::lemma_u64_shl_is_mul(1u64, k as u64);
    if k < 32 {
        vstd::arithmetic::power2::lemma_pow2_strictly_increases(k as nat, 32);
    }
    vstd::arithmetic::power2::lemma2_to64();
}

/// 2^level, with the exponent capped at 32.
pub fn halving_divisor(total_rewards_minted: u128) -> (r: u128)
    ensures
        r == halving_divisor_spec(total_rewards_minted),
        1 <= r <= 0x1_0000_0000,
{
    let level = halving_level(total_rewards_minted);
    let k: u32 = if level < 32 {
        level
    } else {
        32
    };
    proof {
        lemma_shift_is_pow2(k);
    }
    1u128 << k
}

/// The daily emission cap at the current halving level.
pub fn current_daily_cap(total_rewards_minted: u128) -> (r: u128)
    ensures
        r == daily_cap_spec(total_rewards_minted),
        ONE_LUCKY <= r <= DAILY_EMISSION_CAP_LUCKY,
{
    let d = halving_divisor(total_rewards_minted);
    let c = DAILY_EMISSION_CAP_LUCKY / d;
    if c > ONE_LUCKY {
        c
    } else {
        ONE_LUCKY
    }
}

/// The base reward of a draw with `active_players` distinct players.
pub fn current_reward_target(total_rewards_minted: u128, active_players: u64) -> (r: u128)
    ensures
        r == reward_target_spec(total_rewards_minted, active_players),
        ONE_LUCKY <= r <= MAX_REWARD_LUCKY,
{
    let d = halving_divisor(total_rewards_minted);
    let raw = BASE_REWARD_LUCKY + active_players as u128 * PER_PLAYER_REWARD_LUCKY;
    let target = if raw < MAX_REWARD_LUCKY {
        raw
    } else {
        MAX_REWARD_LUCKY
    };
    let t = target / d;
    if t > ONE_LUCKY {
        t
    } else {
        ONE_LUCKY
    }
}

/// The lottery's emission counters.
#[derive(Clone, Copy)]
pub struct Emission {
    /// The day (since the epoch) that `emitted_today` counts.
    pub emitted_day: u64,
    pub emitted_today: u128,
    pub total_rewards_minted: u128,
}

/// The counters after reserving a draw's reward, and the reward: the base target scaled by
/// the multiplier, limited by what is left of today's cap and of the reward pool.
pub open spec fn reserve_spec(e: Emission, now: u64, active_players: u64, boost_bps: u64) -> (
    Emission,
    u128,
) {
    let day = now / DAY_NANOS;
    let today = if e.emitted_day != day {
        0
    } else {
        e.emitted_today as int
    };
    let boosted = reward_target_spec(e.total_rewards_minted, active_players) * boost_bps / 10_000;
    let remaining_daily = max_int(daily_cap_spec(e.total_rewards_minted) - today, 0);
    let remaining_pool = max_int(REWARD_POOL_LUCKY - e.total_rewards_minted, 0);
    let reward = min_int(min_int(boosted, remaining_daily), remaining_pool);
    (
        Emission {
            emitted_day: day as u64,
            emitted_today: (today + reward) as u128,
            total_rewards_minted: (e.total_rewards_minted + reward) as u128,
        },
        reward as u128,
    )
}

/// The counters after giving back a reserved reward whose mint failed.
pub open spec fn rollback_spec(e: Emission, now: u64, reward: u128) -> Emission {
    Emission {
        emitted_day: e.emitted_day,
        emitted_today: if e.emitted_day == now / DAY_NANOS {
            max_int(e.emitted_today - reward, 0) as u128
        } else {
            e.emitted_today
        },
        total_rewards_minted: max_int(e.total_rewards_minted - reward, 0) as u128,
    }
}

/// Whether a draw at `now` could still earn any reward.
pub open spec fn capacity_spec(e: Emission, now: u64) -> bool {
    let today = if e.emitted_day == now / DAY_NANOS {
        e.emitted_today as int
    } else {
        0
    };
    daily_cap_spec(e.total_rewards_minted) > today && REWARD_POOL_LUCKY > e.total_rewards_minted
}

impl Emission {
    pub fn new() -> (e: Emission)
        ensures
            e.emitted_day == 0 && e.emitted_today == 0 && e.total_rewards_minted == 0,
    {
        Emission { emitted_day: 0, emitted_today: 0, total_rewards_minted: 0 }
    }

    /// Reserves the reward of a draw at `now`, starting a new day's count when the day changed.
    pub fn reserve_reward(&mut self, now: u64, active_players: u64, boost_bps: u64) -> (r: Result<
        u128,
        String,
    >)
        ensures
            r == Ok::<u128, String>(reserve_spec(*old(self), now, active_players, boost_bps).1),
            *final(self) == reserve_spec(*old(self), now, active_players, boost_bps).0,
    {
        let day = now / DAY_NANOS;
        if self.emitted_day != day {
            self.emitted_day = day;
            self.emitted_today = 0;
        }
        let base = current_reward_target(self.total_rewards_minted, active_players);
        proof {
            assert(base * boost_bps <= 500 * ONE_LUCKY * 0xffff_ffff_ffff_ffff) by (nonlinear_arith)
                requires
                    base <= 500 * ONE_LUCKY,
                    boost_bps <= 0xffff_ffff_ffff_ffff,
            ;
        }
        let boosted = base * boost_bps as u128 / 10_000;
        let remaining_daily = current_daily_cap(self.total_rewards_minted).saturating_sub(
            self.emitted_today,
        );
        let remaining_pool = REWARD_POOL_LUCKY.saturating_sub(self.total_rewards_minted);
        let mut reward = if boosted < remaining_daily {
            boosted
        } else {
            remaining_daily
        };
        if remaining_pool < reward {
            reward = remaining_pool;
        }
        self.emitted_today = self.emitted_today + reward;
        self.total_rewards_minted = self.total_rewards_minted + reward;
        Ok(reward)
    }

    /// Whether a draw at `now` could still earn any reward.
    pub fn has_reward_capacity(&self, now: u64) -> (r: bool)
        ensures
            r == capacity_spec(*self, now),
    {
        let emitted_today = if self.emitted_day == now / DAY_NANOS {
            self.emitted_today
        } else {
            0
        };
        current_daily_cap(self.total_rewards_minted) > emitted_today && REWARD_POOL_LUCKY
            > self.total_rewards_minted
    }

    /// Gives back a reserved reward whose mint failed.
    pub fn rollback_reward(&mut self, now: u64, reward: u128)
        ensures
            *final(self) == rollback_spec(*old(self), now, reward),
    {
        let day = now / DAY_NANOS;
        if self.emitted_day == day {
            self.emitted_today = self.emitted_today.saturating_sub(reward);
        }
        self.total_rewards_minted = self.total_rewards_minted.saturating_sub(reward);
    }
}

/// The divisor is positive, so the cap and the target stay within their undivided values.
pub proof fn lemma_divisor_bounds(minted: u128, active_players: u64)
    ensures
        halving_divisor_spec(minted) >= 1,
        ONE_LUCKY <= daily_cap_spec(minted) <= DAILY_EMISSION_CAP_LUCKY,
        ONE_LUCKY <= reward_target_spec(minted, active_players) <= MAX_REWARD_LUCKY,
{
    vstd::arithmetic::power2::lemma_pow2_pos(min_nat(halving_level_spec(minted), 32));
    let d = halving_divisor_spec(minted);
    assert(DAILY_EMISSION_CAP_LUCKY as int / d <= DAILY_EMISSION_CAP_LUCKY) by (nonlinear_arith)
        requires
            d >= 1,
    ;
    let target = min_int(
        BASE_REWARD_LUCKY as int + active_players as int * PER_PLAYER_REWARD_LUCKY as int,
        MAX_REWARD_LUCKY as int,
    );
    assert(target / d <= target) by (nonlinear_arith)
        requires
            d >= 1,
            target >= 0,
    ;
}

/// Less than half the pool minted means no halving yet.
proof fn lemma_level_zero(minted: u128)
    requires
        minted < 35_000_000 * 100_000_000,
    ensures
        halving_level_spec(minted) == 0,
        halving_divisor_spec(minted) == 1,
{
    vstd::arithmetic::power2::lemma2_to64();
}

/// The base reward of a draw: 50 LUCKY plus 10 LUCKY per active player, at most 500 LUCKY,
/// with the whole of it (the per-player part too) divided by 2 for each halving (at most
/// 32), and never below 1 LUCKY (amounts in e8s, 10^8 to a LUCKY). Before the first halving
/// it is the undivided amount, and after halvings it is the amount at no mint divided by
/// the divisor.
pub proof fn lemma_reward_target_formula(minted: u128, players: u64)
    ensures
        reward_target_spec(minted, players) == max_int(
            min_int(50int * 100_000_000 + players as int * (10 * 100_000_000), 500int * 100_000_000)
                / vstd::arithmetic::power2::pow2(min_nat(halving_level_spec(minted), 32)) as int,
            100_000_000int,
        ),
        minted < 35_000_000 * 100_000_000 ==> reward_target_spec(minted, players) == min_int(
            50int * 100_000_000 + players as int * (10 * 100_000_000),
            500int * 100_000_000,
        ),
        reward_target_spec(minted, players) == max_int(
            reward_target_spec(0, players) / halving_divisor_spec(minted),
            100_000_000int,
        ),
{
    lemma_level_zero(0);
    if minted < 35_000_000 * 100_000_000 {
        lemma_level_zero(minted);
    }
}

/// A reserved reward never exceeds the boosted target, what is left of today's cap, or
/// what is left of the pool; the pool total is never exceeded.
pub proof fn lemma_reserve_within_caps(e: Emission, now: u64, active_players: u64, boost_bps: u64)
    requires
        e.total_rewards_minted <= REWARD_POOL_LUCKY,
    ensures
        ({
            let (e2, reward) = reserve_spec(e, now, active_players, boost_bps);
            let today = if e.emitted_day == now / DAY_NANOS {
                e.emitted_today as int
            } else {
                0
            };
            &&& reward <= reward_target_spec(e.total_rewards_minted, active_players) * boost_bps
                / 10_000
            &&& today + reward <= daily_cap_spec(e.total_rewards_minted) || reward == 0
            &&& e2.total_rewards_minted <= REWARD_POOL_LUCKY
            &&& e2.emitted_day == now / DAY_NANOS
        }),
{
    lemma_divisor_bounds(e.total_rewards_minted, active_players);
}

/// Giving back a reward reserved the same day restores the counters exactly.
pub proof fn lemma_rollback_undoes_reserve(
    e: Emission,
    now: u64,
    active_players: u64,
    boost_bps: u64,
)
    requires
        e.emitted_day == now / DAY_NANOS,
    ensures
        ({
            let (e2, reward) = reserve_spec(e, now, active_players, boost_bps);
            rollback_spec(e2, now, reward) == e
        }),
{
    lemma_divisor_bounds(e.total_rewards_minted, active_players);
}

/// A reward of zero is reserved exactly when no capacity is left (for a positive multiplier).
pub proof fn lemma_capacity_means_reward(e: Emission, now: u64, active_players: u64, boost_bps: u64)
    requires
        boost_bps >= 10_000,
    ensures
        capacity_spec(e, now) <==> reserve_spec(e, now, active_players, boost_bps).1 > 0,
{
    assert(reward_target_spec(e.total_rewards_minted, active_players) >= ONE_LUCKY);
    assert(reward_target_spec(e.total_rewards_minted, active_players) * boost_bps / 10_000
        >= ONE_LUCKY) by (nonlinear_arith)
        requires
            reward_target_spec(e.total_rewards_minted, active_players) >= ONE_LUCKY,
            boost_bps >= 10_000,
    ;
}

} // verus!
