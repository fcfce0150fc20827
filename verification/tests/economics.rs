use lucky::emission::{
    current_daily_cap, current_reward_target, halving_divisor, halving_level, Emission, DAY_NANOS,
    ONE_LUCKY, REWARD_POOL_LUCKY,
};
use lucky::staking::{boost_bps, drain_unlocked_batches, total_staked, unlockable_amount, StakeBatch, STAKE_LOCK_NANOS};
use lucky::tickets::{streak_boost_bps, ticket_expiry, TICKET_DURATION_NANOS, TICKET_PRICE_E8S};
use lucky::topups::{
    build_pending_topups, classify_topup_transfer, split_amount, topup_net_amount,
    validate_topup_targets, LegacyTransferOutcome, PlanError, TargetError, TopUpTarget,
    TopUpTransferError, TopUpTransferStatus,
};
use lucky::ids::PrincipalId;

const HALF_POOL: u128 = REWARD_POOL_LUCKY / 2;

#[test]
fn halving_level_counts_minted_tranches() {
    assert_eq!(halving_level(0), 0);
    assert_eq!(halving_level(HALF_POOL - 1), 0);
    assert_eq!(halving_level(HALF_POOL), 1);
    assert_eq!(halving_level(HALF_POOL + HALF_POOL / 2), 2);
    assert_eq!(halving_level(HALF_POOL + HALF_POOL / 2 + HALF_POOL / 4), 3);
    assert_eq!(halving_level(u128::MAX), 26);
}

#[test]
fn halving_divisor_is_a_power_of_two() {
    assert_eq!(halving_divisor(0), 1);
    assert_eq!(halving_divisor(HALF_POOL), 2);
    assert_eq!(halving_divisor(HALF_POOL + HALF_POOL / 2), 4);
    assert_eq!(halving_divisor(u128::MAX), 1u128 << 26);
}

#[test]
fn daily_cap_halves_and_has_a_floor() {
    assert_eq!(current_daily_cap(0), 500_000 * ONE_LUCKY);
    assert_eq!(current_daily_cap(HALF_POOL), 250_000 * ONE_LUCKY);
    assert_eq!(current_daily_cap(u128::MAX), ONE_LUCKY);
    assert!(current_daily_cap(u128::MAX) >= ONE_LUCKY);
}

#[test]
fn reward_target_grows_with_players_up_to_the_cap() {
    assert_eq!(current_reward_target(0, 0), 50 * ONE_LUCKY);
    assert_eq!(current_reward_target(0, 3), 80 * ONE_LUCKY);
    assert_eq!(current_reward_target(0, 45), 500 * ONE_LUCKY);
    assert_eq!(current_reward_target(0, 1_000), 500 * ONE_LUCKY);
    assert_eq!(current_reward_target(HALF_POOL, 0), 25 * ONE_LUCKY);
    assert_eq!(current_reward_target(u128::MAX, 0), ONE_LUCKY);
}

#[test]
fn reserve_reward_applies_boost_and_counts_emission() {
    let mut e = Emission::new();
    let now = 3 * DAY_NANOS + 5;
    let r = e.reserve_reward(now, 3, 15_000).ok().unwrap();
    assert_eq!(r, 120 * ONE_LUCKY);
    assert_eq!(e.emitted_day, 3);
    assert_eq!(e.emitted_today, 120 * ONE_LUCKY);
    assert_eq!(e.total_rewards_minted, 120 * ONE_LUCKY);
    assert!(e.has_reward_capacity(now));
}

#[test]
fn reserve_reward_is_capped_by_what_is_left_today() {
    let mut e = Emission { emitted_day: 2, emitted_today: 500_000 * ONE_LUCKY - 7, total_rewards_minted: 0 };
    let r = e.reserve_reward(2 * DAY_NANOS, 0, 10_000).ok().unwrap();
    assert_eq!(r, 7);
    assert!(!e.has_reward_capacity(2 * DAY_NANOS));
    // A new day resets the daily counter.
    assert!(e.has_reward_capacity(3 * DAY_NANOS));
}

#[test]
fn rollback_returns_a_reserved_reward() {
    let mut e = Emission::new();
    let now = 10 * DAY_NANOS;
    let r = e.reserve_reward(now, 5, 10_000).ok().unwrap();
    assert_eq!(r, 100 * ONE_LUCKY);
    e.rollback_reward(now, r);
    assert_eq!(e.emitted_today, 0);
    assert_eq!(e.total_rewards_minted, 0);
    assert_eq!(e.emitted_day, 10);
}

#[test]
fn exhausted_pool_has_no_capacity() {
    let e = Emission { emitted_day: 0, emitted_today: 0, total_rewards_minted: REWARD_POOL_LUCKY };
    assert!(!e.has_reward_capacity(0));
}

#[test]
fn stake_boost_tiers() {
    assert_eq!(boost_bps(0), 10_000);
    assert_eq!(boost_bps(999 * ONE_LUCKY), 10_000);
    assert_eq!(boost_bps(1_000 * ONE_LUCKY), 11_000);
    assert_eq!(boost_bps(5_000 * ONE_LUCKY), 12_500);
    assert_eq!(boost_bps(10_000 * ONE_LUCKY), 15_000);
    assert_eq!(boost_bps(25_000 * ONE_LUCKY), 20_000);
    assert_eq!(boost_bps(49_999 * ONE_LUCKY), 20_000);
    assert_eq!(boost_bps(50_000 * ONE_LUCKY), 30_000);
    assert_eq!(boost_bps(u128::MAX), 30_000);
}

#[test]
fn staked_totals_and_unlockable_amounts() {
    let batches = vec![
        StakeBatch { amount: 100, staked_at: 0 },
        StakeBatch { amount: 50, staked_at: 10 },
        StakeBatch { amount: 25, staked_at: STAKE_LOCK_NANOS },
    ];
    assert_eq!(total_staked(&batches), 175);
    assert_eq!(unlockable_amount(&batches, STAKE_LOCK_NANOS - 1), 0);
    assert_eq!(unlockable_amount(&batches, STAKE_LOCK_NANOS), 100);
    assert_eq!(unlockable_amount(&batches, STAKE_LOCK_NANOS + 10), 150);
    assert_eq!(unlockable_amount(&batches, 2 * STAKE_LOCK_NANOS), 175);
}

#[test]
fn unstaking_drains_oldest_unlocked_batches_first() {
    let mut batches = vec![
        StakeBatch { amount: 100, staked_at: 0 },
        StakeBatch { amount: 40, staked_at: 5 * STAKE_LOCK_NANOS },
        StakeBatch { amount: 50, staked_at: 10 },
    ];
    drain_unlocked_batches(&mut batches, 120, STAKE_LOCK_NANOS + 10);
    assert_eq!(batches.len(), 2);
    assert_eq!(batches[0].amount, 40);
    assert_eq!(batches[0].staked_at, 5 * STAKE_LOCK_NANOS);
    assert_eq!(batches[1].amount, 30);
    assert_eq!(batches[1].staked_at, 10);
}

#[test]
fn a_ticket_costs_a_thousandth_of_an_icp_and_lasts_a_day() {
    assert_eq!(TICKET_PRICE_E8S, 100_000);
    assert_eq!(TICKET_DURATION_NANOS, 24 * 60 * 60 * 1_000_000_000);
    assert_eq!(ticket_expiry(5), 5 + TICKET_DURATION_NANOS);
    assert_eq!(ticket_expiry(u64::MAX - 1), u64::MAX);
}

#[test]
fn streak_bonus_tiers() {
    assert_eq!(streak_boost_bps(0), 0);
    assert_eq!(streak_boost_bps(2), 0);
    assert_eq!(streak_boost_bps(3), 500);
    assert_eq!(streak_boost_bps(7), 1_500);
    assert_eq!(streak_boost_bps(14), 2_500);
    assert_eq!(streak_boost_bps(30), 3_000);
    assert_eq!(streak_boost_bps(365), 3_000);
}

#[test]
fn payment_split_is_five_fifteen_eighty() {
    let r = split_amount(10_000, 10_000);
    assert_eq!(r.dev_e8s, 500);
    assert_eq!(r.liquidity_e8s, 1_500);
    assert_eq!(r.burn_e8s, 8_000);
    let r = split_amount(100_000, 10_000);
    assert_eq!(r.amount_e8s, 100_000);
    assert_eq!(r.dev_e8s, 5_000);
    assert_eq!(r.liquidity_e8s, 15_000);
    assert_eq!(r.burn_e8s, 80_000);
    assert_eq!(r.ledger_fees_e8s, 30_000);
    assert!(!r.distribution_complete);
    let r = split_amount(12_345_679, 10_000);
    assert_eq!(r.dev_e8s, 617_283);
    assert_eq!(r.liquidity_e8s, 1_851_851);
    assert_eq!(r.burn_e8s, 9_876_545);
    assert_eq!(r.dev_e8s + r.liquidity_e8s + r.burn_e8s, 12_345_679);
}

fn target(byte: u8, name: &str, share: u16) -> TopUpTarget {
    TopUpTarget { canister_id: PrincipalId::from_bytes(vec![byte]), name: name.to_string(), share_bps: share }
}

#[test]
fn topup_targets_must_be_named_distinct_and_sum_to_all() {
    assert!(validate_topup_targets(&vec![target(1, "a", 6_000), target(2, "b", 4_000)]).is_ok());
    assert!(matches!(validate_topup_targets(&vec![target(1, "  ", 10_000)]), Err(TargetError::EmptyName)));
    assert!(matches!(
        validate_topup_targets(&vec![target(1, "a", 10_000), target(2, "b", 0)]),
        Err(TargetError::ZeroShare { .. })
    ));
    assert!(matches!(
        validate_topup_targets(&vec![target(1, "a", 5_000), target(1, "b", 5_000)]),
        Err(TargetError::Duplicate { .. })
    ));
    match validate_topup_targets(&vec![target(1, "a", 5_000), target(2, "b", 4_000)]) {
        Err(TargetError::BadTotal { total_bps }) => assert_eq!(total_bps, 9_000),
        _ => panic!("expected a bad total"),
    }
}

#[test]
fn topups_share_the_cycles_amount_and_the_last_takes_the_rest() {
    let plan = build_pending_topups(95_000_001, &vec![target(1, "a", 3_333), target(2, "b", 6_667)], 77)
        .ok()
        .unwrap();
    assert_eq!(plan.len(), 2);
    assert_eq!(plan[0].amount_e8s, 31_663_500);
    assert_eq!(plan[1].amount_e8s, 95_000_001 - 31_663_500);
    assert_eq!(plan[0].created_at_time, 77);
    assert!(!plan[0].done && plan[0].block_index.is_none());
    assert_eq!(plan[1].name, "b");
}

#[test]
fn topups_refuse_shares_that_the_fee_would_eat() {
    match build_pending_topups(100_000, &vec![target(1, "a", 1), target(2, "b", 9_999)], 0) {
        Err(PlanError::ShareBelowFee { name, amount_e8s }) => {
            assert_eq!(name, "a");
            assert_eq!(amount_e8s, 10);
        },
        _ => panic!("expected a share below the fee"),
    }
    assert!(matches!(build_pending_topups(100_000, &vec![], 0), Err(PlanError::NoTargets)));
}

#[test]
fn topup_transfer_outcomes() {
    assert!(matches!(classify_topup_transfer(LegacyTransferOutcome::Accepted(9)), TopUpTransferStatus::Sent(9)));
    assert!(matches!(
        classify_topup_transfer(LegacyTransferOutcome::TxDuplicate { duplicate_of: 4 }),
        TopUpTransferStatus::Sent(4)
    ));
    assert!(matches!(classify_topup_transfer(LegacyTransferOutcome::TxTooOld), TopUpTransferStatus::TimestampTooOld));
    assert!(matches!(classify_topup_transfer(LegacyTransferOutcome::OtherError), TopUpTransferStatus::Rejected));
    assert_eq!(topup_net_amount(10_000), None);
    assert_eq!(topup_net_amount(10_001), Some(1));
    assert_eq!(TopUpTransferError::RefreshTimestamp("old".to_string()).message(), "old");
    assert_eq!(TopUpTransferError::Other("bad".to_string()).message(), "bad");
}
