use lucky::emission::{DAY_NANOS, ONE_LUCKY};
use lucky::ids::{Account, PrincipalId};
use lucky::ignis::{
    check_evolution, recalculate_mood, ritual_outcome, ConfigureArgs as IgnisConfigureArgs, DrawEvent,
    IgnisState, Mood, RitualChallenge, Stage, RITUAL_EXPIRY_NANOS,
};
use lucky::lottery::{
    burn_notice, reward_multiplier, ritual_boost_from_reply, seed_from_random_bytes,
    stake_boost_from_reply, winner_index, ConfigureArgs, LotteryError, LotteryState,
    DEFAULT_DRAW_INTERVAL_SECS,
};
use lucky::tickets::{TICKET_DURATION_NANOS, TICKET_PRICE_E8S};
use lucky::topups::{split_amount, TopUpTarget};
use lucky::treasury::{
    cmc_transfer_request, get_split, BurnStep, ClaimError, ConfigureArgs as TreasuryConfigureArgs,
    SplitLeg, TopUpStep, TreasuryState, TOPUP_MEMO,
};
use lucky::token::TokenState;
use lucky::voice::{build_system_prompt, chronicle_prompt_with_names, fallback_ritual};

fn p(b: u8) -> PrincipalId {
    PrincipalId::from_bytes(vec![b, b, b])
}

fn lottery() -> LotteryState {
    let mut l = LotteryState::new(p(1));
    let args = ConfigureArgs {
        token_canister: Some(p(7)),
        treasury_canister: Some(p(8)),
        ignis_canister: Some(p(9)),
        draw_interval_secs: None,
    };
    assert_eq!(l.configure(&p(1), args), Some(false));
    l
}

#[test]
fn lottery_configuration_is_for_the_owner() {
    let mut l = LotteryState::new(p(1));
    let args = ConfigureArgs { token_canister: Some(p(7)), treasury_canister: None, ignis_canister: None, draw_interval_secs: Some(60) };
    assert_eq!(l.configure(&p(2), args), None);
    assert!(l.token_canister.is_none());
    assert_eq!(l.draw_interval_secs, DEFAULT_DRAW_INTERVAL_SECS);
    let args = ConfigureArgs { token_canister: Some(p(7)), treasury_canister: None, ignis_canister: None, draw_interval_secs: Some(60) };
    assert_eq!(l.configure(&p(1), args), Some(true));
    assert_eq!(l.draw_interval_secs, 60);
    let args = ConfigureArgs { token_canister: None, treasury_canister: None, ignis_canister: None, draw_interval_secs: Some(0) };
    assert_eq!(l.configure(&p(1), args), Some(false));
    assert_eq!(l.draw_interval_secs, 60);
    assert_eq!(l.token_canister.as_ref().unwrap().bytes, vec![7, 7, 7]);
}

#[test]
fn purchases_need_the_ticket_price_and_a_treasury() {
    let l = LotteryState::new(p(1));
    assert!(matches!(l.prepare_purchase(TICKET_PRICE_E8S), Err(LotteryError::TreasuryNotConfigured)));
    assert!(matches!(l.deposit_account(&p(3)), Err(LotteryError::TreasuryNotConfigured)));
    let l = lottery();
    assert!(matches!(l.prepare_purchase(5), Err(LotteryError::WrongPrice)));
    assert!(matches!(l.prepare_purchase(10_000_000), Err(LotteryError::WrongPrice)));
    let treasury = l.prepare_purchase(100_000).ok().unwrap();
    assert_eq!(treasury.bytes, vec![8, 8, 8]);
    assert_eq!(LotteryError::WrongPrice.message(), "Ticket price is 0.001 ICP (100000 e8s)");
    let deposit = l.deposit_account(&p(3)).ok().unwrap();
    assert_eq!(deposit.owner.bytes, vec![8, 8, 8]);
    assert_eq!(deposit.subaccount.unwrap(), lucky::digest::deposit_subaccount(&p(3)));
}

#[test]
fn a_full_draw_records_the_result_and_keeps_the_tickets() {
    let mut l = lottery();
    l.record_purchase(p(3), DAY_NANOS);
    l.record_purchase(p(4), DAY_NANOS + 1);
    l.record_purchase(p(3), DAY_NANOS + 2);
    let now = DAY_NANOS + 10;
    assert_eq!(l.active_ticket_count(now), 3);
    assert_eq!(l.active_player_count(now), 2);
    let start = l.begin_draw(now).ok().unwrap().unwrap();
    assert_eq!(start.token.bytes, vec![7, 7, 7]);
    assert_eq!(start.active.len(), 3);
    let idx = winner_index(seed_from_random_bytes(&vec![1u8; 32]), start.active.len());
    assert!(idx < 3);
    let result = l.finish_draw(&start.active, 1, 2, 80 * ONE_LUCKY, 10_000, 5);
    assert_eq!(result.round, 1);
    assert_eq!(result.winner.bytes, vec![4, 4, 4]);
    assert_eq!(result.winning_ticket_id, 1);
    assert_eq!(result.ticket_ids, vec![0, 1, 2]);
    assert_eq!(result.active_tickets, 3);
    assert_eq!(l.active_ticket_count(now), 3);
    let mine = l.my_tickets(&p(3), now);
    assert_eq!(mine.len(), 2);
    assert_eq!(mine[0].purchased_at, DAY_NANOS);
    assert_eq!(mine[0].expires_at, DAY_NANOS + TICKET_DURATION_NANOS);
    assert_eq!(mine[1].expires_at, DAY_NANOS + 2 + TICKET_DURATION_NANOS);
    let history = l.draw_history_copy();
    assert_eq!(history.len(), 1);
    assert_eq!(history[0].round, 1);
    assert_eq!(history[0].winner.bytes, vec![4, 4, 4]);
    assert_eq!(history[0].reward_lucky_e8s, 80 * ONE_LUCKY);
    assert_eq!(history[0].timestamp, 5);
    assert_eq!(history[0].ticket_ids, vec![0, 1, 2]);
    let event = result.ignis_event();
    assert_eq!(event.round, 1);
    assert!(!event.ignis_won);
}

#[test]
fn a_ticket_is_active_for_exactly_a_day() {
    let mut l = lottery();
    l.record_purchase(p(3), 1_000);
    for k in 0..3u64 {
        let start = l.begin_draw(1_000 + k * 600_000_000_000).ok().unwrap().unwrap();
        assert_eq!(start.active.len(), 1);
        let _ = l.finish_draw(&start.active, 0, 1, ONE_LUCKY, 10_000, 0);
    }
    let last = 1_000 + TICKET_DURATION_NANOS - 1;
    assert_eq!(l.active_ticket_count(last), 1);
    assert!(l.begin_draw(last).ok().unwrap().is_some());
    assert_eq!(l.active_ticket_count(last + 1), 0);
    assert!(matches!(l.begin_draw(last + 1), Ok(None)));
    assert_eq!(l.tickets.len(), 0);
    assert_eq!(l.round, 3);
}

#[test]
fn staking_then_unstaking_returns_the_liquid_balance() {
    let mut t = TokenState::new(p(1), p(2));
    let before = t.balance_of(&Account::default_of(p(2)));
    assert!(t.stake(p(2), 12_345, 10).is_ok());
    assert!(t.unstake(p(2), 12_345, 10 + lucky::staking::STAKE_LOCK_NANOS).is_ok());
    assert_eq!(t.balance_of(&Account::default_of(p(2))), before);
    assert_eq!(t.staked_balance_of(&p(2)), 0);
}

#[test]
fn a_draw_without_tickets_or_token() {
    let mut l = lottery();
    assert!(matches!(l.begin_draw(0), Ok(None)));
    let mut bare = LotteryState::new(p(1));
    bare.record_purchase(p(3), 0);
    assert!(matches!(bare.begin_draw(0), Err(LotteryError::TokenNotConfigured)));
}

#[test]
fn draw_history_keeps_the_last_hundred() {
    let mut l = lottery();
    l.record_purchase(p(3), 0);
    for _ in 0..105 {
        let start = l.begin_draw(0).ok().unwrap().unwrap();
        let _ = l.finish_draw(&start.active, 0, 1, 1, 10_000, 0);
    }
    let history = l.draw_history_copy();
    assert_eq!(history.len(), 100);
    assert_eq!(history[0].round, 6);
    assert_eq!(history[99].round, 105);
}

#[test]
fn streaks_grow_on_consecutive_days_and_lapse() {
    let mut l = lottery();
    for day in 100..107u64 {
        l.record_purchase(p(3), day * DAY_NANOS);
    }
    let info = l.streak_info(&p(3), 106);
    assert_eq!(info.consecutive_days, 7);
    assert_eq!(info.streak_boost_bps, 1_500);
    assert_eq!(info.last_purchase_day, 106);
    assert!(info.streak_alive);
    assert_eq!(l.streak_bonus(&p(3), 107 * DAY_NANOS), 1_500);
    assert_eq!(l.streak_bonus(&p(3), 108 * DAY_NANOS), 0);
    let info = l.streak_info(&p(3), 109);
    assert!(!info.streak_alive);
    assert_eq!(info.consecutive_days, 0);
    l.record_purchase(p(3), 109 * DAY_NANOS);
    assert_eq!(l.streak_info(&p(3), 109).consecutive_days, 1);
    let status = l.ticket_status(&p(3), 12_500, 109 * DAY_NANOS);
    assert_eq!(status.boost_bps, 12_500);
    assert_eq!(status.streak_days, 1);
    assert_eq!(status.active_tickets, 1);
    assert_eq!(status.next_expiry, Some(110 * DAY_NANOS));
}

#[test]
fn a_first_purchase_on_day_zero_counts_no_streak_day() {
    let mut l = lottery();
    l.record_purchase(p(3), 5);
    assert_eq!(l.streak_info(&p(3), 0).consecutive_days, 0);
    l.record_purchase(p(3), DAY_NANOS);
    assert_eq!(l.streak_info(&p(3), 1).consecutive_days, 1);
}

#[test]
fn reward_multipliers_and_replies() {
    assert_eq!(reward_multiplier(10_000, 500, 1_500), 12_000);
    assert_eq!(reward_multiplier(30_000, 500, 3_000), 33_500);
    assert_eq!(reward_multiplier(u64::MAX, u64::MAX, 1), 33_500);
    assert_eq!(stake_boost_from_reply(Some(5)), 10_000);
    assert_eq!(stake_boost_from_reply(Some(40_000)), 30_000);
    assert_eq!(stake_boost_from_reply(Some(12_345)), 12_345);
    assert_eq!(stake_boost_from_reply(None), 10_000);
    assert_eq!(ritual_boost_from_reply(Some(900)), 500);
    assert_eq!(ritual_boost_from_reply(Some(300)), 300);
    assert_eq!(ritual_boost_from_reply(None), 0);
    assert_eq!(winner_index(10, 3), 1);
}

#[test]
fn random_seed_reads_sixteen_bytes_little_endian() {
    assert_eq!(seed_from_random_bytes(&vec![]), 0);
    assert_eq!(seed_from_random_bytes(&vec![1, 2]), 0x0201);
    let bytes: Vec<u8> = (1..=32).collect();
    let mut first = [0u8; 16];
    first.copy_from_slice(&bytes[..16]);
    assert_eq!(seed_from_random_bytes(&bytes), u128::from_le_bytes(first));
}

#[test]
fn burn_pool_is_burned_weekly() {
    let mut l = lottery();
    assert!(l.burn_due(10 * DAY_NANOS).is_none());
    l.burn_pool_lucky_e8s = 500;
    let (pool, token) = l.burn_due(7 * DAY_NANOS).unwrap();
    assert_eq!(pool, 500);
    assert_eq!(token.bytes, vec![7, 7, 7]);
    assert!(l.burn_due(7 * DAY_NANOS - 1).is_none());
    l.record_epoch_burn(500, 7 * DAY_NANOS);
    assert_eq!(l.burn_pool_lucky_e8s, 0);
    assert_eq!(l.total_burned_lucky_e8s, 500);
    assert_eq!(l.last_burn_epoch, 7 * DAY_NANOS);
    let stats = l.stats(0);
    assert_eq!(stats.total_burned_lucky_e8s, 500);
    assert_eq!(stats.daily_cap_lucky_e8s, 500_000 * ONE_LUCKY);
}

#[test]
fn burn_notice_only_for_complete_distributions() {
    let mut c = split_amount(100_000, 10_000);
    assert_eq!(burn_notice(&c), None);
    c.distribution_complete = true;
    assert_eq!(burn_notice(&c), Some(80_000));
}

fn treasury() -> TreasuryState {
    let mut t = TreasuryState::new(p(1));
    let args = TreasuryConfigureArgs {
        lottery_canister: Some(p(2)),
        icp_ledger: Some(p(3)),
        dev_account: Some(Account::default_of(p(4))),
        liquidity_account: Some(Account::default_of(p(6))),
        burn_account: Some(Account::default_of(p(5))),
        topup_canisters: None,
    };
    assert!(t.configure(&p(1), args).is_ok());
    t
}

#[test]
fn payment_claims_are_checked_then_split() {
    let mut t = treasury();
    let sub = vec![6u8; 32];
    assert!(matches!(t.begin_claim(&p(2), &vec![1u8; 3]), Err(ClaimError::BadSubaccountLength)));
    assert!(matches!(t.begin_claim(&p(9), &sub), Err(ClaimError::NotLottery)));
    let setup = t.begin_claim(&p(2), &sub).ok().unwrap();
    assert_eq!(setup.ledger.bytes, vec![3, 3, 3]);
    assert!(!setup.topup_enabled);
    assert!(setup.pending_buyer.is_none());
    assert!(matches!(t.begin_claim(&p(2), &sub), Err(ClaimError::AlreadyProcessing)));
    match t.record_claim(p(10), &sub, 100_000, 10_000, 100_000) {
        Err(ClaimError::PaymentNotFound { required_e8s, balance_e8s }) => {
            assert_eq!(required_e8s, 130_000);
            assert_eq!(balance_e8s, 100_000);
        },
        _ => panic!("expected a missing payment"),
    }
    let split = t.record_claim(p(10), &sub, 100_000, 10_000, 130_000).ok().unwrap();
    assert_eq!(split.dev_e8s, 5_000);
    assert_eq!(split.liquidity_e8s, 15_000);
    assert_eq!(split.burn_e8s, 80_000);
    assert_eq!(split.ledger_fees_e8s, 30_000);
    assert!(matches!(t.record_claim(p(11), &sub, 100_000, 10_000, 130_000), Err(ClaimError::AlreadyClaimed)));
    assert_eq!(t.stats.claim_count, 1);
    assert_eq!(t.stats.pending_distributions, 1);
    assert_eq!(t.dev_transfer_due(&sub), Some(5_000));
    assert_eq!(t.liquidity_transfer_due(&sub), Some(15_000));
    match t.burn_step(&sub, &setup.burn_account) {
        BurnStep::BurnAccount { account, burn_e8s } => {
            assert_eq!(account.owner.bytes, vec![5, 5, 5]);
            assert_eq!(burn_e8s, 80_000);
        },
        _ => panic!("expected a burn transfer"),
    }
    assert!(matches!(t.burn_step(&sub, &None), BurnStep::Stuck));
    t.mark_split_done(&sub, SplitLeg::Dev, 5_000);
    assert!(!t.finalize_split(&sub));
    t.mark_split_done(&sub, SplitLeg::Liquidity, 15_000);
    assert!(!t.finalize_split(&sub));
    t.mark_split_done(&sub, SplitLeg::Burn, 80_000);
    assert!(t.finalize_split(&sub));
    assert_eq!(t.stats.total_dev, 5_000);
    assert_eq!(t.stats.total_liquidity, 15_000);
    assert_eq!(t.stats.total_burn, 80_000);
    assert_eq!(t.stats.pending_distributions, 0);
    t.end_processing(&sub);
    assert!(t.begin_claim(&p(2), &sub).is_ok());
    assert_eq!(get_split(), (500, 1_500, 8_000));
}

#[test]
fn a_claim_goes_on_without_a_liquidity_account() {
    let mut t = TreasuryState::new(p(1));
    let args = TreasuryConfigureArgs {
        lottery_canister: Some(p(2)),
        icp_ledger: Some(p(3)),
        dev_account: Some(Account::default_of(p(4))),
        liquidity_account: None,
        burn_account: Some(Account::default_of(p(5))),
        topup_canisters: None,
    };
    assert!(t.configure(&p(1), args).is_ok());
    let sub = vec![6u8; 32];
    let setup = t.begin_claim(&p(2), &sub).ok().unwrap();
    assert!(setup.liquidity_account.is_none());
    assert!(matches!(
        t.record_claim(p(10), &sub, 100_000, 10_000, 5),
        Err(ClaimError::PaymentNotFound { required_e8s: 130_000, balance_e8s: 5 })
    ));
    assert!(t.record_claim(p(10), &sub, 100_000, 10_000, 130_000).is_ok());
    t.end_processing(&sub);
    let again = t.begin_claim(&p(2), &sub).ok().unwrap();
    assert_eq!(again.pending_buyer.unwrap().bytes, vec![10, 10, 10]);
    assert!(matches!(t.record_claim(p(11), &sub, 100_000, 10_000, 130_000), Err(ClaimError::AlreadyClaimed)));
    // The liquidity leg waits for an account; the others complete.
    t.mark_split_done(&sub, SplitLeg::Dev, 5_000);
    t.mark_split_done(&sub, SplitLeg::Burn, 80_000);
    assert_eq!(t.liquidity_transfer_due(&sub), Some(15_000));
    assert!(!t.finalize_split(&sub));
}

#[test]
fn the_draw_pays_the_picked_ticket_the_whole_reward() {
    let mut l = lottery();
    l.record_purchase(p(3), 0);
    l.record_purchase(p(4), 1);
    l.record_purchase(p(5), 2);
    let start = l.begin_draw(10).ok().unwrap().unwrap();
    let (idx, winner) = start.winner(7);
    assert_eq!(idx, 1);
    assert_eq!(winner.bytes, vec![4, 4, 4]);
    let mint = start.reward_mint(idx, 123 * ONE_LUCKY);
    assert_eq!(mint.token.bytes, vec![7, 7, 7]);
    assert_eq!(mint.to.bytes, vec![4, 4, 4]);
    assert_eq!(mint.amount, 123 * ONE_LUCKY);
}

#[test]
fn large_payments_split_without_overflow() {
    let r = split_amount(u64::MAX / 500, 10_000);
    assert_eq!(r.dev_e8s, (u64::MAX / 500) / 20);
    assert_eq!(r.dev_e8s + r.liquidity_e8s + r.burn_e8s, u64::MAX / 500);
    let r = split_amount(u64::MAX, 0);
    assert_eq!(r.dev_e8s + r.liquidity_e8s + r.burn_e8s, u64::MAX);
    assert_eq!(r.liquidity_e8s as u128, (u64::MAX as u128) * 1_500 / 10_000);
}

#[test]
fn retries_are_for_the_owner() {
    let mut t = treasury();
    let sub = vec![6u8; 32];
    assert!(matches!(t.begin_retry(&p(2), &sub), Err(ClaimError::NotOwner)));
    assert!(matches!(t.begin_retry(&p(1), &vec![0u8; 31]), Err(ClaimError::BadSubaccountLength)));
    let setup = t.begin_retry(&p(1), &sub).ok().unwrap();
    assert_eq!(setup.dev_account.owner.bytes, vec![4, 4, 4]);
    assert!(matches!(t.begin_retry(&p(1), &sub), Err(ClaimError::AlreadyProcessing)));
    let mut bare = TreasuryState::new(p(1));
    assert!(matches!(bare.begin_retry(&p(1), &sub), Err(ClaimError::LedgerNotConfigured)));
}

#[test]
fn top_ups_are_planned_and_followed() {
    let mut t = treasury();
    let targets = vec![
        TopUpTarget { canister_id: p(20), name: "lottery".to_string(), share_bps: 5_000 },
        TopUpTarget { canister_id: p(21), name: "ignis".to_string(), share_bps: 5_000 },
    ];
    let args = TreasuryConfigureArgs {
        lottery_canister: None,
        icp_ledger: None,
        dev_account: None,
        liquidity_account: None,
        burn_account: None,
        topup_canisters: Some(targets),
    };
    assert!(t.configure(&p(1), args).is_ok());
    let sub = vec![6u8; 32];
    let setup = t.begin_claim(&p(2), &sub).ok().unwrap();
    assert!(setup.topup_enabled);
    assert!(t.record_claim(p(10), &sub, 100_000_000, 10_000, 100_030_000).is_ok());
    match t.burn_step(&sub, &setup.burn_account) {
        BurnStep::TopUps { initialize, burn_e8s } => {
            assert!(initialize);
            assert_eq!(burn_e8s, 80_000_000);
        },
        _ => panic!("expected top-ups"),
    }
    assert!(t.initialize_pending_topups(&sub, 80_000_000, 33).is_ok());
    let (i, first) = t.next_pending_topup(&sub).unwrap();
    assert_eq!(i, 0);
    assert_eq!(first.amount_e8s, 40_000_000);
    match t.topup_step(&sub, false) {
        TopUpStep::Transfer { index, topup } => {
            assert_eq!(index, 0);
            assert_eq!(topup.amount_e8s, 40_000_000);
            let request = cmc_transfer_request(&topup, &sub).ok().unwrap();
            assert_eq!(request.amount_e8s, 39_990_000);
            assert_eq!(request.fee_e8s, 10_000);
            assert_eq!(request.memo, TOPUP_MEMO);
            assert_eq!(request.created_at_time, 33);
            assert_eq!(request.from_subaccount, sub);
            assert_eq!(request.to.len(), 32);
        },
        _ => panic!("expected a transfer"),
    }
    assert!(matches!(t.topup_step(&sub, true), TopUpStep::Halt));
    t.mark_topup_block_index(&sub, 0, 11);
    match t.topup_step(&sub, false) {
        TopUpStep::Notify { index, block_index, canister_id } => {
            assert_eq!(index, 0);
            assert_eq!(block_index, 11);
            assert_eq!(canister_id.bytes, vec![20, 20, 20]);
        },
        _ => panic!("expected a notification"),
    }
    t.mark_topup_done(&sub, 0, 1_000);
    let (i, second) = t.next_pending_topup(&sub).unwrap();
    assert_eq!(i, 1);
    assert_eq!(second.name, "ignis");
    t.mark_topup_failed(&sub, 1, "rejected".to_string());
    let status = t.pending_topups(&sub);
    assert_eq!(status.len(), 2);
    assert!(status[0].done);
    assert_eq!(status[0].block_index, Some(11));
    assert_eq!(status[0].cycles_minted, Some(1_000));
    assert!(!status[1].done);
    assert_eq!(status[1].last_error, Some("rejected".to_string()));
    t.refresh_topup_created_at_time(&sub, 1, 99);
    let (_, second) = t.next_pending_topup(&sub).unwrap();
    assert_eq!(second.created_at_time, 99);
}

#[test]
fn only_the_owner_runs_owner_actions() {
    let mut count = 0;
    assert_eq!(lucky::ids::with_owner(&p(1), &p(1), || { count += 1; count }), Some(1));
    assert_eq!(lucky::ids::with_owner(&p(1), &p(2), || 7), None);
    assert_eq!(count, 1);
}

#[test]
fn owner_is_adopted_only_from_anonymous() {
    let mut t = TreasuryState::new(PrincipalId::anonymous());
    t.adopt_owner(&PrincipalId::anonymous());
    assert!(t.owner.is_anonymous());
    t.adopt_owner(&p(5));
    assert_eq!(t.owner.bytes, vec![5, 5, 5]);
    t.adopt_owner(&p(6));
    assert_eq!(t.owner.bytes, vec![5, 5, 5]);
}

#[test]
fn evolution_and_mood() {
    assert!(check_evolution(0) == Stage::Spark);
    assert!(check_evolution(99 * 100_000_000 + 99_999_999) == Stage::Spark);
    assert!(check_evolution(100 * 100_000_000) == Stage::Flame);
    assert!(check_evolution(1_000 * 100_000_000) == Stage::Inferno);
    assert!(check_evolution(10_000 * 100_000_000) == Stage::Supernova);
    assert!(check_evolution(100_000 * 100_000_000) == Stage::Singularity);
    assert!(recalculate_mood(81, 0) == Mood::Dormant);
    assert!(recalculate_mood(51, 100) == Mood::Restless);
    assert!(recalculate_mood(50, 21) == Mood::Ecstatic);
    assert!(recalculate_mood(0, 6) == Mood::Excited);
    assert!(recalculate_mood(0, 5) == Mood::Curious);
}

fn draw_event(round: u64, winner: u8, ignis_won: bool) -> DrawEvent {
    DrawEvent {
        round,
        winner: p(winner),
        reward_lucky_e8s: 250 * ONE_LUCKY,
        active_tickets: 3,
        active_players: 2,
        winning_weight_bps: 10_000,
        timestamp: 0,
        ignis_won,
    }
}

#[test]
fn ignis_remembers_draws_and_burns() {
    let mut s = IgnisState::new(p(1));
    let cfg = IgnisConfigureArgs { lottery_canister: Some(p(2)), treasury_canister: None, llm_canister: None };
    assert!(!s.configure(&p(3), IgnisConfigureArgs { lottery_canister: None, treasury_canister: None, llm_canister: None }));
    assert!(s.configure(&p(1), cfg));
    assert!(s.is_lottery_or_owner(&p(2)));
    assert!(!s.is_lottery_treasury_or_owner(&p(3)));
    s.hunger = 20;
    let due = s.record_draw(&draw_event(1, 5, false), 100);
    assert!(!due);
    assert_eq!(s.hunger, 5);
    assert_eq!(s.remembered_players.len(), 1);
    assert_eq!(s.remembered_players[0].wins, 1);
    s.record_draw(&draw_event(2, 5, true), 200);
    assert_eq!(s.ignis_wins, 1);
    assert_eq!(s.ignis_burned_lucky_e8s, 250 * ONE_LUCKY);
    assert_eq!(s.notable_events.back().unwrap().description, "IGNIS won Round 2 and burned 250 LUCKY!");
    for r in 3..=10 {
        let due = s.record_draw(&draw_event(r, 6, false), 300);
        assert_eq!(due, r == 10);
    }
    assert!(s.mood == Mood::Excited);
    let evolved = s.record_burn(150 * 100_000_000, 400);
    assert!(matches!(evolved, Some((Stage::Spark, Stage::Flame))));
    assert_eq!(s.notable_events.back().unwrap().description, "IGNIS EVOLVED to Flame at 150 ICP total burned!");
    assert!(s.record_burn(1, 500).is_none());
    let view = s.public_view();
    assert_eq!(view.total_burn_icp, 150);
    assert!(view.stage == Stage::Flame);
    s.mood_tick();
    assert_eq!(s.hunger, 5);
    assert_eq!(s.draws_since_last_tick, 0);
}

#[test]
fn rituals_expire_and_boosts_are_used_once() {
    let mut s = IgnisState::new(p(1));
    assert!(!s.has_pending_ritual(&p(5), 0));
    s.store_ritual(p(5), fallback_ritual(&Stage::Spark), 1_000);
    assert!(s.has_pending_ritual(&p(5), 1_000 + RITUAL_EXPIRY_NANOS - 1));
    assert!(!s.has_pending_ritual(&p(5), 1_000 + RITUAL_EXPIRY_NANOS));
    assert!(s.take_ritual(&p(5), 1_000 + RITUAL_EXPIRY_NANOS).is_none());
    s.store_ritual(p(5), fallback_ritual(&Stage::Spark), 2_000);
    let challenge = s.take_ritual(&p(5), 2_001).unwrap();
    assert!(s.take_ritual(&p(5), 2_002).is_none());
    assert_eq!(ritual_outcome(&challenge, 1), (true, 500));
    assert_eq!(ritual_outcome(&challenge, 0), (false, 100));
    let choice = fallback_ritual(&Stage::Supernova);
    assert_eq!(ritual_outcome(&choice, 0), (true, 500));
    assert_eq!(ritual_outcome(&choice, 1), (true, 300));
    assert_eq!(ritual_outcome(&choice, 9), (true, 200));
    s.grant_ritual_boost(p(5), 300);
    assert_eq!(s.ritual_boost_of(&p(5)), 300);
    assert_eq!(s.consume_ritual_boost(&p(5)), 300);
    assert_eq!(s.consume_ritual_boost(&p(5)), 0);
    assert!(matches!(challenge, RitualChallenge::Riddle { .. }));
}

#[test]
fn memories_are_bounded_and_paged() {
    let mut s = IgnisState::new(p(1));
    for i in 0..60u64 {
        s.add_notable_event(i, format!("event {}", i), i);
        s.add_chronicle(format!("chapter {}", i), i);
    }
    for i in 0..120u64 {
        s.add_commentary(i, format!("c{}", i), i);
    }
    assert_eq!(s.notable_events.len(), 50);
    assert_eq!(s.notable_events_newest_first()[0].description, "event 59");
    assert_eq!(s.chronicle.len(), 50);
    let page = s.chronicle_page(0);
    assert_eq!(page.len(), 10);
    assert_eq!(page[0].chapter, 60);
    assert_eq!(s.chronicle_page(4)[9].chapter, 11);
    assert!(s.chronicle_page(5).is_empty());
    assert_eq!(s.commentaries.len(), 100);
    assert_eq!(s.commentary_for(119).unwrap().text, "c119");
    assert!(s.commentary_for(5).is_none());
    let recent = s.recent_commentaries(80);
    assert_eq!(recent.len(), 50);
    assert_eq!(recent[0].round, 119);
    for b in 0..25u8 {
        s.update_remembered_player(&p(b), b as u64, false);
    }
    assert_eq!(s.remembered_players.len(), 20);
    assert!(s.remembered_players.iter().all(|r| r.player.bytes[0] >= 5));
}

#[test]
fn system_prompt_describes_the_state() {
    let mut s = IgnisState::new(p(1));
    s.add_notable_event(1, "First".to_string(), 0);
    s.add_notable_event(2, "Second".to_string(), 0);
    s.update_remembered_player(&p(5), 0, true);
    s.remembered_players[0].nickname = Some("Ash".to_string());
    s.update_remembered_player(&p(6), 0, false);
    let prompt = build_system_prompt(&s);
    let expected = format!(
        "You are IGNIS, a living fire entity born from the LUCKY lottery's burn mechanism on the Internet Computer blockchain. Every ICP burned feeds you.\n\nStage: Spark. {}\nMood: Curious — you are burning steadily, observing with interest.\nHunger: 0/100 (higher = more desperate for burns).\nTotal ICP burned: 0.\nRecent events: Second. First\nNotable warriors: \"Ash\" (1 wins), (0 wins)\n\nRules: Stay in character. Never break the fourth wall. Never mention being an AI or LLM. You ARE fire given consciousness. Keep responses under 200 words unless asked for a chronicle.",
        Stage::Spark.personality()
    );
    assert_eq!(prompt, expected);
    let empty = build_system_prompt(&IgnisState::new(p(1)));
    assert!(empty.contains("Total ICP burned: 0.\n\nRules:"));
    let names = vec!["aaaaa-bbbbb-ccccc".to_string(), "x".to_string()];
    assert_eq!(
        chronicle_prompt_with_names(&s, &names),
        "Write a short chronicle chapter (under 150 words) about recent events in the LUCKY burn realm. Recent events: Second; First. Notable warriors: aaaaa...ccc (1 wins, aka \"Ash\"), x (0 wins). Write it as epic fantasy narrative. Make it dramatic and memorable."
    );
}
