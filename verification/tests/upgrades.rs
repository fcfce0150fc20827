use std::collections::VecDeque;
use lucky::ids::{Account, PrincipalId, Table};
use lucky::lottery::{DrawResult, DEFAULT_DRAW_INTERVAL_SECS};
use lucky::lottery_upgrade::{
    migrate_draw_result, migrate_draw_tickets, migrate_legacy_tickets,
    migrate_old_state as migrate_old_lottery, migrate_pre_burn_state, DrawTicket, LegacyDrawResult,
    LegacyTicket, OldLotteryState, PreBurnState,
};
use lucky::tickets::TICKET_DURATION_NANOS;
use lucky::token::TokenState;
use lucky::token_upgrade::{migrate_legacy_state, migrate_old_state, LegacyTokenState, OldTokenState};
use lucky::treasury::Stats;
use lucky::treasury_upgrade::{migrate_old_state as migrate_old_treasury, OldTreasuryState};

fn p(b: u8) -> PrincipalId {
    PrincipalId::from_bytes(vec![b, b, b])
}

fn table<K: lucky::ids::TableKey, T>(entries: Vec<(K, T)>) -> Table<K, T> {
    Table { entries }
}

#[test]
fn old_token_stakes_become_batches() {
    let old = OldTokenState {
        owner: p(1),
        minting_account: Some(p(9)),
        balances: table(vec![(Account::default_of(p(2)), 600)]),
        staked: table(vec![(p(2), 300), (p(3), 0), (p(4), 100)]),
        total_minted: 1_000,
        rewards_minted: 50,
        next_block_index: 17,
    };
    let t: TokenState = migrate_old_state(old);
    assert_eq!(t.next_block_index, 17);
    assert_eq!(t.rewards_minted, 50);
    assert_eq!(t.staked_balance_of(&p(2)), 300);
    assert_eq!(t.staked_balance_of(&p(3)), 0);
    assert_eq!(t.staked_balance_of(&p(4)), 100);
    assert!(t.staked.get(&p(3)).is_none());
    let batches = t.stake_batches(&p(2), 0);
    assert_eq!(batches.len(), 1);
    assert_eq!(batches[0].staked_at, 0);
    assert!(batches[0].unlocked == (0 >= batches[0].unlocks_at));
    assert_eq!(t.balance_of(&Account::default_of(p(2))), 600);
}

#[test]
fn legacy_token_balances_move_to_default_accounts() {
    let old = LegacyTokenState {
        owner: p(1),
        minting_account: None,
        balances: table(vec![(p(2), 40), (p(5), 60)]),
        staked: table(vec![(p(5), 25)]),
        total_minted: 125,
        rewards_minted: 0,
    };
    let t = migrate_legacy_state(old);
    assert_eq!(t.next_block_index, 0);
    assert_eq!(t.balance_of(&Account::default_of(p(2))), 40);
    assert_eq!(t.balance_of(&Account::default_of(p(5))), 60);
    assert_eq!(t.balance_of(&Account { owner: p(5), subaccount: Some(vec![0; 32]) }), 0);
    assert_eq!(t.total_balance_of(&p(5)), 85);
}

#[test]
fn legacy_tickets_keep_their_expiry_and_expired_ones_go() {
    const MINUTE: u64 = 60_000_000_000;
    let now = 1_000 * MINUTE;
    let tickets = vec![
        LegacyTicket { id: 1, owner: p(2), purchased_at: 5, expires_at: now },
        LegacyTicket { id: 2, owner: p(3), purchased_at: 6, expires_at: now + 30 },
        LegacyTicket { id: 3, owner: p(4), purchased_at: 7, expires_at: now + 10 * MINUTE + 5 },
    ];
    let out = migrate_legacy_tickets(&tickets, now);
    assert_eq!(out.len(), 2);
    assert_eq!(out[0].id, 2);
    assert_eq!(out[0].expires_at, now + 30);
    assert_eq!(out[1].id, 3);
    assert_eq!(out[1].purchased_at, 7);
    assert_eq!(out[1].owner.bytes, vec![4, 4, 4]);
}

#[test]
fn draw_counting_tickets_last_a_day_from_purchase() {
    let tickets = vec![DrawTicket { id: 7, owner: p(2), purchased_at: 40, remaining_draws: 3, total_draws: 14 }];
    let out = migrate_draw_tickets(&tickets);
    assert_eq!(out.len(), 1);
    assert_eq!(out[0].id, 7);
    assert_eq!(out[0].purchased_at, 40);
    assert_eq!(out[0].expires_at, 40 + TICKET_DURATION_NANOS);
}

fn legacy_draw(round: u64) -> LegacyDrawResult {
    LegacyDrawResult {
        round,
        winner: p(2),
        reward_lucky_e8s: 77,
        active_tickets: 3,
        active_players: 2,
        winning_weight_bps: 12_000,
        timestamp: 99,
    }
}

#[test]
fn legacy_draws_gain_empty_ticket_records() {
    let d: DrawResult = migrate_draw_result(&legacy_draw(4));
    assert_eq!(d.round, 4);
    assert_eq!(d.reward_lucky_e8s, 77);
    assert_eq!(d.winning_weight_bps, 12_000);
    assert!(d.ticket_ids.is_empty() && d.ticket_principals.is_empty());
    assert_eq!(d.winning_ticket_id, 0);
}

#[test]
fn first_lottery_format_starts_the_new_counters() {
    let old = OldLotteryState {
        owner: p(1),
        token_canister: Some(p(7)),
        treasury_canister: None,
        tickets: vec![LegacyTicket { id: 0, owner: p(2), purchased_at: 0, expires_at: 5 * 60_000_000_000 }],
        next_ticket_id: 1,
        round: 3,
        draw_history: VecDeque::from(vec![legacy_draw(1), legacy_draw(2), legacy_draw(3)]),
        emitted_day: 2,
        emitted_today_lucky_e8s: 1_000,
    };
    let l = migrate_old_lottery(old, 0);
    assert_eq!(l.round, 3);
    assert_eq!(l.tickets.len(), 1);
    assert_eq!(l.tickets[0].expires_at, 5 * 60_000_000_000);
    assert_eq!(l.draw_history.len(), 3);
    assert_eq!(l.draw_history[2].round, 3);
    assert_eq!(l.emission.emitted_day, 2);
    assert_eq!(l.emission.emitted_today, 1_000);
    assert_eq!(l.emission.total_rewards_minted, 0);
    assert!(l.ignis_canister.is_none());
    assert_eq!(l.draw_interval_secs, DEFAULT_DRAW_INTERVAL_SECS);
    assert_eq!(l.burn_pool_lucky_e8s, 0);
}

#[test]
fn pre_burn_lottery_keeps_its_tickets_and_streaks() {
    let old = PreBurnState {
        owner: p(1),
        token_canister: None,
        treasury_canister: Some(p(8)),
        ignis_canister: Some(p(9)),
        tickets: Vec::new(),
        next_ticket_id: 12,
        round: 40,
        draw_history: VecDeque::new(),
        emitted_day: 7,
        emitted_today_lucky_e8s: 5,
        total_rewards_minted_lucky_e8s: 900,
        streaks: Table::new(),
    };
    let l = migrate_pre_burn_state(old);
    assert_eq!(l.next_ticket_id, 12);
    assert_eq!(l.emission.total_rewards_minted, 900);
    assert_eq!(l.ignis_canister.unwrap().bytes, vec![9, 9, 9]);
    assert_eq!(l.total_burned_lucky_e8s, 0);
}

#[test]
fn old_treasury_starts_without_pending_work() {
    let stats = Stats { total_received: 10, total_dev: 1, total_liquidity: 0, total_burn: 9, claim_count: 1, pending_distributions: 0 };
    let old = OldTreasuryState {
        owner: p(1),
        lottery_canister: Some(p(2)),
        icp_ledger: None,
        dev_account: None,
        liquidity_account: None,
        burn_account: None,
        claimed_by_subaccount: table(vec![(vec![1u8; 32], 10u64)]),
        stats,
    };
    let t = migrate_old_treasury(old);
    assert_eq!(t.stats.total_received, 10);
    assert_eq!(t.claimed_by_subaccount.len(), 1);
    assert_eq!(t.pending_splits.len(), 0);
    assert!(t.topup_canisters.is_empty());
}
