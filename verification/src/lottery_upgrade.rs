//! Reading the lottery state of earlier formats. Tickets that counted draws become tickets
//! that expire 24 hours after their purchase, draw results gain the (empty) record of the
//! tickets in the draw, and the fields that later formats added start at their defaults.
use vstd::prelude::*;
use crate::emission::Emission;
use crate::ids::{PrincipalId, Table};
use crate::lottery::{DrawResult, LotteryState, DEFAULT_DRAW_INTERVAL_SECS, MAX_DRAW_HISTORY};
use crate::tickets::{
    expiry_spec, streaks_ok, ticket_expiry, tickets_view, StreakData, Ticket, TicketView,
};

verus! {

/// A ticket of the format whose tickets counted the draws they had left.
pub struct DrawTicket {
    pub id: u64,
    pub owner: PrincipalId,
    pub purchased_at: u64,
    pub remaining_draws: u64,
    pub total_draws: u64,
}

/// A ticket of the formats that gave tickets an expiry time.
pub struct LegacyTicket {
    pub id: u64,
    pub owner: PrincipalId,
    pub purchased_at: u64,
    pub expires_at: u64,
}

/// A draw result of the formats that did not record the tickets in the draw.
pub struct LegacyDrawResult {
    pub round: u64,
    pub winner: PrincipalId,
    pub reward_lucky_e8s: u128,
    pub active_tickets: u64,
    pub active_players: u64,
    pub winning_weight_bps: u64,
    pub timestamp: u64,
}

/// The format before the burn pool.
pub struct PreBurnState {
    pub owner: PrincipalId,
    pub token_canister: Option<PrincipalId>,
    pub treasury_canister: Option<PrincipalId>,
    pub ignis_canister: Option<PrincipalId>,
    pub tickets: Vec<DrawTicket>,
    pub next_ticket_id: u64,
    pub round: u64,
    pub draw_history: std::collections::VecDeque<DrawResult>,
    pub emitted_day: u64,
    pub emitted_today_lucky_e8s: u128,
    pub total_rewards_minted_lucky_e8s: u128,
    pub streaks: Table<PrincipalId, StreakData>,
}

/// The format before tickets counted draws.
pub struct PreDrawsState {
    pub owner: PrincipalId,
    pub token_canister: Option<PrincipalId>,
    pub treasury_canister: Option<PrincipalId>,
    pub ignis_canister: Option<PrincipalId>,
    pub tickets: Vec<LegacyTicket>,
    pub next_ticket_id: u64,
    pub round: u64,
    pub draw_history: std::collections::VecDeque<DrawResult>,
    pub emitted_day: u64,
    pub emitted_today_lucky_e8s: u128,
    pub total_rewards_minted_lucky_e8s: u128,
    pub streaks: Table<PrincipalId, StreakData>,
}

/// The format before purchase streaks.
pub struct PreStreakState {
    pub owner: PrincipalId,
    pub token_canister: Option<PrincipalId>,
    pub treasury_canister: Option<PrincipalId>,
    pub ignis_canister: Option<PrincipalId>,
    pub tickets: Vec<LegacyTicket>,
    pub next_ticket_id: u64,
    pub round: u64,
    pub draw_history: std::collections::VecDeque<DrawResult>,
    pub emitted_day: u64,
    pub emitted_today_lucky_e8s: u128,
    pub total_rewards_minted_lucky_e8s: u128,
}

/// The format before draw results recorded their tickets.
pub struct PreRevealState {
    pub owner: PrincipalId,
    pub token_canister: Option<PrincipalId>,
    pub treasury_canister: Option<PrincipalId>,
    pub ignis_canister: Option<PrincipalId>,
    pub tickets: Vec<LegacyTicket>,
    pub next_ticket_id: u64,
    pub round: u64,
    pub draw_history: std::collections::VecDeque<LegacyDrawResult>,
    pub emitted_day: u64,
    pub emitted_today_lucky_e8s: u128,
    pub total_rewards_minted_lucky_e8s: u128,
}

/// The format before IGNIS.
pub struct PreIgnisState {
    pub owner: PrincipalId,
    pub token_canister: Option<PrincipalId>,
    pub treasury_canister: Option<PrincipalId>,
    pub tickets: Vec<LegacyTicket>,
    pub next_ticket_id: u64,
    pub round: u64,
    pub draw_history: std::collections::VecDeque<LegacyDrawResult>,
    pub emitted_day: u64,
    pub emitted_today_lucky_e8s: u128,
    pub total_rewards_minted_lucky_e8s: u128,
}

/// The first format, which did not count the rewards minted.
pub struct OldLotteryState {
    pub owner: PrincipalId,
    pub token_canister: Option<PrincipalId>,
    pub treasury_canister: Option<PrincipalId>,
    pub tickets: Vec<LegacyTicket>,
    pub next_ticket_id: u64,
    pub round: u64,
    pub draw_history: std::collections::VecDeque<LegacyDrawResult>,
    pub emitted_day: u64,
    pub emitted_today_lucky_e8s: u128,
}

pub open spec fn migrated_ticket(t: LegacyTicket) -> TicketView {
    TicketView { id: t.id, owner: t.owner@, purchased_at: t.purchased_at, expires_at: t.expires_at }
}

/// The tickets that have not expired at `now`, in order.
pub open spec fn migrated_tickets(s: Seq<LegacyTicket>, now: u64) -> Seq<TicketView>
    decreases s.len(),
{
    if s.len() == 0 {
        Seq::empty()
    } else {
        let rest = migrated_tickets(s.drop_last(), now);
        if s.last().expires_at > now {
            rest.push(migrated_ticket(s.last()))
        } else {
            rest
        }
    }
}

/// Keeps the tickets that have not expired at `now`.
pub fn migrate_legacy_tickets(tickets: &Vec<LegacyTicket>, now: u64) -> (r: Vec<Ticket>)
    ensures
        tickets_view(r@) == migrated_tickets(tickets@, now),
{
    let mut out: Vec<Ticket> = Vec::new();
    let mut i: usize = 0;
    assert(tickets@.subrange(0, 0) =~= Seq::<LegacyTicket>::empty());
    assert(tickets_view(out@) =~= Seq::<TicketView>::empty());
    while i < tickets.len()
        invariant
            0 <= i <= tickets@.len(),
            tickets_view(out@) == migrated_tickets(tickets@.subrange(0, i as int), now),
        decreases tickets@.len() - i,
    {
        let t = &tickets[i];
        assert(tickets@.subrange(0, i + 1).drop_last() =~= tickets@.subrange(0, i as int));
        if t.expires_at > now {
            let ticket = Ticket {
                id: t.id,
                owner: t.owner.duplicate(),
                purchased_at: t.purchased_at,
                expires_at: t.expires_at,
            };
            let ghost before = out@;
            out.push(ticket);
            assert(tickets_view(out@) =~= tickets_view(before).push(ticket@));
        }
        i += 1;
    }
    assert(tickets@.subrange(0, i as int) =~= tickets@);
    out
}

/// A ticket that counted draws, as a ticket that expires 24 hours after its purchase.
pub open spec fn day_ticket(t: DrawTicket) -> TicketView {
    TicketView {
        id: t.id,
        owner: t.owner@,
        purchased_at: t.purchased_at,
        expires_at: expiry_spec(t.purchased_at),
    }
}

/// Turns tickets that counted draws into tickets that expire 24 hours after their purchase.
pub fn migrate_draw_tickets(tickets: &Vec<DrawTicket>) -> (r: Vec<Ticket>)
    ensures
        tickets_view(r@) == tickets@.map_values(|t: DrawTicket| day_ticket(t)),
{
    let mut out: Vec<Ticket> = Vec::new();
    let mut i: usize = 0;
    while i < tickets.len()
        invariant
            0 <= i <= tickets@.len(),
            out@.len() == i,
            forall|j: int| 0 <= j < i ==> #[trigger] out@[j]@ == day_ticket(tickets@[j]),
        decreases tickets@.len() - i,
    {
        let t = &tickets[i];
        out.push(
            Ticket {
                id: t.id,
                owner: t.owner.duplicate(),
                purchased_at: t.purchased_at,
                expires_at: ticket_expiry(t.purchased_at),
            },
        );
        i += 1;
    }
    assert(tickets_view(out@) =~= tickets@.map_values(|t: DrawTicket| day_ticket(t)));
    out
}

/// `new` is `old` with an empty record of the draw's tickets.
pub open spec fn is_migrated_draw(new: DrawResult, old: LegacyDrawResult) -> bool {
    &&& new.round == old.round
    &&& new.winner@ == old.winner@
    &&& new.reward_lucky_e8s == old.reward_lucky_e8s
    &&& new.active_tickets == old.active_tickets
    &&& new.active_players == old.active_players
    &&& new.winning_weight_bps == old.winning_weight_bps
    &&& new.timestamp == old.timestamp
    &&& new.ticket_principals@.len() == 0
    &&& new.ticket_ids@.len() == 0
    &&& new.winning_ticket_id == 0
}

/// A draw result of an earlier format, with no record of the draw's tickets.
pub fn migrate_draw_result(old: &LegacyDrawResult) -> (r: DrawResult)
    ensures
        is_migrated_draw(r, *old),
{
    DrawResult {
        round: old.round,
        winner: old.winner.duplicate(),
        reward_lucky_e8s: old.reward_lucky_e8s,
        active_tickets: old.active_tickets,
        active_players: old.active_players,
        winning_weight_bps: old.winning_weight_bps,
        timestamp: old.timestamp,
        ticket_principals: Vec::new(),
        ticket_ids: Vec::new(),
        winning_ticket_id: 0,
    }
}

pub fn migrate_draw_history(old: &std::collections::VecDeque<LegacyDrawResult>) -> (r:
    std::collections::VecDeque<DrawResult>)
    ensures
        r@.len() == old@.len(),
        forall|i: int| 0 <= i < old@.len() ==> is_migrated_draw(#[trigger] r@[i], old@[i]),
{
    let mut out: std::collections::VecDeque<DrawResult> = std::collections::VecDeque::new();
    let mut i: usize = 0;
    while i < old.len()
        invariant
            0 <= i <= old@.len(),
            out@.len() == i,
            forall|j: int| 0 <= j < i ==> is_migrated_draw(#[trigger] out@[j], old@[j]),
        decreases old@.len() - i,
    {
        out.push_back(migrate_draw_result(&old[i]));
        i += 1;
    }
    out
}

/// The fields that the burn pool and the draw timer added start at their defaults.
pub open spec fn fresh_burn_fields(r: LotteryState) -> bool {
    &&& r.burn_pool_lucky_e8s == 0
    &&& r.last_burn_epoch == 0
    &&& r.total_burned_lucky_e8s == 0
    &&& r.draw_interval_secs == DEFAULT_DRAW_INTERVAL_SECS
}

/// Reads a lottery state of the format before the burn pool.
pub fn migrate_pre_burn_state(old: PreBurnState) -> (r: LotteryState)
    ensures
        streaks_ok(old.streaks) && old.draw_history@.len() <= MAX_DRAW_HISTORY ==> r.wf(),
        r.owner == old.owner && r.token_canister == old.token_canister && r.treasury_canister
            == old.treasury_canister && r.ignis_canister == old.ignis_canister,
        tickets_view(r.tickets@) == old.tickets@.map_values(|t: DrawTicket| day_ticket(t)),
        r.draw_history == old.draw_history && r.streaks == old.streaks,
        r.next_ticket_id == old.next_ticket_id && r.round == old.round,
        r.emission == (Emission {
            emitted_day: old.emitted_day,
            emitted_today: old.emitted_today_lucky_e8s,
            total_rewards_minted: old.total_rewards_minted_lucky_e8s,
        }),
        fresh_burn_fields(r),
{
    let tickets = migrate_draw_tickets(&old.tickets);
    LotteryState {
        owner: old.owner,
        token_canister: old.token_canister,
        treasury_canister: old.treasury_canister,
        ignis_canister: old.ignis_canister,
        tickets,
        next_ticket_id: old.next_ticket_id,
        round: old.round,
        draw_history: old.draw_history,
        emission: Emission {
            emitted_day: old.emitted_day,
            emitted_today: old.emitted_today_lucky_e8s,
            total_rewards_minted: old.total_rewards_minted_lucky_e8s,
        },
        streaks: old.streaks,
        burn_pool_lucky_e8s: 0,
        last_burn_epoch: 0,
        total_burned_lucky_e8s: 0,
        draw_interval_secs: DEFAULT_DRAW_INTERVAL_SECS,
    }
}

/// Reads a lottery state of the format before tickets counted draws; `now` decides which
/// tickets have expired.
pub fn migrate_pre_draws_state(old: PreDrawsState, now: u64) -> (r: LotteryState)
    ensures
        streaks_ok(old.streaks) && old.draw_history@.len() <= MAX_DRAW_HISTORY ==> r.wf(),
        r.owner == old.owner && r.token_canister == old.token_canister && r.treasury_canister
            == old.treasury_canister && r.ignis_canister == old.ignis_canister,
        tickets_view(r.tickets@) == migrated_tickets(old.tickets@, now),
        r.draw_history == old.draw_history && r.streaks == old.streaks,
        r.next_ticket_id == old.next_ticket_id && r.round == old.round,
        r.emission == (Emission {
            emitted_day: old.emitted_day,
            emitted_today: old.emitted_today_lucky_e8s,
            total_rewards_minted: old.total_rewards_minted_lucky_e8s,
        }),
        fresh_burn_fields(r),
{
    let tickets = migrate_legacy_tickets(&old.tickets, now);
    LotteryState {
        owner: old.owner,
        token_canister: old.token_canister,
        treasury_canister: old.treasury_canister,
        ignis_canister: old.ignis_canister,
        tickets,
        next_ticket_id: old.next_ticket_id,
        round: old.round,
        draw_history: old.draw_history,
        emission: Emission {
            emitted_day: old.emitted_day,
            emitted_today: old.emitted_today_lucky_e8s,
            total_rewards_minted: old.total_rewards_minted_lucky_e8s,
        },
        streaks: old.streaks,
        burn_pool_lucky_e8s: 0,
        last_burn_epoch: 0,
        total_burned_lucky_e8s: 0,
        draw_interval_secs: DEFAULT_DRAW_INTERVAL_SECS,
    }
}

/// Reads a lottery state of the format before purchase streaks; streaks start empty.
pub fn migrate_pre_streak_state(old: PreStreakState, now: u64) -> (r: LotteryState)
    ensures
        old.draw_history@.len() <= MAX_DRAW_HISTORY ==> r.wf(),
        r.owner == old.owner && r.token_canister == old.token_canister && r.treasury_canister
            == old.treasury_canister && r.ignis_canister == old.ignis_canister,
        tickets_view(r.tickets@) == migrated_tickets(old.tickets@, now),
        r.draw_history == old.draw_history && r.streaks@.len() == 0,
        r.next_ticket_id == old.next_ticket_id && r.round == old.round,
        r.emission == (Emission {
            emitted_day: old.emitted_day,
            emitted_today: old.emitted_today_lucky_e8s,
            total_rewards_minted: old.total_rewards_minted_lucky_e8s,
        }),
        fresh_burn_fields(r),
{
    let tickets = migrate_legacy_tickets(&old.tickets, now);
    LotteryState {
        owner: old.owner,
        token_canister: old.token_canister,
        treasury_canister: old.treasury_canister,
        ignis_canister: old.ignis_canister,
        tickets,
        next_ticket_id: old.next_ticket_id,
        round: old.round,
        draw_history: old.draw_history,
        emission: Emission {
            emitted_day: old.emitted_day,
            emitted_today: old.emitted_today_lucky_e8s,
            total_rewards_minted: old.total_rewards_minted_lucky_e8s,
        },
        streaks: Table::new(),
        burn_pool_lucky_e8s: 0,
        last_burn_epoch: 0,
        total_burned_lucky_e8s: 0,
        draw_interval_secs: DEFAULT_DRAW_INTERVAL_SECS,
    }
}

/// Reads a lottery state of the format before draw results recorded their tickets.
pub fn migrate_pre_reveal_state(old: PreRevealState, now: u64) -> (r: LotteryState)
    ensures
        old.draw_history@.len() <= MAX_DRAW_HISTORY ==> r.wf(),
        r.owner == old.owner && r.token_canister == old.token_canister && r.treasury_canister
            == old.treasury_canister && r.ignis_canister == old.ignis_canister,
        tickets_view(r.tickets@) == migrated_tickets(old.tickets@, now),
        r.draw_history@.len() == old.draw_history@.len(),
        forall|i: int|
            0 <= i < old.draw_history@.len() ==> is_migrated_draw(
                #[trigger] r.draw_history@[i],
                old.draw_history@[i],
            ),
        r.streaks@.len() == 0,
        r.next_ticket_id == old.next_ticket_id && r.round == old.round,
        r.emission == (Emission {
            emitted_day: old.emitted_day,
            emitted_today: old.emitted_today_lucky_e8s,
            total_rewards_minted: old.total_rewards_minted_lucky_e8s,
        }),
        fresh_burn_fields(r),
{
    let tickets = migrate_legacy_tickets(&old.tickets, now);
    let draw_history = migrate_draw_history(&old.draw_history);
    LotteryState {
        owner: old.owner,
        token_canister: old.token_canister,
        treasury_canister: old.treasury_canister,
        ignis_canister: old.ignis_canister,
        tickets,
        next_ticket_id: old.next_ticket_id,
        round: old.round,
        draw_history,
        emission: Emission {
            emitted_day: old.emitted_day,
            emitted_today: old.emitted_today_lucky_e8s,
            total_rewards_minted: old.total_rewards_minted_lucky_e8s,
        },
        streaks: Table::new(),
        burn_pool_lucky_e8s: 0,
        last_burn_epoch: 0,
        total_burned_lucky_e8s: 0,
        draw_interval_secs: DEFAULT_DRAW_INTERVAL_SECS,
    }
}

/// Reads a lottery state of the format before IGNIS; no IGNIS canister is configured.
pub fn migrate_pre_ignis_state(old: PreIgnisState, now: u64) -> (r: LotteryState)
    ensures
        old.draw_history@.len() <= MAX_DRAW_HISTORY ==> r.wf(),
        r.owner == old.owner && r.token_canister == old.token_canister && r.treasury_canister
            == old.treasury_canister && r.ignis_canister is None,
        tickets_view(r.tickets@) == migrated_tickets(old.tickets@, now),
        r.draw_history@.len() == old.draw_history@.len(),
        forall|i: int|
            0 <= i < old.draw_history@.len() ==> is_migrated_draw(
                #[trigger] r.draw_history@[i],
                old.draw_history@[i],
            ),
        r.streaks@.len() == 0,
        r.next_ticket_id == old.next_ticket_id && r.round == old.round,
        r.emission == (Emission {
            emitted_day: old.emitted_day,
            emitted_today: old.emitted_today_lucky_e8s,
            total_rewards_minted: old.total_rewards_minted_lucky_e8s,
        }),
        fresh_burn_fields(r),
{
    let tickets = migrate_legacy_tickets(&old.tickets, now);
    let draw_history = migrate_draw_history(&old.draw_history);
    LotteryState {
        owner: old.owner,
        token_canister: old.token_canister,
        treasury_canister: old.treasury_canister,
        ignis_canister: None,
        tickets,
        next_ticket_id: old.next_ticket_id,
        round: old.round,
        draw_history,
        emission: Emission {
            emitted_day: old.emitted_day,
            emitted_today: old.emitted_today_lucky_e8s,
            total_rewards_minted: old.total_rewards_minted_lucky_e8s,
        },
        streaks: Table::new(),
        burn_pool_lucky_e8s: 0,
        last_burn_epoch: 0,
        total_burned_lucky_e8s: 0,
        draw_interval_secs: DEFAULT_DRAW_INTERVAL_SECS,
    }
}

/// Reads a lottery state of the first format; the rewards minted start at zero.
pub fn migrate_old_state(old: OldLotteryState, now: u64) -> (r: LotteryState)
    ensures
        old.draw_history@.len() <= MAX_DRAW_HISTORY ==> r.wf(),
        r.owner == old.owner && r.token_canister == old.token_canister && r.treasury_canister
            == old.treasury_canister && r.ignis_canister is None,
        tickets_view(r.tickets@) == migrated_tickets(old.tickets@, now),
        r.draw_history@.len() == old.draw_history@.len(),
        forall|i: int|
            0 <= i < old.draw_history@.len() ==> is_migrated_draw(
                #[trigger] r.draw_history@[i],
                old.draw_history@[i],
            ),
        r.streaks@.len() == 0,
        r.next_ticket_id == old.next_ticket_id && r.round == old.round,
        r.emission == (Emission {
            emitted_day: old.emitted_day,
            emitted_today: old.emitted_today_lucky_e8s,
            total_rewards_minted: 0,
        }),
        fresh_burn_fields(r),
{
    let tickets = migrate_legacy_tickets(&old.tickets, now);
    let draw_history = migrate_draw_history(&old.draw_history);
    LotteryState {
        owner: old.owner,
        token_canister: old.token_canister,
        treasury_canister: old.treasury_canister,
        ignis_canister: None,
        tickets,
        next_ticket_id: old.next_ticket_id,
        round: old.round,
        draw_history,
        emission: Emission {
            emitted_day: old.emitted_day,
            emitted_today: old.emitted_today_lucky_e8s,
            total_rewards_minted: 0,
        },
        streaks: Table::new(),
        burn_pool_lucky_e8s: 0,
        last_burn_epoch: 0,
        total_burned_lucky_e8s: 0,
        draw_interval_secs: DEFAULT_DRAW_INTERVAL_SECS,
    }
}

} // verus!
