//! The lottery: ticket purchases, draws, reward multipliers, the burn pool, and queries.
//!
//! A draw runs in steps around the calls it makes to other canisters: `begin_draw` picks
//! the live tickets, `winner_index` turns randomness into a ticket, `reward_multiplier`
//! combines the boosts, the emission counters reserve the reward, and `finish_draw`
//! records the result. A ticket takes part in every draw for 24 hours after its purchase.
use vstd::prelude::*;
use crate::ids::{copy_bytes, Account, AccountView, PrincipalId, Table};
use crate::digest::{deposit_domain, deposit_subaccount, sha256_spec};
use crate::emission::{
    current_daily_cap, daily_cap_spec, halving_level, halving_level_spec, Emission, DAY_NANOS,
};
use crate::tickets::{
    effective_streak, effective_streak_spec, expiry_spec, is_active, lemma_live_len, live,
    live_tickets, player_count, prune_exhausted, record_streak, streak_after_purchase,
    streak_boost_bps, streak_bonus_for, streaks_ok, ticket_expiry, tickets_view,
    unique_player_count, StreakData, Ticket, TicketView, TICKET_PRICE_E8S,
};
use crate::topups::ClaimResult;
use crate::ignis::DrawEvent;

verus! {

pub const DEFAULT_DRAW_INTERVAL_SECS: u64 = 600;

/// The burn pool (LUCKY minted to the lottery by earlier versions, which kept a part of
/// each reward) is burned at most once a week.
pub const BURN_EPOCH_NANOS: u64 = 7 * DAY_NANOS;

/// The draw history keeps the last 100 draws.
pub const MAX_DRAW_HISTORY: usize = 100;

/// The highest combined reward multiplier, in basis points.
pub const MAX_MULTIPLIER_BPS: u64 = 33_500;

/// The draw interval used when none was configured.
pub fn default_draw_interval() -> (r: u64)
    ensures
        r == DEFAULT_DRAW_INTERVAL_SECS,
{
    DEFAULT_DRAW_INTERVAL_SECS
}

/// Why a lottery request is refused.
pub enum LotteryError {
    WrongPrice,
    TreasuryNotConfigured,
    TokenNotConfigured,
}

impl LotteryError {
    /// The error's text.
    pub fn message(&self) -> (r: String)
        ensures
            r@ == match *self {
                LotteryError::WrongPrice => "Ticket price is 0.001 ICP (100000 e8s)"@,
                LotteryError::TreasuryNotConfigured => "Treasury canister not configured"@,
                LotteryError::TokenNotConfigured => "Token canister not configured"@,
            },
    {
        match self {
            LotteryError::WrongPrice => String::from_str("Ticket price is 0.001 ICP (100000 e8s)"),
            LotteryError::TreasuryNotConfigured => String::from_str("Treasury canister not configured"),
            LotteryError::TokenNotConfigured => String::from_str("Token canister not configured"),
        }
    }
}

/// The outcome of one draw.
pub struct DrawResult {
    pub round: u64,
    pub winner: PrincipalId,
    pub reward_lucky_e8s: u128,
    pub active_tickets: u64,
    pub active_players: u64,
    pub winning_weight_bps: u64,
    pub timestamp: u64,
    pub ticket_principals: Vec<PrincipalId>,
    pub ticket_ids: Vec<u64>,
    pub winning_ticket_id: u64,
}

/// The value of a draw's outcome.
pub struct DrawView {
    pub round: u64,
    pub winner: Seq<u8>,
    pub reward_lucky_e8s: u128,
    pub active_tickets: u64,
    pub active_players: u64,
    pub winning_weight_bps: u64,
    pub timestamp: u64,
    pub ticket_principals: Seq<Seq<u8>>,
    pub ticket_ids: Seq<u64>,
    pub winning_ticket_id: u64,
}

impl View for DrawResult {
    type V = DrawView;

    open spec fn view(&self) -> DrawView {
        DrawView {
            round: self.round,
            winner: self.winner@,
            reward_lucky_e8s: self.reward_lucky_e8s,
            active_tickets: self.active_tickets,
            active_players: self.active_players,
            winning_weight_bps: self.winning_weight_bps,
            timestamp: self.timestamp,
            ticket_principals: self.ticket_principals@.map_values(|p: PrincipalId| p@),
            ticket_ids: self.ticket_ids@,
            winning_ticket_id: self.winning_ticket_id,
        }
    }
}

pub open spec fn history_view(s: Seq<DrawResult>) -> Seq<DrawView> {
    s.map_values(|d: DrawResult| d@)
}

/// The history after recording `d`: appended, the oldest dropped when it would exceed the
/// bound.
pub open spec fn history_after(h: Seq<DrawView>, d: DrawView) -> Seq<DrawView> {
    if h.len() + 1 > MAX_DRAW_HISTORY {
        h.push(d).drop_first()
    } else {
        h.push(d)
    }
}

/// A ticket as shown to its owner.
pub struct TicketInfo {
    pub ticket_id: u64,
    pub purchased_at: u64,
    pub expires_at: u64,
}

/// A player's tickets, multiplier and streak.
pub struct TicketStatus {
    pub active_tickets: u64,
    pub next_expiry: Option<u64>,
    pub boost_bps: u64,
    pub streak_days: u64,
    pub streak_boost_bps: u64,
}

/// A player's purchase streak.
pub struct StreakInfo {
    pub consecutive_days: u64,
    pub streak_boost_bps: u64,
    pub last_purchase_day: u64,
    pub current_day: u64,
    pub streak_alive: bool,
}

/// The lottery's public counters.
pub struct LotteryStats {
    pub round: u64,
    pub active_tickets: u64,
    pub active_players: u64,
    pub emitted_today_lucky_e8s: u128,
    pub daily_cap_lucky_e8s: u128,
    pub total_rewards_minted_lucky_e8s: u128,
    pub halving_level: u64,
    pub burn_pool_lucky_e8s: u128,
    pub total_burned_lucky_e8s: u128,
    pub last_burn_epoch: u64,
}

/// Settings that the owner may change; absent ones are left as they are.
pub struct ConfigureArgs {
    pub token_canister: Option<PrincipalId>,
    pub treasury_canister: Option<PrincipalId>,
    pub ignis_canister: Option<PrincipalId>,
    pub draw_interval_secs: Option<u64>,
}

/// What a draw needs once it has live tickets.
pub struct DrawStart {
    pub token: PrincipalId,
    pub ignis: Option<PrincipalId>,
    pub active: Vec<Ticket>,
}

/// The mint that pays a draw's winner: `amount` e8s of LUCKY to `to`, asked of the token
/// canister `token`.
pub struct MintRequest {
    pub token: PrincipalId,
    pub to: PrincipalId,
    pub amount: u128,
}

impl DrawStart {
    /// The winning ticket for the random number `randomness`: its position (`randomness`
    /// modulo the number of active tickets) and its owner. Only the tickets and the random
    /// number enter the choice, so boosts never change the odds.
    pub fn winner(&self, randomness: u128) -> (r: (usize, PrincipalId))
        requires
            self.active@.len() > 0,
        ensures
            r.0 == randomness % (self.active@.len() as u128),
            r.0 < self.active@.len(),
            r.1@ == self.active@[r.0 as int].owner@,
    {
        let idx = winner_index(randomness, self.active.len());
        (idx, self.active[idx].owner.duplicate())
    }

    /// The mint that pays the owner of ticket `winner_idx` the whole `reward` (the base reward
    /// times the multiplier, as reserved).
    pub fn reward_mint(&self, winner_idx: usize, reward: u128) -> (r: MintRequest)
        requires
            winner_idx < self.active@.len(),
        ensures
            r.token@ == self.token@,
            r.to@ == self.active@[winner_idx as int].owner@,
            r.amount == reward,
    {
        MintRequest {
            token: self.token.duplicate(),
            to: self.active[winner_idx].owner.duplicate(),
            amount: reward,
        }
    }
}

pub struct LotteryState {
    pub owner: PrincipalId,
    pub token_canister: Option<PrincipalId>,
    pub treasury_canister: Option<PrincipalId>,
    pub ignis_canister: Option<PrincipalId>,
    pub tickets: Vec<Ticket>,
    pub next_ticket_id: u64,
    pub round: u64,
    pub draw_history: std::collections::VecDeque<DrawResult>,
    pub emission: Emission,
    pub streaks: Table<PrincipalId, StreakData>,
    pub burn_pool_lucky_e8s: u128,
    pub last_burn_epoch: u64,
    pub total_burned_lucky_e8s: u128,
    pub draw_interval_secs: u64,
}

fn copy_opt(p: &Option<PrincipalId>) -> (r: Option<PrincipalId>)
    ensures
        match *p {
            Some(x) => (r matches Some(y) && y@ == x@),
            None => r is None,
        },
{
    match p {
        Some(x) => Some(x.duplicate()),
        None => None,
    }
}

/// The reward multiplier of a winner: the staking multiplier plus the ritual and streak
/// bonuses, capped at 3.35x.
pub open spec fn multiplier_spec(stake_bps: u64, ritual_bps: u64, streak_bps: u64) -> u64 {
    let sum = stake_bps + ritual_bps + streak_bps;
    if sum > MAX_MULTIPLIER_BPS {
        MAX_MULTIPLIER_BPS
    } else {
        sum as u64
    }
}

pub fn reward_multiplier(stake_bps: u64, ritual_bps: u64, streak_bps: u64) -> (r: u64)
    ensures
        r == multiplier_spec(stake_bps, ritual_bps, streak_bps),
        r <= MAX_MULTIPLIER_BPS,
{
    let m = stake_bps.saturating_add(ritual_bps).saturating_add(streak_bps);
    if m < MAX_MULTIPLIER_BPS {
        m
    } else {
        MAX_MULTIPLIER_BPS
    }
}

/// The staking multiplier from the token's reply: clamped to 1.0x..3.0x, and 1.0x when the
/// token could not be asked.
pub fn stake_boost_from_reply(reply: Option<u64>) -> (r: u64)
    ensures
        10_000 <= r <= 30_000,
        match reply {
            Some(b) => r == (if b < 10_000 {
                10_000
            } else if b > 30_000 {
                30_000
            } else {
                b
            }),
            None => r == 10_000,
        },
{
    match reply {
        Some(b) => if b < 10_000 {
            10_000
        } else if b > 30_000 {
            30_000
        } else {
            b
        },
        None => 10_000,
    }
}

/// The ritual bonus from IGNIS's reply: at most 5%, and nothing when IGNIS could not be asked.
pub fn ritual_boost_from_reply(reply: Option<u64>) -> (r: u64)
    ensures
        r <= 500,
        match reply {
            Some(b) => r == (if b < 500 {
                b
            } else {
                500
            }),
            None => r == 0,
        },
{
    match reply {
        Some(b) => if b < 500 {
            b
        } else {
            500
        },
        None => 0,
    }
}

/// The multiplier shown for a player: the token's reply, or 1.0x when it could not be asked.
pub fn boost_or_default(reply: Option<u64>) -> (r: u64)
    ensures
        r == match reply {
            Some(b) => b,
            None => 10_000,
        },
{
    match reply {
        Some(b) => b,
        None => 10_000,
    }
}

/// `256^n`.
pub open spec fn pow256(n: nat) -> nat
    decreases n,
{
    if n == 0 {
        1
    } else {
        256 * pow256((n - 1) as nat)
    }
}

/// The number whose little-endian bytes are `s`.
pub open spec fn le_value(s: Seq<u8>) -> nat
    decreases s.len(),
{
    if s.len() == 0 {
        0
    } else {
        s[0] as nat + 256 * le_value(s.drop_first())
    }
}

proof fn lemma_le_value_bound(s: Seq<u8>)
    ensures
        le_value(s) < pow256(s.len()),
    decreases s.len(),
{
    if s.len() > 0 {
        lemma_le_value_bound(s.drop_first());
    }
}

proof fn lemma_pow256_monotone(a: nat, b: nat)
    requires
        a <= b,
    ensures
        pow256(a) <= pow256(b),
    decreases b,
{
    if a < b {
        lemma_pow256_monotone(a, (b - 1) as nat);
    }
}

/// The random seed of a draw: the first 16 random bytes (fewer when fewer came, the missing
/// ones counting as zero) read as a little-endian number.
pub fn seed_from_random_bytes(bytes: &Vec<u8>) -> (r: u128)
    ensures
        r == le_value(bytes@.take(if bytes@.len() < 16 {
            bytes@.len() as int
        } else {
            16
        })),
{
    let k: usize = if bytes.len() < 16 {
        bytes.len()
    } else {
        16
    };
    let ghost s = bytes@.take(k as int);
    proof {
        reveal_with_fuel(pow256, 17);
        assert(pow256(16) == 0x1_0000_0000_0000_0000_0000_0000_0000_0000);
        lemma_pow256_monotone(15, 16);
    }
    let mut acc: u128 = 0;
    let mut i: usize = k;
    assert(s.subrange(k as int, k as int) =~= Seq::<u8>::empty());
    while i > 0
        invariant
            k <= 16,
            k <= bytes@.len(),
            s == bytes@.take(k as int),
            0 <= i <= k,
            acc == le_value(s.subrange(i as int, k as int)),
            pow256(16) == 0x1_0000_0000_0000_0000_0000_0000_0000_0000,
        decreases i,
    {
        let ghost rest = s.subrange(i as int, k as int);
        proof {
            lemma_le_value_bound(rest);
            lemma_pow256_monotone(rest.len(), 15);
            assert(s.subrange(i - 1, k as int).drop_first() =~= rest);
        }
        let b = bytes[i - 1];
        acc = acc * 256 + b as u128;
        i -= 1;
    }
    assert(s.subrange(0, k as int) =~= s);
    acc
}

/// The winning ticket's position: the random number modulo the number of live tickets,
/// so every ticket has the same chance whatever its owner's boosts.
pub fn winner_index(randomness: u128, ticket_count: usize) -> (r: usize)
    requires
        ticket_count > 0,
    ensures
        r == randomness % (ticket_count as u128),
        r < ticket_count,
{
    (randomness % (ticket_count as u128)) as usize
}

/// The IGNIS burn notice a purchase triggers: its burn share, when the distribution
/// is complete and the share is not zero.
pub fn burn_notice(claim: &ClaimResult) -> (r: Option<u64>)
    ensures
        r == (if claim.burn_e8s > 0 && claim.distribution_complete {
            Some(claim.burn_e8s)
        } else {
            None::<u64>
        }),
{
    if claim.burn_e8s > 0 && claim.distribution_complete {
        Some(claim.burn_e8s)
    } else {
        None
    }
}

pub open spec fn streak_of(m: Map<Seq<u8>, StreakData>, p: Seq<u8>) -> StreakData {
    if m.contains_key(p) {
        m[p]
    } else {
        StreakData { last_purchase_day: 0, consecutive_days: 0 }
    }
}

/// The tickets of `user` that are active at `now`, in order.
pub open spec fn user_live(s: Seq<TicketView>, user: Seq<u8>, now: u64) -> Seq<TicketView>
    decreases s.len(),
{
    if s.len() == 0 {
        s
    } else {
        user_live(s.drop_last(), user, now) + if is_active(s.last(), now) && s.last().owner
            == user {
            seq![s.last()]
        } else {
            Seq::empty()
        }
    }
}

/// The earliest expiry among the tickets.
pub open spec fn earliest_expiry(s: Seq<TicketView>) -> Option<u64>
    decreases s.len(),
{
    if s.len() == 0 {
        None
    } else {
        match earliest_expiry(s.drop_last()) {
            Some(m) => Some(if s.last().expires_at < m {
                s.last().expires_at
            } else {
                m
            }),
            None => Some(s.last().expires_at),
        }
    }
}

proof fn lemma_user_live_len(s: Seq<TicketView>, user: Seq<u8>, now: u64)
    ensures
        user_live(s, user, now).len() <= s.len(),
    decreases s.len(),
{
    if s.len() > 0 {
        lemma_user_live_len(s.drop_last(), user, now);
    }
}

/// The tickets of `user` that are active at `now`.
fn user_tickets(tickets: &Vec<Ticket>, user: &PrincipalId, now: u64) -> (r: Vec<TicketInfo>)
    ensures
        r@.len() == user_live(tickets_view(tickets@), user@, now).len(),
        forall|i: int|
            0 <= i < r@.len() ==> {
                let t = #[trigger] user_live(tickets_view(tickets@), user@, now)[i];
                &&& r@[i].ticket_id == t.id
                &&& r@[i].purchased_at == t.purchased_at
                &&& r@[i].expires_at == t.expires_at
            },
        earliest_expiry(user_live(tickets_view(tickets@), user@, now)) == earliest_of_infos(r@),
{
    let mut out: Vec<TicketInfo> = Vec::new();
    let mut i: usize = 0;
    while i < tickets.len()
        invariant
            0 <= i <= tickets@.len(),
            out@.len() == user_live(tickets_view(tickets@.subrange(0, i as int)), user@, now).len(),
            forall|k: int|
                0 <= k < out@.len() ==> {
                    let t = #[trigger] user_live(
                        tickets_view(tickets@.subrange(0, i as int)),
                        user@,
                        now,
                    )[k];
                    &&& out@[k].ticket_id == t.id
                    &&& out@[k].purchased_at == t.purchased_at
                    &&& out@[k].expires_at == t.expires_at
                },
            earliest_expiry(user_live(tickets_view(tickets@.subrange(0, i as int)), user@, now))
                == earliest_of_infos(out@),
        decreases tickets@.len() - i,
    {
        let ghost prev = tickets_view(tickets@.subrange(0, i as int));
        let ghost next = tickets_view(tickets@.subrange(0, i as int + 1));
        assert(next.drop_last() =~= prev);
        assert(next.last() == tickets@[i as int]@);
        let ghost before = out@;
        if now < tickets[i].expires_at && tickets[i].owner.same(user) {
            out.push(
                TicketInfo {
                    ticket_id: tickets[i].id,
                    purchased_at: tickets[i].purchased_at,
                    expires_at: tickets[i].expires_at,
                },
            );
            proof {
                let ul = user_live(next, user@, now);
                assert(ul =~= user_live(prev, user@, now).push(tickets@[i as int]@));
                assert(ul.drop_last() =~= user_live(prev, user@, now));
                assert(out@.drop_last() =~= before);
            }
        } else {
            assert(user_live(next, user@, now) =~= user_live(prev, user@, now));
        }
        i += 1;
    }
    assert(tickets@.subrange(0, tickets@.len() as int) =~= tickets@);
    out
}

/// The earliest expiry among the ticket summaries.
pub open spec fn earliest_of_infos(s: Seq<TicketInfo>) -> Option<u64>
    decreases s.len(),
{
    if s.len() == 0 {
        None
    } else {
        match earliest_of_infos(s.drop_last()) {
            Some(m) => Some(if s.last().expires_at < m {
                s.last().expires_at
            } else {
                m
            }),
            None => Some(s.last().expires_at),
        }
    }
}

fn earliest_expiry_of(infos: &Vec<TicketInfo>) -> (r: Option<u64>)
    ensures
        r == earliest_of_infos(infos@),
{
    let mut best: Option<u64> = None;
    let mut i: usize = 0;
    while i < infos.len()
        invariant
            0 <= i <= infos@.len(),
            best == earliest_of_infos(infos@.subrange(0, i as int)),
        decreases infos@.len() - i,
    {
        assert(infos@.subrange(0, i as int + 1).drop_last() =~= infos@.subrange(0, i as int));
        let d = infos[i].expires_at;
        best = match best {
            Some(m) => Some(if d < m {
                d
            } else {
                m
            }),
            None => Some(d),
        };
        i += 1;
    }
    assert(infos@.subrange(0, infos@.len() as int) =~= infos@);
    best
}

impl LotteryState {
    pub open spec fn wf(&self) -> bool {
        &&& streaks_ok(self.streaks)
        &&& self.draw_history@.len() <= MAX_DRAW_HISTORY
    }

    pub fn new(owner: PrincipalId) -> (s: LotteryState)
        ensures
            s.wf(),
            s.owner@ == owner@,
            s.token_canister is None && s.treasury_canister is None && s.ignis_canister is None,
            s.tickets@.len() == 0 && s.draw_history@.len() == 0,
            s.next_ticket_id == 0 && s.round == 0,
            s.emission == (Emission { emitted_day: 0, emitted_today: 0, total_rewards_minted: 0 }),
            s.streaks@.len() == 0,
            s.burn_pool_lucky_e8s == 0 && s.last_burn_epoch == 0 && s.total_burned_lucky_e8s == 0,
            s.draw_interval_secs == DEFAULT_DRAW_INTERVAL_SECS,
    {
        LotteryState {
            owner,
            token_canister: None,
            treasury_canister: None,
            ignis_canister: None,
            tickets: Vec::new(),
            next_ticket_id: 0,
            round: 0,
            draw_history: std::collections::VecDeque::new(),
            emission: Emission::new(),
            streaks: Table::new(),
            burn_pool_lucky_e8s: 0,
            last_burn_epoch: 0,
            total_burned_lucky_e8s: 0,
            draw_interval_secs: DEFAULT_DRAW_INTERVAL_SECS,
        }
    }

    /// Lets the owner change the settings. `None` when the caller is not the owner;
    /// otherwise whether the draw timer must be rescheduled (a new, non-zero interval).
    pub fn configure(&mut self, caller: &PrincipalId, args: ConfigureArgs) -> (r: Option<bool>)
        requires
            old(self).wf(),
        ensures
            final(self).wf(),
            caller@ != old(self).owner@ ==> r is None && *final(self) == *old(self),
            caller@ == old(self).owner@ ==> {
                let new_interval = match args.draw_interval_secs {
                    Some(i) => i > 0 && i != old(self).draw_interval_secs,
                    None => false,
                };
                &&& r == Some(new_interval)
                &&& final(self).draw_interval_secs == if new_interval {
                    args.draw_interval_secs->0
                } else {
                    old(self).draw_interval_secs
                }
                &&& final(self).token_canister == (if args.token_canister is Some {
                    args.token_canister
                } else {
                    old(self).token_canister
                })
                &&& final(self).treasury_canister == (if args.treasury_canister is Some {
                    args.treasury_canister
                } else {
                    old(self).treasury_canister
                })
                &&& final(self).ignis_canister == (if args.ignis_canister is Some {
                    args.ignis_canister
                } else {
                    old(self).ignis_canister
                })
                &&& final(self).owner == old(self).owner
                &&& final(self).tickets == old(self).tickets
                &&& final(self).emission == old(self).emission
                &&& final(self).streaks == old(self).streaks
            },
    {
        if !caller.same(&self.owner) {
            return None;
        }
        let ConfigureArgs { token_canister, treasury_canister, ignis_canister, draw_interval_secs } =
            args;
        if token_canister.is_some() {
            self.token_canister = token_canister;
        }
        if treasury_canister.is_some() {
            self.treasury_canister = treasury_canister;
        }
        if ignis_canister.is_some() {
            self.ignis_canister = ignis_canister;
        }
        let mut reschedule = false;
        if let Some(interval) = draw_interval_secs {
            if interval > 0 && interval != self.draw_interval_secs {
                self.draw_interval_secs = interval;
                reschedule = true;
            }
        }
        Some(reschedule)
    }

    /// The treasury account into which `user` pays for tickets.
    pub fn deposit_account(&self, user: &PrincipalId) -> (r: Result<Account, LotteryError>)
        ensures
            match self.treasury_canister {
                Some(t) => (r matches Ok(a) && a@ == AccountView {
                    owner: t@,
                    subaccount: Some(sha256_spec(deposit_domain() + user@)),
                }),
                None => (r matches Err(LotteryError::TreasuryNotConfigured)),
            },
    {
        match &self.treasury_canister {
            Some(t) => Ok(
                Account { owner: t.duplicate(), subaccount: Some(deposit_subaccount(user)) },
            ),
            None => Err(LotteryError::TreasuryNotConfigured),
        }
    }

    /// Checks a purchase of `amount_e8s` before the treasury is asked: the amount must be the
    /// ticket price, and the treasury to claim from must be configured.
    pub fn prepare_purchase(&self, amount_e8s: u64) -> (r: Result<PrincipalId, LotteryError>)
        ensures
            amount_e8s != TICKET_PRICE_E8S ==> (r matches Err(LotteryError::WrongPrice)),
            amount_e8s == TICKET_PRICE_E8S ==> match self.treasury_canister {
                Some(t) => (r matches Ok(p) && p@ == t@),
                None => (r matches Err(LotteryError::TreasuryNotConfigured)),
            },
    {
        if amount_e8s != TICKET_PRICE_E8S {
            return Err(LotteryError::WrongPrice);
        }
        match &self.treasury_canister {
            Some(t) => Ok(t.duplicate()),
            None => Err(LotteryError::TreasuryNotConfigured),
        }
    }

    /// Records a paid ticket for `buyer` at `now`, active for the next 24 hours; drops
    /// expired tickets and extends the buyer's purchase streak.
    pub fn record_purchase(&mut self, buyer: PrincipalId, now: u64)
        requires
            old(self).wf(),
            old(self).next_ticket_id < u64::MAX,
        ensures
            final(self).wf(),
            final(self).next_ticket_id == old(self).next_ticket_id + 1,
            tickets_view(final(self).tickets@) == live(
                tickets_view(old(self).tickets@).push(
                    TicketView {
                        id: old(self).next_ticket_id,
                        owner: buyer@,
                        purchased_at: now,
                        expires_at: expiry_spec(now),
                    },
                ),
                now,
            ),
            final(self).streaks@ == old(self).streaks@.insert(
                buyer@,
                streak_after_purchase(streak_of(old(self).streaks@, buyer@), now / DAY_NANOS),
            ),
            final(self).owner == old(self).owner,
            final(self).token_canister == old(self).token_canister,
            final(self).treasury_canister == old(self).treasury_canister,
            final(self).ignis_canister == old(self).ignis_canister,
            final(self).round == old(self).round,
            final(self).emission == old(self).emission,
            final(self).draw_history == old(self).draw_history,
            final(self).burn_pool_lucky_e8s == old(self).burn_pool_lucky_e8s,
            final(self).last_burn_epoch == old(self).last_burn_epoch,
            final(self).total_burned_lucky_e8s == old(self).total_burned_lucky_e8s,
            final(self).draw_interval_secs == old(self).draw_interval_secs,
    {
        let ticket_id = self.next_ticket_id;
        self.next_ticket_id = ticket_id + 1;
        let today = now / DAY_NANOS;
        record_streak(&mut self.streaks, &buyer, today);
        let ghost before = self.tickets@;
        let expires_at = ticket_expiry(now);
        self.tickets.push(Ticket { id: ticket_id, owner: buyer, purchased_at: now, expires_at });
        assert(tickets_view(self.tickets@) =~= tickets_view(before).push(self.tickets@.last()@));
        prune_exhausted(&mut self.tickets, now);
    }

    /// Starts a draw at `now`: drops expired tickets and hands out the active ones, with
    /// the token and IGNIS canisters. `Ok(None)` when no ticket is active. Nothing but the
    /// tickets changes.
    pub fn begin_draw(&mut self, now: u64) -> (r: Result<Option<DrawStart>, LotteryError>)
        requires
            old(self).wf(),
        ensures
            final(self).wf(),
            tickets_view(final(self).tickets@) == live(tickets_view(old(self).tickets@), now),
            final(self).owner == old(self).owner,
            final(self).token_canister == old(self).token_canister,
            final(self).treasury_canister == old(self).treasury_canister,
            final(self).ignis_canister == old(self).ignis_canister,
            final(self).next_ticket_id == old(self).next_ticket_id,
            final(self).round == old(self).round,
            final(self).draw_history == old(self).draw_history,
            final(self).emission == old(self).emission,
            final(self).streaks == old(self).streaks,
            final(self).burn_pool_lucky_e8s == old(self).burn_pool_lucky_e8s,
            final(self).last_burn_epoch == old(self).last_burn_epoch,
            final(self).total_burned_lucky_e8s == old(self).total_burned_lucky_e8s,
            final(self).draw_interval_secs == old(self).draw_interval_secs,
            live(tickets_view(old(self).tickets@), now).len() == 0 ==> (r matches Ok(None)),
            live(tickets_view(old(self).tickets@), now).len() > 0 ==> match old(self).token_canister {
                None => (r matches Err(LotteryError::TokenNotConfigured)),
                Some(t) => (r matches Ok(Some(d)) && d.token@ == t@ && tickets_view(d.active@)
                    == live(tickets_view(old(self).tickets@), now) && match old(self).ignis_canister {
                    Some(i) => (d.ignis matches Some(j) && j@ == i@),
                    None => d.ignis is None,
                }),
            },
    {
        prune_exhausted(&mut self.tickets, now);
        let active = live_tickets(&self.tickets, now);
        proof {
            crate::tickets::lemma_live_idempotent(tickets_view(old(self).tickets@), now);
        }
        if active.len() == 0 {
            return Ok(None);
        }
        let token = match &self.token_canister {
            Some(t) => t.duplicate(),
            None => {
                return Err(LotteryError::TokenNotConfigured);
            },
        };
        Ok(Some(DrawStart { token, ignis: copy_opt(&self.ignis_canister), active }))
    }

    /// The streak bonus of `winner` for a draw at `now`.
    pub fn streak_bonus(&self, winner: &PrincipalId, now: u64) -> (r: u64)
        requires
            self.wf(),
        ensures
            r == streak_bonus_for(effective_streak_spec(self.streaks@, winner@, now / DAY_NANOS)),
    {
        streak_boost_bps(effective_streak(&self.streaks, winner, now / DAY_NANOS))
    }

    /// Records a draw won by ticket `winner_idx` of `active` with `reward` at `now`: the round
    /// advances and the result joins the (bounded) history. The tickets stay as they are.
    pub fn finish_draw(
        &mut self,
        active: &Vec<Ticket>,
        winner_idx: usize,
        active_players: u64,
        reward: u128,
        multiplier_bps: u64,
        now: u64,
    ) -> (r: DrawResult)
        requires
            old(self).wf(),
            old(self).round < u64::MAX,
            winner_idx < active@.len(),
            active@.len() <= u64::MAX,
        ensures
            final(self).wf(),
            final(self).round == old(self).round + 1,
            r.round == final(self).round,
            r.winner@ == active@[winner_idx as int].owner@,
            r.winning_ticket_id == active@[winner_idx as int].id,
            r.reward_lucky_e8s == reward,
            r.active_tickets == active@.len(),
            r.active_players == active_players,
            r.winning_weight_bps == multiplier_bps,
            r.timestamp == now,
            r.ticket_ids@.len() == active@.len(),
            r.ticket_principals@.len() == active@.len(),
            forall|i: int|
                0 <= i < active@.len() ==> #[trigger] r.ticket_ids@[i] == active@[i].id
                    && r.ticket_principals@[i]@ == active@[i].owner@,
            history_view(final(self).draw_history@) == history_after(
                history_view(old(self).draw_history@),
                r@,
            ),
            final(self).tickets == old(self).tickets,
            final(self).owner == old(self).owner,
            final(self).token_canister == old(self).token_canister,
            final(self).treasury_canister == old(self).treasury_canister,
            final(self).ignis_canister == old(self).ignis_canister,
            final(self).next_ticket_id == old(self).next_ticket_id,
            final(self).emission == old(self).emission,
            final(self).streaks == old(self).streaks,
            final(self).burn_pool_lucky_e8s == old(self).burn_pool_lucky_e8s,
            final(self).last_burn_epoch == old(self).last_burn_epoch,
            final(self).total_burned_lucky_e8s == old(self).total_burned_lucky_e8s,
            final(self).draw_interval_secs == old(self).draw_interval_secs,
    {
        self.round = self.round + 1;
        let mut principals: Vec<PrincipalId> = Vec::new();
        let mut ids: Vec<u64> = Vec::new();
        let mut i: usize = 0;
        while i < active.len()
            invariant
                0 <= i <= active@.len(),
                principals@.len() == i,
                ids@.len() == i,
                forall|j: int|
                    0 <= j < i ==> #[trigger] ids@[j] == active@[j].id && principals@[j]@
                        == active@[j].owner@,
            decreases active@.len() - i,
        {
            principals.push(active[i].owner.duplicate());
            ids.push(active[i].id);
            i += 1;
        }
        let result = DrawResult {
            round: self.round,
            winner: active[winner_idx].owner.duplicate(),
            reward_lucky_e8s: reward,
            active_tickets: active.len() as u64,
            active_players,
            winning_weight_bps: multiplier_bps,
            timestamp: now,
            ticket_principals: principals,
            ticket_ids: ids,
            winning_ticket_id: active[winner_idx].id,
        };
        let ghost h0 = self.draw_history@;
        let entry = result.duplicate();
        self.draw_history.push_back(entry);
        assert(history_view(self.draw_history@) =~= history_view(h0).push(result@));
        if self.draw_history.len() > MAX_DRAW_HISTORY {
            let ghost h1 = self.draw_history@;
            self.draw_history.pop_front();
            assert(history_view(self.draw_history@) =~= history_view(h1).drop_first());
        }
        result
    }

    /// The burn pool to burn at `now`, with the token canister: only when the pool is not
    /// empty, a week has passed since the last burn, and the token is configured.
    pub fn burn_due(&self, now: u64) -> (r: Option<(u128, PrincipalId)>)
        ensures
            ({
                let elapsed = if now >= self.last_burn_epoch {
                    now - self.last_burn_epoch
                } else {
                    0
                };
                if self.burn_pool_lucky_e8s == 0 || elapsed < BURN_EPOCH_NANOS {
                    r is None
                } else {
                    match self.token_canister {
                        Some(t) => (r matches Some((pool, p)) && pool == self.burn_pool_lucky_e8s && p@
                            == t@),
                        None => r is None,
                    }
                }
            }),
    {
        if self.burn_pool_lucky_e8s == 0 || now.saturating_sub(self.last_burn_epoch) < BURN_EPOCH_NANOS {
            return None;
        }
        match &self.token_canister {
            Some(t) => Some((self.burn_pool_lucky_e8s, t.duplicate())),
            None => None,
        }
    }

    /// Records that the burn pool of `pool` e8s was burned at `now`.
    pub fn record_epoch_burn(&mut self, pool: u128, now: u64)
        requires
            old(self).total_burned_lucky_e8s + pool <= u128::MAX,
        ensures
            final(self).total_burned_lucky_e8s == old(self).total_burned_lucky_e8s + pool,
            final(self).burn_pool_lucky_e8s == 0,
            final(self).last_burn_epoch == now,
            final(self).tickets == old(self).tickets,
            final(self).emission == old(self).emission,
            final(self).streaks == old(self).streaks,
            final(self).draw_history == old(self).draw_history,
            final(self).round == old(self).round,
    {
        self.total_burned_lucky_e8s = self.total_burned_lucky_e8s + pool;
        self.burn_pool_lucky_e8s = 0;
        self.last_burn_epoch = now;
    }

    /// Forgets today's emission (an owner's reset).
    pub fn reset_daily_emission(&mut self)
        ensures
            final(self).emission.emitted_today == 0,
            final(self).emission.emitted_day == 0,
            final(self).emission.total_rewards_minted == old(self).emission.total_rewards_minted,
            final(self).tickets == old(self).tickets,
            final(self).streaks == old(self).streaks,
            final(self).draw_history == old(self).draw_history,
    {
        self.emission.emitted_today = 0;
        self.emission.emitted_day = 0;
    }

    /// The number of tickets active at `now`.
    pub fn active_ticket_count(&self, now: u64) -> (r: u64)
        requires
            self.tickets@.len() <= u64::MAX,
        ensures
            r == live(tickets_view(self.tickets@), now).len(),
    {
        let active = live_tickets(&self.tickets, now);
        proof {
            lemma_live_len(tickets_view(self.tickets@), now);
        }
        active.len() as u64
    }

    /// The number of distinct players holding tickets active at `now`.
    pub fn active_player_count(&self, now: u64) -> (r: u64)
        requires
            self.tickets@.len() <= u64::MAX,
        ensures
            r == player_count(live(tickets_view(self.tickets@), now)),
    {
        let active = live_tickets(&self.tickets, now);
        proof {
            lemma_live_len(tickets_view(self.tickets@), now);
        }
        unique_player_count(&active)
    }

    /// `user`'s tickets active at `now`.
    pub fn my_tickets(&self, user: &PrincipalId, now: u64) -> (r: Vec<TicketInfo>)
        ensures
            r@.len() == user_live(tickets_view(self.tickets@), user@, now).len(),
            forall|i: int|
                0 <= i < r@.len() ==> {
                    let t = #[trigger] user_live(tickets_view(self.tickets@), user@, now)[i];
                    &&& r@[i].ticket_id == t.id
                    &&& r@[i].purchased_at == t.purchased_at
                    &&& r@[i].expires_at == t.expires_at
                },
    {
        user_tickets(&self.tickets, user, now)
    }

    /// `user`'s tickets active at `now`, the earliest of their expiries, the staking
    /// multiplier `boost_bps` (as the token reported it), and the streak as of `now`'s day.
    pub fn ticket_status(&self, user: &PrincipalId, boost_bps: u64, now: u64) -> (r: TicketStatus)
        requires
            self.wf(),
            self.tickets@.len() <= u64::MAX,
        ensures
            r.active_tickets == user_live(tickets_view(self.tickets@), user@, now).len(),
            r.next_expiry == earliest_expiry(user_live(tickets_view(self.tickets@), user@, now)),
            r.boost_bps == boost_bps,
            r.streak_days == effective_streak_spec(self.streaks@, user@, now / DAY_NANOS),
            r.streak_boost_bps == streak_bonus_for(r.streak_days),
    {
        let infos = user_tickets(&self.tickets, user, now);
        proof {
            lemma_user_live_len(tickets_view(self.tickets@), user@, now);
        }
        let next_expiry = earliest_expiry_of(&infos);
        let days = effective_streak(&self.streaks, user, now / DAY_NANOS);
        TicketStatus {
            active_tickets: infos.len() as u64,
            next_expiry,
            boost_bps,
            streak_days: days,
            streak_boost_bps: streak_boost_bps(days),
        }
    }

    /// `user`'s purchase streak as of day `today`.
    pub fn streak_info(&self, user: &PrincipalId, today: u64) -> (r: StreakInfo)
        requires
            self.wf(),
        ensures
            r.consecutive_days == effective_streak_spec(self.streaks@, user@, today),
            r.streak_boost_bps == streak_bonus_for(r.consecutive_days),
            r.last_purchase_day == streak_of(self.streaks@, user@).last_purchase_day,
            r.current_day == today,
            r.streak_alive == (r.last_purchase_day == today || r.last_purchase_day + 1 == today),
    {
        let consecutive = effective_streak(&self.streaks, user, today);
        let last_day = match self.streaks.get(user) {
            Some(d) => d.last_purchase_day,
            None => 0,
        };
        let alive = last_day == today || last_day + 1 == today;
        StreakInfo {
            consecutive_days: consecutive,
            streak_boost_bps: streak_boost_bps(consecutive),
            last_purchase_day: last_day,
            current_day: today,
            streak_alive: alive,
        }
    }

    /// The lottery's public counters at `now`.
    pub fn stats(&self, now: u64) -> (r: LotteryStats)
        requires
            self.tickets@.len() <= u64::MAX,
        ensures
            r.round == self.round,
            r.active_tickets == live(tickets_view(self.tickets@), now).len(),
            r.active_players == player_count(live(tickets_view(self.tickets@), now)),
            r.emitted_today_lucky_e8s == self.emission.emitted_today,
            r.daily_cap_lucky_e8s == daily_cap_spec(self.emission.total_rewards_minted),
            r.total_rewards_minted_lucky_e8s == self.emission.total_rewards_minted,
            r.halving_level == halving_level_spec(self.emission.total_rewards_minted),
            r.burn_pool_lucky_e8s == self.burn_pool_lucky_e8s,
            r.total_burned_lucky_e8s == self.total_burned_lucky_e8s,
            r.last_burn_epoch == self.last_burn_epoch,
    {
        LotteryStats {
            round: self.round,
            active_tickets: self.active_ticket_count(now),
            active_players: self.active_player_count(now),
            emitted_today_lucky_e8s: self.emission.emitted_today,
            daily_cap_lucky_e8s: current_daily_cap(self.emission.total_rewards_minted),
            total_rewards_minted_lucky_e8s: self.emission.total_rewards_minted,
            halving_level: halving_level(self.emission.total_rewards_minted) as u64,
            burn_pool_lucky_e8s: self.burn_pool_lucky_e8s,
            total_burned_lucky_e8s: self.total_burned_lucky_e8s,
            last_burn_epoch: self.last_burn_epoch,
        }
    }

    /// Copies of the recorded draws, oldest first.
    pub fn draw_history_copy(&self) -> (r: Vec<DrawResult>)
        ensures
            history_view(r@) == history_view(self.draw_history@),
    {
        let mut out: Vec<DrawResult> = Vec::new();
        let mut i: usize = 0;
        while i < self.draw_history.len()
            invariant
                0 <= i <= self.draw_history@.len(),
                out@.len() == i,
                forall|j: int| 0 <= j < i ==> #[trigger] out@[j]@ == self.draw_history@[j]@,
            decreases self.draw_history@.len() - i,
        {
            out.push(self.draw_history[i].duplicate());
            i += 1;
        }
        assert(history_view(out@) =~= history_view(self.draw_history@));
        out
    }
}

/// The draw as the lottery reports it to IGNIS.
pub type IgnisDrawEvent = DrawEvent;

impl DrawResult {
    /// What IGNIS is told of this draw; the lottery's draws are never won by IGNIS.
    pub fn ignis_event(&self) -> (r: IgnisDrawEvent)
        ensures
            r.round == self.round && r.winner@ == self.winner@ && r.reward_lucky_e8s
                == self.reward_lucky_e8s && r.active_tickets == self.active_tickets
                && r.active_players == self.active_players && r.winning_weight_bps
                == self.winning_weight_bps && r.timestamp == self.timestamp && !r.ignis_won,
    {
        DrawEvent {
            round: self.round,
            winner: self.winner.duplicate(),
            reward_lucky_e8s: self.reward_lucky_e8s,
            active_tickets: self.active_tickets,
            active_players: self.active_players,
            winning_weight_bps: self.winning_weight_bps,
            timestamp: self.timestamp,
            ignis_won: false,
        }
    }

    pub fn duplicate(&self) -> (r: DrawResult)
        ensures
            r@ == self@,
    {
        let mut principals: Vec<PrincipalId> = Vec::new();
        let mut i: usize = 0;
        while i < self.ticket_principals.len()
            invariant
                0 <= i <= self.ticket_principals@.len(),
                principals@.len() == i,
                forall|j: int|
                    0 <= j < i ==> #[trigger] principals@[j]@ == self.ticket_principals@[j]@,
            decreases self.ticket_principals@.len() - i,
        {
            principals.push(self.ticket_principals[i].duplicate());
            i += 1;
        }
        assert(principals@.map_values(|p: PrincipalId| p@) =~= self.ticket_principals@.map_values(
            |p: PrincipalId| p@,
        ));
        DrawResult {
            round: self.round,
            winner: self.winner.duplicate(),
            reward_lucky_e8s: self.reward_lucky_e8s,
            active_tickets: self.active_tickets,
            active_players: self.active_players,
            winning_weight_bps: self.winning_weight_bps,
            timestamp: self.timestamp,
            ticket_principals: principals,
            ticket_ids: self.ticket_ids.clone(),
            winning_ticket_id: self.winning_ticket_id,
        }
    }
}

} // verus!
