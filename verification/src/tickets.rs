//! Lottery tickets: the price, the day a ticket stays active, which tickets are active,
//! who plays, and purchase streaks.
use vstd::prelude::*;
use crate::ids::{PrincipalId, Table};

verus! {

/// A ticket costs 0.001 ICP.
pub const TICKET_PRICE_E8S: u64 = 100_000;

/// A ticket takes part in the draws for 24 hours after it is bought.
pub const TICKET_DURATION_NANOS: u64 = 86_400_000_000_000;

pub const STREAK_BOOST_3: u64 = 500;

pub const STREAK_BOOST_7: u64 = 1_500;

pub const STREAK_BOOST_14: u64 = 2_500;

pub const STREAK_BOOST_30: u64 = 3_000;

/// When a ticket bought at `purchased_at` expires: 24 hours later (or at the end of time).
pub open spec fn expiry_spec(purchased_at: u64) -> u64 {
    if purchased_at + TICKET_DURATION_NANOS > u64::MAX {
        u64::MAX
    } else {
        (purchased_at + TICKET_DURATION_NANOS) as u64
    }
}

pub fn ticket_expiry(purchased_at: u64) -> (r: u64)
    ensures
        r == expiry_spec(purchased_at),
{
    purchased_at.saturating_add(TICKET_DURATION_NANOS)
}

/// A ticket's value: its id, owner, when it was bought, and when it expires.
pub struct TicketView {
    pub id: u64,
    pub owner: Seq<u8>,
    pub purchased_at: u64,
    pub expires_at: u64,
}

pub struct Ticket {
    pub id: u64,
    pub owner: PrincipalId,
    pub purchased_at: u64,
    pub expires_at: u64,
}

impl View for Ticket {
    type V = TicketView;

    open spec fn view(&self) -> TicketView {
        TicketView {
            id: self.id,
            owner: self.owner@,
            purchased_at: self.purchased_at,
            expires_at: self.expires_at,
        }
    }
}

impl Ticket {
    pub fn duplicate(&self) -> (r: Ticket)
        ensures
            r@ == self@,
    {
        Ticket {
            id: self.id,
            owner: self.owner.duplicate(),
            purchased_at: self.purchased_at,
            expires_at: self.expires_at,
        }
    }
}

pub open spec fn tickets_view(s: Seq<Ticket>) -> Seq<TicketView> {
    s.map_values(|t: Ticket| t@)
}

/// Whether a ticket takes part in a draw at `now`.
pub open spec fn is_active(t: TicketView, now: u64) -> bool {
    now < t.expires_at
}

/// The tickets that are active at `now`, in order.
pub open spec fn live(s: Seq<TicketView>, now: u64) -> Seq<TicketView>
    decreases s.len(),
{
    if s.len() == 0 {
        s
    } else {
        live(s.drop_last(), now) + if is_active(s.last(), now) {
            seq![s.last()]
        } else {
            Seq::empty()
        }
    }
}

/// A ticket bought at `bought` is active at a later `now` exactly while less than 24 hours
/// have passed (when its expiry does not reach past the end of time).
pub proof fn lemma_ticket_lasts_a_day(id: u64, owner: Seq<u8>, bought: u64, now: u64)
    requires
        bought <= now,
        bought + TICKET_DURATION_NANOS <= u64::MAX,
    ensures
        is_active(
            TicketView { id, owner, purchased_at: bought, expires_at: expiry_spec(bought) },
            now,
        ) <==> now - bought < TICKET_DURATION_NANOS,
{
}

/// Adding a ticket adds it to the active ones exactly when it is active, whatever the
/// tickets before it.
pub proof fn lemma_live_push(s: Seq<TicketView>, t: TicketView, now: u64)
    ensures
        live(s.push(t), now) == live(s, now) + if is_active(t, now) {
            seq![t]
        } else {
            Seq::<TicketView>::empty()
        },
{
    assert(s.push(t).drop_last() =~= s);
}

proof fn lemma_prefix_views(s: Seq<Ticket>, i: int)
    requires
        0 <= i < s.len(),
    ensures
        tickets_view(s.subrange(0, i + 1)).drop_last() == tickets_view(s.subrange(0, i)),
        tickets_view(s.subrange(0, i + 1)).last() == s[i]@,
{
    assert(tickets_view(s.subrange(0, i + 1)).drop_last() =~= tickets_view(s.subrange(0, i)));
}

pub proof fn lemma_live_concat(a: Seq<TicketView>, b: Seq<TicketView>, now: u64)
    ensures
        live(a + b, now) == live(a, now) + live(b, now),
    decreases b.len(),
{
    if b.len() == 0 {
        assert(a + b =~= a);
        assert(live(a, now) + live(b, now) =~= live(a, now));
    } else {
        assert((a + b).drop_last() =~= a + b.drop_last());
        lemma_live_concat(a, b.drop_last(), now);
        let t = if is_active(b.last(), now) {
            seq![b.last()]
        } else {
            Seq::<TicketView>::empty()
        };
        assert(live(a, now) + live(b.drop_last(), now) + t =~= live(a, now) + (live(
            b.drop_last(),
            now,
        ) + t));
    }
}

/// A ticket that has expired stays expired: keeping the tickets active at `earlier` and
/// then those active at `later` keeps those active at `later`.
pub proof fn lemma_live_later(s: Seq<TicketView>, earlier: u64, later: u64)
    requires
        earlier <= later,
    ensures
        live(live(s, earlier), later) == live(s, later),
    decreases s.len(),
{
    if s.len() > 0 {
        lemma_live_later(s.drop_last(), earlier, later);
        let t = if is_active(s.last(), earlier) {
            seq![s.last()]
        } else {
            Seq::<TicketView>::empty()
        };
        lemma_live_concat(live(s.drop_last(), earlier), t, later);
        if is_active(s.last(), earlier) {
            assert(t.drop_last() =~= Seq::<TicketView>::empty());
            assert(live(t.drop_last(), later).len() == 0);
            assert(t.last() == s.last());
            if is_active(s.last(), later) {
                assert(live(t, later) =~= t);
            } else {
                assert(live(t, later) =~= Seq::<TicketView>::empty());
            }
        } else {
            assert(live(t, later) =~= t);
        }
    }
}

/// Dropping expired tickets twice at the same time is the same as once.
pub proof fn lemma_live_idempotent(s: Seq<TicketView>, now: u64)
    ensures
        live(live(s, now), now) == live(s, now),
{
    lemma_live_later(s, now, now);
}

/// Dropping tickets never adds any.
pub proof fn lemma_live_len(s: Seq<TicketView>, now: u64)
    ensures
        live(s, now).len() <= s.len(),
    decreases s.len(),
{
    if s.len() > 0 {
        lemma_live_len(s.drop_last(), now);
    }
}

/// Copies of the tickets that are active at `now`.
pub fn live_tickets(tickets: &Vec<Ticket>, now: u64) -> (r: Vec<Ticket>)
    ensures
        tickets_view(r@) == live(tickets_view(tickets@), now),
{
    let mut out: Vec<Ticket> = Vec::new();
    let mut i: usize = 0;
    while i < tickets.len()
        invariant
            0 <= i <= tickets@.len(),
            tickets_view(out@) == live(tickets_view(tickets@.subrange(0, i as int)), now),
        decreases tickets@.len() - i,
    {
        proof {
            lemma_prefix_views(tickets@, i as int);
        }
        let ghost before = out@;
        if now < tickets[i].expires_at {
            out.push(tickets[i].duplicate());
            assert(tickets_view(out@) =~= tickets_view(before) + seq![tickets@[i as int]@]);
        } else {
            assert(tickets_view(out@) =~= tickets_view(before) + Seq::<TicketView>::empty());
        }
        i += 1;
    }
    assert(tickets@.subrange(0, tickets@.len() as int) =~= tickets@);
    out
}

/// Keeps only the tickets that are active at `now`.
pub fn prune_exhausted(tickets: &mut Vec<Ticket>, now: u64)
    ensures
        tickets_view(final(tickets)@) == live(tickets_view(old(tickets)@), now),
{
    let kept = live_tickets(tickets, now);
    *tickets = kept;
}

/// The owners of a sequence of tickets.
pub open spec fn owners(s: Seq<TicketView>) -> Seq<Seq<u8>> {
    s.map_values(|t: TicketView| t.owner)
}

/// The number of distinct players holding the tickets.
pub open spec fn player_count(s: Seq<TicketView>) -> nat {
    owners(s).to_set().len()
}

/// The number of distinct owners among `tickets`.
pub fn unique_player_count(tickets: &Vec<Ticket>) -> (r: u64)
    requires
        tickets@.len() <= u64::MAX,
    ensures
        r == player_count(tickets_view(tickets@)),
{
    let mut seen: Vec<PrincipalId> = Vec::new();
    let mut i: usize = 0;
    while i < tickets.len()
        invariant
            0 <= i <= tickets@.len(),
            seen@.len() <= i,
            seen@.map_values(|p: PrincipalId| p@).no_duplicates(),
            seen@.map_values(|p: PrincipalId| p@).to_set() == owners(
                tickets_view(tickets@.subrange(0, i as int)),
            ).to_set(),
        decreases tickets@.len() - i,
    {
        let ghost sv = seen@.map_values(|p: PrincipalId| p@);
        let ghost prev = owners(tickets_view(tickets@.subrange(0, i as int)));
        let ghost next = owners(tickets_view(tickets@.subrange(0, i as int + 1)));
        assert(next =~= prev.push(tickets@[i as int].owner@));
        let mut found = false;
        let mut j: usize = 0;
        while j < seen.len()
            invariant
                0 <= j <= seen@.len(),
                sv == seen@.map_values(|p: PrincipalId| p@),
                0 <= i < tickets@.len(),
                found == exists|k: int| 0 <= k < j && #[trigger] sv[k] == tickets@[i as int].owner@,
            decreases seen@.len() - j,
        {
            assert(sv[j as int] == seen@[j as int]@);
            if seen[j].same(&tickets[i].owner) {
                found = true;
            }
            j += 1;
        }
        if !found {
            seen.push(tickets[i].owner.duplicate());
            proof {
                let nv = seen@.map_values(|p: PrincipalId| p@);
                assert(nv =~= sv.push(tickets@[i as int].owner@));
                assert(!sv.contains(tickets@[i as int].owner@));
                assert(nv.to_set() =~= next.to_set()) by {
                    assert forall|x: Seq<u8>| nv.to_set().contains(x) <==> next.to_set().contains(x) by {
                        if x == tickets@[i as int].owner@ {
                            assert(nv[nv.len() - 1] == x);
                            assert(next[next.len() - 1] == x);
                        } else {
                            if nv.contains(x) {
                                let k = choose|k: int| 0 <= k < nv.len() && nv[k] == x;
                                assert(sv[k] == x);
                                assert(sv.to_set().contains(x));
                                assert(prev.to_set().contains(x));
                                let m = choose|m: int| 0 <= m < prev.len() && prev[m] == x;
                                assert(next[m] == x);
                            }
                            if next.contains(x) {
                                let k = choose|k: int| 0 <= k < next.len() && next[k] == x;
                                assert(prev[k] == x);
                                assert(prev.to_set().contains(x));
                                let m = choose|m: int| 0 <= m < sv.len() && sv[m] == x;
                                assert(nv[m] == x);
                            }
                        }
                    }
                }
            }
        } else {
            proof {
                let k = choose|k: int| 0 <= k < seen@.len() && #[trigger] sv[k] == tickets@[i as int].owner@;
                assert(sv.to_set().contains(tickets@[i as int].owner@));
                assert(sv.to_set() =~= next.to_set()) by {
                    assert forall|x: Seq<u8>| sv.to_set().contains(x) <==> next.to_set().contains(x) by {
                        if next.contains(x) && x != tickets@[i as int].owner@ {
                            let m = choose|m: int| 0 <= m < next.len() && next[m] == x;
                            assert(prev[m] == x);
                            assert(prev.to_set().contains(x));
                        }
                        if sv.contains(x) {
                            assert(prev.to_set().contains(x));
                            let m = choose|m: int| 0 <= m < prev.len() && prev[m] == x;
                            assert(next[m] == x);
                        }
                    }
                }
            }
        }
        i += 1;
    }
    proof {
        assert(tickets@.subrange(0, tickets@.len() as int) =~= tickets@);
        seen@.map_values(|p: PrincipalId| p@).unique_seq_to_set();
    }
    seen.len() as u64
}

/// A principal's purchase streak.
#[derive(Clone, Copy)]
pub struct StreakData {
    pub last_purchase_day: u64,
    pub consecutive_days: u64,
}

/// The reward bonus, in basis points, that a streak of consecutive purchase days earns.
pub open spec fn streak_bonus_for(days: u64) -> u64 {
    if days <= 2 {
        0
    } else if days <= 6 {
        STREAK_BOOST_3
    } else if days <= 13 {
        STREAK_BOOST_7
    } else if days <= 29 {
        STREAK_BOOST_14
    } else {
        STREAK_BOOST_30
    }
}

/// The streak bonus table, by the number of consecutive purchase days: nothing for one or
/// two days, +5% (500 bps) from 3 days, +15% from 7, +25% from 14, +30% from 30.
pub proof fn lemma_streak_tiers(days: u64)
    ensures
        days < 3 ==> streak_bonus_for(days) == 0,
        3 <= days < 7 ==> streak_bonus_for(days) == 500,
        7 <= days < 14 ==> streak_bonus_for(days) == 1_500,
        14 <= days < 30 ==> streak_bonus_for(days) == 2_500,
        30 <= days ==> streak_bonus_for(days) == 3_000,
{
}

/// A longer streak never earns less.
pub proof fn lemma_streak_bonus_monotone(a: u64, b: u64)
    requires
        a <= b,
    ensures
        streak_bonus_for(a) <= streak_bonus_for(b),
{
}

/// +5% from 3 consecutive days, +15% from 7, +25% from 14, +30% from 30.
pub fn streak_boost_bps(consecutive_days: u64) -> (r: u64)
    ensures
        r == streak_bonus_for(consecutive_days),
{
    if consecutive_days <= 2 {
        0
    } else if consecutive_days <= 6 {
        STREAK_BOOST_3
    } else if consecutive_days <= 13 {
        STREAK_BOOST_7
    } else if consecutive_days <= 29 {
        STREAK_BOOST_14
    } else {
        STREAK_BOOST_30
    }
}

/// A streak counts while its last purchase was today or yesterday.
pub open spec fn effective_streak_spec(m: Map<Seq<u8>, StreakData>, user: Seq<u8>, day: u64) -> u64 {
    if m.contains_key(user) && (m[user].last_purchase_day == day || m[user].last_purchase_day + 1
        == day) {
        m[user].consecutive_days
    } else {
        0
    }
}

/// The streak record after a purchase on `today`: unchanged for a second purchase the same
/// day, one day longer after yesterday's purchase, and restarted at one otherwise.
pub open spec fn streak_after_purchase(d: StreakData, today: u64) -> StreakData {
    if d.last_purchase_day == today {
        d
    } else if d.last_purchase_day + 1 == today {
        StreakData { last_purchase_day: today, consecutive_days: (d.consecutive_days + 1) as u64 }
    } else {
        StreakData { last_purchase_day: today, consecutive_days: 1 }
    }
}

/// Streak records stay below the end of time and no longer than the days they span.
pub open spec fn streak_ok(d: StreakData) -> bool {
    d.last_purchase_day < u64::MAX && d.consecutive_days <= d.last_purchase_day + 1
}

pub open spec fn streaks_ok(t: Table<PrincipalId, StreakData>) -> bool {
    &&& t.wf()
    &&& forall|p: Seq<u8>| #[trigger] t@.contains_key(p) ==> streak_ok(t@[p])
}

pub fn effective_streak(streaks: &Table<PrincipalId, StreakData>, user: &PrincipalId, current_day: u64) -> (r: u64)
    requires
        streaks_ok(*streaks),
    ensures
        r == effective_streak_spec(streaks@, user@, current_day),
{
    match streaks.get(user) {
        Some(data) => {
            if data.last_purchase_day == current_day || data.last_purchase_day + 1 == current_day {
                data.consecutive_days
            } else {
                0
            }
        },
        None => 0,
    }
}

/// Records a purchase by `buyer` on `today` in the streak table.
pub fn record_streak(streaks: &mut Table<PrincipalId, StreakData>, buyer: &PrincipalId, today: u64)
    requires
        streaks_ok(*old(streaks)),
        today < u64::MAX,
    ensures
        streaks_ok(*final(streaks)),
        final(streaks)@ == old(streaks)@.insert(
            buyer@,
            streak_after_purchase(
                if old(streaks)@.contains_key(buyer@) {
                    old(streaks)@[buyer@]
                } else {
                    StreakData { last_purchase_day: 0, consecutive_days: 0 }
                },
                today,
            ),
        ),
{
    let entry = match streaks.get(buyer) {
        Some(d) => *d,
        None => StreakData { last_purchase_day: 0, consecutive_days: 0 },
    };
    let updated = if entry.last_purchase_day == today {
        entry
    } else if entry.last_purchase_day + 1 == today {
        StreakData { last_purchase_day: today, consecutive_days: entry.consecutive_days + 1 }
    } else {
        StreakData { last_purchase_day: today, consecutive_days: 1 }
    };
    streaks.insert(buyer.duplicate(), updated);
}

} // verus!
