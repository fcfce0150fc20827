//! IGNIS, the burn companion: its evolution stage, mood and hunger, its memory of players
//! and events, its commentary and chronicle, and burn rituals.
use vstd::prelude::*;
use crate::ids::{PrincipalId, Table};
use crate::text::{decimal, push_decimal, push_str};

verus! {

pub const HUNGER_RATE_PER_TICK: u8 = 5;

pub const MAX_NOTABLE_EVENTS: usize = 50;

pub const MAX_REMEMBERED_PLAYERS: usize = 20;

pub const MAX_CHRONICLE_ENTRIES: usize = 50;

pub const MAX_CACHED_COMMENTARIES: usize = 100;

pub const RITUAL_EXPIRY_NANOS: u64 = 300 * 1_000_000_000;

pub const RITUAL_BOOST_MAX_BPS: u64 = 500;

pub const CHRONICLE_INTERVAL_ROUNDS: u64 = 10;

pub const ONE_ICP_E8S: u64 = 100_000_000;

pub const FLAME_THRESHOLD_ICP: u64 = 100;

pub const INFERNO_THRESHOLD_ICP: u64 = 1_000;

pub const SUPERNOVA_THRESHOLD_ICP: u64 = 10_000;

pub const SINGULARITY_THRESHOLD_ICP: u64 = 100_000;

/// IGNIS's evolution stage.
#[derive(Clone, Copy, PartialEq, Eq, Structural)]
pub enum Stage {
    Spark,
    Flame,
    Inferno,
    Supernova,
    Singularity,
}

/// IGNIS's mood.
#[derive(Clone, Copy, PartialEq, Eq, Structural)]
pub enum Mood {
    Dormant,
    Restless,
    Curious,
    Excited,
    Ecstatic,
    Wrathful,
}

impl Stage {
    /// How IGNIS speaks at this stage.
    pub fn personality(&self) -> (r: &'static str)
        ensures
            r@ == stage_personality(*self),
    {
        match self {
            Stage::Spark => "You are a young, timid flame. Speak in short, curious, excited whispers. Use simple words. You are discovering the world.",
            Stage::Flame => "You are a growing fire, gaining confidence. Speak poetically with fire metaphors. You are playful and witty.",
            Stage::Inferno => "You are a raging inferno, powerful and dramatic. Speak in bold proclamations. You are arrogant and commanding. You mock weakness.",
            Stage::Supernova => "You are a stellar explosion, transcendent and cosmic. Speak with cosmic wisdom and philosophical depth. You see patterns in everything.",
            Stage::Singularity => "You are a singularity, beyond comprehension. Speak in paradoxes and riddles. Your words bend reality. You are omniscient yet playful about it.",
        }
    }

    /// The stage's name.
    pub fn name(&self) -> (r: &'static str)
        ensures
            r@ == stage_name(*self),
    {
        match self {
            Stage::Spark => "Spark",
            Stage::Flame => "Flame",
            Stage::Inferno => "Inferno",
            Stage::Supernova => "Supernova",
            Stage::Singularity => "Singularity",
        }
    }
}

pub open spec fn stage_personality(s: Stage) -> Seq<char> {
    match s {
        Stage::Spark => "You are a young, timid flame. Speak in short, curious, excited whispers. Use simple words. You are discovering the world."@,
        Stage::Flame => "You are a growing fire, gaining confidence. Speak poetically with fire metaphors. You are playful and witty."@,
        Stage::Inferno => "You are a raging inferno, powerful and dramatic. Speak in bold proclamations. You are arrogant and commanding. You mock weakness."@,
        Stage::Supernova => "You are a stellar explosion, transcendent and cosmic. Speak with cosmic wisdom and philosophical depth. You see patterns in everything."@,
        Stage::Singularity => "You are a singularity, beyond comprehension. Speak in paradoxes and riddles. Your words bend reality. You are omniscient yet playful about it."@,
    }
}

pub open spec fn stage_name(s: Stage) -> Seq<char> {
    match s {
        Stage::Spark => "Spark"@,
        Stage::Flame => "Flame"@,
        Stage::Inferno => "Inferno"@,
        Stage::Supernova => "Supernova"@,
        Stage::Singularity => "Singularity"@,
    }
}

impl Mood {
    /// How IGNIS feels in this mood.
    pub fn description(&self) -> (r: &'static str)
        ensures
            r@ == mood_description(*self),
    {
        match self {
            Mood::Dormant => "nearly extinguished, barely conscious",
            Mood::Restless => "flickering anxiously, craving fuel",
            Mood::Curious => "burning steadily, observing with interest",
            Mood::Excited => "blazing brightly, energized by activity",
            Mood::Ecstatic => "erupting with joy, flames dancing wildly",
            Mood::Wrathful => "burning with dark fury, unpredictable",
        }
    }

    /// The mood's name.
    pub fn name(&self) -> (r: &'static str)
        ensures
            r@ == mood_name(*self),
    {
        match self {
            Mood::Dormant => "Dormant",
            Mood::Restless => "Restless",
            Mood::Curious => "Curious",
            Mood::Excited => "Excited",
            Mood::Ecstatic => "Ecstatic",
            Mood::Wrathful => "Wrathful",
        }
    }
}

pub open spec fn mood_description(m: Mood) -> Seq<char> {
    match m {
        Mood::Dormant => "nearly extinguished, barely conscious"@,
        Mood::Restless => "flickering anxiously, craving fuel"@,
        Mood::Curious => "burning steadily, observing with interest"@,
        Mood::Excited => "blazing brightly, energized by activity"@,
        Mood::Ecstatic => "erupting with joy, flames dancing wildly"@,
        Mood::Wrathful => "burning with dark fury, unpredictable"@,
    }
}

pub open spec fn mood_name(m: Mood) -> Seq<char> {
    match m {
        Mood::Dormant => "Dormant"@,
        Mood::Restless => "Restless"@,
        Mood::Curious => "Curious"@,
        Mood::Excited => "Excited"@,
        Mood::Ecstatic => "Ecstatic"@,
        Mood::Wrathful => "Wrathful"@,
    }
}

/// The stage reached after `total_burn_e8s` e8s of ICP were burned: Flame from 100 ICP,
/// Inferno from 1,000, Supernova from 10,000, Singularity from 100,000.
pub open spec fn stage_for(total_burn_e8s: u64) -> Stage {
    let icp = total_burn_e8s / ONE_ICP_E8S;
    if icp < FLAME_THRESHOLD_ICP {
        Stage::Spark
    } else if icp < INFERNO_THRESHOLD_ICP {
        Stage::Flame
    } else if icp < SUPERNOVA_THRESHOLD_ICP {
        Stage::Inferno
    } else if icp < SINGULARITY_THRESHOLD_ICP {
        Stage::Supernova
    } else {
        Stage::Singularity
    }
}

pub open spec fn stage_rank(s: Stage) -> int {
    match s {
        Stage::Spark => 0,
        Stage::Flame => 1,
        Stage::Inferno => 2,
        Stage::Supernova => 3,
        Stage::Singularity => 4,
    }
}

pub fn check_evolution(total_burn_e8s: u64) -> (r: Stage)
    ensures
        r == stage_for(total_burn_e8s),
{
    let icp = total_burn_e8s / ONE_ICP_E8S;
    if icp < FLAME_THRESHOLD_ICP {
        Stage::Spark
    } else if icp < INFERNO_THRESHOLD_ICP {
        Stage::Flame
    } else if icp < SUPERNOVA_THRESHOLD_ICP {
        Stage::Inferno
    } else if icp < SINGULARITY_THRESHOLD_ICP {
        Stage::Supernova
    } else {
        Stage::Singularity
    }
}

/// More burning never moves IGNIS back a stage.
pub proof fn lemma_evolution_monotone(a: u64, b: u64)
    requires
        a <= b,
    ensures
        stage_rank(stage_for(a)) <= stage_rank(stage_for(b)),
{
    assert(a / ONE_ICP_E8S <= b / ONE_ICP_E8S) by (nonlinear_arith)
        requires
            a <= b,
    ;
}

/// The stage table, by the total burned (in e8s, 10^8 to an ICP): Spark below 100 ICP,
/// Flame from 100, Inferno from 1,000, Supernova from 10,000, Singularity from 100,000 ICP.
pub proof fn lemma_stage_thresholds(total_burn_e8s: u64)
    ensures
        total_burn_e8s < 100 * 100_000_000 ==> stage_for(total_burn_e8s) == Stage::Spark,
        100 * 100_000_000 <= total_burn_e8s < 1_000 * 100_000_000 ==> stage_for(total_burn_e8s)
            == Stage::Flame,
        1_000 * 100_000_000 <= total_burn_e8s < 10_000 * 100_000_000 ==> stage_for(total_burn_e8s)
            == Stage::Inferno,
        10_000 * 100_000_000 <= total_burn_e8s < 100_000 * 100_000_000 ==> stage_for(
            total_burn_e8s,
        ) == Stage::Supernova,
        100_000 * 100_000_000 <= total_burn_e8s ==> stage_for(total_burn_e8s) == Stage::Singularity,
{
    let n = total_burn_e8s / ONE_ICP_E8S;
    assert(n * 100_000_000 <= total_burn_e8s < (n + 1) * 100_000_000) by (nonlinear_arith)
        requires
            n == total_burn_e8s / 100_000_000,
    ;
    assert(n < 100 <==> total_burn_e8s < 100 * 100_000_000) by (nonlinear_arith)
        requires
            n * 100_000_000 <= total_burn_e8s < (n + 1) * 100_000_000,
    ;
    assert(n < 1_000 <==> total_burn_e8s < 1_000 * 100_000_000) by (nonlinear_arith)
        requires
            n * 100_000_000 <= total_burn_e8s < (n + 1) * 100_000_000,
    ;
    assert(n < 10_000 <==> total_burn_e8s < 10_000 * 100_000_000) by (nonlinear_arith)
        requires
            n * 100_000_000 <= total_burn_e8s < (n + 1) * 100_000_000,
    ;
    assert(n < 100_000 <==> total_burn_e8s < 100_000 * 100_000_000) by (nonlinear_arith)
        requires
            n * 100_000_000 <= total_burn_e8s < (n + 1) * 100_000_000,
    ;
}

/// The mood that hunger and recent draws call for: dormant above 80 hunger, restless above
/// 50, else ecstatic after more than 20 draws since the last tick, excited after more than 5,
/// curious otherwise.
pub open spec fn mood_for(hunger: u8, draws: u32) -> Mood {
    if hunger > 80 {
        Mood::Dormant
    } else if hunger > 50 {
        Mood::Restless
    } else if draws > 20 {
        Mood::Ecstatic
    } else if draws > 5 {
        Mood::Excited
    } else {
        Mood::Curious
    }
}

pub fn recalculate_mood(hunger: u8, draws_since_last_tick: u32) -> (r: Mood)
    ensures
        r == mood_for(hunger, draws_since_last_tick),
{
    if hunger > 80 {
        Mood::Dormant
    } else if hunger > 50 {
        Mood::Restless
    } else if draws_since_last_tick > 20 {
        Mood::Ecstatic
    } else if draws_since_last_tick > 5 {
        Mood::Excited
    } else {
        Mood::Curious
    }
}

pub struct NotableEvent {
    pub round: u64,
    pub description: String,
    pub timestamp: u64,
}

pub struct RememberedPlayer {
    pub player: PrincipalId,
    pub wins: u64,
    pub tickets_bought: u64,
    pub last_seen: u64,
    pub nickname: Option<String>,
}

pub struct ChronicleEntry {
    pub chapter: u64,
    pub text: String,
    pub timestamp: u64,
}

pub struct DrawCommentary {
    pub round: u64,
    pub text: String,
    pub timestamp: u64,
}

/// A burn ritual: a riddle with a correct answer, or a free choice.
pub enum RitualChallenge {
    Riddle { question: String, options: Vec<String>, correct_index: u8 },
    Choice { prompt: String, options: Vec<String> },
}

pub struct RitualResult {
    pub success: bool,
    pub boost_bps: u64,
    pub ignis_response: String,
}

/// IGNIS's public state.
pub struct IgnisView {
    pub stage: Stage,
    pub mood: Mood,
    pub hunger: u8,
    pub total_burn_e8s: u64,
    pub total_burn_icp: u64,
    pub ignis_wins: u64,
    pub arena_enabled: bool,
}

/// A draw as the lottery reports it.
pub struct DrawEvent {
    pub round: u64,
    pub winner: PrincipalId,
    pub reward_lucky_e8s: u128,
    pub active_tickets: u64,
    pub active_players: u64,
    pub winning_weight_bps: u64,
    pub timestamp: u64,
    pub ignis_won: bool,
}

/// Settings that the owner may change; absent ones are left as they are.
pub struct ConfigureArgs {
    pub lottery_canister: Option<PrincipalId>,
    pub treasury_canister: Option<PrincipalId>,
    pub llm_canister: Option<PrincipalId>,
}

pub fn copy_strings(v: &Vec<String>) -> (r: Vec<String>)
    ensures
        r@ == v@,
{
    let mut out: Vec<String> = Vec::new();
    let mut i: usize = 0;
    while i < v.len()
        invariant
            0 <= i <= v@.len(),
            out@ == v@.subrange(0, i as int),
        decreases v@.len() - i,
    {
        out.push(v[i].clone());
        i += 1;
        assert(out@ =~= v@.subrange(0, i as int));
    }
    assert(v@.subrange(0, v@.len() as int) =~= v@);
    out
}

/// Two challenges with the same kind, texts, options and answer.
pub open spec fn same_challenge(a: RitualChallenge, b: RitualChallenge) -> bool {
    match (a, b) {
        (
            RitualChallenge::Riddle { question: q1, options: o1, correct_index: c1 },
            RitualChallenge::Riddle { question: q2, options: o2, correct_index: c2 },
        ) => q1 == q2 && o1@ == o2@ && c1 == c2,
        (
            RitualChallenge::Choice { prompt: p1, options: o1 },
            RitualChallenge::Choice { prompt: p2, options: o2 },
        ) => p1 == p2 && o1@ == o2@,
        _ => false,
    }
}

impl RitualChallenge {
    pub fn duplicate(&self) -> (r: RitualChallenge)
        ensures
            same_challenge(r, *self),
    {
        match self {
            RitualChallenge::Riddle { question, options, correct_index } => RitualChallenge::Riddle {
                question: question.clone(),
                options: copy_strings(options),
                correct_index: *correct_index,
            },
            RitualChallenge::Choice { prompt, options } => RitualChallenge::Choice {
                prompt: prompt.clone(),
                options: copy_strings(options),
            },
        }
    }
}

/// The outcome of answering a ritual with `choice`: a correct riddle answer earns the full
/// 5% boost, a wrong one 1%; a choice ritual always succeeds, with 5%, 3% or 2%.
pub open spec fn ritual_outcome_spec(c: RitualChallenge, choice: u8) -> (bool, u64) {
    match c {
        RitualChallenge::Riddle { correct_index, .. } => if choice == correct_index {
            (true, RITUAL_BOOST_MAX_BPS)
        } else {
            (false, (RITUAL_BOOST_MAX_BPS / 5) as u64)
        },
        RitualChallenge::Choice { .. } => (
            true,
            if choice == 0 {
                RITUAL_BOOST_MAX_BPS
            } else if choice == 1 {
                (RITUAL_BOOST_MAX_BPS * 3 / 5) as u64
            } else {
                (RITUAL_BOOST_MAX_BPS * 2 / 5) as u64
            },
        ),
    }
}

pub fn ritual_outcome(challenge: &RitualChallenge, choice: u8) -> (r: (bool, u64))
    ensures
        r == ritual_outcome_spec(*challenge, choice),
        r.1 > 0,
{
    match challenge {
        RitualChallenge::Riddle { correct_index, .. } => {
            if choice == *correct_index {
                (true, RITUAL_BOOST_MAX_BPS)
            } else {
                (false, RITUAL_BOOST_MAX_BPS / 5)
            }
        },
        RitualChallenge::Choice { .. } => {
            let boost = if choice == 0 {
                RITUAL_BOOST_MAX_BPS
            } else if choice == 1 {
                RITUAL_BOOST_MAX_BPS * 3 / 5
            } else {
                RITUAL_BOOST_MAX_BPS * 2 / 5
            };
            (true, boost)
        },
    }
}

/// What IGNIS says after a ritual when no language model answered.
pub fn ritual_fallback_response(success: bool) -> (r: String)
    ensures
        r@ == (if success {
            "The flames accept your offering. Go forth with my blessing."@
        } else {
            "The flames flicker with disappointment. Perhaps next time, mortal."@
        }),
{
    if success {
        String::from_str("The flames accept your offering. Go forth with my blessing.")
    } else {
        String::from_str("The flames flicker with disappointment. Perhaps next time, mortal.")
    }
}

/// The pending rituals that have not expired at `now`.
pub open spec fn unexpired(m: Map<Seq<u8>, (RitualChallenge, u64)>, now: u64) -> Map<
    Seq<u8>,
    (RitualChallenge, u64),
> {
    m.restrict(m.dom().filter(|k: Seq<u8>| now < m[k].1))
}

/// The text of the notable event of a round IGNIS won.
pub open spec fn ignis_win_text(round: u64, reward_lucky_e8s: u128) -> Seq<char> {
    "IGNIS won Round "@ + decimal(round as nat) + " and burned "@ + decimal(
        (reward_lucky_e8s / 100_000_000) as nat,
    ) + " LUCKY!"@
}

/// The text of the notable event of an evolution.
pub open spec fn evolution_text(stage: Stage, total_icp: u64) -> Seq<char> {
    "IGNIS EVOLVED to "@ + stage_name(stage) + " at "@ + decimal(total_icp as nat)
        + " ICP total burned!"@
}

/// A ritual handed to a player at `stored_at` is the one the player gets back when answering
/// before it expires.
pub proof fn lemma_stored_ritual_is_taken(
    m: Map<Seq<u8>, (RitualChallenge, u64)>,
    user: Seq<u8>,
    c: RitualChallenge,
    stored_at: u64,
    now: u64,
)
    requires
        stored_at + RITUAL_EXPIRY_NANOS <= u64::MAX,
        now < stored_at + RITUAL_EXPIRY_NANOS,
    ensures
        ({
            let m1 = m.insert(user, (c, (stored_at + RITUAL_EXPIRY_NANOS) as u64));
            unexpired(m1, now).contains_key(user) && m1[user].0 == c
        }),
{
}

pub struct IgnisState {
    pub owner: PrincipalId,
    pub lottery_canister: Option<PrincipalId>,
    pub treasury_canister: Option<PrincipalId>,
    pub llm_canister: Option<PrincipalId>,
    pub stage: Stage,
    pub total_burn_e8s: u64,
    pub mood: Mood,
    pub hunger: u8,
    pub last_activity: u64,
    pub draws_since_last_tick: u32,
    pub notable_events: std::collections::VecDeque<NotableEvent>,
    pub remembered_players: Vec<RememberedPlayer>,
    pub chronicle: std::collections::VecDeque<ChronicleEntry>,
    pub next_chapter: u64,
    pub commentaries: std::collections::VecDeque<DrawCommentary>,
    pub arena_enabled: bool,
    pub ignis_wins: u64,
    pub ignis_burned_lucky_e8s: u128,
    pub pending_rituals: Table<PrincipalId, (RitualChallenge, u64)>,
    pub ritual_boosts: Table<PrincipalId, u64>,
    pub rounds_processed: u64,
}

impl IgnisState {
    /// Everything but the memories (events, players, chronicle, commentaries) is as in `o`.
    pub open spec fn same_core(&self, o: &IgnisState) -> bool {
        &&& self.owner == o.owner
        &&& self.lottery_canister == o.lottery_canister
        &&& self.treasury_canister == o.treasury_canister
        &&& self.llm_canister == o.llm_canister
        &&& self.stage == o.stage
        &&& self.total_burn_e8s == o.total_burn_e8s
        &&& self.mood == o.mood
        &&& self.hunger == o.hunger
        &&& self.last_activity == o.last_activity
        &&& self.draws_since_last_tick == o.draws_since_last_tick
        &&& self.arena_enabled == o.arena_enabled
        &&& self.ignis_wins == o.ignis_wins
        &&& self.ignis_burned_lucky_e8s == o.ignis_burned_lucky_e8s
        &&& self.pending_rituals == o.pending_rituals
        &&& self.ritual_boosts == o.ritual_boosts
        &&& self.rounds_processed == o.rounds_processed
    }

    /// The tables are well formed and every memory stays within its bound.
    pub open spec fn wf(&self) -> bool {
        &&& self.pending_rituals.wf()
        &&& self.ritual_boosts.wf()
        &&& self.notable_events@.len() <= MAX_NOTABLE_EVENTS
        &&& self.remembered_players@.len() <= MAX_REMEMBERED_PLAYERS
        &&& distinct_players(self.remembered_players@)
        &&& self.chronicle@.len() <= MAX_CHRONICLE_ENTRIES
        &&& self.commentaries@.len() <= MAX_CACHED_COMMENTARIES
    }

    pub fn new(owner: PrincipalId) -> (s: IgnisState)
        ensures
            s.wf(),
            s.owner@ == owner@,
            s.stage == Stage::Spark,
            s.mood == Mood::Curious,
            s.hunger == 0,
            s.total_burn_e8s == 0,
            s.next_chapter == 1,
            !s.arena_enabled,
            s.pending_rituals@.len() == 0 && s.ritual_boosts@.len() == 0,
            s.notable_events@.len() == 0 && s.remembered_players@.len() == 0
                && s.chronicle@.len() == 0 && s.commentaries@.len() == 0,
    {
        IgnisState {
            owner,
            lottery_canister: None,
            treasury_canister: None,
            llm_canister: None,
            stage: Stage::Spark,
            total_burn_e8s: 0,
            mood: Mood::Curious,
            hunger: 0,
            last_activity: 0,
            draws_since_last_tick: 0,
            notable_events: std::collections::VecDeque::new(),
            remembered_players: Vec::new(),
            chronicle: std::collections::VecDeque::new(),
            next_chapter: 1,
            commentaries: std::collections::VecDeque::new(),
            arena_enabled: false,
            ignis_wins: 0,
            ignis_burned_lucky_e8s: 0,
            pending_rituals: Table::new(),
            ritual_boosts: Table::new(),
            rounds_processed: 0,
        }
    }

    pub fn is_owner(&self, caller: &PrincipalId) -> (r: bool)
        ensures
            r == (caller@ == self.owner@),
    {
        caller.same(&self.owner)
    }

    /// The owner or the lottery canister.
    pub fn is_lottery_or_owner(&self, caller: &PrincipalId) -> (r: bool)
        ensures
            r == (caller@ == self.owner@ || (self.lottery_canister matches Some(l) && l@ == caller@)),
    {
        if caller.same(&self.owner) {
            return true;
        }
        match &self.lottery_canister {
            Some(l) => l.same(caller),
            None => false,
        }
    }

    /// The owner, the lottery canister or the treasury canister.
    pub fn is_lottery_treasury_or_owner(&self, caller: &PrincipalId) -> (r: bool)
        ensures
            r == (caller@ == self.owner@ || (self.lottery_canister matches Some(l) && l@ == caller@)
                || (self.treasury_canister matches Some(t) && t@ == caller@)),
    {
        if self.is_lottery_or_owner(caller) {
            return true;
        }
        match &self.treasury_canister {
            Some(t) => t.same(caller),
            None => false,
        }
    }

    /// Lets the owner change the settings; false (and no change) for anyone else.
    pub fn configure(&mut self, caller: &PrincipalId, args: ConfigureArgs) -> (ok: bool)
        ensures
            ok == (caller@ == old(self).owner@),
            !ok ==> *final(self) == *old(self),
            ok ==> final(self).lottery_canister == (if args.lottery_canister is Some {
                args.lottery_canister
            } else {
                old(self).lottery_canister
            }) && final(self).treasury_canister == (if args.treasury_canister is Some {
                args.treasury_canister
            } else {
                old(self).treasury_canister
            }) && final(self).llm_canister == (if args.llm_canister is Some {
                args.llm_canister
            } else {
                old(self).llm_canister
            }) && final(self).owner == old(self).owner,
    {
        if !self.is_owner(caller) {
            return false;
        }
        let ConfigureArgs { lottery_canister, treasury_canister, llm_canister } = args;
        if lottery_canister.is_some() {
            self.lottery_canister = lottery_canister;
        }
        if treasury_canister.is_some() {
            self.treasury_canister = treasury_canister;
        }
        if llm_canister.is_some() {
            self.llm_canister = llm_canister;
        }
        true
    }

    /// Lets the owner switch the arena on or off; false (and no change) for anyone else.
    pub fn set_arena_enabled(&mut self, caller: &PrincipalId, enabled: bool) -> (ok: bool)
        ensures
            ok == (caller@ == old(self).owner@),
            !ok ==> *final(self) == *old(self),
            ok ==> final(self).arena_enabled == enabled,
    {
        if !self.is_owner(caller) {
            return false;
        }
        self.arena_enabled = enabled;
        true
    }

    /// Remembers a notable event, forgetting the oldest beyond the last 50.
    pub fn add_notable_event(&mut self, round: u64, description: String, timestamp: u64)
        requires
            old(self).wf(),
        ensures
            final(self).wf(),
            final(self).notable_events@.last() == (NotableEvent { round, description, timestamp }),
            final(self).same_core(old(self)),
            final(self).next_chapter == old(self).next_chapter,
            final(self).remembered_players == old(self).remembered_players,
            final(self).chronicle == old(self).chronicle,
            final(self).commentaries == old(self).commentaries,
            final(self).notable_events@.len() == (if old(self).notable_events@.len() < MAX_NOTABLE_EVENTS {
                old(self).notable_events@.len() + 1int
            } else {
                MAX_NOTABLE_EVENTS as int
            }),
            final(self).notable_events@ == (if old(self).notable_events@.len() < MAX_NOTABLE_EVENTS {
                old(self).notable_events@
            } else {
                old(self).notable_events@.drop_first()
            }).push(final(self).notable_events@.last()),
    {
        let ghost before = self.notable_events@;
        self.notable_events.push_back(NotableEvent { round, description, timestamp });
        if self.notable_events.len() > MAX_NOTABLE_EVENTS {
            self.notable_events.pop_front();
            assert(self.notable_events@ =~= before.drop_first().push(self.notable_events@.last()));
        }
    }

    /// Caches a draw commentary, forgetting the oldest beyond the last 100.
    pub fn add_commentary(&mut self, round: u64, text: String, timestamp: u64)
        requires
            old(self).wf(),
        ensures
            final(self).wf(),
            final(self).commentaries@.last() == (DrawCommentary { round, text, timestamp }),
            final(self).same_core(old(self)),
            final(self).next_chapter == old(self).next_chapter,
            final(self).remembered_players == old(self).remembered_players,
            final(self).chronicle == old(self).chronicle,
            final(self).notable_events == old(self).notable_events,
            final(self).commentaries@ == (if old(self).commentaries@.len() < MAX_CACHED_COMMENTARIES {
                old(self).commentaries@
            } else {
                old(self).commentaries@.drop_first()
            }).push(final(self).commentaries@.last()),
    {
        let ghost before = self.commentaries@;
        self.commentaries.push_back(DrawCommentary { round, text, timestamp });
        if self.commentaries.len() > MAX_CACHED_COMMENTARIES {
            self.commentaries.pop_front();
            assert(self.commentaries@ =~= before.drop_first().push(self.commentaries@.last()));
        }
    }

    /// Adds a chronicle chapter numbered `next_chapter`, forgetting the oldest beyond 50.
    pub fn add_chronicle(&mut self, text: String, timestamp: u64)
        requires
            old(self).wf(),
            old(self).next_chapter < u64::MAX,
        ensures
            final(self).wf(),
            final(self).next_chapter == old(self).next_chapter + 1,
            final(self).chronicle@.last() == (ChronicleEntry {
                chapter: old(self).next_chapter,
                text,
                timestamp,
            }),
            final(self).same_core(old(self)),
            final(self).remembered_players == old(self).remembered_players,
            final(self).commentaries == old(self).commentaries,
            final(self).notable_events == old(self).notable_events,
            final(self).chronicle@ == (if old(self).chronicle@.len() < MAX_CHRONICLE_ENTRIES {
                old(self).chronicle@
            } else {
                old(self).chronicle@.drop_first()
            }).push(final(self).chronicle@.last()),
    {
        let chapter = self.next_chapter;
        self.next_chapter = chapter + 1;
        let ghost before = self.chronicle@;
        self.chronicle.push_back(ChronicleEntry { chapter, text, timestamp });
        if self.chronicle.len() > MAX_CHRONICLE_ENTRIES {
            self.chronicle.pop_front();
            assert(self.chronicle@ =~= before.drop_first().push(self.chronicle@.last()));
        }
    }
}

/// A remembered player as plain values: principal, wins, tickets bought, last seen, nickname.
pub open spec fn player_view(p: RememberedPlayer) -> (Seq<u8>, u64, u64, u64, Option<Seq<char>>) {
    (
        p.player@,
        p.wins,
        p.tickets_bought,
        p.last_seen,
        match p.nickname {
            Some(n) => Some(n@),
            None => None,
        },
    )
}

/// No player is remembered twice.
pub open spec fn distinct_players(s: Seq<RememberedPlayer>) -> bool {
    forall|i: int, j: int|
        0 <= i < j < s.len() ==> #[trigger] s[i].player@ != #[trigger] s[j].player@
}

pub open spec fn players_view(s: Seq<RememberedPlayer>) -> Seq<
    (Seq<u8>, u64, u64, u64, Option<Seq<char>>),
> {
    s.map_values(|p: RememberedPlayer| player_view(p))
}

/// The first position at which `p` is remembered (meaningful when it is remembered).
pub open spec fn position_of(s: Seq<RememberedPlayer>, p: Seq<u8>) -> int {
    choose|i: int|
        #![trigger s[i]]
        0 <= i < s.len() && s[i].player@ == p && forall|j: int| 0 <= j < i ==> s[j].player@ != p
}

/// The first of the players seen least recently (meaningful when there is one).
pub open spec fn least_recent_position(s: Seq<RememberedPlayer>) -> int {
    choose|r: int|
        #![trigger s[r]]
        0 <= r < s.len() && (forall|j: int| 0 <= j < s.len() ==> s[r].last_seen <= s[j].last_seen)
            && (forall|j: int| 0 <= j < r ==> s[j].last_seen > s[r].last_seen)
}

/// The remembered players after `p` was seen at `now` (and won, if `is_winner`): a known
/// player is updated where it stands; a new one is added at the end, after the player seen
/// least recently was forgotten if 20 were remembered.
pub open spec fn remembered_after(
    s: Seq<RememberedPlayer>,
    p: Seq<u8>,
    now: u64,
    is_winner: bool,
) -> Seq<(Seq<u8>, u64, u64, u64, Option<Seq<char>>)> {
    if exists|i: int| 0 <= i < s.len() && s[i].player@ == p {
        let i = position_of(s, p);
        let old = s[i];
        players_view(s).update(
            i,
            (
                p,
                (if is_winner {
                    old.wins + 1
                } else {
                    old.wins as int
                }) as u64,
                old.tickets_bought,
                now,
                player_view(old).4,
            ),
        )
    } else {
        let kept = if s.len() >= MAX_REMEMBERED_PLAYERS {
            players_view(s).remove(least_recent_position(s))
        } else {
            players_view(s)
        };
        kept.push(
            (
                p,
                if is_winner {
                    1u64
                } else {
                    0u64
                },
                0u64,
                now,
                None,
            ),
        )
    }
}

impl IgnisState {
    /// Notes that `principal` was seen at `now` (and won, if `is_winner`). A new player takes
    /// the place of the one seen least recently once 20 are remembered.
    pub fn update_remembered_player(&mut self, principal: &PrincipalId, now: u64, is_winner: bool)
        requires
            old(self).wf(),
            forall|j: int| 0 <= j < old(self).remembered_players@.len() ==> #[trigger] old(self).remembered_players@[j].wins < u64::MAX,
        ensures
            final(self).wf(),
            players_view(final(self).remembered_players@) == remembered_after(
                old(self).remembered_players@,
                principal@,
                now,
                is_winner,
            ),
            exists|j: int| 0 <= j < final(self).remembered_players@.len() && #[trigger] final(self).remembered_players@[j].player@ == principal@
                && final(self).remembered_players@[j].last_seen == now,
            final(self).same_core(old(self)),
            final(self).notable_events == old(self).notable_events,
            final(self).chronicle == old(self).chronicle,
            final(self).commentaries == old(self).commentaries,
            final(self).next_chapter == old(self).next_chapter,
    {
        let mut i: usize = 0;
        while i < self.remembered_players.len()
            invariant
                0 <= i <= self.remembered_players@.len(),
                *self == *old(self),
                self.wf(),
                forall|j: int| 0 <= j < self.remembered_players@.len() ==> #[trigger] self.remembered_players@[j].wins < u64::MAX,
                forall|j: int| 0 <= j < i ==> #[trigger] self.remembered_players@[j].player@ != principal@,
            decreases self.remembered_players@.len() - i,
        {
            if self.remembered_players[i].player.same(principal) {
                assert(self.remembered_players@[i as int].wins < u64::MAX);
                let ghost before = self.remembered_players@;
                proof {
                    let c = position_of(before, principal@);
                    assert(before[i as int].player@ == principal@);
                    assert(0 <= c < before.len() && before[c].player@ == principal@ && forall|j: int|
                        0 <= j < c ==> before[j].player@ != principal@);
                    if c < i {
                        assert(before[c].player@ != principal@);
                    } else if c > i {
                        assert(before[i as int].player@ != principal@);
                    }
                }
                let p = self.remembered_players.remove(i);
                let RememberedPlayer { player, wins, tickets_bought, last_seen: _, nickname } = p;
                let wins = if is_winner {
                    wins + 1
                } else {
                    wins
                };
                self.remembered_players.insert(
                    i,
                    RememberedPlayer { player, wins, tickets_bought, last_seen: now, nickname },
                );
                assert(self.remembered_players@[i as int].player@ == principal@);
                assert forall|k: int| 0 <= k < self.remembered_players@.len() implies #[trigger] self.remembered_players@[k].player@
                    == before[k].player@ by {
                    if k < i {
                    } else if k > i {
                    }
                }
                assert(distinct_players(self.remembered_players@)) by {
                    assert forall|a: int, b: int|
                        0 <= a < b < self.remembered_players@.len() implies #[trigger] self.remembered_players@[a].player@
                        != #[trigger] self.remembered_players@[b].player@ by {
                        assert(self.remembered_players@[a].player@ == before[a].player@);
                        assert(self.remembered_players@[b].player@ == before[b].player@);
                    }
                }
                assert(players_view(self.remembered_players@) =~= remembered_after(
                    before,
                    principal@,
                    now,
                    is_winner,
                ));
                return;
            }
            i += 1;
        }
        let ghost before = self.remembered_players@;
        let ghost kept = if before.len() >= MAX_REMEMBERED_PLAYERS {
            players_view(before).remove(least_recent_position(before))
        } else {
            players_view(before)
        };
        if self.remembered_players.len() >= MAX_REMEMBERED_PLAYERS {
            let oldest = least_recent(&self.remembered_players);
            proof {
                let c = least_recent_position(before);
                let r = oldest as int;
                assert(0 <= c < before.len() && (forall|j: int|
                    0 <= j < before.len() ==> before[c].last_seen <= before[j].last_seen) && (forall|
                    j: int,
                | 0 <= j < c ==> before[j].last_seen > before[c].last_seen)) by {
                    assert(0 <= r < before.len() && (forall|j: int|
                        0 <= j < before.len() ==> before[r].last_seen <= before[j].last_seen) && (
                    forall|j: int| 0 <= j < r ==> before[j].last_seen > before[r].last_seen));
                }
                if c < r {
                    assert(before[c].last_seen > before[r].last_seen);
                    assert(before[c].last_seen <= before[r].last_seen);
                } else if r < c {
                    assert(before[r].last_seen > before[c].last_seen);
                    assert(before[r].last_seen <= before[c].last_seen);
                }
            }
            self.remembered_players.remove(oldest);
            assert(players_view(self.remembered_players@) =~= kept);
            assert(distinct_players(self.remembered_players@)) by {
                let o = oldest as int;
                assert forall|a: int, b: int|
                    0 <= a < b < self.remembered_players@.len() implies #[trigger] self.remembered_players@[a].player@
                    != #[trigger] self.remembered_players@[b].player@ by {
                    let a2 = if a < o { a } else { a + 1 };
                    let b2 = if b < o { b } else { b + 1 };
                    assert(self.remembered_players@[a] == before[a2]);
                    assert(self.remembered_players@[b] == before[b2]);
                }
            }
            assert forall|k: int| 0 <= k < self.remembered_players@.len() implies #[trigger] self.remembered_players@[k].player@
                != principal@ by {
                let k2 = if k < oldest as int { k } else { k + 1 };
                assert(self.remembered_players@[k] == before[k2]);
            }
        }
        assert(players_view(self.remembered_players@) =~= kept);
        let ghost mid = self.remembered_players@;
        assert(forall|k: int| 0 <= k < mid.len() ==> #[trigger] mid[k].player@ != principal@);
        self.remembered_players.push(
            RememberedPlayer {
                player: principal.duplicate(),
                wins: if is_winner {
                    1
                } else {
                    0
                },
                tickets_bought: 0,
                last_seen: now,
                nickname: None,
            },
        );
        assert(self.remembered_players@[self.remembered_players@.len() - 1].player@ == principal@);
        assert(distinct_players(self.remembered_players@)) by {
            assert forall|a: int, b: int|
                0 <= a < b < self.remembered_players@.len() implies #[trigger] self.remembered_players@[a].player@
                != #[trigger] self.remembered_players@[b].player@ by {
                assert(self.remembered_players@[a] == mid[a]);
                if b < mid.len() {
                    assert(self.remembered_players@[b] == mid[b]);
                }
            }
        }
        assert(!(exists|j: int| 0 <= j < before.len() && before[j].player@ == principal@));
        assert(players_view(self.remembered_players@) =~= remembered_after(
            before,
            principal@,
            now,
            is_winner,
        ));
    }

    /// Reacts to a draw at `now`: less hunger, one more draw this tick, the winner remembered,
    /// and an arena win counted. True when a chronicle chapter is due (every 10 rounds).
    pub fn record_draw(&mut self, event: &DrawEvent, now: u64) -> (chronicle_due: bool)
        requires
            old(self).wf(),
            old(self).draws_since_last_tick < u32::MAX,
            old(self).rounds_processed < u64::MAX,
            old(self).ignis_wins < u64::MAX,
            old(self).ignis_burned_lucky_e8s + event.reward_lucky_e8s <= u128::MAX,
            forall|j: int| 0 <= j < old(self).remembered_players@.len() ==> #[trigger] old(self).remembered_players@[j].wins < u64::MAX,
        ensures
            final(self).wf(),
            final(self).hunger == (if old(self).hunger >= 15 {
                old(self).hunger - 15
            } else {
                0
            }),
            final(self).last_activity == now,
            final(self).draws_since_last_tick == old(self).draws_since_last_tick + 1,
            final(self).rounds_processed == old(self).rounds_processed + 1,
            final(self).mood == mood_for(final(self).hunger, final(self).draws_since_last_tick),
            chronicle_due == (final(self).rounds_processed % CHRONICLE_INTERVAL_ROUNDS == 0),
            event.ignis_won ==> final(self).ignis_wins == old(self).ignis_wins + 1
                && final(self).ignis_burned_lucky_e8s == old(self).ignis_burned_lucky_e8s
                + event.reward_lucky_e8s && final(self).notable_events@.last().description@
                == ignis_win_text(event.round, event.reward_lucky_e8s),
            !event.ignis_won ==> final(self).ignis_wins == old(self).ignis_wins
                && final(self).ignis_burned_lucky_e8s == old(self).ignis_burned_lucky_e8s
                && final(self).notable_events == old(self).notable_events,
            final(self).stage == old(self).stage,
            final(self).total_burn_e8s == old(self).total_burn_e8s,
            players_view(final(self).remembered_players@) == remembered_after(
                old(self).remembered_players@,
                event.winner@,
                now,
                true,
            ),
    {
        self.hunger = self.hunger.saturating_sub(15);
        self.last_activity = now;
        self.draws_since_last_tick = self.draws_since_last_tick + 1;
        self.rounds_processed = self.rounds_processed + 1;
        self.mood = recalculate_mood(self.hunger, self.draws_since_last_tick);
        self.update_remembered_player(&event.winner, now, true);
        if event.ignis_won {
            self.ignis_wins = self.ignis_wins + 1;
            let reward = event.reward_lucky_e8s;
            self.ignis_burned_lucky_e8s = self.ignis_burned_lucky_e8s + reward;
            let mut text = String::new();
            push_str(&mut text, "IGNIS won Round ");
            push_decimal(&mut text, event.round as u128);
            push_str(&mut text, " and burned ");
            push_decimal(&mut text, reward / 100_000_000);
            push_str(&mut text, " LUCKY!");
            self.add_notable_event(event.round, text, now);
        }
        self.rounds_processed % CHRONICLE_INTERVAL_ROUNDS == 0
    }

    /// Feeds a burn of `amount_e8s` at `now`: the burn total grows, hunger falls, and the
    /// stage follows the total. Returns the old and new stage when IGNIS evolved, and then
    /// remembers the evolution as a notable event.
    pub fn record_burn(&mut self, amount_e8s: u64, now: u64) -> (r: Option<(Stage, Stage)>)
        requires
            old(self).wf(),
        ensures
            final(self).wf(),
            final(self).total_burn_e8s == (if old(self).total_burn_e8s + amount_e8s > u64::MAX {
                u64::MAX
            } else {
                (old(self).total_burn_e8s + amount_e8s) as u64
            }),
            final(self).stage == stage_for(final(self).total_burn_e8s),
            final(self).hunger == (if old(self).hunger >= 10 {
                old(self).hunger - 10
            } else {
                0
            }),
            final(self).last_activity == now,
            final(self).mood == mood_for(final(self).hunger, old(self).draws_since_last_tick),
            old(self).stage != final(self).stage ==> r == Some((old(self).stage, final(self).stage))
                && final(self).notable_events@.last().description@ == evolution_text(
                final(self).stage,
                final(self).total_burn_e8s / ONE_ICP_E8S,
            ) && final(self).notable_events@.last().round == 0,
            old(self).stage == final(self).stage ==> r is None && final(self).notable_events
                == old(self).notable_events,
    {
        let old_stage = self.stage;
        self.total_burn_e8s = self.total_burn_e8s.saturating_add(amount_e8s);
        self.hunger = self.hunger.saturating_sub(10);
        self.last_activity = now;
        self.mood = recalculate_mood(self.hunger, self.draws_since_last_tick);
        let new_stage = check_evolution(self.total_burn_e8s);
        self.stage = new_stage;
        if old_stage != new_stage {
            let mut text = String::new();
            push_str(&mut text, "IGNIS EVOLVED to ");
            push_str(&mut text, new_stage.name());
            push_str(&mut text, " at ");
            push_decimal(&mut text, (self.total_burn_e8s / ONE_ICP_E8S) as u128);
            push_str(&mut text, " ICP total burned!");
            self.add_notable_event(0, text, now);
            return Some((old_stage, new_stage));
        }
        None
    }

    /// The periodic tick: hunger grows by 5 (up to 100), the mood follows, and the draw
    /// count of the tick starts again.
    pub fn mood_tick(&mut self)
        ensures
            final(self).hunger == (if old(self).hunger + HUNGER_RATE_PER_TICK > 100 {
                100
            } else {
                old(self).hunger + HUNGER_RATE_PER_TICK
            }),
            final(self).mood == mood_for(final(self).hunger, old(self).draws_since_last_tick),
            final(self).draws_since_last_tick == 0,
            final(self).stage == old(self).stage,
            final(self).pending_rituals == old(self).pending_rituals,
            final(self).ritual_boosts == old(self).ritual_boosts,
            final(self).notable_events == old(self).notable_events,
            final(self).remembered_players == old(self).remembered_players,
            final(self).chronicle == old(self).chronicle,
            final(self).commentaries == old(self).commentaries,
    {
        let h = self.hunger.saturating_add(HUNGER_RATE_PER_TICK);
        self.hunger = if h > 100 {
            100
        } else {
            h
        };
        self.mood = recalculate_mood(self.hunger, self.draws_since_last_tick);
        self.draws_since_last_tick = 0;
    }

    /// Whether `user` has a ritual that has not expired at `now`.
    pub fn has_pending_ritual(&self, user: &PrincipalId, now: u64) -> (r: bool)
        requires
            self.wf(),
        ensures
            r == (self.pending_rituals@.contains_key(user@) && now < self.pending_rituals@[user@].1),
    {
        match self.pending_rituals.get(user) {
            Some(entry) => now < entry.1,
            None => false,
        }
    }

    /// Hands `user` a ritual that expires five minutes after `now`.
    pub fn store_ritual(&mut self, user: PrincipalId, challenge: RitualChallenge, now: u64)
        requires
            old(self).wf(),
            now + RITUAL_EXPIRY_NANOS <= u64::MAX,
        ensures
            final(self).wf(),
            final(self).pending_rituals@ == old(self).pending_rituals@.insert(
                user@,
                (challenge, (now + RITUAL_EXPIRY_NANOS) as u64),
            ),
            final(self).ritual_boosts == old(self).ritual_boosts,
    {
        self.pending_rituals.insert(user, (challenge, now + RITUAL_EXPIRY_NANOS));
    }

    /// Forgets every ritual expired at `now`, then takes `user`'s ritual, if still pending.
    pub fn take_ritual(&mut self, user: &PrincipalId, now: u64) -> (r: Option<RitualChallenge>)
        requires
            old(self).wf(),
        ensures
            final(self).wf(),
            final(self).pending_rituals@ == unexpired(old(self).pending_rituals@, now).remove(user@),
            r == (if unexpired(old(self).pending_rituals@, now).contains_key(user@) {
                Some(old(self).pending_rituals@[user@].0)
            } else {
                None
            }),
            final(self).ritual_boosts == old(self).ritual_boosts,
    {
        let ghost m0 = self.pending_rituals@;
        loop
            invariant
                self.wf(),
                self.ritual_boosts == old(self).ritual_boosts,
                forall|k: Seq<u8>| #[trigger] self.pending_rituals@.contains_key(k) ==> m0.contains_key(k) && self.pending_rituals@[k] == m0[k],
                forall|k: Seq<u8>| #[trigger] m0.contains_key(k) && now < m0[k].1 ==> self.pending_rituals@.contains_key(k),
            ensures
                self.wf(),
                self.ritual_boosts == old(self).ritual_boosts,
                self.pending_rituals@ == unexpired(m0, now),
            decreases self.pending_rituals.entries@.len(),
        {
            let mut found: Option<usize> = None;
            let mut i: usize = 0;
            while i < self.pending_rituals.entries.len() && found.is_none()
                invariant
                    0 <= i <= self.pending_rituals.entries@.len(),
                    found is None ==> forall|j: int| 0 <= j < i ==> now < #[trigger] self.pending_rituals.entries@[j].1.1,
                    found matches Some(x) ==> x < self.pending_rituals.entries@.len() && !(now < self.pending_rituals.entries@[x as int].1.1),
                decreases self.pending_rituals.entries@.len() - i,
            {
                if !(now < self.pending_rituals.entries[i].1.1) {
                    found = Some(i);
                }
                i += 1;
            }
            match found {
                Some(i) => {
                    let key = self.pending_rituals.entries[i].0.duplicate();
                    proof {
                        crate::ids::lemma_entries_map_has(self.pending_rituals.entries@, i as int);
                    }
                    self.pending_rituals.remove(&key);
                },
                None => {
                    proof {
                        assert forall|k: Seq<u8>| #[trigger] self.pending_rituals@.contains_key(k) implies now < self.pending_rituals@[k].1 by {
                            if forall|j: int| 0 <= j < self.pending_rituals.entries@.len() ==> #[trigger] self.pending_rituals.entries@[j].0@ != k {
                                crate::ids::lemma_entries_map_lacks(self.pending_rituals.entries@, k);
                            } else {
                                let j = choose|j: int| 0 <= j < self.pending_rituals.entries@.len() && #[trigger] self.pending_rituals.entries@[j].0@ == k;
                                crate::ids::lemma_entries_map_has(self.pending_rituals.entries@, j);
                            }
                        }
                        assert(self.pending_rituals@ =~= unexpired(m0, now));
                    }
                    break;
                },
            }
        }
        let taken = self.pending_rituals.remove(user);
        match taken {
            Some(entry) => Some(entry.0),
            None => None,
        }
    }

    /// Keeps a ritual boost for the lottery to use when `user` next wins.
    pub fn grant_ritual_boost(&mut self, user: PrincipalId, boost_bps: u64)
        requires
            old(self).wf(),
        ensures
            final(self).wf(),
            final(self).ritual_boosts@ == old(self).ritual_boosts@.insert(user@, boost_bps),
            final(self).pending_rituals == old(self).pending_rituals,
    {
        self.ritual_boosts.insert(user, boost_bps);
    }

    /// The ritual boost waiting for `player` (zero if none).
    pub fn ritual_boost_of(&self, player: &PrincipalId) -> (r: u64)
        requires
            self.wf(),
        ensures
            r == (if self.ritual_boosts@.contains_key(player@) {
                self.ritual_boosts@[player@]
            } else {
                0
            }),
    {
        match self.ritual_boosts.get(player) {
            Some(b) => *b,
            None => 0,
        }
    }

    /// Takes the ritual boost waiting for `player` (zero if none); it can be used only once.
    pub fn consume_ritual_boost(&mut self, player: &PrincipalId) -> (r: u64)
        requires
            old(self).wf(),
        ensures
            final(self).wf(),
            r == (if old(self).ritual_boosts@.contains_key(player@) {
                old(self).ritual_boosts@[player@]
            } else {
                0
            }),
            final(self).ritual_boosts@ == old(self).ritual_boosts@.remove(player@),
            final(self).pending_rituals == old(self).pending_rituals,
    {
        match self.ritual_boosts.remove(player) {
            Some(b) => b,
            None => 0,
        }
    }

    /// IGNIS's public state.
    pub fn public_view(&self) -> (r: IgnisView)
        ensures
            r == (IgnisView {
                stage: self.stage,
                mood: self.mood,
                hunger: self.hunger,
                total_burn_e8s: self.total_burn_e8s,
                total_burn_icp: self.total_burn_e8s / ONE_ICP_E8S,
                ignis_wins: self.ignis_wins,
                arena_enabled: self.arena_enabled,
            }),
    {
        IgnisView {
            stage: self.stage,
            mood: self.mood,
            hunger: self.hunger,
            total_burn_e8s: self.total_burn_e8s,
            total_burn_icp: self.total_burn_e8s / ONE_ICP_E8S,
            ignis_wins: self.ignis_wins,
            arena_enabled: self.arena_enabled,
        }
    }

    /// The arena's wins and the LUCKY they burned.
    pub fn arena_stats(&self) -> (r: (u64, u128))
        ensures
            r == (self.ignis_wins, self.ignis_burned_lucky_e8s),
    {
        (self.ignis_wins, self.ignis_burned_lucky_e8s)
    }

    /// The cached commentary of `round`, if any (the oldest if several).
    pub fn commentary_for(&self, round: u64) -> (r: Option<DrawCommentary>)
        ensures
            match r {
                Some(c) => exists|i: int| 0 <= i < self.commentaries@.len()
                    && #[trigger] self.commentaries@[i].round == round && c.text
                    == self.commentaries@[i].text && c.round == round && c.timestamp
                    == self.commentaries@[i].timestamp && forall|j: int| 0 <= j < i ==> self.commentaries@[j].round != round,
                None => forall|i: int| 0 <= i < self.commentaries@.len() ==> #[trigger] self.commentaries@[i].round != round,
            },
    {
        let mut i: usize = 0;
        while i < self.commentaries.len()
            invariant
                0 <= i <= self.commentaries@.len(),
                forall|j: int| 0 <= j < i ==> #[trigger] self.commentaries@[j].round != round,
            decreases self.commentaries@.len() - i,
        {
            if self.commentaries[i].round == round {
                let c = &self.commentaries[i];
                return Some(DrawCommentary { round: c.round, text: c.text.clone(), timestamp: c.timestamp });
            }
            i += 1;
        }
        None
    }

    /// The newest commentaries first, at most `limit` and never more than 50.
    pub fn recent_commentaries(&self, limit: u64) -> (r: Vec<DrawCommentary>)
        ensures
            r@.len() == (if limit < 50 {
                if (limit as int) < self.commentaries@.len() {
                    limit as int
                } else {
                    self.commentaries@.len() as int
                }
            } else {
                if 50 < self.commentaries@.len() {
                    50
                } else {
                    self.commentaries@.len() as int
                }
            }),
            forall|i: int| 0 <= i < r@.len() ==> {
                let c = #[trigger] self.commentaries@[self.commentaries@.len() - 1 - i];
                r@[i].round == c.round && r@[i].text == c.text && r@[i].timestamp == c.timestamp
            },
    {
        let cap: u64 = if limit < 50 {
            limit
        } else {
            50
        };
        let n = self.commentaries.len();
        let mut out: Vec<DrawCommentary> = Vec::new();
        let mut i: usize = 0;
        while i < n && (i as u64) < cap
            invariant
                n == self.commentaries@.len(),
                0 <= i <= n,
                i <= cap,
                cap <= 50,
                out@.len() == i,
                forall|j: int| 0 <= j < i ==> {
                    let c = #[trigger] self.commentaries@[n - 1 - j];
                    out@[j].round == c.round && out@[j].text == c.text && out@[j].timestamp == c.timestamp
                },
            decreases n - i,
        {
            let c = &self.commentaries[n - 1 - i];
            out.push(DrawCommentary { round: c.round, text: c.text.clone(), timestamp: c.timestamp });
            i += 1;
        }
        out
    }

    /// Page `page` of the chronicle, newest chapters first, 10 to a page.
    pub fn chronicle_page(&self, page: u64) -> (r: Vec<ChronicleEntry>)
        ensures
            ({
                let n = self.chronicle@.len() as int;
                let start = page as int * 10;
                let count = if start >= n {
                    0
                } else if n - start < 10 {
                    n - start
                } else {
                    10
                };
                &&& r@.len() == count
                &&& forall|i: int| 0 <= i < r@.len() ==> {
                    let e = #[trigger] self.chronicle@[n - 1 - start - i];
                    r@[i].chapter == e.chapter && r@[i].text == e.text && r@[i].timestamp == e.timestamp
                }
            }),
    {
        let n = self.chronicle.len();
        let mut out: Vec<ChronicleEntry> = Vec::new();
        if page >= (n as u64) / 10 + 1 {
            proof {
                assert(page as int * 10 >= n) by (nonlinear_arith)
                    requires
                        page as int >= n as int / 10 + 1,
                ;
            }
            return out;
        }
        let start: usize = (page as usize) * 10;
        if start >= n {
            return out;
        }
        let mut i: usize = 0;
        while i < 10 && start + i < n
            invariant
                n == self.chronicle@.len(),
                start == page as int * 10,
                start < n,
                0 <= i <= 10,
                start + i <= n,
                out@.len() == i,
                forall|j: int| 0 <= j < i ==> {
                    let e = #[trigger] self.chronicle@[n - 1 - start - j];
                    out@[j].chapter == e.chapter && out@[j].text == e.text && out@[j].timestamp == e.timestamp
                },
            decreases 10 - i,
        {
            let e = &self.chronicle[n - 1 - start - i];
            out.push(ChronicleEntry { chapter: e.chapter, text: e.text.clone(), timestamp: e.timestamp });
            i += 1;
        }
        out
    }

    /// The notable events, newest first.
    pub fn notable_events_newest_first(&self) -> (r: Vec<NotableEvent>)
        ensures
            r@.len() == self.notable_events@.len(),
            forall|i: int| 0 <= i < r@.len() ==> {
                let e = #[trigger] self.notable_events@[self.notable_events@.len() - 1 - i];
                r@[i].round == e.round && r@[i].description == e.description && r@[i].timestamp == e.timestamp
            },
    {
        let n = self.notable_events.len();
        let mut out: Vec<NotableEvent> = Vec::new();
        let mut i: usize = 0;
        while i < n
            invariant
                n == self.notable_events@.len(),
                0 <= i <= n,
                out@.len() == i,
                forall|j: int| 0 <= j < i ==> {
                    let e = #[trigger] self.notable_events@[n - 1 - j];
                    out@[j].round == e.round && out@[j].description == e.description && out@[j].timestamp == e.timestamp
                },
            decreases n - i,
        {
            let e = &self.notable_events[n - 1 - i];
            out.push(NotableEvent { round: e.round, description: e.description.clone(), timestamp: e.timestamp });
            i += 1;
        }
        out
    }
}

/// Position of the first player seen least recently.
fn least_recent(players: &Vec<RememberedPlayer>) -> (r: usize)
    requires
        players@.len() > 0,
    ensures
        r < players@.len(),
        forall|j: int| 0 <= j < players@.len() ==> players@[r as int].last_seen <= #[trigger] players@[j].last_seen,
        forall|j: int| 0 <= j < r ==> players@[j].last_seen > #[trigger] players@[r as int].last_seen,
{
    let mut best: usize = 0;
    let mut i: usize = 1;
    while i < players.len()
        invariant
            1 <= i <= players@.len(),
            best < i,
            forall|j: int| 0 <= j < i ==> players@[best as int].last_seen <= #[trigger] players@[j].last_seen,
            forall|j: int| 0 <= j < best ==> players@[j].last_seen > #[trigger] players@[best as int].last_seen,
        decreases players@.len() - i,
    {
        if players[i].last_seen < players[best].last_seen {
            best = i;
        }
        i += 1;
    }
    best
}

} // verus!
