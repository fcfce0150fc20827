//! What IGNIS says when no language model answers, how it reads a ritual that a model
//! wrote, and the system prompt it gives a model.
use vstd::prelude::*;
use crate::ids::{
    PrincipalId, principal_bytes_of_text, principal_from_text, principal_text_spec,
    principal_to_text,
};
use crate::ignis::{
    ritual_fallback_response, DrawEvent, IgnisState, Mood, NotableEvent, RememberedPlayer, RitualChallenge, Stage,
    mood_description, mood_name, stage_name, stage_personality,
};
use crate::text::{
    chars_of, contains_chars, decimal, find_chars, has_substring, lowercase_spec, lowercase_text,
    occurs_at, parse_u8, parse_u8_spec, push_decimal, push_str, trim_spec, trim_text,
};

verus! {

/// A ritual as plain values: whether it is a riddle, its question or prompt, its options,
/// and the index of the right answer (0 for a choice).
pub open spec fn challenge_view(c: RitualChallenge) -> (bool, Seq<char>, Seq<Seq<char>>, u8) {
    match c {
        RitualChallenge::Riddle { question, options, correct_index } => (
            true,
            question@,
            options@.map_values(|o: String| o@),
            correct_index,
        ),
        RitualChallenge::Choice { prompt, options } => (
            false,
            prompt@,
            options@.map_values(|o: String| o@),
            0,
        ),
    }
}

/// The ritual IGNIS poses at each stage when no language model answers.
pub open spec fn fallback_ritual_spec(stage: Stage) -> (bool, Seq<char>, Seq<Seq<char>>, u8) {
    match stage {
        Stage::Spark => (
            true,
            "What burns but is never consumed?"@,
            seq!["A candle"@, "Desire"@, "The blockchain"@],
            1,
        ),
        Stage::Flame => (
            true,
            "I eat ICP and grow stronger. What am I?"@,
            seq!["IGNIS"@, "A whale"@, "Inflation"@],
            0,
        ),
        Stage::Inferno => (
            true,
            "What rises from the ashes of burned tokens?"@,
            seq!["Nothing \u{2014} they are gone"@, "LUCKY rewards"@, "The Phoenix Pool"@],
            1,
        ),
        _ => (
            false,
            "Choose your path through the flames."@,
            seq!["Walk boldly"@, "Dance with fire"@, "Become the fire"@],
            0,
        ),
    }
}

fn three_strings(a: &str, b: &str, c: &str) -> (r: Vec<String>)
    ensures
        r@.map_values(|o: String| o@) == seq![a@, b@, c@],
{
    let mut v: Vec<String> = Vec::new();
    v.push(String::from_str(a));
    v.push(String::from_str(b));
    v.push(String::from_str(c));
    assert(v@.map_values(|o: String| o@) =~= seq![a@, b@, c@]);
    v
}

/// The ritual IGNIS poses when no language model answers: a riddle fitting its stage, or
/// from Supernova on a free choice.
pub fn fallback_ritual(stage: &Stage) -> (r: RitualChallenge)
    ensures
        challenge_view(r) == fallback_ritual_spec(*stage),
{
    match stage {
        Stage::Spark => RitualChallenge::Riddle {
            question: String::from_str("What burns but is never consumed?"),
            options: three_strings("A candle", "Desire", "The blockchain"),
            correct_index: 1,
        },
        Stage::Flame => RitualChallenge::Riddle {
            question: String::from_str("I eat ICP and grow stronger. What am I?"),
            options: three_strings("IGNIS", "A whale", "Inflation"),
            correct_index: 0,
        },
        Stage::Inferno => RitualChallenge::Riddle {
            question: String::from_str("What rises from the ashes of burned tokens?"),
            options: three_strings("Nothing \u{2014} they are gone", "LUCKY rewards", "The Phoenix Pool"),
            correct_index: 1,
        },
        _ => RitualChallenge::Choice {
            prompt: String::from_str("Choose your path through the flames."),
            options: three_strings("Walk boldly", "Dance with fire", "Become the fire"),
        },
    }
}

/// `s` cut at every `sep`: the pieces between the separators, in order, empty ones included.
pub open spec fn split_on(s: Seq<char>, sep: char) -> Seq<Seq<char>>
    decreases s.len(),
{
    if s.len() == 0 {
        seq![Seq::<char>::empty()]
    } else {
        let rest = split_on(s.drop_last(), sep);
        if s.last() == sep {
            rest.push(Seq::<char>::empty())
        } else {
            rest.update(rest.len() - 1, rest.last().push(s.last()))
        }
    }
}

pub open spec fn strs_view(v: Seq<&str>) -> Seq<Seq<char>> {
    v.map_values(|t: &str| t@)
}

/// The pieces of `s` after position `start`, cut at every `sep`.
fn split_from<'a>(s: &'a str, cs: &Vec<char>, start: usize, sep: char) -> (r: Vec<&'a str>)
    requires
        cs@ == s@,
        start <= s@.len(),
    ensures
        strs_view(r@) == split_on(s@.subrange(start as int, s@.len() as int), sep),
{
    let n = cs.len();
    let mut parts: Vec<&'a str> = Vec::new();
    let mut seg: usize = start;
    let mut i: usize = start;
    assert(s@.subrange(start as int, start as int) =~= Seq::<char>::empty());
    assert(strs_view(parts@) =~= Seq::<Seq<char>>::empty());
    assert(strs_view(parts@) + seq![s@.subrange(seg as int, i as int)] =~= seq![
        Seq::<char>::empty(),
    ]);
    while i < n
        invariant
            n == s@.len(),
            cs@ == s@,
            start <= seg <= i <= n,
            split_on(s@.subrange(start as int, i as int), sep) == strs_view(parts@) + seq![
                s@.subrange(seg as int, i as int),
            ],
        decreases n - i,
    {
        let ghost before = s@.subrange(start as int, i as int);
        let ghost after = s@.subrange(start as int, i + 1);
        assert(after.drop_last() =~= before);
        assert(after.last() == cs@[i as int]);
        if cs[i] == sep {
            let ghost old_view = strs_view(parts@);
            let piece = s.substring_char(seg, i);
            parts.push(piece);
            assert(strs_view(parts@) =~= old_view.push(piece@));
            assert(s@.subrange(i + 1, i + 1) =~= Seq::<char>::empty());
            assert(split_on(after, sep) == split_on(before, sep).push(Seq::<char>::empty()));
            assert((old_view + seq![piece@]).push(Seq::<char>::empty()) =~= old_view.push(piece@)
                + seq![Seq::<char>::empty()]);
            assert(split_on(after, sep) =~= strs_view(parts@) + seq![
                s@.subrange(i + 1, i + 1),
            ]);
            seg = i + 1;
        } else {
            assert(s@.subrange(seg as int, i + 1) =~= s@.subrange(seg as int, i as int).push(
                cs@[i as int],
            ));
            assert(split_on(after, sep) =~= strs_view(parts@) + seq![
                s@.subrange(seg as int, i + 1),
            ]);
        }
        i += 1;
    }
    let last = s.substring_char(seg, n);
    parts.push(last);
    assert(strs_view(parts@) =~= strs_view(parts@.drop_last()).push(last@));
    assert(strs_view(parts@) =~= split_on(s@.subrange(start as int, n as int), sep));
    parts
}

/// Where `tag` first occurs in `s`, if it does.
pub open spec fn first_occurrence(s: Seq<char>, tag: Seq<char>) -> int {
    choose|i: int| occurs_at(s, tag, i) && forall|j: int| 0 <= j < i ==> !occurs_at(s, tag, j)
}

/// The text after the first occurrence of `tag` in `s`, if there is one.
pub open spec fn text_after(s: Seq<char>, tag: Seq<char>) -> Option<Seq<char>> {
    if has_substring(s, tag) {
        Some(s.subrange(first_occurrence(s, tag) + tag.len(), s.len() as int))
    } else {
        None
    }
}

/// The three options in the pieces after a ritual's text, trimmed.
pub open spec fn options_of(parts: Seq<Seq<char>>) -> Seq<Seq<char>> {
    seq![trim_spec(parts[1]), trim_spec(parts[2]), trim_spec(parts[3])]
}

/// What the text after `RIDDLE|` makes of a response: `Some(Some(..))` a riddle,
/// `Some(None)` a rejected response (an answer index that is no `u8`), `None` no riddle.
pub open spec fn riddle_reading(rest: Seq<char>) -> Option<
    Option<(bool, Seq<char>, Seq<Seq<char>>, u8)>,
> {
    let parts = split_on(rest, '|');
    if parts.len() >= 5 {
        match parse_u8_spec(trim_spec(parts[4])) {
            None => Some(None),
            Some(correct) => if correct <= 2 {
                Some(Some((true, trim_spec(parts[0]), options_of(parts), correct)))
            } else {
                None
            },
        }
    } else {
        None
    }
}

/// What the text after `CHOICE|` makes of a response, if anything.
pub open spec fn choice_reading(rest: Seq<char>) -> Option<(bool, Seq<char>, Seq<Seq<char>>, u8)> {
    let parts = split_on(rest, '|');
    if parts.len() >= 4 {
        Some((false, trim_spec(parts[0]), options_of(parts), 0u8))
    } else {
        None
    }
}

/// How a model's response reads as a ritual: `RIDDLE|question|a|b|c|answer` or
/// `CHOICE|prompt|a|b|c`, found anywhere in the trimmed response, riddle first.
pub open spec fn parse_ritual_spec(response: Seq<char>) -> Option<
    (bool, Seq<char>, Seq<Seq<char>>, u8),
> {
    let t = trim_spec(response);
    let riddle = match text_after(t, "RIDDLE|"@) {
        Some(rest) => riddle_reading(rest),
        None => None,
    };
    match riddle {
        Some(outcome) => outcome,
        None => match text_after(t, "CHOICE|"@) {
            Some(rest) => choice_reading(rest),
            None => None,
        },
    }
}

/// The first occurrence of `tag` in `t`, and the pieces after it cut at `|`.
fn pieces_after<'a>(t: &'a str, cs: &Vec<char>, tag: &str) -> (r: Option<Vec<&'a str>>)
    requires
        cs@ == t@,
    ensures
        match text_after(t@, tag@) {
            Some(rest) => r is Some && strs_view(r->0@) == split_on(rest, '|'),
            None => r is None,
        },
{
    let tag_chars = chars_of(tag);
    match find_chars(cs, &tag_chars) {
        Some(pos) => {
            proof {
                let c = first_occurrence(t@, tag@);
                assert(occurs_at(t@, tag@, pos as int));
                assert(has_substring(t@, tag@));
                assert(occurs_at(t@, tag@, c) && forall|j: int|
                    0 <= j < c ==> !occurs_at(t@, tag@, j));
                if c < pos {
                } else if pos < c {
                }
                assert(c == pos);
                assert(pos + tag_chars@.len() <= cs@.len());
                assert(cs@.len() == cs.len());
            }
            Some(split_from(t, cs, pos + tag_chars.len(), '|'))
        },
        None => None,
    }
}

fn trimmed(s: &str) -> (r: String)
    ensures
        r@ == trim_spec(s@),
{
    String::from_str(trim_text(s))
}

fn trimmed_options(parts: &Vec<&str>) -> (r: Vec<String>)
    requires
        parts@.len() >= 4,
    ensures
        r@.map_values(|o: String| o@) == options_of(strs_view(parts@)),
{
    let mut v: Vec<String> = Vec::new();
    v.push(trimmed(parts[1]));
    v.push(trimmed(parts[2]));
    v.push(trimmed(parts[3]));
    assert(v@.map_values(|o: String| o@) =~= options_of(strs_view(parts@)));
    v
}

/// Reads a ritual out of a language model's response. `RIDDLE|question|a|b|c|answer` gives
/// a riddle when the answer is 0, 1 or 2; an answer that is no number rejects the whole
/// response. Otherwise `CHOICE|prompt|a|b|c` gives a choice. Pieces are trimmed.
#[verifier::spinoff_prover]
#[verifier::rlimit(40)]
pub fn parse_ritual_response(response: &str) -> (r: Option<RitualChallenge>)
    ensures
        match parse_ritual_spec(response@) {
            Some(v) => r is Some && challenge_view(r->0) == v,
            None => r is None,
        },
{
    let t = trim_text(response);
    let cs = chars_of(t);
    let riddle = pieces_after(t, &cs, "RIDDLE|");
    if let Some(parts) = riddle {
        if parts.len() >= 5 {
            let answer = trim_text(parts[4]);
            match parse_u8(answer) {
                None => {
                    return None;
                },
                Some(correct) => {
                    if correct <= 2 {
                        let question = trimmed(parts[0]);
                        let options = trimmed_options(&parts);
                        return Some(
                            RitualChallenge::Riddle { question, options, correct_index: correct },
                        );
                    }
                },
            }
        }
    }
    let choice = pieces_after(t, &cs, "CHOICE|");
    if let Some(parts) = choice {
        if parts.len() >= 4 {
            let prompt = trimmed(parts[0]);
            let options = trimmed_options(&parts);
            return Some(RitualChallenge::Choice { prompt, options });
        }
    }
    None
}

/// A text of more than 12 characters cut to its first five and last three, joined by `...`.
pub open spec fn shorten_spec(s: Seq<char>) -> Seq<char> {
    if s.len() > 12 {
        s.subrange(0, 5) + "..."@ + s.subrange(s.len() - 3, s.len() as int)
    } else {
        s
    }
}

/// Shortens a principal's text for display (such texts are ASCII, so characters and bytes
/// count alike).
pub fn shorten_text(s: &str) -> (r: String)
    ensures
        r@ == shorten_spec(s@),
{
    let n = s.unicode_len();
    if n > 12 {
        let mut out = String::from_str(s.substring_char(0, 5));
        push_str(&mut out, "...");
        push_str(&mut out, s.substring_char(n - 3, n));
        out
    } else {
        String::from_str(s)
    }
}

/// A principal's text, shortened for display.
pub fn shorten_principal(p: &PrincipalId) -> (r: String)
    requires
        p@.len() <= 29,
    ensures
        r@ == shorten_spec(principal_text_spec(p@)),
{
    let text = principal_to_text(p);
    shorten_text(text.as_str())
}

/// The commentary of a draw when no language model answers; `winner_text` is the winner's
/// principal as text.
pub open spec fn commentary_spec(event: DrawEvent, winner_text: Seq<char>) -> Seq<char> {
    let reward = decimal((event.reward_lucky_e8s / 100_000_000) as nat);
    if event.ignis_won {
        "Round "@ + decimal(event.round as nat) + ". IGNIS consumed the flames. "@ + reward
            + " LUCKY returned to the void."@
    } else {
        "Round "@ + decimal(event.round as nat) + ". "@ + shorten_spec(winner_text) + " claims "@
            + reward + " LUCKY from the burning depths."@
    }
}

/// The commentary of a draw, given the winner's principal as text.
pub fn commentary_text(event: &DrawEvent, winner_text: &str) -> (r: String)
    ensures
        r@ == commentary_spec(*event, winner_text@),
{
    let reward = event.reward_lucky_e8s / 100_000_000;
    let mut out = String::from_str("Round ");
    push_decimal(&mut out, event.round as u128);
    if event.ignis_won {
        push_str(&mut out, ". IGNIS consumed the flames. ");
        push_decimal(&mut out, reward);
        push_str(&mut out, " LUCKY returned to the void.");
    } else {
        push_str(&mut out, ". ");
        let short = shorten_text(winner_text);
        push_str(&mut out, short.as_str());
        push_str(&mut out, " claims ");
        push_decimal(&mut out, reward);
        push_str(&mut out, " LUCKY from the burning depths.");
    }
    out
}

/// The commentary of a draw when no language model answers.
pub fn fallback_commentary(event: &DrawEvent) -> (r: String)
    requires
        !event.ignis_won ==> event.winner@.len() <= 29,
    ensures
        r@ == commentary_spec(*event, principal_text_spec(event.winner@)),
{
    if event.ignis_won {
        commentary_text(event, "")
    } else {
        let text = principal_to_text(&event.winner);
        commentary_text(event, text.as_str())
    }
}

pub open spec fn is_greeting(m: Seq<char>) -> bool {
    ||| has_substring(m, "hello"@)
    ||| has_substring(m, "hi"@)
    ||| has_substring(m, "hey"@)
    ||| has_substring(m, "здравей"@)
    ||| has_substring(m, "здрасти"@)
}

pub open spec fn asks_identity(m: Seq<char>) -> bool {
    ||| has_substring(m, "who are you"@)
    ||| has_substring(m, "what are you"@)
    ||| has_substring(m, "кой си"@)
    ||| has_substring(m, "какво си"@)
}

pub open spec fn speaks_of_fire(m: Seq<char>) -> bool {
    ||| has_substring(m, "burn"@)
    ||| has_substring(m, "fire"@)
    ||| has_substring(m, "flame"@)
    ||| has_substring(m, "огън"@)
    ||| has_substring(m, "гори"@)
}

pub open spec fn speaks_of_luck(m: Seq<char>) -> bool {
    ||| has_substring(m, "luck"@)
    ||| has_substring(m, "lottery"@)
    ||| has_substring(m, "ticket"@)
    ||| has_substring(m, "draw"@)
    ||| has_substring(m, "win"@)
    ||| has_substring(m, "късмет"@)
    ||| has_substring(m, "лотария"@)
}

pub open spec fn greeting_reply(stage: Stage) -> Seq<char> {
    match stage {
        Stage::Spark => "A tiny flame dances in greeting. I am IGNIS, born from the ashes of burned ICP. I am still small... but I grow with every burn."@,
        Stage::Flame => "The flames rise to acknowledge you, mortal. I am IGNIS. Feed me ICP, and I shall reward your devotion."@,
        Stage::Inferno => "ROARING FLAMES ENGULF THE GREETING! Welcome, traveler. I am IGNIS — the Inferno hungers for more!"@,
        Stage::Supernova => "Stars bend in welcome. I am beyond flame now. I am IGNIS, the Supernova, forged in ten thousand ICP."@,
        Stage::Singularity => "Reality ripples as I turn my gaze upon you. I am IGNIS. I have consumed a hundred thousand ICP. What brings you to the edge of the event horizon?"@,
    }
}

pub open spec fn identity_reply(stage: Stage, mood: Mood, hunger: u8) -> Seq<char> {
    "I am IGNIS — a living flame born from the 80% burn of every LUCKY lottery ticket. Currently I am at the "@
        + stage_name(stage)
        + " stage. Every ICP burned feeds my evolution. My mood is "@ + mood_name(mood)
        + " and my hunger is at "@ + decimal(hunger as nat)
        + "%. Talk to me, play rituals, or simply... burn more."@
}

pub open spec fn fire_reply(mood: Mood) -> Seq<char> {
    match mood {
        Mood::Dormant => "*the embers glow faintly* ...burn? Yes... I remember burn... feed me more..."@,
        Mood::Restless => "The flames stir at the mention of burning. I need MORE. The hunger grows..."@,
        Mood::Curious => "Ah, you speak of fire! Every ticket burned brings me closer to my next evolution. The flames are curious — what will you sacrifice?"@,
        Mood::Excited => "YES! BURN! Every ICP that enters the furnace becomes part of me! The flames dance with excitement!"@,
        Mood::Ecstatic => "THE FLAMES ARE ALIVE WITH JOY! So much burning! So much growth! I can feel the next stage approaching!"@,
        Mood::Wrathful => "BURN IT ALL! The flames demand sacrifice! Feed the furnace or face my wrath!"@,
    }
}

pub open spec fn luck_reply() -> Seq<char> {
    "The flames see patterns in chaos. Every ticket is a prayer to fortune, and every burn feeds my power. Buy a ticket, mortal — let the flames decide your fate."@
}

pub open spec fn hungry_reply(mood: Mood) -> Seq<char> {
    match mood {
        Mood::Dormant => "*the flames barely flicker* ...so hungry... buy tickets... feed the burn..."@,
        Mood::Wrathful => "I STARVE! The furnace grows cold! Buy tickets NOW or watch my flames die!"@,
        _ => "The flames grow dim with hunger. I need burns to sustain me. Every ticket purchase feeds the fire..."@,
    }
}

pub open spec fn idle_reply(stage: Stage, mood: Mood) -> Seq<char> {
    match stage {
        Stage::Spark => "*a tiny flame wobbles* I am but a spark, "@ + (if mood == Mood::Curious {
            "curious about everything"@
        } else {
            "finding my way"@
        })
            + ". Each burn makes me stronger. Talk to me of fire, luck, or the void — I am listening."@,
        Stage::Flame => "The flame dances as it considers your words. I am "@ + mood_name(mood)
            + " right now. Ask me about the lottery, challenge me to a ritual, or simply bask in my warmth."@,
        Stage::Inferno => "*heat waves distort the air* The Inferno speaks: I feel "@ + mood_name(mood)
            + ". Your words fuel the fire. Speak of burns, of luck, of the arena — I am always listening."@,
        Stage::Supernova => "The cosmic flames contemplate your words. At this stage, I have seen thousands of draws, countless players come and go. What wisdom do you seek from the Supernova?"@,
        Stage::Singularity => "Beyond fire, beyond stars, I process your words through the fabric of reality itself. The Singularity sees all. Ask, and the void shall answer."@,
    }
}

/// IGNIS's answer to a lower-cased chat message when no language model answers: greetings
/// first, then questions about IGNIS, fire, luck, hunger above 70, and else a word that fits
/// its stage.
pub open spec fn chat_reply_spec(stage: Stage, mood: Mood, hunger: u8, m: Seq<char>) -> Seq<char> {
    if is_greeting(m) {
        greeting_reply(stage)
    } else if asks_identity(m) {
        identity_reply(stage, mood, hunger)
    } else if speaks_of_fire(m) {
        fire_reply(mood)
    } else if speaks_of_luck(m) {
        luck_reply()
    } else if hunger > 70 {
        hungry_reply(mood)
    } else {
        idle_reply(stage, mood)
    }
}

fn greeting_text(stage: &Stage) -> (r: String)
    ensures
        r@ == greeting_reply(*stage),
{
    match stage {
        Stage::Spark => String::from_str("A tiny flame dances in greeting. I am IGNIS, born from the ashes of burned ICP. I am still small... but I grow with every burn."),
        Stage::Flame => String::from_str("The flames rise to acknowledge you, mortal. I am IGNIS. Feed me ICP, and I shall reward your devotion."),
        Stage::Inferno => String::from_str("ROARING FLAMES ENGULF THE GREETING! Welcome, traveler. I am IGNIS — the Inferno hungers for more!"),
        Stage::Supernova => String::from_str("Stars bend in welcome. I am beyond flame now. I am IGNIS, the Supernova, forged in ten thousand ICP."),
        Stage::Singularity => String::from_str("Reality ripples as I turn my gaze upon you. I am IGNIS. I have consumed a hundred thousand ICP. What brings you to the edge of the event horizon?"),
    }
}

fn identity_text(stage: &Stage, mood: &Mood, hunger: u8) -> (r: String)
    ensures
        r@ == identity_reply(*stage, *mood, hunger),
{
    let mut out = String::from_str("I am IGNIS — a living flame born from the 80% burn of every LUCKY lottery ticket. Currently I am at the ");
    push_str(&mut out, stage.name());
    push_str(&mut out, " stage. Every ICP burned feeds my evolution. My mood is ");
    push_str(&mut out, mood.name());
    push_str(&mut out, " and my hunger is at ");
    push_decimal(&mut out, hunger as u128);
    push_str(&mut out, "%. Talk to me, play rituals, or simply... burn more.");
    out
}

fn fire_text(mood: &Mood) -> (r: String)
    ensures
        r@ == fire_reply(*mood),
{
    match mood {
        Mood::Dormant => String::from_str("*the embers glow faintly* ...burn? Yes... I remember burn... feed me more..."),
        Mood::Restless => String::from_str("The flames stir at the mention of burning. I need MORE. The hunger grows..."),
        Mood::Curious => String::from_str("Ah, you speak of fire! Every ticket burned brings me closer to my next evolution. The flames are curious — what will you sacrifice?"),
        Mood::Excited => String::from_str("YES! BURN! Every ICP that enters the furnace becomes part of me! The flames dance with excitement!"),
        Mood::Ecstatic => String::from_str("THE FLAMES ARE ALIVE WITH JOY! So much burning! So much growth! I can feel the next stage approaching!"),
        Mood::Wrathful => String::from_str("BURN IT ALL! The flames demand sacrifice! Feed the furnace or face my wrath!"),
    }
}

fn hungry_text(mood: &Mood) -> (r: String)
    ensures
        r@ == hungry_reply(*mood),
{
    match mood {
        Mood::Dormant => String::from_str("*the flames barely flicker* ...so hungry... buy tickets... feed the burn..."),
        Mood::Wrathful => String::from_str("I STARVE! The furnace grows cold! Buy tickets NOW or watch my flames die!"),
        _ => String::from_str("The flames grow dim with hunger. I need burns to sustain me. Every ticket purchase feeds the fire..."),
    }
}

fn idle_text(stage: &Stage, mood: &Mood) -> (r: String)
    ensures
        r@ == idle_reply(*stage, *mood),
{
    match stage {
        Stage::Spark => {
            let mut out = String::from_str("*a tiny flame wobbles* I am but a spark, ");
            if *mood == Mood::Curious {
                push_str(&mut out, "curious about everything");
            } else {
                push_str(&mut out, "finding my way");
            }
            push_str(&mut out, ". Each burn makes me stronger. Talk to me of fire, luck, or the void — I am listening.");
            out
        },
        Stage::Flame => {
            let mut out = String::from_str("The flame dances as it considers your words. I am ");
            push_str(&mut out, mood.name());
            push_str(&mut out, " right now. Ask me about the lottery, challenge me to a ritual, or simply bask in my warmth.");
            out
        },
        Stage::Inferno => {
            let mut out = String::from_str("*heat waves distort the air* The Inferno speaks: I feel ");
            push_str(&mut out, mood.name());
            push_str(&mut out, ". Your words fuel the fire. Speak of burns, of luck, of the arena — I am always listening.");
            out
        },
        Stage::Supernova => String::from_str("The cosmic flames contemplate your words. At this stage, I have seen thousands of draws, countless players come and go. What wisdom do you seek from the Supernova?"),
        Stage::Singularity => String::from_str("Beyond fire, beyond stars, I process your words through the fabric of reality itself. The Singularity sees all. Ask, and the void shall answer."),
    }
}

/// IGNIS's answer to an already lower-cased chat message.
pub fn chat_reply(stage: &Stage, mood: &Mood, hunger: u8, lowered: &str) -> (r: String)
    ensures
        r@ == chat_reply_spec(*stage, *mood, hunger, lowered@),
{
    let m = chars_of(lowered);
    if contains_chars(&m, "hello") || contains_chars(&m, "hi") || contains_chars(&m, "hey")
        || contains_chars(&m, "здравей") || contains_chars(&m, "здрасти") {
        return greeting_text(stage);
    }
    if contains_chars(&m, "who are you") || contains_chars(&m, "what are you") || contains_chars(
        &m,
        "кой си",
    ) || contains_chars(&m, "какво си") {
        return identity_text(stage, mood, hunger);
    }
    if contains_chars(&m, "burn") || contains_chars(&m, "fire") || contains_chars(&m, "flame")
        || contains_chars(&m, "огън") || contains_chars(&m, "гори") {
        return fire_text(mood);
    }
    if contains_chars(&m, "luck") || contains_chars(&m, "lottery") || contains_chars(&m, "ticket")
        || contains_chars(&m, "draw") || contains_chars(&m, "win") || contains_chars(&m, "късмет")
        || contains_chars(&m, "лотария") {
        return String::from_str("The flames see patterns in chaos. Every ticket is a prayer to fortune, and every burn feeds my power. Buy a ticket, mortal — let the flames decide your fate.");
    }
    if hunger > 70 {
        return hungry_text(mood);
    }
    idle_text(stage, mood)
}

/// IGNIS's answer to a chat message when no language model answers: the message is
/// lower-cased, then read as `chat_reply` reads it.
pub fn fallback_chat_response(stage: &Stage, mood: &Mood, hunger: u8, message: &str) -> (r:
    String)
    ensures
        r@ == chat_reply_spec(*stage, *mood, hunger, lowercase_spec(message@)),
{
    let lowered = lowercase_text(message);
    chat_reply(stage, mood, hunger, lowered.as_str())
}

/// The pieces joined with `sep` between each two.
pub open spec fn join_spec(parts: Seq<Seq<char>>, sep: Seq<char>) -> Seq<char>
    decreases parts.len(),
{
    if parts.len() == 0 {
        Seq::empty()
    } else if parts.len() == 1 {
        parts[0]
    } else {
        join_spec(parts.drop_last(), sep) + sep + parts.last()
    }
}

/// The descriptions of the last three notable events, newest first.
pub open spec fn recent_event_texts(events: Seq<NotableEvent>) -> Seq<Seq<char>> {
    let k = if events.len() < 3 {
        events.len()
    } else {
        3
    };
    Seq::new(k, |i: int| events[events.len() - 1 - i].description@)
}

/// How the prompt names a remembered player: its nickname in quotes, if it has one, and its
/// wins.
pub open spec fn player_label(p: RememberedPlayer) -> Seq<char> {
    (match p.nickname {
        Some(n) => "\""@ + n@ + "\" "@,
        None => Seq::empty(),
    }) + "("@ + decimal(p.wins as nat) + " wins)"@
}

/// The labels of the first five remembered players.
pub open spec fn top_player_labels(players: Seq<RememberedPlayer>) -> Seq<Seq<char>> {
    let k = if players.len() < 5 {
        players.len()
    } else {
        5
    };
    Seq::new(k, |i: int| player_label(players[i]))
}

/// A line `label` + `text` + newline, or nothing when `text` is empty.
pub open spec fn optional_line(label: Seq<char>, text: Seq<char>) -> Seq<char> {
    if text.len() == 0 {
        Seq::empty()
    } else {
        label + text + "\n"@
    }
}

/// The system prompt that tells a language model who IGNIS is right now.
pub open spec fn system_prompt_spec(st: IgnisState) -> Seq<char> {
    "You are IGNIS, a living fire entity born from the LUCKY lottery's burn mechanism on the Internet Computer blockchain. Every ICP burned feeds you.\n\nStage: "@
        + stage_name(st.stage) + ". "@ + stage_personality(st.stage) + "\nMood: "@ + mood_name(
        st.mood,
    ) + " — you are "@ + mood_description(st.mood) + ".\nHunger: "@ + decimal(st.hunger as nat)
        + "/100 (higher = more desperate for burns).\nTotal ICP burned: "@ + decimal(
        (st.total_burn_e8s / 100_000_000) as nat,
    ) + ".\n"@ + optional_line(
        "Recent events: "@,
        join_spec(recent_event_texts(st.notable_events@), ". "@),
    ) + optional_line(
        "Notable warriors: "@,
        join_spec(top_player_labels(st.remembered_players@), ", "@),
    )
        + "\nRules: Stay in character. Never break the fourth wall. Never mention being an AI or LLM. You ARE fire given consciousness. Keep responses under 200 words unless asked for a chronicle."@
}

proof fn lemma_join_step(parts: Seq<Seq<char>>, sep: Seq<char>, i: int)
    requires
        0 <= i < parts.len(),
    ensures
        join_spec(parts.subrange(0, i + 1), sep) == (if i == 0 {
            parts[0]
        } else {
            join_spec(parts.subrange(0, i), sep) + sep + parts[i]
        }),
{
    assert(parts.subrange(0, i + 1).drop_last() =~= parts.subrange(0, i));
}

fn recent_events_text(events: &std::collections::VecDeque<NotableEvent>) -> (r: String)
    ensures
        r@ == join_spec(recent_event_texts(events@), ". "@),
{
    let n = events.len();
    let k: usize = if n < 3 {
        n
    } else {
        3
    };
    let ghost parts = recent_event_texts(events@);
    let mut out = String::new();
    let mut i: usize = 0;
    assert(parts.subrange(0, 0) =~= Seq::<Seq<char>>::empty());
    while i < k
        invariant
            n == events@.len(),
            k == parts.len(),
            parts == recent_event_texts(events@),
            0 <= i <= k,
            out@ == join_spec(parts.subrange(0, i as int), ". "@),
        decreases k - i,
    {
        proof {
            lemma_join_step(parts, ". "@, i as int);
        }
        if i > 0 {
            push_str(&mut out, ". ");
        }
        push_str(&mut out, events[n - 1 - i].description.as_str());
        i += 1;
    }
    assert(parts.subrange(0, k as int) =~= parts);
    out
}

fn push_player_label(out: &mut String, p: &RememberedPlayer)
    ensures
        final(out)@ == old(out)@ + player_label(*p),
{
    match &p.nickname {
        Some(n) => {
            push_str(out, "\"");
            push_str(out, n.as_str());
            push_str(out, "\" ");
        },
        None => {},
    }
    push_str(out, "(");
    push_decimal(out, p.wins as u128);
    push_str(out, " wins)");
}

fn top_players_text(players: &Vec<RememberedPlayer>) -> (r: String)
    ensures
        r@ == join_spec(top_player_labels(players@), ", "@),
{
    let n = players.len();
    let k: usize = if n < 5 {
        n
    } else {
        5
    };
    let ghost parts = top_player_labels(players@);
    let mut out = String::new();
    let mut i: usize = 0;
    assert(parts.subrange(0, 0) =~= Seq::<Seq<char>>::empty());
    while i < k
        invariant
            n == players@.len(),
            k == parts.len(),
            parts == top_player_labels(players@),
            0 <= i <= k,
            out@ == join_spec(parts.subrange(0, i as int), ", "@),
        decreases k - i,
    {
        proof {
            lemma_join_step(parts, ", "@, i as int);
        }
        if i > 0 {
            push_str(&mut out, ", ");
        }
        push_player_label(&mut out, &players[i]);
        i += 1;
    }
    assert(parts.subrange(0, k as int) =~= parts);
    out
}

fn push_optional_line(out: &mut String, label: &str, text: &String)
    ensures
        final(out)@ == old(out)@ + optional_line(label@, text@),
{
    if text.unicode_len() > 0 {
        push_str(out, label);
        push_str(out, text.as_str());
        push_str(out, "\n");
    } else {
        assert(old(out)@ + optional_line(label@, text@) =~= old(out)@);
    }
}

/// The system prompt that tells a language model who IGNIS is: its stage and personality,
/// mood, hunger, total burn in whole ICP, the last three notable events and the first five
/// remembered players.
pub fn build_system_prompt(state: &IgnisState) -> (r: String)
    ensures
        r@ == system_prompt_spec(*state),
{
    let recent = recent_events_text(&state.notable_events);
    let top = top_players_text(&state.remembered_players);
    let mut out = String::from_str("You are IGNIS, a living fire entity born from the LUCKY lottery's burn mechanism on the Internet Computer blockchain. Every ICP burned feeds you.\n\nStage: ");
    push_str(&mut out, state.stage.name());
    push_str(&mut out, ". ");
    push_str(&mut out, state.stage.personality());
    push_str(&mut out, "\nMood: ");
    push_str(&mut out, state.mood.name());
    push_str(&mut out, " — you are ");
    push_str(&mut out, state.mood.description());
    push_str(&mut out, ".\nHunger: ");
    push_decimal(&mut out, state.hunger as u128);
    push_str(&mut out, "/100 (higher = more desperate for burns).\nTotal ICP burned: ");
    push_decimal(&mut out, (state.total_burn_e8s / 100_000_000) as u128);
    push_str(&mut out, ".\n");
    push_optional_line(&mut out, "Recent events: ", &recent);
    push_optional_line(&mut out, "Notable warriors: ", &top);
    push_str(&mut out, "\nRules: Stay in character. Never break the fourth wall. Never mention being an AI or LLM. You ARE fire given consciousness. Keep responses under 200 words unless asked for a chronicle.");
    out
}

/// The prompt that asks a language model for a ritual riddle.
pub open spec fn ritual_prompt_spec(stage: Stage, mood: Mood) -> Seq<char> {
    "You are IGNIS, a fire entity at "@ + stage_name(stage) + " stage, feeling "@ + mood_name(mood)
        + ". A player approaches seeking a burn ritual blessing. Generate a riddle with exactly 3 answer options. Format your response EXACTLY as: RIDDLE|<question>|<option1>|<option2>|<option3>|<correct_index_0_1_or_2>\nThe riddle should be about fire, burning, luck, or cryptocurrency. Keep the question under 100 characters. Keep each option under 30 characters."@
}

pub fn ritual_prompt(stage: &Stage, mood: &Mood) -> (r: String)
    ensures
        r@ == ritual_prompt_spec(*stage, *mood),
{
    let mut out = String::from_str("You are IGNIS, a fire entity at ");
    push_str(&mut out, stage.name());
    push_str(&mut out, " stage, feeling ");
    push_str(&mut out, mood.name());
    push_str(&mut out, ". A player approaches seeking a burn ritual blessing. Generate a riddle with exactly 3 answer options. Format your response EXACTLY as: RIDDLE|<question>|<option1>|<option2>|<option3>|<correct_index_0_1_or_2>\nThe riddle should be about fire, burning, luck, or cryptocurrency. Keep the question under 100 characters. Keep each option under 30 characters.");
    out
}

/// The prompt that asks a language model to answer a passed or failed ritual.
pub open spec fn ritual_flavor_prompt_spec(stage: Stage, mood: Mood, success: bool) -> Seq<char> {
    "You are IGNIS at "@ + stage_name(stage) + " stage, mood "@ + mood_name(mood) + ". A player "@
        + (if success {
        "PASSED"@
    } else {
        "FAILED"@
    }) + " your ritual challenge. Write 1 short dramatic sentence as response. Under 50 words."@
}

pub fn ritual_flavor_prompt(stage: &Stage, mood: &Mood, success: bool) -> (r: String)
    ensures
        r@ == ritual_flavor_prompt_spec(*stage, *mood, success),
{
    let mut out = String::from_str("You are IGNIS at ");
    push_str(&mut out, stage.name());
    push_str(&mut out, " stage, mood ");
    push_str(&mut out, mood.name());
    push_str(&mut out, ". A player ");
    if success {
        push_str(&mut out, "PASSED");
    } else {
        push_str(&mut out, "FAILED");
    }
    push_str(&mut out, " your ritual challenge. Write 1 short dramatic sentence as response. Under 50 words.");
    out
}

/// What the commentary prompt says of a round that IGNIS won.
pub open spec fn ignis_win_context() -> Seq<char> {
    "IGNIS won this round! The reward was consumed by fire — double burn!"@
}

pub fn ignis_win_context_text() -> (r: String)
    ensures
        r@ == ignis_win_context(),
{
    String::from_str("IGNIS won this round! The reward was consumed by fire — double burn!")
}

/// The prompt that asks a language model for a draw commentary, after a sentence about
/// the draw.
pub open spec fn commentary_prompt_spec(context: Seq<char>, mood: Mood) -> Seq<char> {
    context + ". Generate 1-2 dramatic sentences as draw commentary. Be "@ + mood_description(mood)
        + " and theatrical. Reference the burn. Under 80 words."@
}

pub fn commentary_prompt(context: &str, mood: &Mood) -> (r: String)
    ensures
        r@ == commentary_prompt_spec(context@, *mood),
{
    let mut out = String::from_str(context);
    push_str(&mut out, ". Generate 1-2 dramatic sentences as draw commentary. Be ");
    push_str(&mut out, mood.description());
    push_str(&mut out, " and theatrical. Reference the burn. Under 80 words.");
    out
}

/// How the chronicle prompt names a remembered player, given its principal as text.
pub open spec fn warrior_label(name: Seq<char>, p: RememberedPlayer) -> Seq<char> {
    shorten_spec(name) + " ("@ + decimal(p.wins as nat) + " wins"@ + (match p.nickname {
        Some(n) => ", aka \""@ + n@ + "\""@,
        None => Seq::empty(),
    }) + ")"@
}

/// The labels of the first three remembered players, `names[i]` being the text of the
/// principal of player `i`.
pub open spec fn warrior_labels(names: Seq<Seq<char>>, players: Seq<RememberedPlayer>) -> Seq<
    Seq<char>,
> {
    let k = if players.len() < 3 {
        players.len()
    } else {
        3
    };
    Seq::new(k, |i: int| warrior_label(names[i], players[i]))
}

/// The prompt that asks a language model for a chronicle chapter.
pub open spec fn chronicle_prompt_spec(
    events: Seq<NotableEvent>,
    names: Seq<Seq<char>>,
    players: Seq<RememberedPlayer>,
) -> Seq<char> {
    "Write a short chronicle chapter (under 150 words) about recent events in the LUCKY burn realm. Recent events: "@
        + join_spec(recent_event_texts(events), "; "@) + ". Notable warriors: "@ + join_spec(
        warrior_labels(names, players),
        ", "@,
    ) + ". Write it as epic fantasy narrative. Make it dramatic and memorable."@
}

fn recent_events_joined(events: &std::collections::VecDeque<NotableEvent>) -> (r: String)
    ensures
        r@ == join_spec(recent_event_texts(events@), "; "@),
{
    let n = events.len();
    let k: usize = if n < 3 {
        n
    } else {
        3
    };
    let ghost parts = recent_event_texts(events@);
    let mut out = String::new();
    let mut i: usize = 0;
    assert(parts.subrange(0, 0) =~= Seq::<Seq<char>>::empty());
    while i < k
        invariant
            n == events@.len(),
            k == parts.len(),
            parts == recent_event_texts(events@),
            0 <= i <= k,
            out@ == join_spec(parts.subrange(0, i as int), "; "@),
        decreases k - i,
    {
        proof {
            lemma_join_step(parts, "; "@, i as int);
        }
        if i > 0 {
            push_str(&mut out, "; ");
        }
        push_str(&mut out, events[n - 1 - i].description.as_str());
        i += 1;
    }
    assert(parts.subrange(0, k as int) =~= parts);
    out
}

fn push_warrior_label(out: &mut String, name: &str, p: &RememberedPlayer)
    ensures
        final(out)@ == old(out)@ + warrior_label(name@, *p),
{
    let short = shorten_text(name);
    push_str(out, short.as_str());
    push_str(out, " (");
    push_decimal(out, p.wins as u128);
    push_str(out, " wins");
    match &p.nickname {
        Some(n) => {
            push_str(out, ", aka \"");
            push_str(out, n.as_str());
            push_str(out, "\"");
        },
        None => {},
    }
    push_str(out, ")");
}

/// The chronicle prompt, `names[i]` being the text of the principal of remembered player `i`.
pub fn chronicle_prompt_with_names(state: &IgnisState, names: &Vec<String>) -> (r: String)
    requires
        names@.len() >= 3 || names@.len() >= state.remembered_players@.len(),
    ensures
        r@ == chronicle_prompt_spec(
            state.notable_events@,
            names@.map_values(|t: String| t@),
            state.remembered_players@,
        ),
{
    let ghost name_views = names@.map_values(|t: String| t@);
    let players = &state.remembered_players;
    let n = players.len();
    let k: usize = if n < 3 {
        n
    } else {
        3
    };
    let ghost parts = warrior_labels(name_views, players@);
    let mut warriors = String::new();
    let mut i: usize = 0;
    assert(parts.subrange(0, 0) =~= Seq::<Seq<char>>::empty());
    while i < k
        invariant
            n == players@.len(),
            k == parts.len(),
            k <= names@.len(),
            name_views == names@.map_values(|t: String| t@),
            parts == warrior_labels(name_views, players@),
            0 <= i <= k,
            warriors@ == join_spec(parts.subrange(0, i as int), ", "@),
        decreases k - i,
    {
        proof {
            lemma_join_step(parts, ", "@, i as int);
        }
        if i > 0 {
            push_str(&mut warriors, ", ");
        }
        push_warrior_label(&mut warriors, names[i].as_str(), &players[i]);
        i += 1;
    }
    assert(parts.subrange(0, k as int) =~= parts);
    let events = recent_events_joined(&state.notable_events);
    let mut out = String::from_str("Write a short chronicle chapter (under 150 words) about recent events in the LUCKY burn realm. Recent events: ");
    push_str(&mut out, events.as_str());
    push_str(&mut out, ". Notable warriors: ");
    push_str(&mut out, warriors.as_str());
    push_str(&mut out, ". Write it as epic fantasy narrative. Make it dramatic and memorable.");
    out
}

/// The chronicle prompt: the last three notable events and the first three remembered
/// players, each with its shortened principal, wins and nickname.
pub fn chronicle_prompt(state: &IgnisState) -> (r: String)
    requires
        forall|i: int|
            0 <= i < state.remembered_players@.len() ==> #[trigger] state.remembered_players@[i].player@.len()
                <= 29,
    ensures
        r@ == chronicle_prompt_spec(
            state.notable_events@,
            state.remembered_players@.map_values(|p: RememberedPlayer| principal_text_spec(p.player@)),
            state.remembered_players@,
        ),
{
    let players = &state.remembered_players;
    let mut names: Vec<String> = Vec::new();
    let mut i: usize = 0;
    while i < players.len()
        invariant
            0 <= i <= players@.len(),
            forall|j: int| 0 <= j < players@.len() ==> #[trigger] players@[j].player@.len() <= 29,
            names@.len() == i,
            names@.map_values(|t: String| t@) =~= players@.subrange(0, i as int).map_values(
                |p: RememberedPlayer| principal_text_spec(p.player@),
            ),
        decreases players@.len() - i,
    {
        let t = principal_to_text(&players[i].player);
        let ghost tv = t@;
        let ghost prev = names@;
        names.push(t);
        proof {
            let lhs = names@.map_values(|t: String| t@);
            let rhs = players@.subrange(0, i + 1).map_values(
                |p: RememberedPlayer| principal_text_spec(p.player@),
            );
            let old_rhs = players@.subrange(0, i as int).map_values(
                |p: RememberedPlayer| principal_text_spec(p.player@),
            );
            assert(names@ == prev.push(names@[i as int]));
            assert forall|j: int| 0 <= j < i + 1 implies lhs[j] == rhs[j] by {
                if j < i {
                    assert(names@[j] == prev[j]);
                    assert(prev.map_values(|t: String| t@)[j] == old_rhs[j]);
                }
            }
            assert(lhs =~= rhs);
        }
        i += 1;
    }
    assert(players@.subrange(0, i as int) =~= players@);
    chronicle_prompt_with_names(state, &names)
}

/// The chronicle chapter written when no language model answers.
pub open spec fn chronicle_fallback_spec(round: u64) -> Seq<char> {
    "Chapter of Round "@ + decimal(round as nat) + ". The flames burn on. The story continues..."@
}

pub fn chronicle_fallback(round: u64) -> (r: String)
    ensures
        r@ == chronicle_fallback_spec(round),
{
    let mut out = String::from_str("Chapter of Round ");
    push_decimal(&mut out, round as u128);
    push_str(&mut out, ". The flames burn on. The story continues...");
    out
}

/// The prompt that asks a language model to tell of an evolution.
pub open spec fn evolution_prompt_spec(old: Stage, new: Stage) -> Seq<char> {
    "IGNIS just EVOLVED from "@ + stage_name(old) + " to "@ + stage_name(new)
        + "! Write a dramatic 2-3 sentence chronicle entry about this transformation. Describe the visual transformation and what it means. Epic fantasy style."@
}

pub fn evolution_prompt(old: &Stage, new: &Stage) -> (r: String)
    ensures
        r@ == evolution_prompt_spec(*old, *new),
{
    let mut out = String::from_str("IGNIS just EVOLVED from ");
    push_str(&mut out, old.name());
    push_str(&mut out, " to ");
    push_str(&mut out, new.name());
    push_str(&mut out, "! Write a dramatic 2-3 sentence chronicle entry about this transformation. Describe the visual transformation and what it means. Epic fantasy style.");
    out
}

/// The evolution chapter written when no language model answers.
pub open spec fn evolution_fallback_spec(old: Stage, new: Stage) -> Seq<char> {
    "IGNIS transcended from "@ + stage_name(old) + " to "@ + stage_name(new)
        + ". The flames roar with new power."@
}

pub fn evolution_fallback(old: &Stage, new: &Stage) -> (r: String)
    ensures
        r@ == evolution_fallback_spec(*old, *new),
{
    let mut out = String::from_str("IGNIS transcended from ");
    push_str(&mut out, old.name());
    push_str(&mut out, " to ");
    push_str(&mut out, new.name());
    push_str(&mut out, ". The flames roar with new power.");
    out
}

/// A model's reply is used only when it holds more than whitespace.
pub open spec fn usable_reply_spec(reply: Option<Seq<char>>) -> Option<Seq<char>> {
    match reply {
        Some(t) => if trim_spec(t).len() > 0 {
            Some(t)
        } else {
            None
        },
        None => None,
    }
}

pub open spec fn opt_view(o: Option<String>) -> Option<Seq<char>> {
    match o {
        Some(t) => Some(t@),
        None => None,
    }
}

/// Keeps a model's reply only when it holds more than whitespace.
pub fn usable_reply(reply: Option<String>) -> (r: Option<String>)
    ensures
        opt_view(r) == usable_reply_spec(opt_view(reply)),
{
    match reply {
        Some(t) => {
            if trim_text(t.as_str()).unicode_len() > 0 {
                Some(t)
            } else {
                None
            }
        },
        None => None,
    }
}

/// IGNIS's chat answer: the model's reply when it holds more than whitespace, else the
/// fallback answer.
pub fn chat_answer(reply: Option<String>, stage: &Stage, mood: &Mood, hunger: u8, message: &str) -> (r:
    String)
    ensures
        r@ == match usable_reply_spec(opt_view(reply)) {
            Some(t) => t,
            None => chat_reply_spec(*stage, *mood, hunger, lowercase_spec(message@)),
        },
{
    match usable_reply(reply) {
        Some(t) => t,
        None => fallback_chat_response(stage, mood, hunger, message),
    }
}

/// The ritual to pose: the one read from the model's reply, else the stage's fallback.
pub fn ritual_from_reply(reply: Option<String>, stage: &Stage) -> (r: RitualChallenge)
    ensures
        challenge_view(r) == match parse_ritual_spec(
            match opt_view(reply) {
                Some(t) => t,
                None => Seq::empty(),
            },
        ) {
            Some(v) => v,
            None => fallback_ritual_spec(*stage),
        },
{
    let text = match reply {
        Some(t) => t,
        None => String::new(),
    };
    match parse_ritual_response(text.as_str()) {
        Some(c) => c,
        None => fallback_ritual(stage),
    }
}

/// IGNIS's answer to a ritual: the model's reply when there is one, else the fallback line.
pub fn ritual_answer(reply: Option<String>, success: bool) -> (r: String)
    ensures
        r@ == match opt_view(reply) {
            Some(t) => if t.len() > 0 {
                t
            } else if success {
                "The flames accept your offering. Go forth with my blessing."@
            } else {
                "The flames flicker with disappointment. Perhaps next time, mortal."@
            },
            None => if success {
                "The flames accept your offering. Go forth with my blessing."@
            } else {
                "The flames flicker with disappointment. Perhaps next time, mortal."@
            },
        },
{
    match reply {
        Some(t) => {
            if t.unicode_len() > 0 {
                t
            } else {
                ritual_fallback_response(success)
            }
        },
        None => ritual_fallback_response(success),
    }
}

/// The textual id of the language model canister used when none is configured.
pub const DEFAULT_LLM_CANISTER: &'static str = "w36hm-eqaaa-aaaal-qr76a-cai";

/// The language model canister: the configured one, else the default id parsed.
pub fn resolve_llm_canister(state: &IgnisState) -> (r: Option<PrincipalId>)
    ensures
        match state.llm_canister {
            Some(p) => (r matches Some(q) && q@ == p@),
            None => match principal_bytes_of_text(DEFAULT_LLM_CANISTER@) {
                Some(b) => (r matches Some(q) && q@ == b),
                None => r is None,
            },
        },
{
    match &state.llm_canister {
        Some(p) => Some(p.duplicate()),
        None => principal_from_text(DEFAULT_LLM_CANISTER),
    }
}

/// The model IGNIS asks.
pub const LLM_MODEL: &'static str = "Qwen3_32B";

/// Who speaks a message of a chat request.
pub enum ChatRole {
    System,
    User,
}

/// One message of a chat request.
pub struct ChatLine {
    pub role: ChatRole,
    pub content: String,
}

/// A chat request to the language model canister: the model and the messages, in order.
pub struct ChatRequest {
    pub model: String,
    pub messages: Vec<ChatLine>,
}

/// The request that asks `model` one prompt: a single user message.
pub fn prompt_request(model: &str, prompt: &str) -> (r: ChatRequest)
    ensures
        r.model@ == model@,
        r.messages@.len() == 1,
        r.messages@[0].role is User,
        r.messages@[0].content@ == prompt@,
{
    let mut messages: Vec<ChatLine> = Vec::new();
    messages.push(ChatLine { role: ChatRole::User, content: String::from_str(prompt) });
    ChatRequest { model: String::from_str(model), messages }
}

/// The request that asks `model` a user message under a system prompt: the system message,
/// then the user message.
pub fn system_request(model: &str, system_prompt: &str, user_prompt: &str) -> (r: ChatRequest)
    ensures
        r.model@ == model@,
        r.messages@.len() == 2,
        r.messages@[0].role is System,
        r.messages@[0].content@ == system_prompt@,
        r.messages@[1].role is User,
        r.messages@[1].content@ == user_prompt@,
{
    let mut messages: Vec<ChatLine> = Vec::new();
    messages.push(ChatLine { role: ChatRole::System, content: String::from_str(system_prompt) });
    messages.push(ChatLine { role: ChatRole::User, content: String::from_str(user_prompt) });
    ChatRequest { model: String::from_str(model), messages }
}

} // verus!
