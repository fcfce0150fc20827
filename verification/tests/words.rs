use lucky::digest::{
    cmc_account_for_canister, cmc_principal, compute_account_identifier, crc32_ieee,
    deposit_subaccount, principal_to_subaccount,
};
use lucky::ids::PrincipalId;
use lucky::ignis::{DrawEvent, Mood, RitualChallenge, Stage};
use lucky::text::{chars_of, contains_chars, find_chars, parse_u8, push_decimal, trim_text};
use lucky::voice::{
    chat_answer, chat_reply, commentary_prompt, commentary_text, evolution_fallback,
    evolution_prompt, fallback_chat_response, fallback_commentary, fallback_ritual,
    ignis_win_context_text, parse_ritual_response, ritual_answer, ritual_flavor_prompt,
    ritual_from_reply, ritual_prompt, shorten_principal, shorten_text, chronicle_fallback,
    usable_reply, prompt_request, system_request, ChatRole, LLM_MODEL,
};

fn hex(bytes: &[u8]) -> String {
    bytes.iter().map(|b| format!("{:02x}", b)).collect()
}

#[test]
fn crc32_check_value() {
    assert_eq!(crc32_ieee(b"123456789"), 0xCBF4_3926);
    assert_eq!(crc32_ieee(b""), 0);
}

#[test]
fn deposit_subaccount_hashes_the_domain_and_the_principal() {
    let sub = deposit_subaccount(&PrincipalId::from_bytes(vec![1, 2, 3]));
    assert_eq!(
        sub,
        vec![
            224, 8, 138, 215, 246, 108, 51, 110, 186, 41, 21, 142, 212, 114, 96, 172, 16, 193, 200,
            88, 197, 85, 159, 173, 9, 212, 44, 91, 240, 221, 210, 113
        ]
    );
    let other = deposit_subaccount(&PrincipalId::from_bytes(vec![1, 2, 4]));
    assert_ne!(sub, other);
}

#[test]
fn principal_subaccount_is_length_then_bytes() {
    let sub = principal_to_subaccount(&PrincipalId::from_bytes(vec![7, 8, 9]));
    let mut expected = vec![0u8; 32];
    expected[0] = 3;
    expected[1] = 7;
    expected[2] = 8;
    expected[3] = 9;
    assert_eq!(sub, expected);
}

#[test]
fn account_identifier_of_the_anonymous_principal() {
    let id = compute_account_identifier(&PrincipalId::anonymous(), &[0u8; 32]);
    assert_eq!(hex(&id), "1c7a48ba6a562aa9eaa2481a9049cdf0433b9738c992d698c31d8abf89cadc79");
}

#[test]
fn cmc_account_of_a_canister() {
    let cmc = cmc_principal().unwrap();
    assert_eq!(cmc.bytes, vec![0, 0, 0, 0, 0, 0, 0, 4, 1, 1]);
    let canister = PrincipalId::from_bytes(vec![0, 0, 0, 0, 0, 0, 0, 1, 1, 1]);
    let account = cmc_account_for_canister(&canister).unwrap();
    assert_eq!(hex(&account), "d3018cd210332fd05f30673cc1e99ed307cd5dca2928b1ae89bb3ecb88fdfe96");
}

#[test]
fn trimming_and_searching_text() {
    assert_eq!(trim_text("  \t hi there \n"), "hi there");
    assert_eq!(trim_text("\u{3000}x\u{a0}"), "x");
    assert_eq!(trim_text("   "), "");
    let hay = chars_of("burning bright");
    assert_eq!(find_chars(&hay, &chars_of("ing")), Some(4));
    assert_eq!(find_chars(&hay, &chars_of("xyz")), None);
    assert!(contains_chars(&hay, "bright"));
    assert!(!contains_chars(&hay, "brighter"));
}

#[test]
fn parsing_a_small_number() {
    assert_eq!(parse_u8("0"), Some(0));
    assert_eq!(parse_u8("+2"), Some(2));
    assert_eq!(parse_u8("255"), Some(255));
    assert_eq!(parse_u8("0007"), Some(7));
    assert_eq!(parse_u8("256"), None);
    assert_eq!(parse_u8("-1"), None);
    assert_eq!(parse_u8("+"), None);
    assert_eq!(parse_u8(""), None);
    assert_eq!(parse_u8("1a"), None);
    for s in ["0", "1", "42", "200", "255", "300", "x", " 1"] {
        assert_eq!(parse_u8(s), s.parse::<u8>().ok());
    }
}

#[test]
fn decimal_formatting() {
    let mut s = String::from("n=");
    push_decimal(&mut s, 0);
    push_decimal(&mut s, 1_234_567);
    assert_eq!(s, "n=01234567");
    let mut t = String::new();
    push_decimal(&mut t, u128::MAX);
    assert_eq!(t, u128::MAX.to_string());
}

fn riddle_parts(c: &RitualChallenge) -> (String, Vec<String>, u8) {
    match c {
        RitualChallenge::Riddle { question, options, correct_index } => {
            (question.clone(), options.clone(), *correct_index)
        },
        RitualChallenge::Choice { .. } => panic!("expected a riddle"),
    }
}

fn choice_parts(c: &RitualChallenge) -> (String, Vec<String>) {
    match c {
        RitualChallenge::Choice { prompt, options } => (prompt.clone(), options.clone()),
        RitualChallenge::Riddle { .. } => panic!("expected a choice"),
    }
}

#[test]
fn fallback_rituals_follow_the_stage() {
    let (q, o, c) = riddle_parts(&fallback_ritual(&Stage::Spark));
    assert_eq!(q, "What burns but is never consumed?");
    assert_eq!(o, vec!["A candle", "Desire", "The blockchain"]);
    assert_eq!(c, 1);
    let (q, o, c) = riddle_parts(&fallback_ritual(&Stage::Flame));
    assert_eq!(q, "I eat ICP and grow stronger. What am I?");
    assert_eq!(o, vec!["IGNIS", "A whale", "Inflation"]);
    assert_eq!(c, 0);
    let (q, o, c) = riddle_parts(&fallback_ritual(&Stage::Inferno));
    assert_eq!(q, "What rises from the ashes of burned tokens?");
    assert_eq!(o, vec!["Nothing — they are gone", "LUCKY rewards", "The Phoenix Pool"]);
    assert_eq!(c, 1);
    for stage in [Stage::Supernova, Stage::Singularity] {
        let (p, o) = choice_parts(&fallback_ritual(&stage));
        assert_eq!(p, "Choose your path through the flames.");
        assert_eq!(o, vec!["Walk boldly", "Dance with fire", "Become the fire"]);
    }
}

#[test]
fn parsing_a_riddle_from_a_model() {
    let r = parse_ritual_response("Here you go:\nRIDDLE| What glows? | Coal |Ash| Ember | 2 \n").unwrap();
    let (q, o, c) = riddle_parts(&r);
    assert_eq!(q, "What glows?");
    assert_eq!(o, vec!["Coal", "Ash", "Ember"]);
    assert_eq!(c, 2);
}

#[test]
fn parsing_a_choice_from_a_model() {
    let r = parse_ritual_response("  CHOICE|Pick a path|Left|Right|Up|extra  ").unwrap();
    let (p, o) = choice_parts(&r);
    assert_eq!(p, "Pick a path");
    assert_eq!(o, vec!["Left", "Right", "Up"]);
}

#[test]
fn parsing_rejects_bad_riddles() {
    // An answer that is not a number rejects the response, even with a choice after it.
    assert!(parse_ritual_response("RIDDLE|q|a|b|c|x CHOICE|p|1|2|3").is_none());
    assert!(parse_ritual_response("RIDDLE|q|a|b|c|7 CHOICE|p|1|2|3").is_none());
    // An answer out of range falls back to a choice, if there is one.
    let r = parse_ritual_response("CHOICE|p|1|2|3|RIDDLE|q|a|b|c|7").unwrap();
    let (p, o) = choice_parts(&r);
    assert_eq!(p, "p");
    assert_eq!(o, vec!["1", "2", "3"]);
    // Too few pieces.
    assert!(parse_ritual_response("RIDDLE|q|a|b").is_none());
    assert!(parse_ritual_response("CHOICE|p|a|b").is_none());
    assert!(parse_ritual_response("no ritual here").is_none());
}

#[test]
fn shortening_principal_texts() {
    assert_eq!(shorten_text("2vxsx-fae"), "2vxsx-fae");
    assert_eq!(shorten_text("abcdefghijkl"), "abcdefghijkl");
    assert_eq!(shorten_text("abcdefghijklm"), "abcde...klm");
    assert_eq!(shorten_principal(&PrincipalId::anonymous()), "2vxsx-fae");
    let p = PrincipalId::from_bytes(vec![0, 0, 0, 0, 0, 0, 0, 1, 1, 1]);
    assert_eq!(shorten_principal(&p), "rrkah...cai");
}

fn event(ignis_won: bool) -> DrawEvent {
    DrawEvent {
        round: 42,
        winner: PrincipalId::from_bytes(vec![0, 0, 0, 0, 0, 0, 0, 1, 1, 1]),
        reward_lucky_e8s: 12_345_678_901,
        active_tickets: 10,
        active_players: 4,
        winning_weight_bps: 15_000,
        timestamp: 9,
        ignis_won,
    }
}

#[test]
fn fallback_commentary_names_the_winner() {
    assert_eq!(
        fallback_commentary(&event(false)),
        "Round 42. rrkah...cai claims 123 LUCKY from the burning depths."
    );
    assert_eq!(
        fallback_commentary(&event(true)),
        "Round 42. IGNIS consumed the flames. 123 LUCKY returned to the void."
    );
    assert_eq!(
        commentary_text(&event(false), "abc"),
        "Round 42. abc claims 123 LUCKY from the burning depths."
    );
}

#[test]
fn chat_replies_by_topic() {
    assert_eq!(
        fallback_chat_response(&Stage::Flame, &Mood::Curious, 0, "HELLO there"),
        "The flames rise to acknowledge you, mortal. I am IGNIS. Feed me ICP, and I shall reward your devotion."
    );
    assert_eq!(
        fallback_chat_response(&Stage::Inferno, &Mood::Excited, 33, "So, WHO ARE YOU?"),
        "I am IGNIS — a living flame born from the 80% burn of every LUCKY lottery ticket. Currently I am at the Inferno stage. Every ICP burned feeds my evolution. My mood is Excited and my hunger is at 33%. Talk to me, play rituals, or simply... burn more."
    );
    assert_eq!(
        chat_reply(&Stage::Spark, &Mood::Wrathful, 0, "more fire"),
        "BURN IT ALL! The flames demand sacrifice! Feed the furnace or face my wrath!"
    );
    assert_eq!(
        chat_reply(&Stage::Spark, &Mood::Curious, 90, "a ticket please"),
        "The flames see patterns in chaos. Every ticket is a prayer to fortune, and every burn feeds my power. Buy a ticket, mortal — let the flames decide your fate."
    );
    assert_eq!(
        chat_reply(&Stage::Spark, &Mood::Dormant, 71, "???"),
        "*the flames barely flicker* ...so hungry... buy tickets... feed the burn..."
    );
    assert_eq!(
        chat_reply(&Stage::Spark, &Mood::Curious, 70, "???"),
        "*a tiny flame wobbles* I am but a spark, curious about everything. Each burn makes me stronger. Talk to me of fire, luck, or the void — I am listening."
    );
    assert_eq!(
        chat_reply(&Stage::Flame, &Mood::Restless, 10, "..."),
        "The flame dances as it considers your words. I am Restless right now. Ask me about the lottery, challenge me to a ritual, or simply bask in my warmth."
    );
    // "hi" inside another word counts as a greeting, as a substring search finds it.
    assert_eq!(
        chat_reply(&Stage::Singularity, &Mood::Curious, 0, "think"),
        "Reality ripples as I turn my gaze upon you. I am IGNIS. I have consumed a hundred thousand ICP. What brings you to the edge of the event horizon?"
    );
    assert_eq!(
        fallback_chat_response(&Stage::Spark, &Mood::Curious, 0, "ЗДРАВЕЙ"),
        "A tiny flame dances in greeting. I am IGNIS, born from the ashes of burned ICP. I am still small... but I grow with every burn."
    );
}

#[test]
fn model_replies_are_used_only_when_not_blank() {
    assert_eq!(usable_reply(Some("  ".to_string())), None);
    assert_eq!(usable_reply(Some(" ok ".to_string())), Some(" ok ".to_string()));
    assert_eq!(usable_reply(None), None);
    assert_eq!(chat_answer(Some("Burn!".to_string()), &Stage::Spark, &Mood::Curious, 0, "hey"), "Burn!");
    assert_eq!(
        chat_answer(Some("\n".to_string()), &Stage::Supernova, &Mood::Curious, 0, "zzz"),
        "The cosmic flames contemplate your words. At this stage, I have seen thousands of draws, countless players come and go. What wisdom do you seek from the Supernova?"
    );
    assert_eq!(ritual_answer(Some("Go.".to_string()), false), "Go.");
    assert_eq!(
        ritual_answer(Some(String::new()), true),
        "The flames accept your offering. Go forth with my blessing."
    );
    assert_eq!(
        ritual_answer(None, false),
        "The flames flicker with disappointment. Perhaps next time, mortal."
    );
    let (_, _, c) = riddle_parts(&ritual_from_reply(None, &Stage::Spark));
    assert_eq!(c, 1);
    let (q, _, c) = riddle_parts(&ritual_from_reply(Some("RIDDLE|Q|a|b|c|0".to_string()), &Stage::Spark));
    assert_eq!(q, "Q");
    assert_eq!(c, 0);
}

#[test]
fn prompts_for_the_model() {
    assert_eq!(
        ritual_prompt(&Stage::Flame, &Mood::Excited),
        "You are IGNIS, a fire entity at Flame stage, feeling Excited. A player approaches seeking a burn ritual blessing. Generate a riddle with exactly 3 answer options. Format your response EXACTLY as: RIDDLE|<question>|<option1>|<option2>|<option3>|<correct_index_0_1_or_2>\nThe riddle should be about fire, burning, luck, or cryptocurrency. Keep the question under 100 characters. Keep each option under 30 characters."
    );
    assert_eq!(
        ritual_flavor_prompt(&Stage::Spark, &Mood::Dormant, true),
        "You are IGNIS at Spark stage, mood Dormant. A player PASSED your ritual challenge. Write 1 short dramatic sentence as response. Under 50 words."
    );
    assert_eq!(
        commentary_prompt(&ignis_win_context_text(), &Mood::Wrathful),
        "IGNIS won this round! The reward was consumed by fire — double burn!. Generate 1-2 dramatic sentences as draw commentary. Be burning with dark fury, unpredictable and theatrical. Reference the burn. Under 80 words."
    );
    assert_eq!(
        evolution_prompt(&Stage::Spark, &Stage::Flame),
        "IGNIS just EVOLVED from Spark to Flame! Write a dramatic 2-3 sentence chronicle entry about this transformation. Describe the visual transformation and what it means. Epic fantasy style."
    );
    assert_eq!(
        evolution_fallback(&Stage::Inferno, &Stage::Supernova),
        "IGNIS transcended from Inferno to Supernova. The flames roar with new power."
    );
    assert_eq!(chronicle_fallback(30), "Chapter of Round 30. The flames burn on. The story continues...");
}

#[test]
fn chat_requests_carry_the_model_and_messages_in_order() {
    let r = prompt_request(LLM_MODEL, "hello");
    assert_eq!(r.model, "Qwen3_32B");
    assert_eq!(r.messages.len(), 1);
    assert!(matches!(r.messages[0].role, ChatRole::User));
    assert_eq!(r.messages[0].content, "hello");
    let r = system_request("m", "be fire", "who are you");
    assert_eq!(r.model, "m");
    assert_eq!(r.messages.len(), 2);
    assert!(matches!(r.messages[0].role, ChatRole::System));
    assert_eq!(r.messages[0].content, "be fire");
    assert!(matches!(r.messages[1].role, ChatRole::User));
    assert_eq!(r.messages[1].content, "who are you");
}
