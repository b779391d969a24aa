use dicemaiden_rs::commands::{
    help_response, roll_command, roll_response, special_roll, special_roll_response,
    CommandResponse, SpecialRoll, DONATE_TEXT,
};
use dicemaiden_rs::dice::DiceError;
use dicemaiden_rs::help_text::{
    generate_alias_help, generate_basic_help, generate_topic_help, generate_wfrp_help,
    help_topics, ALIAS_HELP_TEXT, BASIC_HELP_TEXT, MOTHERSHIP_HELP_TEXT,
};
use dicemaiden_rs::parser::plain_roll;
use dicemaiden_rs::RollResult;

fn result_with(kept: Vec<i32>, total: i32) -> RollResult {
    let mut r = RollResult::from_dice(&plain_roll(kept.len() as u32, 6));
    r.individual_rolls = kept.clone();
    r.kept_rolls = kept;
    r.total = total;
    r
}

#[test]
fn command_response_constructors() {
    let a = CommandResponse::new("x".to_string(), true);
    assert_eq!(a.content, "x");
    assert!(a.ephemeral);
    let b = CommandResponse::public("y".to_string());
    assert!(!b.ephemeral);
    let c = CommandResponse::private("z".to_string());
    assert!(c.ephemeral);
    assert_eq!(c.content, "z");
}

#[test]
fn help_without_topic_is_the_basic_page_for_the_user_alone() {
    let r = help_response(None);
    assert!(r.ephemeral);
    assert_eq!(r.content, BASIC_HELP_TEXT);
    assert_eq!(generate_basic_help(), BASIC_HELP_TEXT);
}

#[test]
fn help_topics_and_unknown_topic() {
    assert_eq!(help_response(Some("alias")).content, ALIAS_HELP_TEXT);
    assert_eq!(help_response(Some("mothership")).content, MOTHERSHIP_HELP_TEXT);
    assert_eq!(help_response(Some("nonsense")).content, BASIC_HELP_TEXT);
    assert_eq!(generate_topic_help("alias"), Some(generate_alias_help()));
    assert_eq!(generate_topic_help("wfrp"), Some(generate_wfrp_help()));
    assert_eq!(generate_topic_help("nope"), None);
    let topics = help_topics();
    assert_eq!(topics.len(), 11);
    for t in topics {
        assert!(generate_topic_help(t).is_some());
    }
}

#[test]
fn special_words_are_trimmed_and_case_blind() {
    assert!(matches!(special_roll("  HELP "), Some(SpecialRoll::Help)));
    assert!(matches!(special_roll("help alias"), Some(SpecialRoll::HelpAlias)));
    assert!(matches!(special_roll("Help System"), Some(SpecialRoll::HelpSystem)));
    assert!(matches!(special_roll("donate"), Some(SpecialRoll::Donate)));
    assert!(matches!(special_roll("bot-info"), Some(SpecialRoll::BotInfo)));
    assert!(matches!(special_roll("\u{a0}DONATE\u{2028}"), Some(SpecialRoll::Donate)));
    assert!(special_roll("2d6").is_none());
}

#[test]
fn special_word_replies() {
    let r = special_roll_response(&SpecialRoll::Donate).unwrap();
    assert_eq!(r.content, DONATE_TEXT);
    assert!(!r.ephemeral);
    assert!(special_roll_response(&SpecialRoll::BotInfo).is_none());
    assert_eq!(roll_command("donate", "Bob").unwrap().content, DONATE_TEXT);
    assert!(roll_command("bot-info", "Bob").is_none());
}

#[test]
fn error_reply_names_the_user_and_request() {
    let r = roll_response(
        "2d6 ! hit",
        "Bob",
        Err(DiceError { message: "boom".to_string() }),
    );
    assert!(!r.ephemeral);
    assert_eq!(r.content, "🎲 **Bob** used `2d6` - ❌ **Error**: boom");
}

#[test]
fn single_result_reply() {
    let r = roll_response("2d6", "Bob", Ok(vec![result_with(vec![3, 2], 5)]));
    assert!(!r.ephemeral);
    assert_eq!(r.content, "🎲 **Bob** Request: `2d6` Roll: `[3, 2]` = **5**");
}

#[test]
fn several_results_reply_on_their_own_lines() {
    let r = roll_response(
        "2 1d6",
        "Bob",
        Ok(vec![result_with(vec![3], 3), result_with(vec![4], 4)]),
    );
    assert_eq!(
        r.content,
        "🎲 **Bob** Request: `2 1d6`\nRoll: `[3]` = **3**\nRoll: `[4]` = **4**"
    );
}

#[test]
fn semicolon_reply_shows_each_request() {
    let mut a = result_with(vec![3], 3);
    a.original_expression = Some("1d6".to_string());
    let mut b = result_with(vec![9], 9);
    b.original_expression = Some("1d10".to_string());
    let r = roll_response("1d6; 1d10", "Bob", Ok(vec![a, b]));
    assert_eq!(
        r.content,
        "🎲 **Bob** Request: `1d6` Roll: `[3]` = **3**\nRequest: `1d10` Roll: `[9]` = **9**"
    );
}

#[test]
fn private_reply_goes_to_the_user_alone() {
    let mut a = result_with(vec![3], 3);
    a.private = true;
    let r = roll_response("p 1d6", "Bob", Ok(vec![a]));
    assert!(r.ephemeral);
    assert_eq!(r.content, "🎲 **Private Roll** `p 1d6` Roll: `[3]` = **3**");
}

#[test]
fn over_long_reply_falls_back_to_the_count_of_results() {
    let dice: Vec<i32> = (0..300).map(|_| 1000).collect();
    let a = result_with(dice.clone(), 300000);
    let b = result_with(dice, 300000);
    let mut rs = vec![a, b];
    for r in rs.iter_mut() {
        r.label = Some("x".repeat(1000));
    }
    let r = roll_response("2 300d1000", "Bob", Ok(rs));
    assert_eq!(
        r.content,
        "🎲 **Bob** Request: `2 300d1000` **2** total results Reason: `Simplified roll due to character limit`"
    );
}

#[test]
fn rolling_through_the_command() {
    let r = roll_command("3d1 + 1", "Ann").unwrap();
    assert_eq!(r.content, "🎲 **Ann** Request: `3d1 + 1` Roll: `[1, 1, 1]` = **4**");
    let e = roll_command("1d6 / 0", "Ann").unwrap();
    assert_eq!(e.content, "🎲 **Ann** used `1d6 / 0` - ❌ **Error**: Cannot divide by zero");
}

#[test]
fn roll_help_topics_show_their_page() {
    match special_roll("help a5e") {
        Some(SpecialRoll::HelpTopic(t)) => assert_eq!(t, "a5e"),
        _ => panic!("expected a help topic"),
    }
    let r = roll_command("HELP wfrp", "me").unwrap();
    assert_eq!(r.content, dicemaiden_rs::help_text::generate_wfrp_help());
    assert!(special_roll("help 2d6").is_none());
}
