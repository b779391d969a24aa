use dicemaiden_rs::dice::Modifier;
use dicemaiden_rs::parser::{is_simple_modifier, parse_dice_string, parse_modifier, split_combined_modifiers};

fn chars(s: &str) -> Vec<char> {
    s.chars().collect()
}

#[test]
fn parses_plain_dice_with_attached_modifier() {
    let rolls = parse_dice_string("2d20+8").unwrap();
    assert_eq!(rolls.len(), 1);
    assert_eq!(rolls[0].count, 2);
    assert_eq!(rolls[0].sides, 20);
    assert_eq!(rolls[0].modifiers, vec![Modifier::Add(8)]);
}

#[test]
fn parses_space_separated_modifiers() {
    let rolls = parse_dice_string("4d6 k3 + 2").unwrap();
    assert_eq!(rolls[0].count, 4);
    assert_eq!(rolls[0].sides, 6);
    assert_eq!(rolls[0].modifiers, vec![Modifier::KeepHigh(3), Modifier::Add(2)]);
}

#[test]
fn splits_combined_modifiers() {
    let rolls = parse_dice_string("4d6e6k3").unwrap();
    assert_eq!(rolls[0].modifiers, vec![Modifier::Explode(Some(6)), Modifier::KeepHigh(3)]);
}

#[test]
fn percentile_dice_have_a_hundred_sides() {
    let rolls = parse_dice_string("d%").unwrap();
    assert_eq!(rolls[0].count, 1);
    assert_eq!(rolls[0].sides, 100);
}

#[test]
fn reads_flags_label_and_comment() {
    let rolls = parse_dice_string("p (attack) 1d20 + 5 ! sword swing").unwrap();
    let d = &rolls[0];
    assert!(d.private);
    assert_eq!(d.label.as_deref(), Some("attack"));
    assert_eq!(d.comment.as_deref(), Some("sword swing"));
    assert_eq!(d.modifiers, vec![Modifier::Add(5)]);
}

#[test]
fn roll_sets_are_labelled() {
    let rolls = parse_dice_string("3 4d6 k3").unwrap();
    assert_eq!(rolls.len(), 3);
    assert_eq!(rolls[0].label.as_deref(), Some("Set 1"));
    assert_eq!(rolls[2].label.as_deref(), Some("Set 3"));
}

#[test]
fn set_count_is_bounded() {
    let err = parse_dice_string("21 1d6").unwrap_err();
    assert_eq!(err.message, "Set count must be between 2 and 20");
    let err = parse_dice_string("1 1d6").unwrap_err();
    assert_eq!(err.message, "Set count must be between 2 and 20");
}

#[test]
fn at_most_four_rolls_per_request() {
    let err = parse_dice_string("1d6; 1d6; 1d6; 1d6; 1d6").unwrap_err();
    assert_eq!(err.message, "Maximum of 4 separate rolls allowed");
}

#[test]
fn semicolon_rolls_keep_their_request() {
    let rolls = parse_dice_string("1d6 ; 2d8 + 1").unwrap();
    assert_eq!(rolls.len(), 2);
    assert_eq!(rolls[0].original_expression.as_deref(), Some("1d6"));
    assert_eq!(rolls[1].original_expression.as_deref(), Some("2d8 + 1"));
}

#[test]
fn dice_limits_are_enforced() {
    assert_eq!(parse_dice_string("501d6").unwrap_err().message, "Maximum 500 dice allowed");
    assert_eq!(parse_dice_string("1d1001").unwrap_err().message, "Maximum 1000 sides allowed");
    assert_eq!(parse_dice_string("1d0").unwrap_err().message, "Dice must have at least 1 side");
}

#[test]
fn unknown_modifiers_are_reported() {
    assert_eq!(parse_dice_string("1d6 zz").unwrap_err().message, "Unknown modifier: zz");
    assert_eq!(parse_dice_string("1d6 k").unwrap_err().message, "Invalid keep value");
}

#[test]
fn modifier_grammar() {
    assert_eq!(parse_modifier(&chars("ie")).unwrap(), Modifier::ExplodeIndefinite(None));
    assert_eq!(parse_modifier(&chars("ir2")).unwrap(), Modifier::RerollIndefinite(2));
    assert_eq!(parse_modifier(&chars("kl1")).unwrap(), Modifier::KeepLow(1));
    assert_eq!(parse_modifier(&chars("t7")).unwrap(), Modifier::Target(7));
    assert_eq!(parse_modifier(&chars("f1")).unwrap(), Modifier::Failure(1));
    assert_eq!(parse_modifier(&chars("b")).unwrap(), Modifier::Botch(None));
    assert_eq!(parse_modifier(&chars("/2")).unwrap(), Modifier::Divide(2));
    assert_eq!(parse_modifier(&chars("-3")).unwrap(), Modifier::Add(-3));
    assert_eq!(parse_modifier(&chars("gbs")).unwrap(), Modifier::Godbound(true));
    assert_eq!(parse_modifier(&chars("wng2t")).unwrap(), Modifier::WrathGlory(Some(2), true, 1));
    assert_eq!(parse_modifier(&chars("dh")).unwrap(), Modifier::DarkHeresy);
    match parse_modifier(&chars("+2d6")).unwrap() {
        Modifier::AddDice(d) => {
            assert_eq!((d.count, d.sides), (2, 6));
        }
        other => panic!("unexpected {:?}", other),
    }
    assert_eq!(parse_modifier(&chars("e99999999999")).unwrap_err().message, "Invalid explode value");
}

#[test]
fn aliases_expand_before_parsing() {
    let rolls = parse_dice_string("attack + 5").unwrap();
    assert_eq!(rolls[0].count, 1);
    assert_eq!(rolls[0].sides, 20);
    assert_eq!(rolls[0].modifiers, vec![Modifier::Add(5)]);
    let stats = parse_dice_string("dndstats").unwrap();
    assert_eq!(stats.len(), 6);
    assert_eq!(stats[5].label.as_deref(), Some("Set 6"));
}

#[test]
fn dice_operand_is_parsed() {
    let rolls = parse_dice_string("1d20 + 1d4").unwrap();
    match &rolls[0].modifiers[0] {
        Modifier::AddDice(d) => assert_eq!((d.count, d.sides), (1, 4)),
        other => panic!("unexpected {:?}", other),
    }
}

#[test]
fn parses_documented_pool_modifiers() {
    assert_eq!(parse_modifier(&chars("adv1")).unwrap(), Modifier::Advantage(1));
    assert_eq!(parse_modifier(&chars("dis2")).unwrap(), Modifier::Disadvantage(2));
    assert_eq!(parse_modifier(&chars("km2")).unwrap(), Modifier::KeepMiddle(2));
    assert_eq!(parse_modifier(&chars("rg3")).unwrap(), Modifier::RerollGreater(3));
    assert_eq!(parse_modifier(&chars("irg3")).unwrap(), Modifier::RerollGreaterIndefinite(3));
    assert_eq!(parse_modifier(&chars("i")).unwrap(), Modifier::Implode(None));
    assert_eq!(parse_modifier(&chars("i1")).unwrap(), Modifier::Implode(Some(1)));
    assert_eq!(parse_modifier(&chars("d1")).unwrap(), Modifier::Drop(1));
}

#[test]
fn parses_target_variants() {
    assert_eq!(parse_modifier(&chars("t7")).unwrap(), Modifier::Target(7));
    assert_eq!(parse_modifier(&chars("tl6")).unwrap(), Modifier::TargetLower(6));
    assert_eq!(parse_modifier(&chars("t4ds6")).unwrap(), Modifier::TargetWithDoubleSuccess(4, 6));
    assert_eq!(parse_modifier(&chars("t4ds")).unwrap(), Modifier::TargetWithDoubleSuccess(4, 4));
    assert_eq!(parse_modifier(&chars("tl6ds4")).unwrap(), Modifier::TargetLowerWithDoubleSuccess(6, 4));
    assert_eq!(parse_modifier(&chars("tx")).unwrap_err().message, "Invalid target value");
    assert_eq!(parse_modifier(&chars("t4dsx")).unwrap_err().message, "Invalid double success value");
}

#[test]
fn documented_modifier_errors() {
    assert_eq!(parse_modifier(&chars("adv")).unwrap_err().message, "Invalid advantage value");
    assert_eq!(parse_modifier(&chars("disx")).unwrap_err().message, "Invalid disadvantage value");
    assert_eq!(parse_modifier(&chars("km")).unwrap_err().message, "Invalid keep middle value");
    assert_eq!(parse_modifier(&chars("ix")).unwrap_err().message, "Invalid implode value");
    assert_eq!(parse_modifier(&chars("zz")).unwrap_err().message, "Unknown modifier: zz");
}

#[test]
fn double_success_target_in_a_request() {
    let rolls = parse_dice_string("10d10 t7ds10").unwrap();
    assert_eq!(rolls[0].modifiers, vec![Modifier::TargetWithDoubleSuccess(7, 10)]);
    let rolls = parse_dice_string("2d20 adv1 dis1").unwrap();
    assert_eq!(rolls[0].modifiers, vec![Modifier::Advantage(1), Modifier::Disadvantage(1)]);
}

#[test]
fn simple_modifiers_stay_whole() {
    assert!(is_simple_modifier(&chars("k3")));
    assert!(is_simple_modifier(&chars("ie6")));
    assert!(is_simple_modifier(&chars("+12")));
    assert!(is_simple_modifier(&chars("wng3t")));
    assert!(is_simple_modifier(&chars("gbs")));
    assert!(!is_simple_modifier(&chars("e6k8")));
    assert!(!is_simple_modifier(&chars("+")));
    assert!(!is_simple_modifier(&chars("k1234567")));
    assert!(!is_simple_modifier(&chars("")));
}

#[test]
fn combined_tokens_split_into_modifiers() {
    let parts = split_combined_modifiers(&chars("e6k8"));
    assert_eq!(parts, vec![chars("e6"), chars("k8")]);
    let parts = split_combined_modifiers(&chars("ie6kl2t7"));
    assert_eq!(parts, vec![chars("ie6"), chars("kl2"), chars("t7")]);
    let parts = split_combined_modifiers(&chars("k3"));
    assert_eq!(parts, vec![chars("k3")]);
    let parts = split_combined_modifiers(&chars("xyz"));
    assert_eq!(parts, vec![chars("xyz")]);
}

#[test]
fn lone_operator_needs_an_operand() {
    let err = parse_dice_string("1d20 +").unwrap_err();
    assert_eq!(err.message, "Operator + has no operand");
}

#[test]
fn uncovered_text_after_dice_is_reported() {
    let err = parse_dice_string("2d6+").unwrap_err();
    assert_eq!(err.message, "Unable to parse dice expression: 2d6+ (parsed:  vs original: +)");
}

#[test]
fn dice_operands_in_spaced_expressions() {
    let rolls = parse_dice_string("1d20 + 2d6").unwrap();
    match &rolls[0].modifiers[0] {
        Modifier::AddDice(d) => {
            assert_eq!(d.count, 2);
            assert_eq!(d.sides, 6);
        },
        other => panic!("unexpected modifier {:?}", other),
    }
    assert!(parse_dice_string("1d20 + 2dx").is_err());
}

#[test]
fn base_dice_limits_and_errors() {
    assert_eq!(parse_dice_string("501d6").unwrap_err().message, "Maximum 500 dice allowed");
    assert_eq!(parse_dice_string("1d1001").unwrap_err().message, "Maximum 1000 sides allowed");
    assert_eq!(parse_dice_string("1d0").unwrap_err().message, "Dice must have at least 1 side");
    assert_eq!(parse_dice_string("xyz").unwrap_err().message, "Invalid dice expression: xyz");
}

#[test]
fn flags_are_read_in_order() {
    let rolls = parse_dice_string("p s nr ul 2d6").unwrap();
    let d = &rolls[0];
    assert!(d.private && d.simple && d.no_results && d.unsorted);
    let err = parse_dice_string("s p 2d6").unwrap_err();
    assert_eq!(err.message, "Invalid dice expression: p");
}

#[test]
fn keep_high_may_be_written_kh() {
    let rolls = parse_dice_string("2d20 kh1").unwrap();
    assert_eq!(rolls[0].modifiers, vec![Modifier::KeepHigh(1)]);
    let rolls = parse_dice_string("2d20 kh1 + 5").unwrap();
    assert_eq!(rolls[0].modifiers, vec![Modifier::KeepHigh(1), Modifier::Add(5)]);
    let a = parse_dice_string("2d20 kh1+5").unwrap();
    let b = parse_dice_string("2d20 k1+5").unwrap();
    assert_eq!(a[0].modifiers, b[0].modifiers);
    assert_eq!(parse_modifier(&chars("kh2")).unwrap(), Modifier::KeepHigh(2));
    assert!(parse_modifier(&chars("kh")).is_err());
}
