use dicemaiden_rs::dice::handlers::{mothership_category, mothership_select};
use dicemaiden_rs::dice::systems::{
    apply_conan_combat_interpretation, convert_to_godbound_damage, has_matching_dice,
    interpret_panic_roll, max_of, min_of, sum_rolls, wfrp_test_outcome,
};
use dicemaiden_rs::dice::arith::{div_wrapping, evaluate_expression, Token};

#[test]
fn wfrp_plain_success_counts_tens() {
    let t = wfrp_test_outcome(50, 23);
    assert!(t.success);
    assert_eq!(t.success_levels, 3);
    assert!(!t.is_double);
    assert!(!t.is_automatic);
    assert_eq!(t.signed_success_levels(), "+3");
}

#[test]
fn wfrp_automatic_success_has_at_least_one_level() {
    let t = wfrp_test_outcome(10, 4);
    assert!(t.success && t.is_automatic);
    assert_eq!(t.success_levels, 1);
    assert_eq!(wfrp_test_outcome(70, 3).success_levels, 7);
}

#[test]
fn wfrp_automatic_failure_has_at_most_minus_one() {
    let t = wfrp_test_outcome(99, 97);
    assert!(!t.success && t.is_automatic);
    assert_eq!(t.success_levels, -1);
    let u = wfrp_test_outcome(50, 97);
    assert_eq!(u.success_levels, -4);
    assert_eq!(u.signed_success_levels(), "-4");
}

#[test]
fn wfrp_zero_levels_are_signed_by_outcome() {
    let fail = wfrp_test_outcome(30, 33);
    assert!(!fail.success && fail.is_double);
    assert_eq!(fail.signed_success_levels(), "-0");
    let pass = wfrp_test_outcome(45, 44);
    assert!(pass.success && pass.is_double);
    assert_eq!(pass.signed_success_levels(), "+0");
}

#[test]
fn wfrp_hundred_is_a_double_failure() {
    let t = wfrp_test_outcome(50, 100);
    assert!(!t.success && t.is_double && t.is_automatic);
    assert_eq!(t.success_levels, -5);
}

#[test]
fn wfrp_notes_describe_the_test() {
    let t = wfrp_test_outcome(50, 23);
    assert_eq!(t.notes(50), vec!["**SUCCESS** - +3 SL (Target 50)".to_string()]);
    let d = wfrp_test_outcome(50, 55);
    assert_eq!(
        d.notes(50),
        vec![
            "**FAILURE** - -0 SL (Target 50)".to_string(),
            "**ASTOUNDING FAILURE** (doubles) - Fumble in combat".to_string(),
        ]
    );
}

#[test]
fn mothership_categories() {
    assert_eq!(mothership_category(22, 50), 0);
    assert_eq!(mothership_category(12, 50), 1);
    assert_eq!(mothership_category(80, 50), 2);
    assert_eq!(mothership_category(77, 50), 3);
    assert_eq!(mothership_category(100, 50), 3);
}

#[test]
fn mothership_advantage_takes_the_better_reading() {
    assert_eq!(mothership_select(12, 80, 50, true), 12);
    assert_eq!(mothership_select(12, 80, 50, false), 80);
    assert_eq!(mothership_select(11, 22, 50, true), 11);
    assert_eq!(mothership_select(11, 22, 50, false), 22);
    assert_eq!(mothership_select(33, 12, 50, true), 33);
}

#[test]
fn godbound_chart() {
    assert_eq!(convert_to_godbound_damage(1), 0);
    assert_eq!(convert_to_godbound_damage(2), 1);
    assert_eq!(convert_to_godbound_damage(5), 1);
    assert_eq!(convert_to_godbound_damage(6), 2);
    assert_eq!(convert_to_godbound_damage(9), 2);
    assert_eq!(convert_to_godbound_damage(10), 4);
}

#[test]
fn alien_panic_table() {
    assert_eq!(interpret_panic_roll(3), "Keeping it together");
    assert_eq!(interpret_panic_roll(9), "Freeze - You lose your next turn");
    assert_eq!(interpret_panic_roll(15), "Heart Attack - You suffer a heart attack and become Broken");
}

#[test]
fn pool_helpers() {
    assert_eq!(sum_rolls(&vec![3, 4, 5]), 12);
    assert_eq!(max_of(&vec![3, 9, 5]), 9);
    assert_eq!(min_of(&vec![3, 9, 5]), 3);
    assert!(has_matching_dice(&vec![3, 9, 3]));
    assert!(!has_matching_dice(&vec![3, 9, 5]));
}

#[test]
fn conan_combat_dice_read_faces() {
    // 1 -> 1, 2 -> 2, 3-4 -> 0, 5-6 -> 1 (with an effect)
    assert_eq!(apply_conan_combat_interpretation(&vec![1, 2, 3, 4, 5, 6]), 5);
}

#[test]
fn left_to_right_expression() {
    let parts = vec![
        Token::Number(2),
        Token::Plus,
        Token::Number(3),
        Token::Multiply,
        Token::Number(4),
    ];
    assert_eq!(evaluate_expression(&parts).unwrap(), 20);
    let bad = vec![Token::Number(2), Token::Divide, Token::Number(0)];
    assert_eq!(evaluate_expression(&bad).unwrap_err().message, "Cannot divide by zero");
    assert_eq!(div_wrapping(-7, 2), -3);
}
