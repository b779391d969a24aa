use dicemaiden_rs::dice::format::strip_comment_from_expression;
use dicemaiden_rs::parser::plain_roll;
use dicemaiden_rs::{format_multiple_results, format_multiple_results_with_limit, DiceGroup, RollResult};

fn result_with(kept: Vec<i32>, dropped: Vec<i32>, total: i32) -> RollResult {
    let mut r = RollResult::from_dice(&plain_roll(kept.len() as u32, 6));
    r.individual_rolls = kept.clone();
    r.kept_rolls = kept;
    r.dropped_rolls = dropped;
    r.total = total;
    r
}

#[test]
fn shows_kept_and_dropped_dice_with_total() {
    let r = result_with(vec![6, 4, 3], vec![1], 13);
    assert_eq!(r.to_string(), "Roll: `[6, 4, 3]` ~~[1]~~ = **13**");
}

#[test]
fn simple_flag_shows_only_the_value() {
    let mut r = result_with(vec![6, 4, 3], vec![1], 13);
    r.simple = true;
    assert_eq!(r.to_string(), "= **13**");
}

#[test]
fn no_results_flag_shows_only_the_dice() {
    let mut r = result_with(vec![5, 2], vec![], 7);
    r.no_results = true;
    assert_eq!(r.to_string(), "Roll: `[5, 2]`");
}

#[test]
fn label_reason_and_notes() {
    let mut r = result_with(vec![8], vec![], 8);
    r.label = Some("Fireball".to_string());
    r.comment = Some("AOE".to_string());
    r.notes = vec!["1 die exploded".to_string()];
    assert_eq!(
        r.to_string(),
        "**Fireball**: Roll: `[8]` = **8** Reason: `AOE`\n*Note: 1 die exploded*"
    );
}

#[test]
fn successes_failures_and_botches() {
    let mut r = result_with(vec![10, 8, 1], vec![], 19);
    r.successes = Some(2);
    r.failures = Some(1);
    r.botches = Some(1);
    assert_eq!(
        r.to_string(),
        "Roll: `[10, 8, 1]` = **2** successes (1 failures) (1 botches)"
    );
}

#[test]
fn botches_without_successes_show_the_total() {
    let mut r = result_with(vec![1, 5], vec![], 6);
    r.botches = Some(1);
    assert_eq!(r.to_string(), "Roll: `[1, 5]` = **6** total, **1** botches");
}

#[test]
fn godbound_damage_is_shown_as_damage() {
    let mut r = result_with(vec![9], vec![], 9);
    r.godbound_damage = Some(2);
    assert_eq!(r.to_string(), "Roll: `[9]` = **2** damage");
}

#[test]
fn dice_groups_are_joined_by_their_operators() {
    let mut r = result_with(vec![4, 2], vec![], 9);
    r.dice_groups = vec![
        DiceGroup {
            _description: "2d6".to_string(),
            rolls: vec![4, 2],
            dropped_rolls: vec![],
            modifier_type: "base".to_string(),
        },
        DiceGroup {
            _description: "1d4".to_string(),
            rolls: vec![3],
            dropped_rolls: vec![],
            modifier_type: "add".to_string(),
        },
    ];
    assert_eq!(r.to_string(), "Roll: `[4, 2]` + `[3]` = **9**");
}

#[test]
fn marvel_logo_die_is_bold_m() {
    let mut r = result_with(vec![-1], vec![], 6);
    r.dice_groups = vec![DiceGroup {
        _description: "1d6".to_string(),
        rolls: vec![-1, 5],
        dropped_rolls: vec![],
        modifier_type: "base".to_string(),
    }];
    assert_eq!(r.to_string(), "Roll: `[**M**, 5]` = **6**");
}

#[test]
fn no_results_text_for_empty_list() {
    assert_eq!(format_multiple_results(&vec![]), "No dice to roll!");
}

#[test]
fn roll_set_totals_the_sets_and_shows_the_first_reason_once() {
    let mut a = result_with(vec![5], vec![], 5);
    a.label = Some("Set 1".to_string());
    a.comment = Some("stats".to_string());
    let mut b = result_with(vec![7], vec![], 7);
    b.label = Some("Set 2".to_string());
    b.comment = Some("stats".to_string());
    assert_eq!(
        format_multiple_results(&vec![a, b]),
        "**Set 1**: Roll: `[5]` = **5**\n**Set 2**: Roll: `[7]` = **7**\n**Total: 12** Reason: `stats`"
    );
}

#[test]
fn semicolon_rolls_show_their_requests() {
    let mut a = result_with(vec![3], vec![], 3);
    a.original_expression = Some("1d6 ! first".to_string());
    let mut b = result_with(vec![12], vec![], 12);
    b.original_expression = Some("1d20".to_string());
    assert_eq!(
        format_multiple_results(&vec![a, b]),
        "Request: `1d6` Roll: `[3]` = **3**\nRequest: `1d20` Roll: `[12]` = **12**"
    );
}

#[test]
fn plain_multiple_results_one_per_line() {
    let a = result_with(vec![3], vec![], 3);
    let b = result_with(vec![4], vec![], 4);
    assert_eq!(
        format_multiple_results(&vec![a, b]),
        "Roll: `[3]` = **3**\nRoll: `[4]` = **4**"
    );
}

#[test]
fn strips_the_comment_from_a_request() {
    assert_eq!(strip_comment_from_expression("2d6 + 3 ! fire damage"), "2d6 + 3");
    assert_eq!(strip_comment_from_expression("  1d20  "), "1d20");
    assert_eq!(strip_comment_from_expression("4d6!"), "4d6");
}

#[test]
fn short_output_is_left_alone_by_the_limit() {
    let r = result_with(vec![6, 4, 3], vec![1], 13);
    let full = format_multiple_results(&vec![r.clone()]);
    assert_eq!(format_multiple_results_with_limit(&vec![r]), full);
}

#[test]
fn long_single_result_is_simplified_to_its_value() {
    let dice: Vec<i32> = (0..500).map(|i| 100 + (i % 900)).collect();
    let total: i32 = dice.iter().sum();
    let mut r = result_with(dice, vec![], total);
    r.comment = Some("big".to_string());
    assert!(format_multiple_results(&vec![r.clone()]).len() > 2000);
    assert_eq!(
        format_multiple_results_with_limit(&vec![r]),
        format!("= **{}**", total)
    );
}

#[test]
fn long_several_results_are_simplified_one_per_line() {
    let dice: Vec<i32> = (0..300).map(|_| 1000).collect();
    let a = result_with(dice.clone(), vec![], 300000);
    let b = result_with(dice, vec![], 300000);
    assert_eq!(
        format_multiple_results_with_limit(&vec![a, b]),
        "= **300000**\n= **300000**"
    );
}

#[test]
fn simplified_copy_replaces_the_reason_and_hides_it() {
    let mut r = result_with(vec![2], vec![], 2);
    r.comment = Some("secret".to_string());
    let s = r.create_simplified();
    assert!(s.suppress_comment);
    assert_eq!(
        s.comment.as_deref(),
        Some("Simplified roll due to character limit")
    );
    assert_eq!(s.to_string(), "Roll: `[2]` = **2**");
}
