use dicemaiden_rs::dice::rng::DiceRng;
use dicemaiden_rs::parser::{parse_dice_string, plain_roll};
use dicemaiden_rs::roller::{apply_special_system_modifiers, roll_dice, roll_dice_with_rng};
use dicemaiden_rs::{format_multiple_results, parse_and_roll, Modifier, RollResult};

fn roll_one(expr: &str, seed: u64) -> RollResult {
    let mut rolls = parse_dice_string(expr).unwrap();
    assert_eq!(rolls.len(), 1);
    let mut rng = DiceRng::seed_from_u64(seed);
    roll_dice_with_rng(rolls.remove(0), &mut rng).unwrap()
}

fn is_sorted_desc(v: &[i32]) -> bool {
    v.windows(2).all(|w| w[0] >= w[1])
}

#[test]
fn plain_roll_totals_its_dice() {
    for seed in 0..20 {
        let mut rng = DiceRng::seed_from_u64(seed);
        let r = roll_dice_with_rng(plain_roll(3, 6), &mut rng).unwrap();
        assert_eq!(r.individual_rolls.len(), 3);
        assert!(r.individual_rolls.iter().all(|&x| (1..=6).contains(&x)));
        assert_eq!(r.total, r.individual_rolls.iter().sum::<i32>());
        assert!(r.dropped_rolls.is_empty());
        assert!(is_sorted_desc(&r.kept_rolls));
        let mut a = r.kept_rolls.clone();
        let mut b = r.individual_rolls.clone();
        a.sort();
        b.sort();
        assert_eq!(a, b);
    }
}

#[test]
fn same_seed_same_roll() {
    let a = roll_one("10d20 k4 + 3", 42);
    let b = roll_one("10d20 k4 + 3", 42);
    assert_eq!(a, b);
}

#[test]
fn keep_highest_keeps_three_of_four() {
    for seed in 0..30 {
        let r = roll_one("4d6 k3", seed);
        assert_eq!(r.individual_rolls.len(), 3);
        assert_eq!(r.dropped_rolls.len(), 1);
        let lowest_kept = *r.individual_rolls.iter().min().unwrap();
        assert!(lowest_kept >= r.dropped_rolls[0]);
        assert_eq!(r.total, r.individual_rolls.iter().sum::<i32>());
    }
}

#[test]
fn keep_lowest_keeps_the_lower_die() {
    for seed in 0..30 {
        let r = roll_one("2d20 kl1", seed);
        assert_eq!(r.individual_rolls.len(), 1);
        assert_eq!(r.dropped_rolls.len(), 1);
        assert!(r.individual_rolls[0] <= r.dropped_rolls[0]);
        assert_eq!(r.total, r.individual_rolls[0]);
    }
}

#[test]
fn drop_lowest_removes_the_lowest_dice() {
    for seed in 0..30 {
        let r = roll_one("5d10 d2", seed);
        assert_eq!(r.individual_rolls.len(), 3);
        assert_eq!(r.dropped_rolls.len(), 2);
        let lowest_kept = *r.individual_rolls.iter().min().unwrap();
        assert!(r.dropped_rolls.iter().all(|&d| d <= lowest_kept));
    }
}

#[test]
fn keep_middle_keeps_the_middle_dice() {
    for seed in 0..30 {
        let r = roll_one("5d10 km3", seed);
        assert_eq!(r.individual_rolls.len(), 3);
        assert_eq!(r.dropped_rolls.len(), 2);
    }
}

#[test]
fn keeping_no_dice_is_an_error() {
    let mut rolls = parse_dice_string("4d6 k0").unwrap();
    assert_eq!(rolls[0].modifiers, vec![Modifier::KeepHigh(0)]);
    let mut rng = DiceRng::seed_from_u64(1);
    let err = roll_dice_with_rng(rolls.remove(0), &mut rng).unwrap_err();
    assert_eq!(err.message, "Cannot keep 0 dice");
}

#[test]
fn zero_sides_is_an_error() {
    let err = roll_dice(plain_roll(1, 0)).unwrap_err();
    assert_eq!(err.message, "Cannot roll dice with 0 sides");
}

#[test]
fn zero_dice_is_an_error() {
    let err = roll_dice(plain_roll(0, 6)).unwrap_err();
    assert_eq!(err.message, "Cannot roll 0 dice");
}

#[test]
fn arithmetic_runs_left_to_right() {
    let results = parse_and_roll("1d1 + 2 * 3").unwrap();
    assert_eq!(results.len(), 1);
    assert_eq!(results[0].total, 9);
}

#[test]
fn subtraction_and_division_truncate() {
    let results = parse_and_roll("3d1 - 10 / 2").unwrap();
    assert_eq!(results[0].total, -3);
}

#[test]
fn division_by_zero_is_an_error() {
    let err = parse_and_roll("1d6 / 0").unwrap_err();
    assert_eq!(err.message, "Cannot divide by zero");
}

#[test]
fn at_most_four_requests() {
    let err = parse_and_roll("1d6;1d6;1d6;1d6;1d6").unwrap_err();
    assert_eq!(err.message, "Maximum of 4 separate rolls allowed");
    assert_eq!(parse_and_roll("1d6;1d6;1d6;1d6").unwrap().len(), 4);
}

#[test]
fn roll_set_rolls_each_set() {
    let results = parse_and_roll("6 4d6").unwrap();
    assert_eq!(results.len(), 6);
    for (i, r) in results.iter().enumerate() {
        assert_eq!(r.label.as_deref(), Some(format!("Set {}", i + 1).as_str()));
        assert_eq!(r.individual_rolls.len(), 4);
    }
    let text = format_multiple_results(&results);
    let expected_total: i32 = results.iter().map(|r| r.total).sum();
    assert!(text.contains(&format!("**Total: {}**", expected_total)));
}

#[test]
fn ones_total_exactly() {
    let results = parse_and_roll("7d1").unwrap();
    assert_eq!(results[0].total, 7);
    assert_eq!(
        format_multiple_results(&results),
        "Roll: `[1, 1, 1, 1, 1, 1, 1]` = **7**"
    );
}

#[test]
fn advantage_and_disadvantage_cancel() {
    let mut d = plain_roll(1, 20);
    d.modifiers = vec![Modifier::Advantage(1), Modifier::Disadvantage(1)];
    let mut rng = DiceRng::seed_from_u64(3);
    let r = roll_dice_with_rng(d, &mut rng).unwrap();
    assert_eq!(r.individual_rolls.len(), 1);
    assert!(r.dropped_rolls.is_empty());
}

#[test]
fn advantage_keeps_the_higher_die() {
    for seed in 0..20 {
        let mut d = plain_roll(1, 20);
        d.modifiers = vec![Modifier::Advantage(1)];
        let mut rng = DiceRng::seed_from_u64(seed);
        let r = roll_dice_with_rng(d, &mut rng).unwrap();
        assert_eq!(r.individual_rolls.len(), 1);
        assert_eq!(r.dropped_rolls.len(), 1);
        assert!(r.individual_rolls[0] >= r.dropped_rolls[0]);
    }
}

#[test]
fn disadvantage_keeps_the_lower_die() {
    for seed in 0..20 {
        let mut d = plain_roll(1, 20);
        d.modifiers = vec![Modifier::Disadvantage(1)];
        let mut rng = DiceRng::seed_from_u64(seed);
        let r = roll_dice_with_rng(d, &mut rng).unwrap();
        assert_eq!(r.individual_rolls.len(), 1);
        assert_eq!(r.dropped_rolls.len(), 1);
        assert!(r.individual_rolls[0] <= r.dropped_rolls[0]);
    }
}

#[test]
fn successes_less_failures_are_counted() {
    for seed in 0..20u64 {
        let r = roll_one("10d10 t7 f1", seed);
        let kept = &r.kept_rolls;
        assert_eq!(kept.len(), 10);
        let hits = kept.iter().filter(|&&x| x >= 7).count() as i32;
        let misses = kept.iter().filter(|&&x| x <= 1).count() as i32;
        assert_eq!(r.successes, Some(hits - misses));
        assert_eq!(r.failures, Some(misses));
    }
}

#[test]
fn lower_targets_count_low_dice() {
    for seed in 0..10u64 {
        let r = roll_one("6d20 tl5", seed);
        let hits = r.kept_rolls.iter().filter(|&&x| x <= 5).count() as i32;
        assert_eq!(r.successes, Some(hits));
        assert_eq!(r.failures, None);
    }
}

#[test]
fn each_maximum_explodes_once() {
    for seed in 0..20u64 {
        let r = roll_one("6d6 e6", seed);
        let sixes = r.individual_rolls[..6].iter().filter(|&&x| x == 6).count();
        assert_eq!(r.individual_rolls.len(), 6 + sixes);
    }
}

#[test]
fn each_low_die_implodes_once() {
    for seed in 0..20u64 {
        let r = roll_one("6d6 i2", seed);
        let low = r.individual_rolls.iter().filter(|&&x| x <= 2).count();
        assert_eq!(r.implosion_rolls.len(), low);
        assert!(r.implosion_rolls.iter().all(|&x| (1..=6).contains(&x)));
    }
}

#[test]
fn indefinite_rerolls_leave_no_low_die() {
    for seed in 0..20u64 {
        let r = roll_one("8d6 ir2", seed);
        assert!(r.individual_rolls.iter().all(|&x| x > 2));
    }
}

#[test]
fn indefinite_explosions_stop_at_one_hundred() {
    let mut d = plain_roll(1, 1);
    d.modifiers = vec![Modifier::ExplodeIndefinite(None)];
    let r = roll_dice(d).unwrap();
    assert_eq!(r.individual_rolls.len(), 101);
    assert_eq!(r.total, 101);
    assert_eq!(r.notes, vec!["Maximum explosions reached (100)".to_string(), "100 dice exploded".to_string()]);
}

#[test]
fn single_explosion_adds_one_die() {
    let mut d = plain_roll(1, 1);
    d.modifiers = vec![Modifier::Explode(None)];
    let r = roll_dice(d).unwrap();
    assert_eq!(r.individual_rolls, vec![1, 1]);
    assert_eq!(r.total, 2);
    assert_eq!(r.notes, vec!["1 die exploded".to_string()]);
}

#[test]
fn arithmetic_modifiers_fold_left_to_right() {
    let mut d = plain_roll(1, 1);
    d.modifiers = vec![Modifier::Add(2), Modifier::Multiply(3)];
    assert_eq!(roll_dice(d).unwrap().total, 9);
}

#[test]
fn more_than_five_hundred_dice_is_an_error() {
    let err = roll_dice(plain_roll(501, 6)).unwrap_err();
    assert_eq!(err.message, "Maximum 500 dice allowed (advantage/disadvantage adds 0 dice)");
    assert!(roll_dice(plain_roll(500, 6)).is_ok());
}

#[test]
fn a_request_that_cannot_be_rolled_is_an_error() {
    let err = parse_and_roll("0d6").unwrap_err();
    assert_eq!(err.message, "Cannot roll 0 dice");
}

#[test]
fn botches_are_counted_with_successes_and_failures() {
    let mut d = plain_roll(4, 10);
    d.modifiers = vec![Modifier::Target(8), Modifier::Failure(1), Modifier::Botch(None)];
    let mut r = RollResult::from_dice(&d);
    r.individual_rolls = vec![10, 8, 1, 3];
    r.kept_rolls = vec![10, 8, 1, 3];
    let mut rng = DiceRng::seed_from_u64(5);
    assert!(apply_special_system_modifiers(&mut r, &d, &mut rng).is_ok());
    assert_eq!(r.successes, Some(1));
    assert_eq!(r.failures, Some(1));
    assert_eq!(r.botches, Some(1));
    assert!(r.notes.contains(&"1 dice botched (≤1)".to_string()));
}

#[test]
fn godbound_reads_the_damage_chart() {
    let mut d = plain_roll(4, 10);
    d.modifiers = vec![Modifier::Godbound(false)];
    let mut r = RollResult::from_dice(&d);
    r.individual_rolls = vec![1, 5, 9, 10];
    r.kept_rolls = vec![1, 5, 9, 10];
    r.total = 25;
    let mut rng = DiceRng::seed_from_u64(5);
    assert!(apply_special_system_modifiers(&mut r, &d, &mut rng).is_ok());
    assert_eq!(r.godbound_damage, Some(7));
    assert!(r.notes.contains(&"Damage chart conversions: [1 → 0, 5 → 1, 9 → 2, 10 → 4]".to_string()));
    assert!(r.notes.contains(&"Using Godbound damage chart (1-=0, 2-5=1, 6-9=2, 10+=4)".to_string()));

    d.modifiers = vec![Modifier::Godbound(true)];
    let mut r = RollResult::from_dice(&d);
    r.kept_rolls = vec![1, 5, 9, 10];
    r.total = 25;
    assert!(apply_special_system_modifiers(&mut r, &d, &mut rng).is_ok());
    assert_eq!(r.godbound_damage, Some(25));
}

#[test]
fn rerolls_stop_at_one_hundred() {
    let mut d = plain_roll(3, 1);
    d.modifiers = vec![Modifier::RerollIndefinite(1)];
    let r = roll_dice(d).unwrap();
    assert_eq!(r.individual_rolls, vec![1, 1, 1]);
    assert_eq!(r.total, 3);
    assert_eq!(r.notes, vec!["100 dice rerolled".to_string(), "Maximum rerolls reached (100)".to_string()]);
}

#[test]
fn a_single_reroll_rolls_each_low_die_once() {
    let mut d = plain_roll(2, 1);
    d.modifiers = vec![Modifier::Reroll(1)];
    let r = roll_dice(d).unwrap();
    assert_eq!(r.individual_rolls, vec![1, 1]);
    assert_eq!(r.notes, vec!["2 dice rerolled".to_string()]);
    for seed in 0..20u64 {
        let r = roll_one("5d6 rg5", seed);
        assert_eq!(r.individual_rolls.len(), 5);
        assert!(r.individual_rolls.iter().all(|&x| (1..=6).contains(&x)));
        assert_eq!(r.total, r.individual_rolls.iter().sum::<i32>());
    }
}

#[test]
fn imploded_dice_are_subtracted() {
    let mut d = plain_roll(3, 1);
    d.modifiers = vec![Modifier::Implode(None)];
    let r = roll_dice(d).unwrap();
    assert_eq!(r.individual_rolls, vec![1, 1, 1]);
    assert_eq!(r.implosion_rolls, vec![1, 1, 1]);
    assert_eq!(r.total, 0);
    assert_eq!(r.notes, vec!["3 dice imploded".to_string()]);
}

#[test]
fn explosion_requests_always_roll() {
    let results = parse_and_roll("1d1 ie").unwrap();
    assert_eq!(results[0].individual_rolls.len(), 101);
    let results = parse_and_roll("3d1 ir1").unwrap();
    assert_eq!(results[0].total, 3);
}

#[test]
fn alien_sixes_and_shadowrun_glitches_are_read_from_the_dice() {
    let mut d = plain_roll(3, 6);
    d.modifiers = vec![Modifier::Alien];
    let mut r = RollResult::from_dice(&d);
    r.kept_rolls = vec![6, 6, 3];
    let mut rng = DiceRng::seed_from_u64(9);
    assert!(apply_special_system_modifiers(&mut r, &d, &mut rng).is_ok());
    assert_eq!(r.successes, Some(2));

    let mut d = plain_roll(4, 6);
    d.modifiers = vec![Modifier::Target(5), Modifier::Shadowrun(4)];
    let mut r = RollResult::from_dice(&d);
    r.kept_rolls = vec![1, 1, 1, 6];
    assert!(apply_special_system_modifiers(&mut r, &d, &mut rng).is_ok());
    assert_eq!(r.successes, Some(1));
    assert_eq!(
        r.notes,
        vec!["⚠️ **GLITCH!** More than half the dice pool rolled 1s but successes were achieved - complications arise!".to_string()]
    );
}

#[test]
fn zero_dice_is_reported_before_an_oversized_die() {
    let err = roll_dice(plain_roll(0, 3_000_000_000)).unwrap_err();
    assert_eq!(err.message, "Cannot roll 0 dice");
    let err = roll_dice(plain_roll(1, 3_000_000_000)).unwrap_err();
    assert_eq!(err.message, "Cannot roll dice with 3000000000 sides");
    let err = roll_dice(plain_roll(0, 0)).unwrap_err();
    assert_eq!(err.message, "Cannot roll dice with 0 sides");
}

#[test]
fn combined_modifiers_roll_through_the_pipeline() {
    for seed in 0..20u64 {
        let r = roll_one("10d6 e6 k8 +4", seed);
        assert_eq!(r.individual_rolls.len(), 8);
        assert_eq!(r.total, r.individual_rolls.iter().sum::<i32>() + 4);
        let r = roll_one("4d10 t8 ie10 f1", seed);
        assert!(r.successes.is_some());
    }
}

#[test]
fn brave_new_world_with_no_dice_reads_one() {
    let mut d = plain_roll(0, 6);
    d.modifiers = vec![Modifier::BraveNewWorld(0)];
    let mut rng = DiceRng::seed_from_u64(2);
    let r = dicemaiden_rs::dice::handlers::handle_brave_new_world_roll(&d, &mut rng).unwrap();
    assert!(r.individual_rolls.is_empty());
    assert_eq!(r.kept_rolls, vec![1]);
    assert_eq!(r.total, 1);
}

#[test]
fn brave_new_world_sixes_add_results() {
    for seed in 0..20u64 {
        let mut d = plain_roll(5, 6);
        d.modifiers = vec![Modifier::BraveNewWorld(5)];
        let mut rng = DiceRng::seed_from_u64(seed);
        let r = roll_dice_with_rng(d, &mut rng).unwrap();
        let sixes = r.individual_rolls[..5].iter().filter(|&&x| x == 6).count();
        assert_eq!(r.individual_rolls.len(), 5 + sixes);
        assert!(r.individual_rolls[5..].iter().all(|&x| (7..=12).contains(&x)));
    }
}

#[test]
fn marvel_notes_follow_the_dice() {
    for seed in 0..30u64 {
        let mut d = plain_roll(3, 6);
        d.modifiers = vec![Modifier::MarvelMultiverse(1, 0)];
        let mut rng = DiceRng::seed_from_u64(seed);
        let r = roll_dice_with_rng(d, &mut rng).unwrap();
        let fantastic = r.individual_rolls[1] == 1;
        let note = "Fantastic! Marvel die rolled Marvel symbol, counts as 6".to_string();
        assert_eq!(r.notes.contains(&note), fantastic);
        assert!(r.notes.contains(&"1 edge".to_string()));
        assert!(r.notes.iter().any(|n| n.starts_with("Edge 1: Rerolled ")));
    }
}

#[test]
fn savage_worlds_dice_ace() {
    for seed in 0..30u64 {
        let mut d = plain_roll(1, 6);
        d.modifiers = vec![Modifier::SavageWorlds(8)];
        let mut rng = DiceRng::seed_from_u64(seed);
        let r = roll_dice_with_rng(d, &mut rng).unwrap();
        let t = &r.dice_groups[0].rolls;
        let w = &r.dice_groups[1].rolls;
        assert!(t[..t.len() - 1].iter().all(|&x| x == 8) && *t.last().unwrap() < 8);
        assert!(w[..w.len() - 1].iter().all(|&x| x == 6) && *w.last().unwrap() < 6);
        let snake = r.notes.iter().any(|n| n.contains("SNAKE EYES"));
        assert_eq!(snake, t[0] == 1 && w[0] == 1);
        assert_eq!(r.notes.last().unwrap(), "Savage Worlds: Trait die + Wild die, keep highest");
    }
}

#[test]
fn counting_with_explosions_counts_every_die() {
    for seed in 0..20u64 {
        let r = roll_one("4d10 t8 ie10 f1", seed);
        let hits = r.individual_rolls.iter().filter(|&&x| x >= 8).count() as i32;
        let ones = r.individual_rolls.iter().filter(|&&x| x <= 1).count() as i32;
        assert_eq!(r.successes, Some(hits - ones));
        assert_eq!(r.failures, Some(ones));
    }
}

#[test]
fn arithmetic_after_a_target_applies_to_successes() {
    for seed in 0..20u64 {
        let r = roll_one("5d10 t7 + 2", seed);
        let hits = r.individual_rolls.iter().filter(|&&x| x >= 7).count() as i32;
        assert_eq!(r.successes, Some(hits + 2));
        assert_eq!(r.total, r.individual_rolls.iter().sum::<i32>() + 2);
    }
}
