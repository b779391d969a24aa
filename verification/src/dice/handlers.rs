//! Game systems that roll their own dice instead of going through the
//! standard pipeline, and the system readings that roll extra dice.

use vstd::prelude::*;
use vstd::string::*;
use crate::dice::{err_msg, DiceError, DiceGroup, DiceRoll, Modifier, RollResult};
use crate::dice::arith::{apply_arithmetic_modifiers, fold_arith, has_zero_divisor};
use crate::dice::rng::DiceRng;
use crate::dice::{carries_flags, dice_desc, in_die_range, same_flags};
use crate::dice::systems::{
    count_in, count_in_range, notes_of, push_note, seq_max, sum_rolls, wfrp_test_outcome, wsum,
    max_of, wfrp_spec, wfrp_notes,
};
use crate::text::{cat_int, cat_int2, cat_nat, int_str, int_then, is_digit, lit, nat_str, nat_then, push_int, push_nat};

verus! {

/// `n` dice of `sides` sides.
pub fn roll_pool(rng: &mut DiceRng, n: u32, sides: i32) -> (v: Vec<i32>)
    requires
        sides >= 1,
    ensures
        v@.len() == n,
        in_die_range(v@, sides as int),
{
    let mut v: Vec<i32> = Vec::new();
    let mut k: u32 = 0;
    while k < n
        invariant
            k <= n,
            sides >= 1,
            v@.len() == k,
            in_die_range(v@, sides as int),
        decreases n - k,
    {
        v.push(rng.roll(sides));
        k = k + 1;
    }
    v
}

/// The faces of one die rolled again each time it shows its maximum, at
/// most 100 times: every face but the last is the maximum, and the last is
/// below it unless the 100 rerolls were all used.
pub open spec fn aced(rolls: Seq<i32>, sides: int) -> bool {
    &&& 1 <= rolls.len() <= 101
    &&& in_die_range(rolls, sides)
    &&& forall|i: int| 0 <= i < rolls.len() - 1 ==> #[trigger] rolls[i] == sides
    &&& rolls.len() < 101 ==> rolls.last() < sides
}

/// One die rolled again each time it shows its maximum, at most 100 times:
/// every face rolled, their sum and the number of explosions.
pub fn roll_exploding_die(rng: &mut DiceRng, sides: i32) -> (r: (Vec<i32>, i32, usize))
    requires
        sides >= 1,
    ensures
        r.0@.len() == r.2 + 1,
        r.2 <= 100,
        in_die_range(r.0@, sides as int),
        r.1 == wsum(r.0@),
        forall|i: int| 0 <= i < r.2 ==> #[trigger] r.0@[i] == sides,
        aced(r.0@, sides as int),
{
    let mut rolls: Vec<i32> = Vec::new();
    rolls.push(rng.roll(sides));
    let mut explosions: usize = 0;
    while rolls[rolls.len() - 1] >= sides && explosions < 100
        invariant
            rolls@.len() == explosions + 1,
            explosions <= 100,
            sides >= 1,
            in_die_range(rolls@, sides as int),
            forall|i: int| 0 <= i < explosions ==> #[trigger] rolls@[i] == sides,
        decreases 100 - explosions,
    {
        rolls.push(rng.roll(sides));
        explosions = explosions + 1;
    }
    let total = sum_rolls(&rolls);
    assert(forall|i: int| 0 <= i < rolls@.len() - 1 ==> #[trigger] rolls@[i] == sides);
    (rolls, total, explosions)
}

/// Append a display group.
pub fn push_dice_group(result: &mut RollResult, description: String, rolls: Vec<i32>, modifier_type: &str)
    ensures
        final(result).dice_groups@ == old(result).dice_groups@.push(
            DiceGroup {
                _description: description,
                rolls: rolls,
                dropped_rolls: final(result).dice_groups@.last().dropped_rolls,
                modifier_type: final(result).dice_groups@.last().modifier_type,
            },
        ),
        final(result).dice_groups@.last().dropped_rolls@.len() == 0,
        final(result).dice_groups@.last().modifier_type@ == modifier_type@,
        *final(result) == (RollResult { dice_groups: final(result).dice_groups, ..*old(result) }),
{
    result.dice_groups.push(
        DiceGroup {
            _description: description,
            rolls: rolls,
            dropped_rolls: Vec::new(),
            modifier_type: lit(modifier_type),
        },
    );
}

/// Conan combat dice: 1 scores 1, 2 scores 2, 3-4 nothing, 5-6 score 1 and a
/// special effect.
pub open spec fn conan_effect(r: i32) -> bool {
    r == 5 || r == 6
}

/// The count of the first `ConanCombat` modifier.
pub open spec fn first_conan_combat(mods: Seq<Modifier>) -> Option<u32>
    decreases mods.len(),
{
    if mods.len() == 0 {
        None
    } else {
        match mods[0] {
            Modifier::ConanCombat(c) => Some(c),
            _ => first_conan_combat(mods.drop_first()),
        }
    }
}

fn find_conan_combat(mods: &Vec<Modifier>) -> (r: Option<u32>)
    ensures
        r == first_conan_combat(mods@),
{
    let mut i: usize = 0;
    assert(mods@.skip(0) =~= mods@);
    while i < mods.len()
        invariant
            i <= mods@.len(),
            first_conan_combat(mods@.skip(i as int)) == first_conan_combat(mods@),
        decreases mods.len() - i,
    {
        assert(mods@.skip(i as int).drop_first() =~= mods@.skip(i + 1));
        if let Modifier::ConanCombat(c) = &mods[i] {
            return Some(*c);
        }
        i = i + 1;
    }
    assert(mods@.skip(i as int) =~= Seq::<Modifier>::empty());
    None
}

/// What a Conan combat roll gives for the request `dice`.
pub open spec fn conan_combat_outcome(dice: DiceRoll, r: Result<RollResult, DiceError>) -> bool {
    &&& (first_conan_combat(dice.modifiers@) is None ==> r is Err && err_msg(r) == "Expected ConanCombat modifier"@)
    &&& (first_conan_combat(dice.modifiers@) is Some ==> (has_zero_divisor(dice.modifiers@) <==> r is Err))
    &&& (r matches Ok(res) ==> {
            &&& carries_flags(res, dice)
            &&& res.individual_rolls@.len() == first_conan_combat(dice.modifiers@)->Some_0
            &&& in_die_range(res.individual_rolls@, 6)
            &&& res.kept_rolls@ == res.individual_rolls@
            &&& res.successes == Some(crate::dice::systems::conan_damage(res.individual_rolls@) as i32)
            &&& res.total == fold_arith(dice.modifiers@, res.successes.unwrap())
        })
    &&& (has_zero_divisor(dice.modifiers@) ==> r is Err)
}

/// `cs#`: Conan combat dice, read as damage and special effects.
pub fn handle_conan_combat_roll(dice: &DiceRoll, rng: &mut DiceRng) -> (r: Result<RollResult, DiceError>)
    ensures
        first_conan_combat(dice.modifiers@) is None ==> r is Err && err_msg(r) == "Expected ConanCombat modifier"@,
        first_conan_combat(dice.modifiers@) is Some ==> (has_zero_divisor(dice.modifiers@) <==> r is Err),
        r matches Ok(res) ==> {
            &&& carries_flags(res, *dice)
            &&& res.individual_rolls@.len() == first_conan_combat(dice.modifiers@)->Some_0
            &&& in_die_range(res.individual_rolls@, 6)
            &&& res.kept_rolls@ == res.individual_rolls@
            &&& res.successes == Some(crate::dice::systems::conan_damage(res.individual_rolls@) as i32)
            &&& res.total == fold_arith(dice.modifiers@, res.successes.unwrap())
        },
        has_zero_divisor(dice.modifiers@) ==> r is Err,
{
    let dice_count = match find_conan_combat(&dice.modifiers) {
        Some(c) => c,
        None => {
            return Err(DiceError::from_str("Expected ConanCombat modifier"));
        },
    };
    let mut result = RollResult::from_dice(dice);
    result.individual_rolls = roll_pool(rng, dice_count, 6);
    let successes = crate::dice::systems::apply_conan_combat_interpretation(&result.individual_rolls);
    let specials = count_in(&result.individual_rolls, 5, 6);
    result.successes = Some(successes);
    result.total = successes;
    result.kept_rolls = result.individual_rolls.clone();
    let group_rolls = result.individual_rolls.clone();
    push_dice_group(&mut result, nat_then(dice_count as u64, "d6"), group_rolls, "base");
    apply_arithmetic_modifiers(&dice.modifiers, &mut result.total)?;
    if specials > 0 {
        push_note(&mut result, nat_then(specials as u64, " special effects"));
    }
    push_note(&mut result, lit("1=1, 2=2, 3-4=0, 5-6=1+special"));
    Ok(result)
}

/// The count of the first `Silhouette` modifier.
pub open spec fn first_silhouette(mods: Seq<Modifier>) -> Option<u32>
    decreases mods.len(),
{
    if mods.len() == 0 {
        None
    } else {
        match mods[0] {
            Modifier::Silhouette(c) => Some(c),
            _ => first_silhouette(mods.drop_first()),
        }
    }
}

fn find_silhouette(mods: &Vec<Modifier>) -> (r: Option<u32>)
    ensures
        r == first_silhouette(mods@),
{
    let mut i: usize = 0;
    assert(mods@.skip(0) =~= mods@);
    while i < mods.len()
        invariant
            i <= mods@.len(),
            first_silhouette(mods@.skip(i as int)) == first_silhouette(mods@),
        decreases mods.len() - i,
    {
        assert(mods@.skip(i as int).drop_first() =~= mods@.skip(i + 1));
        if let Modifier::Silhouette(c) = &mods[i] {
            return Some(*c);
        }
        i = i + 1;
    }
    assert(mods@.skip(i as int) =~= Seq::<Modifier>::empty());
    None
}

/// The Silhouette reading of a d6 pool: the highest die, plus one for each 6
/// beyond the first; 1 for an empty pool.
pub open spec fn silhouette_value(s: Seq<i32>) -> i32 {
    let sixes = count_in_range(s, 6, 6);
    let extra: int = if sixes > 0 { sixes - 1 } else { 0 };
    let highest: i32 = if s.len() > 0 { seq_max(s) } else { 1 };
    highest.wrapping_add(extra as i32)
}

/// What a Silhouette roll gives for the request `dice`.
pub open spec fn silhouette_outcome(dice: DiceRoll, r: Result<RollResult, DiceError>) -> bool {
    &&& (first_silhouette(dice.modifiers@) is None ==> r is Err && err_msg(r) == "Expected Silhouette modifier"@)
    &&& (first_silhouette(dice.modifiers@) is Some ==> (has_zero_divisor(dice.modifiers@) <==> r is Err))
    &&& (r matches Ok(res) ==> {
            &&& carries_flags(res, dice)
            &&& res.individual_rolls@.len() == first_silhouette(dice.modifiers@)->Some_0
            &&& in_die_range(res.individual_rolls@, 6)
            &&& res.kept_rolls@ == seq![silhouette_value(res.individual_rolls@)]
            &&& res.total == fold_arith(dice.modifiers@, silhouette_value(res.individual_rolls@))
        })
    &&& (has_zero_divisor(dice.modifiers@) ==> r is Err)
}

/// `sil#`: Silhouette, highest die plus extra sixes.
pub fn handle_silhouette_roll(dice: &DiceRoll, rng: &mut DiceRng) -> (r: Result<RollResult, DiceError>)
    ensures
        first_silhouette(dice.modifiers@) is None ==> r is Err && err_msg(r) == "Expected Silhouette modifier"@,
        first_silhouette(dice.modifiers@) is Some ==> (has_zero_divisor(dice.modifiers@) <==> r is Err),
        r matches Ok(res) ==> {
            &&& carries_flags(res, *dice)
            &&& res.individual_rolls@.len() == first_silhouette(dice.modifiers@)->Some_0
            &&& in_die_range(res.individual_rolls@, 6)
            &&& res.kept_rolls@ == seq![silhouette_value(res.individual_rolls@)]
            &&& res.total == fold_arith(dice.modifiers@, silhouette_value(res.individual_rolls@))
        },
        has_zero_divisor(dice.modifiers@) ==> r is Err,
{
    let dice_count = match find_silhouette(&dice.modifiers) {
        Some(c) => c,
        None => {
            return Err(DiceError::from_str("Expected Silhouette modifier"));
        },
    };
    let mut result = RollResult::from_dice(dice);
    result.individual_rolls = roll_pool(rng, dice_count, 6);
    let highest_die = if result.individual_rolls.len() > 0 {
        max_of(&result.individual_rolls)
    } else {
        1
    };
    let sixes_count = count_in(&result.individual_rolls, 6, 6);
    let extra_sixes: usize = if sixes_count > 0 { sixes_count - 1 } else { 0 };
    let silhouette_result = highest_die.wrapping_add(extra_sixes as i32);
    result.kept_rolls = vec![silhouette_result];
    result.total = silhouette_result;
    let group_rolls = result.individual_rolls.clone();
    push_dice_group(&mut result, nat_then(dice_count as u64, "d6 Silhouette"), group_rolls, "base");
    if extra_sixes > 0 {
        let mut note = crate::text::nat_to_string(sixes_count as u64);
        note.append(" extra 6s add +");
        push_nat(&mut note, extra_sixes as u64);
        push_note(&mut result, note);
    }
    apply_arithmetic_modifiers(&dice.modifiers, &mut result.total)?;
    Ok(result)
}

/// Degrees of success (positive) or failure (negative) of a Mutants &
/// Masterminds total against DC 10: one degree, plus one per full 5 points.
pub open spec fn mm_degrees(total: i32) -> (Option<i32>, Option<i32>) {
    let d = total.wrapping_sub(10);
    if d >= 0 {
        (Some(((d / 5) + 1) as i32), None)
    } else {
        (None, Some(((((0i32).wrapping_sub(d)).wrapping_sub(1) as int / 5) + 1) as i32))
    }
}

/// What a Mutants & Masterminds roll gives for the request `dice`.
pub open spec fn mutants_masterminds_outcome(dice: DiceRoll, r: Result<RollResult, DiceError>) -> bool {
    &&& (r matches Ok(res) ==> {
            &&& carries_flags(res, dice)
            &&& res.individual_rolls@.len() == dice.count
            &&& in_die_range(res.individual_rolls@, dice.sides as int)
            &&& res.kept_rolls@ == res.individual_rolls@
            &&& res.total == fold_arith(dice.modifiers@, wsum(res.individual_rolls@))
            &&& (res.successes, res.failures) == mm_degrees(res.total)
        })
    &&& (has_zero_divisor(dice.modifiers@) <==> r is Err)
}

/// Mutants & Masterminds: `count`d`sides` plus modifiers against DC 10.
pub fn handle_mutants_masterminds_roll(dice: &DiceRoll, rng: &mut DiceRng) -> (r: Result<RollResult, DiceError>)
    requires
        1 <= dice.sides <= i32::MAX,
    ensures
        r matches Ok(res) ==> {
            &&& carries_flags(res, *dice)
            &&& res.individual_rolls@.len() == dice.count
            &&& in_die_range(res.individual_rolls@, dice.sides as int)
            &&& res.kept_rolls@ == res.individual_rolls@
            &&& res.total == fold_arith(dice.modifiers@, wsum(res.individual_rolls@))
            &&& (res.successes, res.failures) == mm_degrees(res.total)
        },
        has_zero_divisor(dice.modifiers@) <==> r is Err,
{
    let mut result = RollResult::from_dice(dice);
    result.individual_rolls = roll_pool(rng, dice.count, dice.sides as i32);
    result.kept_rolls = result.individual_rolls.clone();
    let group_rolls = result.individual_rolls.clone();
    push_dice_group(&mut result, dice_desc(dice.count as u64, dice.sides as u64), group_rolls, "base");
    result.total = sum_rolls(&result.kept_rolls);
    apply_arithmetic_modifiers(&dice.modifiers, &mut result.total)?;
    let total_vs_dc = result.total.wrapping_sub(10);
    if total_vs_dc >= 0 {
        let degrees = total_vs_dc / 5 + 1;
        result.successes = Some(degrees);
        let note = if degrees == 1 {
            cat_int("**SUCCESS** (1 degree: rolled ", result.total as i64, " vs DC 10)")
        } else {
            cat_int2("**SUCCESS** (", degrees as i64, " degrees: rolled ", result.total as i64, " vs DC 10)")
        };
        push_note(&mut result, note);
    } else {
        let below = (0i32).wrapping_sub(total_vs_dc).wrapping_sub(1);
        let degrees = below / 5 + 1;
        result.failures = Some(degrees);
        let note = if degrees == 1 {
            cat_int("**FAILURE** (1 degree: rolled ", result.total as i64, " vs DC 10)")
        } else {
            cat_int2("**FAILURE** (", degrees as i64, " degrees: rolled ", result.total as i64, " vs DC 10)")
        };
        push_note(&mut result, note);
    }
    Ok(result)
}

/// The target of the first `Wfrp` modifier.
pub open spec fn first_wfrp(mods: Seq<Modifier>) -> Option<u32>
    decreases mods.len(),
{
    if mods.len() == 0 {
        None
    } else {
        match mods[0] {
            Modifier::Wfrp(t) => Some(t),
            _ => first_wfrp(mods.drop_first()),
        }
    }
}

fn find_wfrp(mods: &Vec<Modifier>) -> (r: Option<u32>)
    ensures
        r == first_wfrp(mods@),
{
    let mut i: usize = 0;
    assert(mods@.skip(0) =~= mods@);
    while i < mods.len()
        invariant
            i <= mods@.len(),
            first_wfrp(mods@.skip(i as int)) == first_wfrp(mods@),
        decreases mods.len() - i,
    {
        assert(mods@.skip(i as int).drop_first() =~= mods@.skip(i + 1));
        if let Modifier::Wfrp(c) = &mods[i] {
            return Some(*c);
        }
        i = i + 1;
    }
    assert(mods@.skip(i as int) =~= Seq::<Modifier>::empty());
    None
}

/// What a Warhammer Fantasy Roleplay roll gives for the request `dice`.
pub open spec fn wfrp_outcome(dice: DiceRoll, r: Result<RollResult, DiceError>) -> bool {
    &&& (match first_wfrp(dice.modifiers@) {
            None => r is Err && err_msg(r) == "Expected WFRP modifier"@,
            Some(t) => r matches Ok(res) && {
                let roll = res.individual_rolls@[0];
                let test = wfrp_spec(t as i32, roll);
                &&& carries_flags(res, dice)
                &&& res.individual_rolls@.len() == 1
                &&& 1 <= roll <= 100
                &&& res.kept_rolls@ == res.individual_rolls@
                &&& res.total == test.success_levels
                &&& notes_of(res) == wfrp_notes(test, t as i32)
                &&& res.successes is None
            },
        })
}

/// `wfrp#`: one d100 against the target, read in Success Levels.
pub fn handle_wfrp_roll(dice: &DiceRoll, rng: &mut DiceRng) -> (r: Result<RollResult, DiceError>)
    ensures
        match first_wfrp(dice.modifiers@) {
            None => r is Err && err_msg(r) == "Expected WFRP modifier"@,
            Some(t) => r matches Ok(res) && {
                let roll = res.individual_rolls@[0];
                let test = wfrp_spec(t as i32, roll);
                &&& carries_flags(res, *dice)
                &&& res.individual_rolls@.len() == 1
                &&& 1 <= roll <= 100
                &&& res.kept_rolls@ == res.individual_rolls@
                &&& res.total == test.success_levels
                &&& notes_of(res) == wfrp_notes(test, t as i32)
                &&& res.successes is None
            },
        },
{
    let target = match find_wfrp(&dice.modifiers) {
        Some(t) => t as i32,
        None => {
            return Err(DiceError::from_str("Expected WFRP modifier"));
        },
    };
    let roll = rng.roll(100);
    let outcome = wfrp_test_outcome(target, roll);
    let notes = outcome.notes(target);
    let mut result = RollResult::from_dice(dice);
    result.individual_rolls = vec![roll];
    result.kept_rolls = vec![roll];
    result.total = outcome.success_levels;
    result.notes = notes;
    Ok(result)
}

/// Mothership readings, best first: a critical success (a double under the
/// stat), a success, a failure, a critical failure (a double over the stat).
pub open spec fn mothership_rank(roll: i32, stat: u32) -> int {
    let double = roll == 100 || roll / 10 == roll % 10;
    let success = roll <= stat as i32;
    if success && double {
        0
    } else if success {
        1
    } else if !double {
        2
    } else {
        3
    }
}

pub fn mothership_category(roll: i32, stat: u32) -> (c: u32)
    requires
        1 <= roll <= 100,
        stat <= 99,
    ensures
        c == mothership_rank(roll, stat),
{
    let double = roll == 100 || roll / 10 == roll % 10;
    let success = roll <= stat as i32;
    if success && double {
        0
    } else if success {
        1
    } else if !double {
        2
    } else {
        3
    }
}

/// The die kept from two: with advantage the better reading (the lower die
/// on a tie of readings), with disadvantage the worse (the higher die).
pub open spec fn mothership_pick(a: i32, b: i32, stat: u32, advantage: bool) -> i32 {
    let ca = mothership_rank(a, stat);
    let cb = mothership_rank(b, stat);
    if advantage {
        if ca < cb { a } else if cb < ca { b } else if a < b { a } else { b }
    } else {
        if ca > cb { a } else if cb > ca { b } else if a > b { a } else { b }
    }
}

pub fn mothership_select(a: i32, b: i32, stat: u32, advantage: bool) -> (r: i32)
    requires
        1 <= a <= 100,
        1 <= b <= 100,
        stat <= 99,
    ensures
        r == mothership_pick(a, b, stat, advantage),
{
    let ca = mothership_category(a, stat);
    let cb = mothership_category(b, stat);
    if advantage {
        if ca < cb { a } else if cb < ca { b } else if a < b { a } else { b }
    } else {
        if ca > cb { a } else if cb > ca { b } else if a > b { a } else { b }
    }
}

/// The name of a Mothership reading.
pub open spec fn category_text(c: u32) -> Seq<char> {
    if c == 0 {
        "crit success"@
    } else if c == 1 {
        "success"@
    } else if c == 2 {
        "failure"@
    } else {
        "crit failure"@
    }
}

fn category_name(c: u32) -> (s: &'static str)
    ensures
        s@ == category_text(c),
{
    if c == 0 {
        "crit success"
    } else if c == 1 {
        "success"
    } else if c == 2 {
        "failure"
    } else {
        "crit failure"
    }
}

/// The stat and the advantage flag of the first `Mothership` modifier.
pub open spec fn first_mothership(mods: Seq<Modifier>) -> Option<(Option<u32>, bool)>
    decreases mods.len(),
{
    if mods.len() == 0 {
        None
    } else {
        match mods[0] {
            Modifier::Mothership(stat, adv) => Some((stat, adv)),
            _ => first_mothership(mods.drop_first()),
        }
    }
}

/// The first `Mothership` modifier.
fn find_mothership(mods: &Vec<Modifier>) -> (r: Option<(Option<u32>, bool)>)
    ensures
        r == first_mothership(mods@),
{
    let mut i: usize = 0;
    assert(mods@.skip(0) =~= mods@);
    while i < mods.len()
        invariant
            i <= mods@.len(),
            first_mothership(mods@.skip(i as int)) == first_mothership(mods@),
        decreases mods.len() - i,
    {
        assert(mods@.skip(i as int).drop_first() =~= mods@.skip(i + 1));
        if let Modifier::Mothership(stat, adv) = &mods[i] {
            return Some((*stat, *adv));
        }
        i = i + 1;
    }
    assert(mods@.skip(i as int) =~= Seq::<Modifier>::empty());
    None
}

/// The stat a Mothership request rolls under: 50 where none is given.
pub open spec fn mothership_stat(stat: Option<u32>) -> u32 {
    match stat {
        Some(s) => s,
        None => 50,
    }
}

/// The reading of the kept Mothership die, as the result states it.
pub open spec fn mothership_verdict(roll: i32, stat: u32) -> Seq<char> {
    let c = mothership_rank(roll, stat);
    if c == 0 {
        "**CRITICAL SUCCESS**"@
    } else if c == 1 {
        "**Success**"@
    } else if c == 2 {
        "**Failure**"@
    } else {
        "**CRITICAL FAILURE**"@
    }
}

/// What a Mothership roll gives for the request `dice`.
pub open spec fn mothership_outcome(dice: DiceRoll, r: Result<RollResult, DiceError>) -> bool {
    &&& (match first_mothership(dice.modifiers@) {
            None => r is Err && err_msg(r) == "Expected Mothership modifier"@,
            Some((st, adv)) => {
                let stat = mothership_stat(st);
                if stat < 1 || stat > 99 {
                    r is Err && err_msg(r) == "Mothership stat must be 1-99, got "@ + int_str(stat as int)
                } else {
                    r matches Ok(res) && {
                        let rolls = res.individual_rolls@;
                        let sel = if dice.count == 2 {
                            mothership_pick(rolls[0], rolls[1], stat, adv)
                        } else {
                            rolls[0]
                        };
                        &&& carries_flags(res, dice)
                        &&& rolls.len() == (if dice.count == 2 { 2int } else { 1int })
                        &&& in_die_range(rolls, 100)
                        &&& res.kept_rolls@ == seq![sel]
                        &&& res.dropped_rolls@ == rolls.filter(|x: i32| x != sel)
                        &&& res.total == sel
                        &&& res.successes == (if sel <= stat { Some(1i32) } else { None })
                        &&& res.failures == (if sel <= stat { None } else { Some(1i32) })
                        &&& notes_of(res).len() >= 2
                        &&& notes_of(res)[1] == mothership_verdict(sel, stat)
                    }
                }
            },
        })
}

/// Mothership: d100 roll-under the stat (50 by default); with two dice the
/// kept die follows advantage or disadvantage.
pub fn handle_mothership_roll(dice: &DiceRoll, rng: &mut DiceRng) -> (r: Result<RollResult, DiceError>)
    ensures
        match first_mothership(dice.modifiers@) {
            None => r is Err && err_msg(r) == "Expected Mothership modifier"@,
            Some((st, adv)) => {
                let stat = mothership_stat(st);
                if stat < 1 || stat > 99 {
                    r is Err && err_msg(r) == "Mothership stat must be 1-99, got "@ + int_str(stat as int)
                } else {
                    r matches Ok(res) && {
                        let rolls = res.individual_rolls@;
                        let sel = if dice.count == 2 {
                            mothership_pick(rolls[0], rolls[1], stat, adv)
                        } else {
                            rolls[0]
                        };
                        &&& carries_flags(res, *dice)
                        &&& rolls.len() == (if dice.count == 2 { 2int } else { 1int })
                        &&& in_die_range(rolls, 100)
                        &&& res.kept_rolls@ == seq![sel]
                        &&& res.dropped_rolls@ == rolls.filter(|x: i32| x != sel)
                        &&& res.total == sel
                        &&& res.successes == (if sel <= stat { Some(1i32) } else { None })
                        &&& res.failures == (if sel <= stat { None } else { Some(1i32) })
                        &&& notes_of(res).len() >= 2
                        &&& notes_of(res)[1] == mothership_verdict(sel, stat)
                    }
                }
            },
        },
{
    let (stat_target, advantage) = match find_mothership(&dice.modifiers) {
        Some(p) => p,
        None => {
            return Err(DiceError::from_str("Expected Mothership modifier"));
        },
    };
    let stat: u32 = match stat_target {
        Some(s) => s,
        None => 50,
    };
    if stat < 1 || stat > 99 {
        let msg = crate::text::cat_nat("Mothership stat must be 1-99, got ", stat as u64, "");
        proof {
            reveal_strlit("");
            assert(msg@ =~= "Mothership stat must be 1-99, got "@ + int_str(stat as int));
        }
        return Err(DiceError::new(msg));
    }
    let num_dice: u32 = if dice.count == 2 { 2 } else { 1 };
    let rolls = roll_pool(rng, num_dice, 100);
    let selected = if rolls.len() == 1 {
        rolls[0]
    } else {
        mothership_select(rolls[0], rolls[1], stat, advantage)
    };
    let selected_category = mothership_category(selected, stat);
    let is_success = selected <= stat as i32;
    let mut dropped: Vec<i32> = Vec::new();
    if rolls[0] != selected {
        dropped.push(rolls[0]);
    }
    if rolls.len() == 2 && rolls[1] != selected {
        dropped.push(rolls[1]);
    }
    proof {
        reveal_with_fuel(Seq::filter, 3);
        assert(rolls@.len() == 2 ==> rolls@.drop_last() =~= seq![rolls@[0]]);
        assert(rolls@.len() == 2 ==> rolls@.drop_last().drop_last() =~= Seq::<i32>::empty());
        assert(rolls@.len() == 1 ==> rolls@.drop_last() =~= Seq::<i32>::empty());
        assert(dropped@ =~= rolls@.filter(|x: i32| x != selected));
    }
    let mut result = RollResult::from_dice(dice);
    result.individual_rolls = rolls.clone();
    result.kept_rolls = vec![selected];
    result.dropped_rolls = dropped;
    result.total = selected;
    result.successes = if is_success { Some(1) } else { None };
    result.failures = if !is_success { Some(1) } else { None };
    if rolls.len() == 2 {
        let mut note = lit(if advantage { "Mothership Advantage roll (target ≤" } else { "Mothership Disadvantage roll (target ≤" });
        push_nat(&mut note, stat as u64);
        note.append("): rolled ");
        push_int(&mut note, rolls[0] as i64);
        note.append(" and ");
        push_int(&mut note, rolls[1] as i64);
        note.append(", selected ");
        push_int(&mut note, selected as i64);
        push_note(&mut result, note);
    } else {
        let mut note = lit("Mothership roll (target ≤");
        push_nat(&mut note, stat as u64);
        note.append("): rolled ");
        push_int(&mut note, selected as i64);
        push_note(&mut result, note);
    }
    let desc = if selected_category == 0 {
        "**CRITICAL SUCCESS**"
    } else if selected_category == 1 {
        "**Success**"
    } else if selected_category == 2 {
        "**Failure**"
    } else {
        "**CRITICAL FAILURE**"
    };
    push_note(&mut result, lit(desc));
    if rolls.len() == 2 && rolls[0] != rolls[1] {
        let c1 = mothership_category(rolls[0], stat);
        let c2 = mothership_category(rolls[1], stat);
        if c1 != c2 {
            let other = if rolls[0] != selected { rolls[0] } else { rolls[1] };
            let mut note = lit("(");
            push_int(&mut note, selected as i64);
            note.append(" chosen: ");
            push_int(&mut note, selected as i64);
            note.append(" ");
            note.append(category_name(selected_category));
            note.append(" > ");
            push_int(&mut note, other as i64);
            note.append(" ");
            note.append(category_name(mothership_category(other, stat)));
            note.append(")");
            push_note(&mut result, note);
        }
    }
    Ok(result)
}


/// The trait die of the first `SavageWorlds` modifier.
pub open spec fn first_savage_worlds(mods: Seq<Modifier>) -> Option<u32>
    decreases mods.len(),
{
    if mods.len() == 0 {
        None
    } else {
        match mods[0] {
            Modifier::SavageWorlds(c) => Some(c),
            _ => first_savage_worlds(mods.drop_first()),
        }
    }
}

fn find_savage_worlds(mods: &Vec<Modifier>) -> (r: Option<u32>)
    ensures
        r == first_savage_worlds(mods@),
{
    let mut i: usize = 0;
    assert(mods@.skip(0) =~= mods@);
    while i < mods.len()
        invariant
            i <= mods@.len(),
            first_savage_worlds(mods@.skip(i as int)) == first_savage_worlds(mods@),
        decreases mods.len() - i,
    {
        assert(mods@.skip(i as int).drop_first() =~= mods@.skip(i + 1));
        if let Modifier::SavageWorlds(c) = &mods[i] {
            return Some(*c);
        }
        i = i + 1;
    }
    assert(mods@.skip(i as int) =~= Seq::<Modifier>::empty());
    None
}

/// The notes of a Savage Worlds roll from its trait dice `tr` (of `t`
/// sides) and wild dice `wr`: snake eyes when both first faces are 1, which
/// die was kept, how often each die aced, and the rule.
pub open spec fn savage_notes(t: int, tr: Seq<i32>, wr: Seq<i32>) -> Seq<Seq<char>> {
    let tt = wsum(tr);
    let wt = wsum(wr);
    let kept = if tt > wt {
        "Trait die (d"@ + nat_str(t as nat) + ") kept: "@ + int_str(tt as int) + " beats Wild die (d6): "@ + int_str(
            wt as int,
        )
    } else if wt > tt {
        "Wild die (d6) kept: "@ + int_str(wt as int) + " beats Trait die (d"@ + nat_str(t as nat) + "): "@ + int_str(
            tt as int,
        )
    } else {
        "Tie: both Trait die (d"@ + nat_str(t as nat) + ") and Wild die (d6) rolled "@ + int_str(tt as int)
    };
    (if tr[0] == 1 && wr[0] == 1 { seq!["🐍 **SNAKE EYES!** Critical Failure - both dice rolled 1"@] } else { seq![] })
        + seq![kept] + (if tr.len() > 1 {
        seq!["Trait die exploded "@ + nat_str((tr.len() - 1) as nat) + " times"@]
    } else {
        seq![]
    }) + (if wr.len() > 1 { seq!["Wild die exploded "@ + nat_str((wr.len() - 1) as nat) + " times"@] } else { seq![] })
        + seq!["Savage Worlds: Trait die + Wild die, keep highest"@]
}

/// The snake-eyes note is among a Savage Worlds roll's notes exactly when
/// the trait die and the wild die both first show 1.
pub proof fn law_savage_snake_eyes(t: int, tr: Seq<i32>, wr: Seq<i32>)
    requires
        tr.len() >= 1,
        wr.len() >= 1,
    ensures
        savage_notes(t, tr, wr).contains("🐍 **SNAKE EYES!** Critical Failure - both dice rolled 1"@)
            <==> (tr[0] == 1 && wr[0] == 1),
{
    let snake = "🐍 **SNAKE EYES!** Critical Failure - both dice rolled 1"@;
    reveal_strlit("🐍 **SNAKE EYES!** Critical Failure - both dice rolled 1");
    reveal_strlit("Trait die (d");
    reveal_strlit("Wild die (d6) kept: ");
    reveal_strlit("Tie: both Trait die (d");
    reveal_strlit("Trait die exploded ");
    reveal_strlit("Wild die exploded ");
    reveal_strlit("Savage Worlds: Trait die + Wild die, keep highest");
    let ns = savage_notes(t, tr, wr);
    let lead: int = if tr[0] == 1 && wr[0] == 1 { 1 } else { 0 };
    assert forall|i: int| lead <= i < ns.len() implies #[trigger] ns[i][0] != snake[0] by {}
    if lead == 1 {
        assert(ns[0] == snake);
    } else if ns.contains(snake) {
        let i = choose|i: int| 0 <= i < ns.len() && ns[i] == snake;
        assert(ns[i][0] == snake[0]);
    }
}

/// What a Savage Worlds roll gives for the request `dice`.
pub open spec fn savage_worlds_outcome(dice: DiceRoll, r: Result<RollResult, DiceError>) -> bool {
    &&& (first_savage_worlds(dice.modifiers@) is None ==> r is Err && err_msg(r) == "Expected Savage Worlds modifier"@)
    &&& (first_savage_worlds(dice.modifiers@) matches Some(t) ==> if t < 1 || t > i32::MAX {
            r is Err && err_msg(r) == "Cannot roll dice with "@ + int_str(t as int) + " sides"@
        } else {
            has_zero_divisor(dice.modifiers@) <==> r is Err
        })
    &&& (r matches Ok(res) ==> {
            &&& in_die_range(res.dice_groups@[0].rolls@, first_savage_worlds(dice.modifiers@)->Some_0 as int)
            &&& carries_flags(res, dice)
            &&& res.kept_rolls@.len() == 1
            &&& res.total == fold_arith(dice.modifiers@, res.kept_rolls@[0])
            &&& res.dice_groups@.len() == 2
            &&& res.kept_rolls@[0] == (if wsum(res.dice_groups@[0].rolls@) >= wsum(res.dice_groups@[1].rolls@) {
                wsum(res.dice_groups@[0].rolls@)
            } else {
                wsum(res.dice_groups@[1].rolls@)
            })
            &&& res.individual_rolls@ == res.dice_groups@[0].rolls@ + res.dice_groups@[1].rolls@
            &&& in_die_range(res.dice_groups@[1].rolls@, 6)
            &&& aced(res.dice_groups@[0].rolls@, first_savage_worlds(dice.modifiers@)->Some_0 as int)
            &&& aced(res.dice_groups@[1].rolls@, 6)
            &&& notes_of(res) == savage_notes(
                first_savage_worlds(dice.modifiers@)->Some_0 as int,
                res.dice_groups@[0].rolls@,
                res.dice_groups@[1].rolls@,
            )
        })
}

/// Savage Worlds: an exploding trait die and an exploding wild d6; the higher
/// total is kept, then the arithmetic modifiers apply.
pub fn handle_savage_worlds_roll(dice: &DiceRoll, rng: &mut DiceRng) -> (r: Result<RollResult, DiceError>)
    ensures
        first_savage_worlds(dice.modifiers@) is None ==> r is Err && err_msg(r) == "Expected Savage Worlds modifier"@,
        first_savage_worlds(dice.modifiers@) matches Some(t) ==> if t < 1 || t > i32::MAX {
            r is Err && err_msg(r) == "Cannot roll dice with "@ + int_str(t as int) + " sides"@
        } else {
            has_zero_divisor(dice.modifiers@) <==> r is Err
        },
        r matches Ok(res) ==> {
            &&& in_die_range(res.dice_groups@[0].rolls@, first_savage_worlds(dice.modifiers@)->Some_0 as int)
            &&& carries_flags(res, *dice)
            &&& res.kept_rolls@.len() == 1
            &&& res.total == fold_arith(dice.modifiers@, res.kept_rolls@[0])
            &&& res.dice_groups@.len() == 2
            &&& res.kept_rolls@[0] == (if wsum(res.dice_groups@[0].rolls@) >= wsum(res.dice_groups@[1].rolls@) {
                wsum(res.dice_groups@[0].rolls@)
            } else {
                wsum(res.dice_groups@[1].rolls@)
            })
            &&& res.individual_rolls@ == res.dice_groups@[0].rolls@ + res.dice_groups@[1].rolls@
            &&& in_die_range(res.dice_groups@[1].rolls@, 6)
            &&& aced(res.dice_groups@[0].rolls@, first_savage_worlds(dice.modifiers@)->Some_0 as int)
            &&& aced(res.dice_groups@[1].rolls@, 6)
            &&& notes_of(res) == savage_notes(
                first_savage_worlds(dice.modifiers@)->Some_0 as int,
                res.dice_groups@[0].rolls@,
                res.dice_groups@[1].rolls@,
            )
        },
{
    let trait_sides = match find_savage_worlds(&dice.modifiers) {
        Some(c) => c,
        None => {
            return Err(DiceError::from_str("Expected Savage Worlds modifier"));
        },
    };
    if trait_sides < 1 || trait_sides > i32::MAX as u32 {
        let msg = crate::text::cat_nat("Cannot roll dice with ", trait_sides as u64, " sides");
        return Err(DiceError::new(msg));
    }
    let (trait_rolls, trait_total, trait_explosions) = roll_exploding_die(rng, trait_sides as i32);
    let (wild_rolls, wild_total, wild_explosions) = roll_exploding_die(rng, 6);
    let trait_natural = trait_rolls[0];
    let wild_natural = wild_rolls[0];
    let mut result = RollResult::from_dice(dice);
    let mut desc = lit("1d");
    push_nat(&mut desc, trait_sides as u64);
    desc.append(" ie");
    push_nat(&mut desc, trait_sides as u64);
    push_dice_group(&mut result, desc, trait_rolls.clone(), "trait");
    push_dice_group(&mut result, lit("1d6 ie6"), wild_rolls.clone(), "wild");
    let mut all = trait_rolls.clone();
    let mut w = wild_rolls.clone();
    all.append(&mut w);
    result.individual_rolls = all;
    let base = if trait_total >= wild_total { trait_total } else { wild_total };
    result.kept_rolls = vec![base];
    result.total = base;
    apply_arithmetic_modifiers(&dice.modifiers, &mut result.total)?;
    proof {
        reveal_strlit("🐍 **SNAKE EYES!** Critical Failure - both dice rolled 1");
        reveal_strlit("Trait die (d");
        reveal_strlit("Wild die (d6) kept: ");
        reveal_strlit("Tie: both Trait die (d");
    }
    if trait_natural == 1 && wild_natural == 1 {
        push_note(&mut result, lit("🐍 **SNAKE EYES!** Critical Failure - both dice rolled 1"));
    }
    if trait_total > wild_total {
        let mut note = lit("Trait die (d");
        push_nat(&mut note, trait_sides as u64);
        note.append(") kept: ");
        push_int(&mut note, trait_total as i64);
        note.append(" beats Wild die (d6): ");
        push_int(&mut note, wild_total as i64);
        push_note(&mut result, note);
    } else if wild_total > trait_total {
        let mut note = lit("Wild die (d6) kept: ");
        push_int(&mut note, wild_total as i64);
        note.append(" beats Trait die (d");
        push_nat(&mut note, trait_sides as u64);
        note.append("): ");
        push_int(&mut note, trait_total as i64);
        push_note(&mut result, note);
    } else {
        let mut note = lit("Tie: both Trait die (d");
        push_nat(&mut note, trait_sides as u64);
        note.append(") and Wild die (d6) rolled ");
        push_int(&mut note, trait_total as i64);
        push_note(&mut result, note);
    }
    if trait_explosions > 0 {
        push_note(&mut result, cat_nat("Trait die exploded ", trait_explosions as u64, " times"));
    }
    if wild_explosions > 0 {
        push_note(&mut result, cat_nat("Wild die exploded ", wild_explosions as u64, " times"));
    }
    push_note(&mut result, lit("Savage Worlds: Trait die + Wild die, keep highest"));
    proof {
        reveal_strlit(") kept: ");
        reveal_strlit(" beats Wild die (d6): ");
        reveal_strlit(" beats Trait die (d");
        reveal_strlit("): ");
        reveal_strlit(") and Wild die (d6) rolled ");
        assert(notes_of(result) =~= savage_notes(trait_sides as int, trait_rolls@, wild_rolls@));
    }
    Ok(result)
}

/// The dice count and pips text of the first `D6System` modifier.
pub open spec fn first_d6_system(mods: Seq<Modifier>) -> Option<(u32, Seq<char>)>
    decreases mods.len(),
{
    if mods.len() == 0 {
        None
    } else {
        match mods[0] {
            Modifier::D6System(c, pips) => Some((c, pips@)),
            _ => first_d6_system(mods.drop_first()),
        }
    }
}

fn find_d6_system(mods: &Vec<Modifier>) -> (r: Option<(u32, String)>)
    ensures
        r matches Some((c, p)) ==> first_d6_system(mods@) == Some((c, p@)),
        r is None ==> first_d6_system(mods@) is None,
{
    let mut i: usize = 0;
    assert(mods@.skip(0) =~= mods@);
    while i < mods.len()
        invariant
            i <= mods@.len(),
            first_d6_system(mods@.skip(i as int)) == first_d6_system(mods@),
        decreases mods.len() - i,
    {
        assert(mods@.skip(i as int).drop_first() =~= mods@.skip(i + 1));
        if let Modifier::D6System(c, pips) = &mods[i] {
            return Some((*c, pips.clone()));
        }
        i = i + 1;
    }
    assert(mods@.skip(i as int) =~= Seq::<Modifier>::empty());
    None
}

/// The pips of a D6 System code as a number: 0 where the text is none.
pub open spec fn pips_value(pips: Seq<char>) -> i32 {
    match crate::text::parse_i32(pips) {
        Some(v) => v,
        None => 0,
    }
}

/// What a D6 System roll gives for the request `dice`.
pub open spec fn d6_system_outcome(dice: DiceRoll, r: Result<RollResult, DiceError>) -> bool {
    &&& (match first_d6_system(dice.modifiers@) {
            None => r is Err && err_msg(r) == "Expected D6 System modifier"@,
            Some((count, pips)) => if has_zero_divisor(dice.modifiers@) {
                r is Err
            } else {
                r matches Ok(res) && {
                    let base = res.dice_groups@[0].rolls@;
                    let wild = res.dice_groups@[1].rolls@;
                    &&& carries_flags(res, dice)
                    &&& res.dice_groups@.len() == 2
                    &&& base.len() == count
                    &&& in_die_range(base, 6)
                    &&& in_die_range(wild, 6)
                    &&& 1 <= wild.len() <= 101
                    &&& forall|i: int| 0 <= i < wild.len() - 1 ==> #[trigger] wild[i] == 6
                    &&& res.individual_rolls@ == base + wild
                    &&& res.kept_rolls@ == res.individual_rolls@
                    &&& res.total == fold_arith(
                        dice.modifiers@,
                        wsum(base).wrapping_add(wsum(wild)).wrapping_add(pips_value(pips)),
                    )
                }
            },
        })
}

/// D6 System: `count`d6 plus an exploding wild d6, plus pips and modifiers.
pub fn handle_d6_system_roll(dice: &DiceRoll, rng: &mut DiceRng) -> (r: Result<RollResult, DiceError>)
    ensures
        match first_d6_system(dice.modifiers@) {
            None => r is Err && err_msg(r) == "Expected D6 System modifier"@,
            Some((count, pips)) => if has_zero_divisor(dice.modifiers@) {
                r is Err
            } else {
                r matches Ok(res) && {
                    let base = res.dice_groups@[0].rolls@;
                    let wild = res.dice_groups@[1].rolls@;
                    &&& carries_flags(res, *dice)
                    &&& res.dice_groups@.len() == 2
                    &&& base.len() == count
                    &&& in_die_range(base, 6)
                    &&& in_die_range(wild, 6)
                    &&& 1 <= wild.len() <= 101
                    &&& forall|i: int| 0 <= i < wild.len() - 1 ==> #[trigger] wild[i] == 6
                    &&& res.individual_rolls@ == base + wild
                    &&& res.kept_rolls@ == res.individual_rolls@
                    &&& res.total == fold_arith(
                        dice.modifiers@,
                        wsum(base).wrapping_add(wsum(wild)).wrapping_add(pips_value(pips)),
                    )
                }
            },
        },
{
    let (count, pips) = match find_d6_system(&dice.modifiers) {
        Some(p) => p,
        None => {
            return Err(DiceError::from_str("Expected D6 System modifier"));
        },
    };
    let base_rolls = roll_pool(rng, count, 6);
    let base_total = sum_rolls(&base_rolls);
    let (wild_rolls, wild_total, wild_explosions) = roll_exploding_die(rng, 6);
    let mut result = RollResult::from_dice(dice);
    push_dice_group(&mut result, nat_then(count as u64, "d6"), base_rolls.clone(), "base");
    push_dice_group(&mut result, lit("1d6 ie6"), wild_rolls.clone(), "add");
    let mut all = base_rolls.clone();
    let mut w = wild_rolls.clone();
    all.append(&mut w);
    result.individual_rolls = all;
    result.kept_rolls = result.individual_rolls.clone();
    let dice_total = base_total.wrapping_add(wild_total);
    let pips_chars = crate::text::str_chars(pips.as_str());
    let pips_modifier: i32 = match crate::text::parse_i32_chars(pips_chars.as_slice()) {
        Some(v) => v,
        None => 0,
    };
    result.total = dice_total.wrapping_add(pips_modifier);
    apply_arithmetic_modifiers(&dice.modifiers, &mut result.total)?;
    if wild_explosions > 0 {
        push_note(&mut result, cat_nat("Wild die exploded ", wild_explosions as u64, " times"));
    }
    if pips_modifier != 0 {
        if pips_modifier > 0 {
            push_note(&mut result, crate::text::lit_int("Pips modifier: +", pips_modifier as i64));
        } else {
            push_note(&mut result, crate::text::lit_int("Pips modifier: ", pips_modifier as i64));
        }
    }
    push_note(&mut result, cat_nat("D6 System: ", count as u64, "d6 + 1d6 exploding wild die"));
    Ok(result)
}

/// Whether the modifiers name Brave New World.
fn has_brave_new_world(mods: &Vec<Modifier>) -> (b: bool)
    ensures
        b == exists|i: int| 0 <= i < mods@.len() && #[trigger] mods@[i] is BraveNewWorld,
{
    let mut i: usize = 0;
    while i < mods.len()
        invariant
            i <= mods@.len(),
            forall|j: int| 0 <= j < i ==> !(#[trigger] mods@[j] is BraveNewWorld),
        decreases mods.len() - i,
    {
        if let Modifier::BraveNewWorld(_) = &mods[i] {
            return true;
        }
        i = i + 1;
    }
    false
}

/// No die of `s` lies in `[lo, hi]`: none is counted.
proof fn lemma_count_none(s: Seq<i32>, lo: int, hi: int)
    requires
        forall|j: int| 0 <= j < s.len() ==> !(lo <= #[trigger] s[j] <= hi),
    ensures
        count_in_range(s, lo, hi) == 0,
    decreases s.len(),
{
    if s.len() > 0 {
        assert forall|j: int| 0 <= j < s.drop_last().len() implies !(lo <= #[trigger] s.drop_last()[j] <= hi) by {
            assert(s.drop_last()[j] == s[j]);
        }
        lemma_count_none(s.drop_last(), lo, hi);
    }
}

/// The highest result of a Brave New World pool, 1 when there is none.
pub open spec fn bnw_highest(s: Seq<i32>) -> i32 {
    if s.len() == 0 {
        1
    } else {
        seq_max(s)
    }
}

/// The notes of a Brave New World roll of `pool` dice: the disaster, how
/// many dice exploded, and the pool's reading.
pub open spec fn bnw_notes(pool: nat, disaster: bool, exploded: nat, highest: i32) -> Seq<Seq<char>> {
    (if disaster { seq!["Disaster! Majority of dice rolled 1s - automatic failure"@] } else { seq![] }) + (if exploded
        > 0 {
        seq![int_str(exploded as int) + " dice exploded on 6s"@]
    } else {
        seq![]
    }) + seq![
        "Brave New World: "@ + nat_str(pool) + "-die pool, highest result: "@ + int_str(
            if disaster { 0 } else { highest as int },
        ),
    ]
}

/// What a Brave New World roll gives for the request `dice`.
pub open spec fn brave_new_world_outcome(dice: DiceRoll, r: Result<RollResult, DiceError>) -> bool {
    &&& (!(exists|i: int| 0 <= i < dice.modifiers@.len() && #[trigger] dice.modifiers@[i] is BraveNewWorld)
            ==> r is Err && err_msg(r) == "Expected Brave New World modifier"@)
    &&& ((exists|i: int| 0 <= i < dice.modifiers@.len() && #[trigger] dice.modifiers@[i] is BraveNewWorld)
            ==> (has_zero_divisor(dice.modifiers@) <==> r is Err))
    &&& (r matches Ok(res) ==> {
            let all = res.individual_rolls@;
            let n = dice.count as int;
            let extra = all.skip(n);
            let ones = count_in_range(all.take(n), 1, 1);
            let disaster = dice.count >= 4 && ones > dice.count / 2;
            &&& carries_flags(res, dice)
            &&& all.len() >= n
            &&& in_die_range(all.take(n), 6)
            &&& extra.len() <= 100
            &&& forall|j: int| 0 <= j < extra.len() ==> 7 <= #[trigger] extra[j] <= 12
            &&& extra.len() < 100 ==> extra.len() == count_in_range(all.take(n), 6, 6)
            &&& res.kept_rolls@ == seq![bnw_highest(all)]
            &&& res.total == fold_arith(dice.modifiers@, if disaster { 0 } else { bnw_highest(all) })
            &&& notes_of(res) == bnw_notes(dice.count as nat, disaster, extra.len(), bnw_highest(all))
        })
}

/// Brave New World: a pool of d6s; each 6 adds one more result, 6 plus a
/// d6 (at most 100 such); the highest result is kept; a majority of 1s in a
/// pool of four or more is a disaster worth 0.
pub fn handle_brave_new_world_roll(dice: &DiceRoll, rng: &mut DiceRng) -> (r: Result<RollResult, DiceError>)
    ensures
        !(exists|i: int| 0 <= i < dice.modifiers@.len() && #[trigger] dice.modifiers@[i] is BraveNewWorld)
            ==> r is Err && err_msg(r) == "Expected Brave New World modifier"@,
        (exists|i: int| 0 <= i < dice.modifiers@.len() && #[trigger] dice.modifiers@[i] is BraveNewWorld)
            ==> (has_zero_divisor(dice.modifiers@) <==> r is Err),
        r matches Ok(res) ==> {
            let all = res.individual_rolls@;
            let n = dice.count as int;
            let extra = all.skip(n);
            let ones = count_in_range(all.take(n), 1, 1);
            let disaster = dice.count >= 4 && ones > dice.count / 2;
            &&& carries_flags(res, *dice)
            &&& all.len() >= n
            &&& in_die_range(all.take(n), 6)
            &&& extra.len() <= 100
            &&& forall|j: int| 0 <= j < extra.len() ==> 7 <= #[trigger] extra[j] <= 12
            &&& extra.len() < 100 ==> extra.len() == count_in_range(all.take(n), 6, 6)
            &&& res.kept_rolls@ == seq![bnw_highest(all)]
            &&& res.total == fold_arith(dice.modifiers@, if disaster { 0 } else { bnw_highest(all) })
            &&& notes_of(res) == bnw_notes(dice.count as nat, disaster, extra.len(), bnw_highest(all))
        },
{
    if !has_brave_new_world(&dice.modifiers) {
        return Err(DiceError::from_str("Expected Brave New World modifier"));
    }
    let pool_size = dice.count;
    let mut all_results = roll_pool(rng, pool_size, 6);
    let ghost first = all_results@;
    let mut explosion_count: u32 = 0;
    let mut i: usize = 0;
    while i < all_results.len() && explosion_count < 100
        invariant
            all_results@.len() == pool_size + explosion_count,
            all_results@.take(pool_size as int) == first,
            first.len() == pool_size,
            in_die_range(first, 6),
            explosion_count <= 100,
            i <= all_results@.len(),
            forall|j: int| pool_size <= j < all_results@.len() ==> 7 <= #[trigger] all_results@[j] <= 12,
            explosion_count == count_in_range(all_results@.take(i as int), 6, 6),
        decreases 100 - explosion_count, all_results@.len() - i,
    {
        let ghost before = all_results@;
        assert(before.take(i + 1).drop_last() =~= before.take(i as int));
        assert(pool_size <= i ==> 7 <= before[i as int] <= 12);
        assert(i < pool_size ==> before[i as int] == first[i as int]);
        if all_results[i] == 6 {
            let explosion = rng.roll(6);
            all_results.push(6 + explosion);
            assert(all_results@.take(pool_size as int) =~= before.take(pool_size as int));
            assert(all_results@.take(i + 1) =~= before.take(i + 1));
            explosion_count = explosion_count + 1;
        }
        i = i + 1;
    }
    proof {
        let all = all_results@;
        let extra = all.skip(pool_size as int);
        assert(all =~= first + extra);
        assert forall|j: int| 0 <= j < extra.len() implies 7 <= #[trigger] extra[j] <= 12 by {
            assert(extra[j] == all[pool_size + j]);
        }
        if explosion_count < 100 {
            assert(all.take(i as int) =~= all);
            lemma_count_none(extra, 6, 6);
            crate::dice::systems::lemma_count_concat(first, extra, 6, 6);
        }
    }
    let originals = crate::dice::pool_slice(&all_results, 0, pool_size as usize);
    assert(originals@ =~= all_results@.take(pool_size as int));
    let ones = count_in(&originals, 1, 1);
    let is_disaster = pool_size >= 4 && ones > (pool_size / 2) as usize;
    let highest = if all_results.len() == 0 { 1 } else { max_of(&all_results) };
    let mut result = RollResult::from_dice(dice);
    result.individual_rolls = all_results.clone();
    result.kept_rolls = vec![highest];
    result.total = highest;
    push_dice_group(&mut result, nat_then(pool_size as u64, "d6 bnw"), all_results, "base");
    if is_disaster {
        push_note(&mut result, lit("Disaster! Majority of dice rolled 1s - automatic failure"));
        result.total = 0;
    }
    if explosion_count > 0 {
        push_note(&mut result, nat_then(explosion_count as u64, " dice exploded on 6s"));
    }
    let mut note = lit("Brave New World: ");
    push_nat(&mut note, pool_size as u64);
    note.append("-die pool, highest result: ");
    push_int(&mut note, if is_disaster { 0 } else { highest as i64 });
    push_note(&mut result, note);
    proof {
        assert(notes_of(result) =~= bnw_notes(
            pool_size as nat,
            is_disaster,
            explosion_count as nat,
            bnw_highest(result.individual_rolls@),
        ));
    }
    apply_arithmetic_modifiers(&dice.modifiers, &mut result.total)?;
    Ok(result)
}


/// Edges and troubles of the first `MarvelMultiverse` modifier; none where
/// there is no such modifier.
pub open spec fn first_marvel(mods: Seq<Modifier>) -> (i32, i32)
    decreases mods.len(),
{
    if mods.len() == 0 {
        (0, 0)
    } else {
        match mods[0] {
            Modifier::MarvelMultiverse(e, t) => (e, t),
            _ => first_marvel(mods.drop_first()),
        }
    }
}

fn find_marvel(mods: &Vec<Modifier>) -> (r: (i32, i32))
    ensures
        r == first_marvel(mods@),
{
    let mut i: usize = 0;
    assert(mods@.skip(0) =~= mods@);
    while i < mods.len()
        invariant
            i <= mods@.len(),
            first_marvel(mods@.skip(i as int)) == first_marvel(mods@),
        decreases mods.len() - i,
    {
        assert(mods@.skip(i as int).drop_first() =~= mods@.skip(i + 1));
        if let Modifier::MarvelMultiverse(e, t) = &mods[i] {
            return (*e, *t);
        }
        i = i + 1;
    }
    assert(mods@.skip(i as int) =~= Seq::<Modifier>::empty());
    (0, 0)
}

/// The texts of a list of strings.
pub open spec fn texts(v: Seq<String>) -> Seq<Seq<char>> {
    v.map_values(|d: String| d@)
}

/// `#1: a, #2: b, ...`: the reroll details numbered from 1.
pub open spec fn numbered_details(ds: Seq<Seq<char>>) -> Seq<char>
    decreases ds.len(),
{
    if ds.len() == 0 {
        seq![]
    } else if ds.len() == 1 {
        "#1: "@ + ds[0]
    } else {
        numbered_details(ds.drop_last()) + ", #"@ + nat_str(ds.len()) + ": "@ + ds.last()
    }
}

/// The note of a batch of `count` edge or trouble rerolls.
pub open spec fn marvel_reroll_note(kind: Seq<char>, count: int, ds: Seq<Seq<char>>) -> Seq<char> {
    if count == 1 {
        kind + " 1: Rerolled "@ + ds[0]
    } else {
        kind + " rerolls: "@ + numbered_details(ds)
    }
}

/// One note for a batch of edge or trouble rerolls.
pub fn push_marvel_reroll_note(result: &mut RollResult, kind: &str, count: i32, details: &Vec<String>)
    requires
        details@.len() >= 1,
    ensures
        notes_of(*final(result)) == notes_of(*old(result)).push(marvel_reroll_note(kind@, count as int, texts(details@))),
        *final(result) == (RollResult { notes: final(result).notes, ..*old(result) }),
{
    let ghost ds = texts(details@);
    let mut note = lit(kind);
    if count == 1 {
        note.append(" 1: Rerolled ");
        note.append(details[0].as_str());
    } else {
        note.append(" rerolls: ");
        let ghost head = note@;
        let mut i: usize = 0;
        while i < details.len()
            invariant
                i <= details@.len(),
                ds == texts(details@),
                head == kind@ + " rerolls: "@,
                note@ == head + numbered_details(ds.take(i as int)),
            decreases details.len() - i,
        {
            let ghost before = note@;
            if i > 0 {
                note.append(", ");
            }
            note.append("#");
            push_nat(&mut note, (i + 1) as u64);
            note.append(": ");
            note.append(details[i].as_str());
            proof {
                let t = ds.take(i + 1);
                assert(t.drop_last() =~= ds.take(i as int));
                assert(t.last() == details@[i as int]@);
                if i == 0 {
                    reveal_strlit("#1: ");
                    reveal_strlit("#");
                    reveal_strlit(": ");
                    assert(nat_str(1) =~= seq!['1']);
                    assert(numbered_details(ds.take(0)) =~= Seq::<char>::empty());
                    assert(note@ =~= head + numbered_details(t));
                } else {
                    reveal_strlit(", #");
                    reveal_strlit(", ");
                    reveal_strlit("#");
                    assert(note@ =~= head + numbered_details(t));
                }
            }
            i = i + 1;
        }
        assert(ds.take(details@.len() as int) =~= ds);
    }
    push_note(result, note);
}

/// Index of the lowest (the first on ties) or the highest (the last on ties)
/// of three dice.
fn pick_index(v: &Vec<i32>, lowest: bool) -> (k: usize)
    requires
        v@.len() == 3,
    ensures
        k < 3,
        forall|j: int| 0 <= j < 3 ==> if lowest { v@[k as int] <= v@[j] } else { v@[k as int] >= v@[j] },
        lowest ==> forall|j: int| 0 <= j < k ==> v@[j] > v@[k as int],
        !lowest ==> forall|j: int| k < j < 3 ==> v@[j] < v@[k as int],
{
    let mut k: usize = 0;
    let mut j: usize = 1;
    while j < 3
        invariant
            v@.len() == 3,
            k < j <= 3,
            forall|m: int| 0 <= m < j ==> if lowest { v@[k as int] <= v@[m] } else { v@[k as int] >= v@[m] },
            lowest ==> forall|m: int| 0 <= m < k ==> v@[m] > v@[k as int],
            !lowest ==> forall|m: int| k < m < j ==> v@[m] < v@[k as int],
        decreases 3 - j,
    {
        if (lowest && v[j] < v[k]) || (!lowest && v[j] >= v[k]) {
            k = j;
        }
        j = j + 1;
    }
    k
}

/// `a → b`, with `(kept a)` when the reroll was not taken.
fn reroll_detail(from: i32, to: i32, taken: bool) -> (s: String)
    ensures
        s@ == int_str(from as int) + " → "@ + int_str(to as int) + if taken {
            Seq::<char>::empty()
        } else {
            " (kept "@ + int_str(from as int) + ")"@
        },
{
    let mut s = crate::text::int_to_string(from as i64);
    s.append(" → ");
    push_int(&mut s, to as i64);
    if !taken {
        s.append(" (kept ");
        push_int(&mut s, from as i64);
        s.append(")");
    }
    s
}

/// Which of three dice an edge rerolls (the lowest, the first on ties) or a
/// trouble rerolls (the highest, the last on ties).
pub open spec fn marvel_pick(f: Seq<i32>, lowest: bool) -> int {
    if lowest {
        if f[0] <= f[1] && f[0] <= f[2] {
            0
        } else if f[1] <= f[2] {
            1
        } else {
            2
        }
    } else {
        if f[2] >= f[0] && f[2] >= f[1] {
            2
        } else if f[1] >= f[0] {
            1
        } else {
            0
        }
    }
}

/// Whether the die `x` rolled for an edge (keep the better) or a trouble
/// (keep the worse) replaces the picked die.
pub open spec fn marvel_taken(f: Seq<i32>, x: i32, edge: bool) -> bool {
    let from = f[marvel_pick(f, edge)];
    (edge && x > from) || (!edge && x < from)
}

/// The dice after one edge or trouble reroll that rolled `x`.
pub open spec fn marvel_reroll(f: Seq<i32>, x: i32, edge: bool) -> Seq<i32> {
    if marvel_taken(f, x, edge) {
        f.update(marvel_pick(f, edge), x)
    } else {
        f
    }
}

/// The detail noted for one edge or trouble reroll that rolled `x`.
pub open spec fn marvel_detail(f: Seq<i32>, x: i32, edge: bool) -> Seq<char> {
    let from = f[marvel_pick(f, edge)];
    int_str(from as int) + " → "@ + int_str(x as int) + if marvel_taken(f, x, edge) {
        Seq::<char>::empty()
    } else {
        " (kept "@ + int_str(from as int) + ")"@
    }
}

/// The dice after edge or trouble rerolls that rolled `xs`, in order.
pub open spec fn marvel_rerolls(f: Seq<i32>, xs: Seq<i32>, edge: bool) -> Seq<i32>
    decreases xs.len(),
{
    if xs.len() == 0 {
        f
    } else {
        marvel_reroll(marvel_rerolls(f, xs.drop_last(), edge), xs.last(), edge)
    }
}

/// The details noted for edge or trouble rerolls that rolled `xs`.
pub open spec fn marvel_details(f: Seq<i32>, xs: Seq<i32>, edge: bool) -> Seq<Seq<char>>
    decreases xs.len(),
{
    if xs.len() == 0 {
        seq![]
    } else {
        marvel_details(f, xs.drop_last(), edge).push(
            marvel_detail(marvel_rerolls(f, xs.drop_last(), edge), xs.last(), edge),
        )
    }
}

/// The notes of a Marvel Multiverse roll: the Fantastic note when the Marvel
/// die shows its logo, the counts of edges and troubles, then one note for
/// the edge rerolls and one for the trouble rerolls, each with its details.
#[verifier::opaque]
pub open spec fn marvel_notes(
    fantastic: bool,
    edges: i32,
    troubles: i32,
    start: Seq<i32>,
    ed: Seq<i32>,
    td: Seq<i32>,
) -> Seq<Seq<char>> {
    let mid = marvel_rerolls(start, ed, true);
    (if fantastic { seq!["Fantastic! Marvel die rolled Marvel symbol, counts as 6"@] } else { seq![] })
        + (if edges > 0 { seq![int_str(edges as int) + if edges == 1 { " edge"@ } else { " edges"@ }] } else { seq![] })
        + (if troubles > 0 {
        seq![int_str(troubles as int) + if troubles == 1 { " trouble"@ } else { " troubles"@ }]
    } else {
        seq![]
    }) + (if edges > 0 { seq![marvel_reroll_note("Edge"@, edges as int, marvel_details(start, ed, true))] } else { seq![] })
        + (if troubles > 0 {
        seq![marvel_reroll_note("Trouble"@, troubles as int, marvel_details(mid, td, false))]
    } else {
        seq![]
    })
}

/// The dice drawn for the edges (`ed`) and troubles (`td`) of a Marvel
/// Multiverse roll, and what they did: one die per edge and per trouble,
/// each from 1 to 6; the dice end on `f`; the notes are the roll's notes.
pub open spec fn marvel_draws(res: RollResult, mods: Seq<Modifier>, f: Seq<i32>, ed: Seq<i32>, td: Seq<i32>) -> bool {
    let ir = res.individual_rolls@;
    let fantastic = ir[1] == 1;
    let start = ir.update(1, if fantastic { 6i32 } else { ir[1] });
    let edges = first_marvel(mods).0;
    let troubles = first_marvel(mods).1;
    &&& ed.len() == (if edges > 0 { edges as int } else { 0 })
    &&& td.len() == (if troubles > 0 { troubles as int } else { 0 })
    &&& in_die_range(ed, 6)
    &&& in_die_range(td, 6)
    &&& f == marvel_rerolls(marvel_rerolls(start, ed, true), td, false)
    &&& notes_of(res) == marvel_notes(fantastic, edges, troubles, start, ed, td)
}

/// The Fantastic note is among a Marvel Multiverse roll's notes exactly when
/// the Marvel die shows its logo.
pub proof fn law_marvel_fantastic_note(res: RollResult, mods: Seq<Modifier>, f: Seq<i32>, ed: Seq<i32>, td: Seq<i32>)
    requires
        marvel_draws(res, mods, f, ed, td),
        res.individual_rolls@.len() == 3,
    ensures
        notes_of(res).contains("Fantastic! Marvel die rolled Marvel symbol, counts as 6"@)
            <==> res.individual_rolls@[1] == 1,
{
    reveal(marvel_notes);
    let fan = "Fantastic! Marvel die rolled Marvel symbol, counts as 6"@;
    reveal_strlit("Fantastic! Marvel die rolled Marvel symbol, counts as 6");
    reveal_strlit("Edge");
    reveal_strlit("Trouble");
    let ns = notes_of(res);
    let ir = res.individual_rolls@;
    let edges = first_marvel(mods).0;
    let troubles = first_marvel(mods).1;
    let lead: int = if ir[1] == 1 { 1 } else { 0 };
    if edges > 0 {
        crate::text::lemma_nat_str_starts_with_digit(edges as nat);
    }
    if troubles > 0 {
        crate::text::lemma_nat_str_starts_with_digit(troubles as nat);
    }
    assert forall|i: int| lead <= i < ns.len() implies #[trigger] ns[i][0] != 'F' by {
        let ne: int = if edges > 0 { 1 } else { 0 };
        let nt: int = if troubles > 0 { 1 } else { 0 };
        if i < lead + ne {
            assert(is_digit(ns[i][0]));
        } else if i < lead + ne + nt {
            assert(is_digit(ns[i][0]));
        } else if i < lead + ne + nt + ne {
            assert(ns[i][0] == 'E');
        } else {
            assert(ns[i][0] == 'T');
        }
    }
    if ir[1] == 1 {
        assert(ns[0] == fan);
    } else if ns.contains(fan) {
        let i = choose|i: int| 0 <= i < ns.len() && ns[i] == fan;
        assert(ns[i][0] == 'F');
    }
}

/// The three dice a Marvel Multiverse roll ends on, `f`, seen from its
/// result: the Marvel die's logo counts as 6 and is shown as -1, the total is
/// their sum with the modifiers applied, edges never lower a die and troubles
/// never raise one.
pub open spec fn marvel_final(res: RollResult, mods: Seq<Modifier>, f: Seq<i32>) -> bool {
    let ir = res.individual_rolls@;
    let fantastic = ir[1] == 1;
    let start = ir.update(1, if fantastic { 6i32 } else { ir[1] });
    let edges = first_marvel(mods).0;
    let troubles = first_marvel(mods).1;
    &&& f.len() == 3
    &&& in_die_range(f, 6)
    &&& res.dice_groups@.last().rolls@ == f.update(1, if fantastic { -1i32 } else { f[1] })
    &&& res.total == fold_arith(mods, (f[0] + f[1] + f[2]) as i32)
    &&& edges <= 0 && troubles <= 0 ==> f == start
    &&& troubles <= 0 ==> forall|j: int| 0 <= j < 3 ==> #[trigger] f[j] >= start[j]
    &&& edges <= 0 ==> forall|j: int| 0 <= j < 3 ==> #[trigger] f[j] <= start[j]
}

/// What a Marvel Multiverse roll gives for the request `dice`.
pub open spec fn marvel_outcome(dice: DiceRoll, r: Result<RollResult, DiceError>) -> bool {
    &&& (r matches Ok(res) ==> {
            let ir = res.individual_rolls@;
            &&& carries_flags(res, dice)
            &&& ir.len() == 3
            &&& in_die_range(ir, 6)
            &&& res.dice_groups@.len() == 2
            &&& res.dice_groups@[0].rolls@ == ir.update(1, if ir[1] == 1 { -1i32 } else { ir[1] })
            &&& exists|f: Seq<i32>, ed: Seq<i32>, td: Seq<i32>|
                #[trigger] marvel_draws(res, dice.modifiers@, f, ed, td) && marvel_final(res, dice.modifiers@, f)
        })
    &&& (has_zero_divisor(dice.modifiers@) <==> r is Err)
}

/// Marvel Multiverse: 3d6 with the middle die the Marvel die (its 1, the
/// Marvel logo, counts as 6); each edge rerolls the lowest die keeping the
/// better, each trouble rerolls the highest keeping the worse.
#[verifier::rlimit(60)]
#[verifier::spinoff_prover]
pub fn handle_marvel_multiverse_roll(dice: &DiceRoll, rng: &mut DiceRng) -> (r: Result<RollResult, DiceError>)
    ensures
        r matches Ok(res) ==> {
            let ir = res.individual_rolls@;
            &&& carries_flags(res, *dice)
            &&& ir.len() == 3
            &&& in_die_range(ir, 6)
            &&& res.dice_groups@.len() == 2
            &&& res.dice_groups@[0].rolls@ == ir.update(1, if ir[1] == 1 { -1i32 } else { ir[1] })
            &&& exists|f: Seq<i32>, ed: Seq<i32>, td: Seq<i32>|
                #[trigger] marvel_draws(res, dice.modifiers@, f, ed, td) && marvel_final(res, dice.modifiers@, f)
        },
        has_zero_divisor(dice.modifiers@) <==> r is Err,
{
    let (edges, troubles) = find_marvel(&dice.modifiers);
    let regular_die_1 = rng.roll(6);
    let marvel_die0 = rng.roll(6);
    let regular_die_2 = rng.roll(6);
    let is_fantastic = marvel_die0 == 1;
    let mut result = RollResult::from_dice(dice);
    let display1 = vec![regular_die_1, if is_fantastic { -1 } else { marvel_die0 }, regular_die_2];
    push_dice_group(&mut result, lit("3d6 Marvel Multiverse"), display1, "base");
    result.individual_rolls = vec![regular_die_1, marvel_die0, regular_die_2];
    let marvel_die = if is_fantastic { 6 } else { marvel_die0 };
    if is_fantastic {
        push_note(&mut result, lit("Fantastic! Marvel die rolled Marvel symbol, counts as 6"));
    }
    let mut final_rolls: Vec<i32> = vec![regular_die_1, marvel_die, regular_die_2];
    let ghost start = final_rolls@;
    if edges > 0 {
        push_note(&mut result, crate::text::int_then(edges as i64, if edges == 1 { " edge" } else { " edges" }));
    }
    if troubles > 0 {
        push_note(&mut result, crate::text::int_then(troubles as i64, if troubles == 1 { " trouble" } else { " troubles" }));
    }
    let ghost pre_notes = notes_of(result);
    proof {
        reveal_strlit(" edge");
        reveal_strlit(" edges");
        reveal_strlit(" trouble");
        reveal_strlit(" troubles");
        let e_notes: Seq<Seq<char>> = if edges > 0 {
            seq![int_str(edges as int) + if edges == 1 { " edge"@ } else { " edges"@ }]
        } else {
            seq![]
        };
        let t_notes: Seq<Seq<char>> = if troubles > 0 {
            seq![int_str(troubles as int) + if troubles == 1 { " trouble"@ } else { " troubles"@ }]
        } else {
            seq![]
        };
        let f_notes: Seq<Seq<char>> = if is_fantastic {
            seq!["Fantastic! Marvel die rolled Marvel symbol, counts as 6"@]
        } else {
            seq![]
        };
        assert(pre_notes =~= f_notes + e_notes + t_notes);
    }
    let ghost mut ed: Seq<i32> = Seq::empty();
    if edges > 0 {
        let mut details: Vec<String> = Vec::new();
        let mut n: i32 = 0;
        while n < edges
            invariant
                final_rolls@.len() == 3,
                forall|j: int| 0 <= j < 3 ==> 1 <= #[trigger] final_rolls@[j] <= 6,
                forall|j: int| 0 <= j < 3 ==> #[trigger] final_rolls@[j] >= start[j],
                0 <= n <= edges,
                details@.len() == n,
                ed.len() == n,
                in_die_range(ed, 6),
                final_rolls@ == marvel_rerolls(start, ed, true),
                texts(details@) == marvel_details(start, ed, true),
            decreases edges - n,
        {
            let ghost before = final_rolls@;
            let ghost before_details = details@;
            let k = pick_index(&final_rolls, true);
            assert(k == marvel_pick(before, true));
            let min_value = final_rolls[k];
            let new_roll = rng.roll(6);
            if new_roll > min_value {
                final_rolls.set(k, new_roll);
                details.push(reroll_detail(min_value, new_roll, true));
            } else {
                details.push(reroll_detail(min_value, new_roll, false));
            }
            proof {
                let ed2 = ed.push(new_roll);
                assert(ed2.drop_last() =~= ed);
                ed = ed2;
                assert(final_rolls@ =~= marvel_rerolls(start, ed, true));
                assert(texts(details@) =~= texts(before_details).push(details@.last()@));
                assert(texts(details@) =~= marvel_details(start, ed, true));
            }
            n = n + 1;
        }
        push_marvel_reroll_note(&mut result, "Edge", edges, &details);
    }
    let ghost mid = final_rolls@;
    let ghost mut td: Seq<i32> = Seq::empty();
    assert(forall|j: int| 0 <= j < 3 ==> #[trigger] mid[j] >= start[j]);
    assert(edges <= 0 ==> mid == start);
    if troubles > 0 {
        let mut details: Vec<String> = Vec::new();
        let mut n: i32 = 0;
        while n < troubles
            invariant
                final_rolls@.len() == 3,
                mid.len() == 3,
                forall|j: int| 0 <= j < 3 ==> 1 <= #[trigger] final_rolls@[j] <= 6,
                forall|j: int| 0 <= j < 3 ==> #[trigger] final_rolls@[j] <= mid[j],
                0 <= n <= troubles,
                details@.len() == n,
                td.len() == n,
                in_die_range(td, 6),
                final_rolls@ == marvel_rerolls(mid, td, false),
                texts(details@) == marvel_details(mid, td, false),
            decreases troubles - n,
        {
            let ghost before = final_rolls@;
            let ghost before_details = details@;
            let k = pick_index(&final_rolls, false);
            assert(k == marvel_pick(before, false));
            let max_value = final_rolls[k];
            let new_roll = rng.roll(6);
            if new_roll < max_value {
                final_rolls.set(k, new_roll);
                details.push(reroll_detail(max_value, new_roll, true));
            } else {
                details.push(reroll_detail(max_value, new_roll, false));
            }
            proof {
                let td2 = td.push(new_roll);
                assert(td2.drop_last() =~= td);
                td = td2;
                assert(final_rolls@ =~= marvel_rerolls(mid, td, false));
                assert(texts(details@) =~= texts(before_details).push(details@.last()@));
                assert(texts(details@) =~= marvel_details(mid, td, false));
            }
            n = n + 1;
        }
        push_marvel_reroll_note(&mut result, "Trouble", troubles, &details);
    }
    let display2 = vec![final_rolls[0], if is_fantastic { -1 } else { final_rolls[1] }, final_rolls[2]];
    push_dice_group(&mut result, lit("3d6 Marvel Multiverse result"), display2, "result");
    result.total = final_rolls[0] + final_rolls[1] + final_rolls[2];
    apply_arithmetic_modifiers(&dice.modifiers, &mut result.total)?;
    assert(result.dice_groups@.last().rolls@ =~= final_rolls@.update(1, if is_fantastic { -1i32 } else { final_rolls@[1] }));
    assert(result.individual_rolls@.update(1, if is_fantastic { 6i32 } else { marvel_die0 }) =~= start);
    assert(marvel_final(result, dice.modifiers@, final_rolls@));
    proof {
        if edges <= 0 {
            assert(ed =~= Seq::<i32>::empty());
        }
        assert(mid == marvel_rerolls(start, ed, true));
        assert(notes_of(result) =~= marvel_notes(is_fantastic, edges, troubles, start, ed, td)) by {
            reveal(marvel_notes);
        }
    }
    assert(marvel_draws(result, dice.modifiers@, final_rolls@, ed, td));
    Ok(result)
}

/// Successes of a V5 pool: each die at 6 or more, and two more for each pair
/// of 10s.
pub open spec fn vtm5_successes(rolls: Seq<i32>) -> nat {
    count_in_range(rolls, 6, i32::MAX as int) + (count_in_range(rolls, 10, 10) / 2) * 2
}

/// The verdict noted on a V5 roll, from the whole pool and its Hunger dice.
pub open spec fn vtm5_verdict(rolls: Seq<i32>, hunger: Seq<i32>) -> Option<Seq<char>> {
    let success = vtm5_successes(rolls) > 0;
    let critical = count_in_range(rolls, 10, 10) >= 2;
    let hunger_ten = count_in_range(hunger, 10, 10) > 0;
    let hunger_one = count_in_range(hunger, 1, 1) > 0;
    if critical && success && hunger_ten {
        Some("**MESSY CRITICAL** - Success with bestial consequences"@)
    } else if critical && success {
        Some("**CRITICAL SUCCESS**"@)
    } else if !success && hunger_one {
        Some("**BESTIAL FAILURE** - Failed with bestial consequences"@)
    } else if !success {
        Some("**FAILURE**"@)
    } else {
        None
    }
}

/// What a Vampire: the Masquerade 5th edition roll gives for the request `dice`.
pub open spec fn vtm5_outcome(dice: DiceRoll, pool_size: u32, hunger_dice: u32, r: Result<RollResult, DiceError>) -> bool {
    &&& (hunger_dice > pool_size ==> r is Err && err_msg(r) == "Hunger dice cannot exceed the dice pool"@)
    &&& (hunger_dice <= pool_size ==> (has_zero_divisor(dice.modifiers@) <==> r is Err))
    &&& (r matches Ok(res) ==> {
            let rolls = res.individual_rolls@;
            let successes = fold_arith(dice.modifiers@, vtm5_successes(rolls) as i32);
            &&& carries_flags(res, dice)
            &&& rolls.len() == pool_size
            &&& in_die_range(rolls, 10)
            &&& res.kept_rolls@ == rolls
            &&& res.successes == Some(successes)
            &&& res.total == successes
            &&& vtm5_verdict(rolls, rolls.skip(pool_size - hunger_dice)) matches Some(v) ==> notes_of(res).last() == v
        })
}

/// Vampire: the Masquerade 5th edition: `pool` d10s of which `hunger` are
/// Hunger dice; 6+ succeeds and each pair of 10s adds two more.
pub fn handle_vtm5_roll(dice: &DiceRoll, rng: &mut DiceRng, pool_size: u32, hunger_dice: u32) -> (r: Result<RollResult, DiceError>)
    ensures
        hunger_dice > pool_size ==> r is Err && err_msg(r) == "Hunger dice cannot exceed the dice pool"@,
        hunger_dice <= pool_size ==> (has_zero_divisor(dice.modifiers@) <==> r is Err),
        r matches Ok(res) ==> {
            let rolls = res.individual_rolls@;
            let successes = fold_arith(dice.modifiers@, vtm5_successes(rolls) as i32);
            &&& carries_flags(res, *dice)
            &&& rolls.len() == pool_size
            &&& in_die_range(rolls, 10)
            &&& res.kept_rolls@ == rolls
            &&& res.successes == Some(successes)
            &&& res.total == successes
            &&& vtm5_verdict(rolls, rolls.skip(pool_size - hunger_dice)) matches Some(v) ==> notes_of(res).last() == v
        },
{
    if hunger_dice > pool_size {
        return Err(DiceError::from_str("Hunger dice cannot exceed the dice pool"));
    }
    let regular_dice = pool_size - hunger_dice;
    let regular_rolls = roll_pool(rng, regular_dice, 10);
    let hunger_rolls = roll_pool(rng, hunger_dice, 10);
    let mut result = RollResult::from_dice(dice);
    result.successes = Some(0);
    let mut all = regular_rolls.clone();
    let mut h = hunger_rolls.clone();
    all.append(&mut h);
    result.individual_rolls = all;
    result.kept_rolls = result.individual_rolls.clone();
    if regular_rolls.len() > 0 {
        push_dice_group(&mut result, nat_then(regular_dice as u64, "d10 Regular"), regular_rolls.clone(), "regular");
    }
    if hunger_rolls.len() > 0 {
        push_dice_group(&mut result, nat_then(hunger_dice as u64, "d10 Hunger"), hunger_rolls.clone(), "hunger");
    }
    let successes = count_in(&regular_rolls, 6, i32::MAX as i64) + count_in(&hunger_rolls, 6, i32::MAX as i64);
    let regular_tens = count_in(&regular_rolls, 10, 10);
    let hunger_tens = count_in(&hunger_rolls, 10, 10);
    let total_tens = regular_tens + hunger_tens;
    proof {
        assert(result.individual_rolls@ =~= regular_rolls@ + hunger_rolls@);
        assert(result.individual_rolls@.skip(pool_size - hunger_dice) =~= hunger_rolls@);
        crate::dice::systems::lemma_count_concat(regular_rolls@, hunger_rolls@, 6, i32::MAX as int);
        crate::dice::systems::lemma_count_concat(regular_rolls@, hunger_rolls@, 10, 10);
    }
    let mut total_successes: u64 = successes as u64;
    if total_tens >= 2 {
        let pairs = total_tens / 2;
        let extra = pairs * 2;
        total_successes = total_successes + extra as u64;
        push_note(&mut result, crate::text::cat_int_int_then("", pairs as u64, " pairs of 10s add +", extra as u64, " successes"));
    }
    let has_successes = total_successes > 0;
    let has_crit = total_tens >= 2;
    let has_hunger_tens = hunger_tens > 0;
    let has_hunger_ones = count_in(&hunger_rolls, 1, 1) > 0;
    if has_crit && has_successes && has_hunger_tens {
        push_note(&mut result, lit("**MESSY CRITICAL** - Success with bestial consequences"));
    } else if has_crit && has_successes {
        push_note(&mut result, lit("**CRITICAL SUCCESS**"));
    } else if !has_successes && has_hunger_ones {
        push_note(&mut result, lit("**BESTIAL FAILURE** - Failed with bestial consequences"));
    } else if !has_successes {
        push_note(&mut result, lit("**FAILURE**"));
    }
    result.successes = Some(total_successes as i32);
    result.total = total_successes as i32;
    crate::dice::systems::apply_mathematical_modifiers_to_vtm5_successes(&mut result, &dice.modifiers)?;
    Ok(result)
}


/// What Alien stress dice does to a result `a`, leaving `b`.
pub open spec fn alien_stress_step(a: RollResult, b: RollResult, stress_level: u32) -> bool {
    &&& (same_flags(a, b))
    &&& (b.successes == crate::dice::systems::add_successes(
            a,
            count_in_range(a.kept_rolls@, 6, 6) as i32,
        ))
    &&& (b.alien_stress_ones == Some(count_in_range(a.kept_rolls@, 1, 1) as i32))
    &&& (b.alien_stress_level == Some(stress_level))
    &&& (count_in_range(a.kept_rolls@, 1, 1) > 0 ==> b.alien_panic_roll is Some)
    &&& (count_in_range(a.kept_rolls@, 1, 1) == 0 ==> b.alien_panic_roll == a.alien_panic_roll)
    &&& (b.kept_rolls == a.kept_rolls)
    &&& (b.total == a.total)
}

/// Alien RPG stress dice: 6s succeed, 1s force a panic roll (d6 + stress).
pub fn apply_alien_stress_modifier(result: &mut RollResult, stress_level: u32, rng: &mut DiceRng)
    ensures
        same_flags(*old(result), *final(result)),
        final(result).successes == crate::dice::systems::add_successes(
            *old(result),
            count_in_range(old(result).kept_rolls@, 6, 6) as i32,
        ),
        final(result).alien_stress_ones == Some(count_in_range(old(result).kept_rolls@, 1, 1) as i32),
        final(result).alien_stress_level == Some(stress_level),
        count_in_range(old(result).kept_rolls@, 1, 1) > 0 ==> final(result).alien_panic_roll is Some,
        count_in_range(old(result).kept_rolls@, 1, 1) == 0 ==> final(result).alien_panic_roll == old(result).alien_panic_roll,
        final(result).kept_rolls == old(result).kept_rolls,
        final(result).total == old(result).total,
{
    let success_count = count_in(&result.kept_rolls, 6, 6) as i32;
    let current = match result.successes {
        Some(s) => s,
        None => 0,
    };
    result.successes = Some(current.wrapping_add(success_count));
    let ones = count_in(&result.kept_rolls, 1, 1);
    let ones_count = ones as i32;
    result.alien_stress_ones = Some(ones_count);
    result.alien_stress_level = Some(stress_level);
    push_note(result, cat_nat("⚡ **STRESS DICE** (Level ", stress_level as u64, "): 6s = successes, 1s = panic risk"));
    if ones > 0 {
        let panic_roll = rng.roll(6).wrapping_add(stress_level as i32);
        result.alien_panic_roll = Some(panic_roll);
        let effect = crate::dice::systems::interpret_panic_roll(panic_roll);
        let mut note = crate::text::cat_int("💀 **PANIC ROLL**: ", ones_count as i64, "d6 + ");
        push_nat(&mut note, stress_level as u64);
        note.append(" stress = **");
        push_int(&mut note, panic_roll as i64);
        note.append("** → ");
        note.append(effect.as_str());
        push_note(result, note);
        push_note(result, lit("⚠️  **Cannot push this roll** (rolled 1s on stress dice)"));
    } else {
        push_note(result, lit("🔄 **Push available**: Add 'p' to alias to push (e.g., alien4s2p)"));
    }
}

/// What a Darkest House die does to a result `a`, leaving `b`.
pub open spec fn darkest_house_step(a: RollResult, b: RollResult, r: Result<(), DiceError>, called_upon: bool) -> bool {
    &&& ((a.kept_rolls@.len() == 0 && a.individual_rolls@.len() == 0) <==> r is Err)
    &&& (r is Err ==> err_msg(r) == "No dice rolled for The Darkest House"@)
    &&& (r is Ok ==> {
            &&& same_flags(a, b)
            &&& called_upon ==> a.total < b.total <= a.total + 6
                || (a.total > i32::MAX - 6)
            &&& !called_upon ==> b.total == a.total
            &&& notes_of(b).len() == notes_of(a).len() + 1
            &&& b == (RollResult { total: b.total, notes: b.notes, ..a })
        })
}

/// The Darkest House: an extra d6 that acts when it beats every action die,
/// or is added to the roll when the house is called upon.
pub fn apply_darkest_house_die(result: &mut RollResult, rng: &mut DiceRng, called_upon: bool) -> (r: Result<(), DiceError>)
    ensures
        (old(result).kept_rolls@.len() == 0 && old(result).individual_rolls@.len() == 0) <==> r is Err,
        r is Err ==> err_msg(r) == "No dice rolled for The Darkest House"@,
        r is Ok ==> {
            &&& same_flags(*old(result), *final(result))
            &&& called_upon ==> old(result).total < final(result).total <= old(result).total + 6
                || (old(result).total > i32::MAX - 6)
            &&& !called_upon ==> final(result).total == old(result).total
            &&& notes_of(*final(result)).len() == notes_of(*old(result)).len() + 1
            &&& *final(result) == (RollResult { total: final(result).total, notes: final(result).notes, ..*old(result) })
        },
{
    let highest = if result.kept_rolls.len() > 0 {
        max_of(&result.kept_rolls)
    } else if result.individual_rolls.len() > 0 {
        max_of(&result.individual_rolls)
    } else {
        return Err(DiceError::from_str("No dice rolled for The Darkest House"));
    };
    let house_die = rng.roll(6);
    if called_upon {
        result.total = result.total.wrapping_add(house_die);
        push_note(result, crate::text::cat_int("House Die: [", house_die as i64, "] added to the roll - 🏚️ The House acts, and you gain 1 Doom"));
        return Ok(());
    }
    if house_die > highest {
        push_note(result, crate::text::cat_int("House Die: [", house_die as i64, "] - 🏚️ The House acts"));
    } else {
        push_note(result, crate::text::cat_int("House Die: [", house_die as i64, "] - The House waits"));
    }
    Ok(())
}

/// `dN` for one die, `NdS` for more.
fn rank_label(count: u32, sides: u32) -> (s: String)
    ensures
        s@ == if count == 1 { "d"@ + int_str(sides as int) } else { int_str(count as int) + "d"@ + int_str(sides as int) },
{
    if count == 1 {
        let mut s = lit("d");
        push_nat(&mut s, sides as u64);
        s
    } else {
        dice_desc(count as u64, sides as u64)
    }
}

/// What an Essence 20 skill die does to a result `a`, leaving `b`.
pub open spec fn essence20_step(a: RollResult, b: RollResult, r: Result<(), DiceError>, rank: u32, specialization: bool, base_sides: u32) -> bool {
    &&& (!(1 <= rank <= 8) <==> r is Err)
    &&& (r is Err ==> err_msg(r) == "Essence20 skill rank must be 1-8"@)
    &&& (r is Ok ==> {
            let g = b.dice_groups@.last();
            let die = crate::dice::essence20_ranks()[rank - 1];
            &&& same_flags(a, b)
            &&& b.dice_groups@.len() == a.dice_groups@.len() + 1
            &&& b.dice_groups@.drop_last() == a.dice_groups@
            &&& b.individual_rolls == a.individual_rolls
            &&& b.kept_rolls == a.kept_rolls
            &&& b.total == a.total.wrapping_add(wsum(g.rolls@))
            &&& g.modifier_type@ == "add"@
            &&& !specialization ==> {
                &&& g.rolls@.len() == die.0
                &&& in_die_range(g.rolls@, die.1 as int)
                &&& g.dropped_rolls@.len() == 0
            }
        })
}

/// Essence20 skill dice: the skill rank's dice are added to the roll; with a
/// specialization every lower rank is rolled too and the highest total kept
/// (the higher rank on ties). A rank showing all maxima is a critical success.
pub fn apply_essence20_skill_dice(
    result: &mut RollResult,
    rng: &mut DiceRng,
    rank: u32,
    specialization: bool,
    base_sides: u32,
) -> (r: Result<(), DiceError>)
    ensures
        !(1 <= rank <= 8) <==> r is Err,
        r is Err ==> err_msg(r) == "Essence20 skill rank must be 1-8"@,
        r is Ok ==> {
            let g = final(result).dice_groups@.last();
            let die = crate::dice::essence20_ranks()[rank - 1];
            &&& same_flags(*old(result), *final(result))
            &&& final(result).dice_groups@.len() == old(result).dice_groups@.len() + 1
            &&& final(result).dice_groups@.drop_last() == old(result).dice_groups@
            &&& final(result).individual_rolls == old(result).individual_rolls
            &&& final(result).kept_rolls == old(result).kept_rolls
            &&& final(result).total == old(result).total.wrapping_add(wsum(g.rolls@))
            &&& g.modifier_type@ == "add"@
            &&& !specialization ==> {
                &&& g.rolls@.len() == die.0
                &&& in_die_range(g.rolls@, die.1 as int)
                &&& g.dropped_rolls@.len() == 0
            }
        },
{
    if rank < 1 || rank > 8 {
        return Err(DiceError::from_str("Essence20 skill rank must be 1-8"));
    }
    let lowest: u32 = if specialization { 1 } else { rank };
    let mut counts: Vec<u32> = Vec::new();
    let mut sides_v: Vec<u32> = Vec::new();
    let mut rolls_v: Vec<Vec<i32>> = Vec::new();
    let mut totals: Vec<i32> = Vec::new();
    let steps: u32 = rank - lowest + 1;
    let mut k: u32 = 0;
    while k < steps
        invariant
            1 <= lowest <= rank <= 8,
            steps == rank - lowest + 1,
            k <= steps,
            counts@.len() == sides_v@.len(),
            counts@.len() == rolls_v@.len(),
            counts@.len() == totals@.len(),
            counts@.len() == k,
            forall|j: int| 0 <= j < counts@.len() ==> 1 <= #[trigger] counts@[j] <= 3,
            forall|j: int| 0 <= j < sides_v@.len() ==> 2 <= #[trigger] sides_v@[j] <= 12,
            forall|j: int| 0 <= j < totals@.len() ==> #[trigger] totals@[j] == wsum(rolls_v@[j]@),
            forall|j: int| 0 <= j < rolls_v@.len() ==> (#[trigger] rolls_v@[j])@.len() == counts@[j],
            forall|j: int| 0 <= j < rolls_v@.len() ==> in_die_range((#[trigger] rolls_v@[j])@, sides_v@[j] as int),
            k >= 1 ==> (counts@[0], sides_v@[0]) == crate::dice::essence20_ranks()[rank - 1],
        decreases steps - k,
    {
        let (c, sd) = crate::dice::essence20_rank(rank - k);
        let rolls = roll_pool(rng, c, sd as i32);
        let t = sum_rolls(&rolls);
        let ghost old_counts = counts@;
        let ghost old_sides = sides_v@;
        let ghost old_rolls = rolls_v@;
        let ghost old_totals = totals@;
        counts.push(c);
        sides_v.push(sd);
        rolls_v.push(rolls);
        totals.push(t);
        assert forall|j: int| 0 <= j < totals@.len() implies #[trigger] totals@[j] == wsum(rolls_v@[j]@) by {
            if j < old_totals.len() {
                assert(totals@[j] == old_totals[j] && rolls_v@[j] == old_rolls[j]);
            }
        }
        assert forall|j: int| 0 <= j < rolls_v@.len() implies (#[trigger] rolls_v@[j])@.len() == counts@[j]
            && in_die_range(rolls_v@[j]@, sides_v@[j] as int) by {
            if j < old_rolls.len() {
                assert(rolls_v@[j] == old_rolls[j] && counts@[j] == old_counts[j] && sides_v@[j] == old_sides[j]);
            }
        }
        assert forall|j: int| 0 <= j < counts@.len() implies 1 <= #[trigger] counts@[j] <= 3 by {
            if j < old_counts.len() {
                assert(counts@[j] == old_counts[j]);
            }
        }
        assert forall|j: int| 0 <= j < sides_v@.len() implies 2 <= #[trigger] sides_v@[j] <= 12 by {
            if j < old_sides.len() {
                assert(sides_v@[j] == old_sides[j]);
            }
        }
        k = k + 1;
    }
    assert(totals@.len() >= 1);
    let mut kept: usize = 0;
    let mut i: usize = 0;
    while i < totals.len()
        invariant
            totals@.len() >= 1,
            kept < totals@.len(),
            i <= totals@.len(),
            !specialization ==> kept == 0,
            totals@.len() == steps,
            !specialization ==> steps == 1,
        decreases totals.len() - i,
    {
        if totals[i] > totals[kept] {
            kept = i;
        }
        i = i + 1;
    }
    result.total = result.total.wrapping_add(totals[kept]);
    let mut discarded: Vec<i32> = Vec::new();
    let mut i: usize = 0;
    while i < rolls_v.len()
        invariant
            i <= rolls_v@.len(),
            kept < rolls_v@.len(),
            !specialization ==> rolls_v@.len() == 1 && kept == 0,
            !specialization ==> discarded@.len() == 0,
        decreases rolls_v.len() - i,
    {
        if i != kept {
            let mut more = rolls_v[i].clone();
            discarded.append(&mut more);
        }
        i = i + 1;
    }
    result.dice_groups.push(DiceGroup {
        _description: rank_label(counts[kept], sides_v[kept]),
        rolls: rolls_v[kept].clone(),
        dropped_rolls: discarded,
        modifier_type: lit("add"),
    });
    let mut crit = String::new();
    let mut any_crit = false;
    let mut i: usize = 0;
    while i < totals.len()
        invariant
            i <= totals@.len(),
            totals@.len() == counts@.len(),
            totals@.len() == sides_v@.len(),
            forall|j: int| 0 <= j < counts@.len() ==> 1 <= #[trigger] counts@[j] <= 3,
            forall|j: int| 0 <= j < sides_v@.len() ==> 2 <= #[trigger] sides_v@[j] <= 12,
        decreases totals.len() - i,
    {
        let c = counts[i];
        let sd = sides_v[i];
        assert(1 <= c <= 3 && 2 <= sd <= 12);
        assert(c * sd <= 36) by (nonlinear_arith)
            requires
                1 <= c <= 3,
                2 <= sd <= 12,
        ;
        if totals[i] == (c * sd) as i32 {
            if any_crit {
                crit.append(", ");
            }
            crit.append(rank_label(counts[i], sides_v[i]).as_str());
            any_crit = true;
        }
        i = i + 1;
    }
    if any_crit {
        let mut note = lit("💥 **CRITICAL SUCCESS!** Maximum rolled on ");
        note.append(crit.as_str());
        push_note(result, note);
    }
    if base_sides == 20 && count_in(&result.kept_rolls, 20, 20) > 0 {
        push_note(result, lit("🎯 **Natural 20** on the d20"));
    }
    if specialization {
        let mut note = lit("Specialization: kept ");
        note.append(rank_label(counts[kept], sides_v[kept]).as_str());
        note.append(" (");
        push_int(&mut note, totals[kept] as i64);
        note.append(") — highest of ");
        let mut i: usize = 0;
        while i < counts.len()
            invariant
                i <= counts@.len(),
                counts@.len() == sides_v@.len(),
            decreases counts.len() - i,
        {
            if i > 0 {
                note.append(", ");
            }
            note.append(rank_label(counts[i], sides_v[i]).as_str());
            i = i + 1;
        }
        push_note(result, note);
    }
    Ok(())
}

/// Fold an exploded d10 back into the result: the base die and the dice it
/// exploded into become two groups, and the running total the one kept value.
pub fn finalize_d10_explosion(
    result: &mut RollResult,
    original_roll: i32,
    additional_rolls: &Vec<i32>,
    total_result: i32,
    explosion_notes: Vec<String>,
)
    ensures
        same_flags(*old(result), *final(result)),
        final(result).total == total_result,
        final(result).kept_rolls@ == seq![total_result],
        final(result).individual_rolls@ == old(result).individual_rolls@ + additional_rolls@,
        notes_of(*final(result)) == notes_of(*old(result)) + explosion_notes@.map_values(|s: String| s@),
{
    if additional_rolls.len() > 0 {
        let exploded_up = original_roll == 10;
        let base_group = DiceGroup {
            _description: lit("1d10"),
            rolls: vec![original_roll],
            dropped_rolls: Vec::new(),
            modifier_type: lit("base"),
        };
        let explosion_group = DiceGroup {
            _description: lit(if exploded_up { "Critical Success" } else { "Critical Failure" }),
            rolls: additional_rolls.clone(),
            dropped_rolls: Vec::new(),
            modifier_type: lit(if exploded_up { "add" } else { "subtract" }),
        };
        result.dice_groups = vec![base_group, explosion_group];
        let mut more = additional_rolls.clone();
        result.individual_rolls.append(&mut more);
    } else {
        assert(old(result).individual_rolls@ + additional_rolls@ =~= old(result).individual_rolls@);
    }
    result.total = total_result;
    result.kept_rolls = vec![total_result];
    let ghost n0 = notes_of(*result);
    let mut i: usize = 0;
    while i < explosion_notes.len()
        invariant
            i <= explosion_notes@.len(),
            notes_of(*result) == n0 + explosion_notes@.take(i as int).map_values(|s: String| s@),
            same_flags(*old(result), *result),
            result.total == total_result,
            result.kept_rolls@ == seq![total_result],
            result.individual_rolls@ == old(result).individual_rolls@ + additional_rolls@,
        decreases explosion_notes.len() - i,
    {
        push_note(result, explosion_notes[i].clone());
        i = i + 1;
        assert(explosion_notes@.take(i as int).map_values(|s: String| s@) =~= explosion_notes@.take(i - 1).map_values(|s: String| s@).push(explosion_notes@[i - 1]@));
    }
    assert(explosion_notes@.take(explosion_notes@.len() as int) =~= explosion_notes@);
}

/// What a Cyberpunk Red check does to a result `a`, leaving `b`.
pub open spec fn cyberpunk_red_step(a: RollResult, b: RollResult, r: Result<(), DiceError>) -> bool {
    &&& ((a.individual_rolls@.len() != 1) <==> r is Err)
    &&& (r is Err ==> err_msg(r) == "Cyberpunk Red mechanics only work with 1d10"@)
    &&& (r is Ok ==> {
            let o = a.individual_rolls@[0];
            &&& same_flags(a, b)
            &&& (o != 10 && o != 1) ==> b.total == o && b.individual_rolls@ == a.individual_rolls@
            &&& o == 10 ==> b.individual_rolls@.len() == 2 && b.total == o.wrapping_add(b.individual_rolls@[1])
            &&& o == 1 ==> b.individual_rolls@.len() == 2 && b.total == o.wrapping_sub(b.individual_rolls@[1])
            &&& b.kept_rolls@ == seq![b.total]
        })
}

/// Cyberpunk Red: a single d10; a 10 adds another d10, a 1 subtracts one.
pub fn apply_cyberpunk_red_mechanics(result: &mut RollResult, rng: &mut DiceRng) -> (r: Result<(), DiceError>)
    ensures
        (old(result).individual_rolls@.len() != 1) <==> r is Err,
        r is Err ==> err_msg(r) == "Cyberpunk Red mechanics only work with 1d10"@,
        r is Ok ==> {
            let o = old(result).individual_rolls@[0];
            &&& same_flags(*old(result), *final(result))
            &&& (o != 10 && o != 1) ==> final(result).total == o && final(result).individual_rolls@ == old(result).individual_rolls@
            &&& o == 10 ==> final(result).individual_rolls@.len() == 2 && final(result).total == o.wrapping_add(final(result).individual_rolls@[1])
            &&& o == 1 ==> final(result).individual_rolls@.len() == 2 && final(result).total == o.wrapping_sub(final(result).individual_rolls@[1])
            &&& final(result).kept_rolls@ == seq![final(result).total]
        },
{
    if result.individual_rolls.len() != 1 {
        return Err(DiceError::from_str("Cyberpunk Red mechanics only work with 1d10"));
    }
    let original_roll = result.individual_rolls[0];
    let mut total_result = original_roll;
    let mut additional: Vec<i32> = Vec::new();
    let mut notes: Vec<String> = Vec::new();
    if original_roll == 10 {
        let extra = rng.roll(10);
        additional.push(extra);
        total_result = total_result.wrapping_add(extra);
        notes.push(crate::text::lit_int("💥 **CRITICAL SUCCESS!** Rolled 10, added ", extra as i64));
    } else if original_roll == 1 {
        let extra = rng.roll(10);
        additional.push(extra);
        total_result = total_result.wrapping_sub(extra);
        notes.push(crate::text::lit_int("💀 **CRITICAL FAILURE!** Rolled 1, subtracted ", extra as i64));
    }
    finalize_d10_explosion(result, original_roll, &additional, total_result, notes);
    assert(additional@.len() == 0 ==> result.individual_rolls@ =~= old(result).individual_rolls@);
    Ok(())
}

/// What Cyberpunk Red damage does to a result `a`, leaving `b`.
pub open spec fn cyberpunk_red_damage_step(a: RollResult, b: RollResult, r: Result<(), DiceError>, sides: u32) -> bool {
    &&& ((sides != 6) <==> r is Err)
    &&& (r is Err ==> err_msg(r) == "Cyberpunk Red damage only works with d6 dice"@)
    &&& (r is Ok ==> {
            &&& b == (RollResult { notes: b.notes, ..a })
            &&& notes_of(b).len() == notes_of(a).len() + if count_in_range(a.individual_rolls@, 6, 6) >= 2 { 2int } else { 0int }
        })
}

/// Cyberpunk Red damage: two or more 6s inflict a Critical Injury, with a
/// 2d6 injury-table roll shown in the notes; the total is left as it is.
pub fn apply_cyberpunk_red_damage(result: &mut RollResult, rng: &mut DiceRng, sides: u32) -> (r: Result<(), DiceError>)
    ensures
        (sides != 6) <==> r is Err,
        r is Err ==> err_msg(r) == "Cyberpunk Red damage only works with d6 dice"@,
        r is Ok ==> {
            &&& *final(result) == (RollResult { notes: final(result).notes, ..*old(result) })
            &&& notes_of(*final(result)).len() == notes_of(*old(result)).len() + if count_in_range(old(result).individual_rolls@, 6, 6) >= 2 { 2int } else { 0int }
        },
{
    if sides != 6 {
        return Err(DiceError::from_str("Cyberpunk Red damage only works with d6 dice"));
    }
    let sixes = count_in(&result.individual_rolls, 6, 6);
    if sixes < 2 {
        return Ok(());
    }
    let first = rng.roll(6);
    let second = rng.roll(6);
    let injury_total = first + second;
    push_note(result, cat_nat("💥 **CRITICAL INJURY!** (", sixes as u64, " sixes) - +5 damage direct to Hit Points, ignores armor SP"));
    let mut note = lit("Critical Injury roll: [");
    push_int(&mut note, first as i64);
    note.append(", ");
    push_int(&mut note, second as i64);
    note.append("] = ");
    push_int(&mut note, injury_total as i64);
    note.append(" (Body table; Head table on an aimed head shot)");
    push_note(result, note);
    Ok(())
}

/// What a Witcher check does to a result `a`, leaving `b`.
pub open spec fn witcher_step(a: RollResult, b: RollResult, r: Result<(), DiceError>) -> bool {
    &&& ((a.individual_rolls@.len() != 1) <==> r is Err)
    &&& (r is Err ==> err_msg(r) == "Witcher mechanics only work with 1d10"@)
    &&& (r is Ok ==> {
            let o = a.individual_rolls@[0];
            &&& same_flags(a, b)
            &&& (o != 10 && o != 1) ==> b.total == o && b.individual_rolls@ == a.individual_rolls@
            &&& b.kept_rolls@ == seq![b.total]
            &&& b.individual_rolls@.take(1) == a.individual_rolls@
        })
}

/// The Witcher: a single d10; a 10 adds another d10 and a 1 subtracts one,
/// and keeps doing so while the new die repeats it, up to 100 times.
pub fn apply_witcher_mechanics(result: &mut RollResult, rng: &mut DiceRng) -> (r: Result<(), DiceError>)
    ensures
        (old(result).individual_rolls@.len() != 1) <==> r is Err,
        r is Err ==> err_msg(r) == "Witcher mechanics only work with 1d10"@,
        r is Ok ==> {
            let o = old(result).individual_rolls@[0];
            &&& same_flags(*old(result), *final(result))
            &&& (o != 10 && o != 1) ==> final(result).total == o && final(result).individual_rolls@ == old(result).individual_rolls@
            &&& final(result).kept_rolls@ == seq![final(result).total]
            &&& final(result).individual_rolls@.take(1) == old(result).individual_rolls@
        },
{
    if result.individual_rolls.len() != 1 {
        return Err(DiceError::from_str("Witcher mechanics only work with 1d10"));
    }
    let original_roll = result.individual_rolls[0];
    let mut total_result = original_roll;
    let mut additional: Vec<i32> = Vec::new();
    let mut notes: Vec<String> = Vec::new();
    let mut explosion_count: usize = 0;
    let mut current_roll = original_roll;
    loop
        invariant
            explosion_count <= 100,
            additional@.len() == explosion_count,
            explosion_count == 0 ==> current_roll == original_roll && total_result == original_roll,
            explosion_count > 0 ==> (original_roll == 10 || original_roll == 1),
        decreases 100 - explosion_count,
    {
        if explosion_count >= 100 {
            notes.push(lit("Maximum explosions reached (100)"));
            break;
        }
        if current_roll == 10 {
            let extra = rng.roll(10);
            additional.push(extra);
            total_result = total_result.wrapping_add(extra);
            explosion_count = explosion_count + 1;
            if explosion_count == 1 {
                notes.push(crate::text::lit_int("⚔️ **CRITICAL SUCCESS!** Rolled 10, added ", extra as i64));
            } else {
                notes.push(crate::text::lit_int("🔥 **EXPLOSION CONTINUES!** Added ", extra as i64));
            }
            current_roll = extra;
            if current_roll != 10 {
                break;
            }
        } else if current_roll == 1 {
            let extra = rng.roll(10);
            additional.push(extra);
            total_result = total_result.wrapping_sub(extra);
            explosion_count = explosion_count + 1;
            if explosion_count == 1 {
                notes.push(crate::text::lit_int("💀 **CRITICAL FAILURE!** Rolled 1, subtracted ", extra as i64));
            } else {
                notes.push(crate::text::lit_int("💥 **FAILURE CONTINUES!** Subtracted ", extra as i64));
            }
            current_roll = extra;
            if current_roll != 1 {
                break;
            }
        } else {
            break;
        }
    }
    finalize_d10_explosion(result, original_roll, &additional, total_result, notes);
    assert(result.individual_rolls@.take(1) =~= old(result).individual_rolls@);
    assert(additional@.len() == 0 ==> result.individual_rolls@ =~= old(result).individual_rolls@);
    Ok(())
}

/// What a Hero System roll does to a result `a`, leaving `b`.
pub open spec fn hero_system_step(a: RollResult, b: RollResult, hero_type: crate::dice::HeroSystemType) -> bool {
    &&& (same_flags(a, b))
    &&& (b.individual_rolls == a.individual_rolls)
    &&& (b.kept_rolls == a.kept_rolls)
    &&& (hero_type is Normal || hero_type is Hit ==> b.total == a.total)
    &&& (hero_type is Killing ==> exists|m: i32| 1 <= m <= 3 && b.total == a.total.wrapping_mul(m))
    &&& (hero_type is Hit ==> notes_of(b) == notes_of(a).push(
            "Hero System to-hit roll (3d6 roll-under)"@,
        ).push("Target: 11 + OCV - DCV or less"@))
}

/// Hero System readings: normal damage counts BODY per die (d6: 1 is 0,
/// 6 is 2, else 1; d3: 3 is 1, 2 is a coin flip, 1 is 0) with the total as
/// STUN; killing damage multiplies the total (BODY) by a d3 for STUN, which
/// becomes the total; a to-hit roll only gains its notes.
pub fn apply_hero_system_calculation(result: &mut RollResult, rng: &mut DiceRng, hero_type: &crate::dice::HeroSystemType)
    ensures
        same_flags(*old(result), *final(result)),
        final(result).individual_rolls == old(result).individual_rolls,
        final(result).kept_rolls == old(result).kept_rolls,
        *hero_type is Normal || *hero_type is Hit ==> final(result).total == old(result).total,
        *hero_type is Killing ==> exists|m: i32| 1 <= m <= 3 && final(result).total == old(result).total.wrapping_mul(m),
        *hero_type is Hit ==> notes_of(*final(result)) == notes_of(*old(result)).push(
            "Hero System to-hit roll (3d6 roll-under)"@,
        ).push("Target: 11 + OCV - DCV or less"@),
{
    match hero_type {
        crate::dice::HeroSystemType::Normal => {
            let stun = result.total;
            let mut body: i32 = 0;
            let mut g: usize = 0;
            while g < result.dice_groups.len()
                invariant
                    g <= result.dice_groups@.len(),
                    *result == *old(result),
                    *hero_type is Normal,
                decreases result.dice_groups.len() - g,
            {
                let desc = crate::text::str_chars(result.dice_groups[g]._description.as_str());
                let is_d3 = crate::text::chars_contains(desc.as_slice(), "d3");
                let mut k: usize = 0;
                while k < result.dice_groups[g].rolls.len()
                    invariant
                        g < result.dice_groups@.len(),
                        k <= result.dice_groups@[g as int].rolls@.len(),
                        *result == *old(result),
                        *hero_type is Normal,
                    decreases result.dice_groups@[g as int].rolls@.len() - k,
                {
                    let roll = result.dice_groups[g].rolls[k];
                    let b: i32 = if is_d3 {
                        if roll == 3 {
                            1
                        } else if roll == 2 {
                            rng.roll(2) - 1
                        } else {
                            0
                        }
                    } else {
                        if roll == 6 {
                            2
                        } else if roll == 1 {
                            0
                        } else {
                            1
                        }
                    };
                    body = body.wrapping_add(b);
                    k = k + 1;
                }
                g = g + 1;
            }
            let mut note = crate::text::cat_int2("Normal damage: ", body as i64, " BODY, ", stun as i64, " STUN");
            push_note(result, note);
        },
        crate::dice::HeroSystemType::Killing => {
            let body = result.total;
            let multiplier = rng.roll(3);
            let stun = body.wrapping_mul(multiplier);
            let mut note = crate::text::cat_int2("Killing damage: ", body as i64, " BODY, ", stun as i64, " STUN (×");
            push_int(&mut note, multiplier as i64);
            note.append(")");
            push_note(result, note);
            result.total = stun;
            assert(1 <= multiplier <= 3 && result.total == old(result).total.wrapping_mul(multiplier));
        },
        crate::dice::HeroSystemType::Hit => {
            push_note(result, lit("Hero System to-hit roll (3d6 roll-under)"));
            push_note(result, lit("Target: 11 + OCV - DCV or less"));
        },
    }
}

} // verus!
