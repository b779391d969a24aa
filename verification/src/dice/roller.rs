//! Roll executor: `DiceRoll` to `RollResult`.
//!
//! A request either goes to the handler of a game system that resolves
//! dice its own way, or through the standard pipeline:
//!
//! 1. roll the dice, plus the advantage/disadvantage extras;
//! 2. drop the advantage/disadvantage surplus;
//! 3. explode, implode, reroll;
//! 4. keep/drop (`k#`, `kl#`, `km#`, `d#`) in the order written;
//! 5. sum the kept dice, less the imploded dice;
//! 6. the arithmetic (`+n`, `*n`, `+2d6`, ...) strictly left to right;
//! 7. success counting and the other system readings;
//! 8. sort the dice from highest to lowest (unless `ul`).
//!
//! Dropping the surplus happens before exploding, so exploded dice are
//! never reconsidered for it; `d#`/`k#` run after exploding.

use vstd::prelude::*;
use vstd::string::*;
use crate::dice::{
    carries_flags, err_msg, in_die_range, same_flags, sides_error, dice_desc, DiceError, DiceGroup,
    DiceRoll, HeroSystemType, Modifier, RollResult,
};
use crate::dice::arith::{
    advantage_level, apply_arithmetic_modifiers, apply_op, arith_of, combine, err_is_divide_by_zero,
    eval_left_to_right, evaluate_expression, find_target_modifier_positions, has_zero_divisor,
    is_arithmetic_modifier, is_target_modifier, is_zero_divide, token_value, wdiv,
    well_formed_tokens, ArithmeticOp, Token,
};
use crate::dice::pool::{
    after_dropping_lowest, drop_amount, drop_dice, drop_highest_dice, dropped_lowest, keep_dice,
    keep_mask, keep_middle_dice, middle_mask, same_except_pools, select, sort_result_rolls,
    update_base_group,
};
use crate::dice::rng::DiceRng;
use crate::dice::systems::{add_successes, count_in_range, notes_of, push_note, sum_rolls};
use crate::text::{cat_nat, int_str, lit, nat_str, push_int, push_nat};

verus! {

/// Mirrors the parser's `Maximum 500 dice allowed` cap.
pub const MAX_DICE_POOL: u64 = 500;

/// Roll `dice` with a freshly seeded generator.
pub fn roll_dice(dice: DiceRoll) -> (r: Result<RollResult, DiceError>)
    ensures
        dice.sides < 1 || (dice.sides > i32::MAX && dice.count >= 1) ==> r is Err && crate::dice::err_msg(r) == sides_error(
            dice.sides,
        ),
        1 <= dice.sides && dice.count == 0 ==> r is Err && crate::dice::err_msg(r)
            == "Cannot roll 0 dice"@,
        r matches Ok(res) ==> carries_flags(res, dice),
        pool_request(dice) ==> (r is Ok <==> !any_keeps_none(dice.modifiers@) && !has_zero_divisor(dice.modifiers@)),
        pool_request(dice) && any_keeps_none(dice.modifiers@) ==> r is Err && crate::dice::err_msg(r)
            == "Cannot keep 0 dice"@,
        pool_request(dice) && !any_keeps_none(dice.modifiers@) && has_zero_divisor(dice.modifiers@)
            ==> crate::dice::arith::err_is_divide_by_zero(r),
        1 <= dice.sides <= i32::MAX && dice.count > MAX_DICE_POOL && first_handler(dice.modifiers@, 1) == 0
            && crate::dice::arith::advantage_level(dice.modifiers@) == 0 ==> r is Err && crate::dice::err_msg(r)
            == "Maximum 500 dice allowed (advantage/disadvantage adds 0 dice)"@,
        pool_request(dice) ==> (r matches Ok(res) ==> pool_outcome(res, dice)),
        explode_request(dice) ==> r is Ok && (r matches Ok(res) ==> explode_outcome(res, dice)),
        reroll_request(dice) ==> r is Ok && (r matches Ok(res) ==> reroll_outcome(res, dice)),
        implode_request(dice) ==> r is Ok && (r matches Ok(res) ==> implode_outcome(res, dice)),
        standard_request(dice) ==> (r is Ok <==> !any_keeps_none(dice.modifiers@) && !has_zero_divisor(dice.modifiers@)),
        standard_request(dice) && (counts_nothing(dice.modifiers@) || no_arith(dice.modifiers@) || arith_after_counting(dice.modifiers@)) ==> (r matches Ok(res) ==> standard_outcome(res, dice)),
        1 <= dice.sides <= i32::MAX && dice.count >= 1 && first_handler(dice.modifiers@, 1) == 1 ==> conan_skill_outcome(dice, r),
        1 <= dice.sides <= i32::MAX && dice.count >= 1 && first_handler(dice.modifiers@, 1) == 2 ==> crate::dice::handlers::conan_combat_outcome(dice, r),
        1 <= dice.sides <= i32::MAX && dice.count >= 1 && first_handler(dice.modifiers@, 1) == 3 ==> crate::dice::handlers::wfrp_outcome(dice, r),
        1 <= dice.sides <= i32::MAX && dice.count >= 1 && first_handler(dice.modifiers@, 1) == 4 ==> crate::dice::handlers::d6_system_outcome(dice, r),
        1 <= dice.sides <= i32::MAX && dice.count >= 1 && first_handler(dice.modifiers@, 1) == 5 ==> crate::dice::handlers::marvel_outcome(dice, r),
        1 <= dice.sides <= i32::MAX && dice.count >= 1 && first_handler(dice.modifiers@, 1) == 6 ==> crate::dice::handlers::savage_worlds_outcome(dice, r),
        1 <= dice.sides <= i32::MAX && dice.count >= 1 && first_handler(dice.modifiers@, 1) == 7 ==> crate::dice::handlers::brave_new_world_outcome(dice, r),
        1 <= dice.sides <= i32::MAX && dice.count >= 1 && first_handler(dice.modifiers@, 1) == 8 ==> crate::dice::handlers::silhouette_outcome(dice, r),
        1 <= dice.sides <= i32::MAX && dice.count >= 1 && first_handler(dice.modifiers@, 1) == 9 ==> crate::dice::handlers::mutants_masterminds_outcome(dice, r),
        1 <= dice.sides <= i32::MAX && dice.count >= 1 && first_handler(dice.modifiers@, 1) == 10 ==> crate::dice::handlers::mothership_outcome(dice, r),
{
    let mut rng = crate::dice::rng::get_dice_rng();
    roll_with(&dice, &mut rng)
}

/// Roll `dice` drawing every die, and every die of its dice operands,
/// from `rng`.
pub fn roll_dice_with_rng(dice: DiceRoll, rng: &mut DiceRng) -> (r: Result<RollResult, DiceError>)
    ensures
        dice.sides < 1 || (dice.sides > i32::MAX && dice.count >= 1) ==> r is Err && crate::dice::err_msg(r) == sides_error(
            dice.sides,
        ),
        1 <= dice.sides && dice.count == 0 ==> r is Err && crate::dice::err_msg(r)
            == "Cannot roll 0 dice"@,
        r matches Ok(res) ==> carries_flags(res, dice),
        pool_request(dice) ==> (r is Ok <==> !any_keeps_none(dice.modifiers@) && !has_zero_divisor(dice.modifiers@)),
        pool_request(dice) && any_keeps_none(dice.modifiers@) ==> r is Err && crate::dice::err_msg(r)
            == "Cannot keep 0 dice"@,
        pool_request(dice) && !any_keeps_none(dice.modifiers@) && has_zero_divisor(dice.modifiers@)
            ==> crate::dice::arith::err_is_divide_by_zero(r),
        1 <= dice.sides <= i32::MAX && dice.count > MAX_DICE_POOL && first_handler(dice.modifiers@, 1) == 0
            && crate::dice::arith::advantage_level(dice.modifiers@) == 0 ==> r is Err && crate::dice::err_msg(r)
            == "Maximum 500 dice allowed (advantage/disadvantage adds 0 dice)"@,
        pool_request(dice) ==> (r matches Ok(res) ==> pool_outcome(res, dice)),
        explode_request(dice) ==> r is Ok && (r matches Ok(res) ==> explode_outcome(res, dice)),
        reroll_request(dice) ==> r is Ok && (r matches Ok(res) ==> reroll_outcome(res, dice)),
        implode_request(dice) ==> r is Ok && (r matches Ok(res) ==> implode_outcome(res, dice)),
        standard_request(dice) ==> (r is Ok <==> !any_keeps_none(dice.modifiers@) && !has_zero_divisor(dice.modifiers@)),
        standard_request(dice) && (counts_nothing(dice.modifiers@) || no_arith(dice.modifiers@) || arith_after_counting(dice.modifiers@)) ==> (r matches Ok(res) ==> standard_outcome(res, dice)),
        1 <= dice.sides <= i32::MAX && dice.count >= 1 && first_handler(dice.modifiers@, 1) == 1 ==> conan_skill_outcome(dice, r),
        1 <= dice.sides <= i32::MAX && dice.count >= 1 && first_handler(dice.modifiers@, 1) == 2 ==> crate::dice::handlers::conan_combat_outcome(dice, r),
        1 <= dice.sides <= i32::MAX && dice.count >= 1 && first_handler(dice.modifiers@, 1) == 3 ==> crate::dice::handlers::wfrp_outcome(dice, r),
        1 <= dice.sides <= i32::MAX && dice.count >= 1 && first_handler(dice.modifiers@, 1) == 4 ==> crate::dice::handlers::d6_system_outcome(dice, r),
        1 <= dice.sides <= i32::MAX && dice.count >= 1 && first_handler(dice.modifiers@, 1) == 5 ==> crate::dice::handlers::marvel_outcome(dice, r),
        1 <= dice.sides <= i32::MAX && dice.count >= 1 && first_handler(dice.modifiers@, 1) == 6 ==> crate::dice::handlers::savage_worlds_outcome(dice, r),
        1 <= dice.sides <= i32::MAX && dice.count >= 1 && first_handler(dice.modifiers@, 1) == 7 ==> crate::dice::handlers::brave_new_world_outcome(dice, r),
        1 <= dice.sides <= i32::MAX && dice.count >= 1 && first_handler(dice.modifiers@, 1) == 8 ==> crate::dice::handlers::silhouette_outcome(dice, r),
        1 <= dice.sides <= i32::MAX && dice.count >= 1 && first_handler(dice.modifiers@, 1) == 9 ==> crate::dice::handlers::mutants_masterminds_outcome(dice, r),
        1 <= dice.sides <= i32::MAX && dice.count >= 1 && first_handler(dice.modifiers@, 1) == 10 ==> crate::dice::handlers::mothership_outcome(dice, r),
{
    roll_with(&dice, rng)
}

/// A keep or drop modifier: `d#`, `k#`, `kl#`, `km#`.
pub open spec fn is_keep_drop(m: Modifier) -> bool {
    m is Drop || m is KeepHigh || m is KeepLow || m is KeepMiddle
}

/// A modifier that keeps or drops dice, or counts successes or failures
/// against a target: `k`, `kl`, `km`, `d`, `t`, `tl`, `f`.
pub open spec fn is_counting(m: Modifier) -> bool {
    is_keep_drop(m) || m is Target || m is TargetLower || m is Failure
}

/// Every modifier keeps, drops or counts, or explodes, implodes or rerolls.
pub open spec fn count_step_only(mods: Seq<Modifier>) -> bool {
    forall|i: int| 0 <= i < mods.len() ==> #[trigger] is_counting(mods[i]) || step_of(mods[i], DiceStep::Any)
}

pub open spec fn counting_only(mods: Seq<Modifier>) -> bool {
    forall|i: int| 0 <= i < mods.len() ==> is_counting(#[trigger] mods[i])
}

/// What one counting modifier does to a result: `t#` counts the kept dice at
/// or above the target as successes, `tl#` those at or below, `f#` those at
/// or below as failures (successes start at 0 then); keeping and dropping
/// were done before.
pub open spec fn count_step(r: RollResult, m: Modifier) -> RollResult {
    match m {
        Modifier::Target(v) => RollResult {
            successes: add_successes(r, count_in_range(r.kept_rolls@, (v as i32) as int, i32::MAX as int) as i32),
            ..r
        },
        Modifier::TargetLower(v) => RollResult {
            successes: add_successes(r, count_in_range(r.kept_rolls@, i32::MIN as int, (v as i32) as int) as i32),
            ..r
        },
        Modifier::Failure(v) => {
            let r1 = if r.successes is None { RollResult { successes: Some(0i32), ..r } } else { r };
            RollResult {
                failures: Some(
                    match r1.failures {
                        Some(f) => f,
                        None => 0,
                    }.wrapping_add(count_in_range(r1.kept_rolls@, i32::MIN as int, (v as i32) as int) as i32),
                ),
                ..r1
            }
        },
        _ => r,
    }
}

/// The counting modifiers applied in order.
pub open spec fn count_fold(r: RollResult, mods: Seq<Modifier>) -> RollResult
    decreases mods.len(),
{
    if mods.len() == 0 {
        r
    } else {
        count_step(count_fold(r, mods.drop_last()), mods.last())
    }
}

/// `b#` on a result: the kept dice at or below the threshold (1 when none
/// is given) are the botches, and a note says how many when there are any.
pub open spec fn botch_step(a: RollResult, b: RollResult, threshold: Option<u32>) -> bool {
    let t: u32 = match threshold {
        Some(t) => t,
        None => 1,
    };
    let n = count_in_range(a.kept_rolls@, i32::MIN as int, (t as i32) as int) as i32;
    &&& b.botches == Some(n)
    &&& notes_of(b) == if n > 0 {
        notes_of(a).push(crate::dice::systems::botch_note(n as int, t as int))
    } else {
        notes_of(a)
    }
    &&& b == (RollResult { botches: b.botches, notes: b.notes, ..a })
}

/// `gb` / `gbs` on a result written with no arithmetic: straight damage is
/// the total; otherwise each kept die is read on the damage chart, with a
/// note of each conversion and of the chart.
pub open spec fn godbound_step(a: RollResult, b: RollResult, straight: bool) -> bool {
    &&& straight ==> {
        &&& b.godbound_damage == Some(a.total)
        &&& notes_of(b) == notes_of(a).push("Straight damage (bypasses chart)"@)
    }
    &&& !straight ==> {
        &&& b.godbound_damage == Some(crate::dice::systems::godbound_sum(a.kept_rolls@) as i32)
        &&& notes_of(b) == notes_of(a) + crate::dice::systems::godbound_per_die_notes(a.kept_rolls@)
    }
    &&& b == (RollResult { godbound_damage: b.godbound_damage, notes: b.notes, ..a })
}

/// A modifier whose effect on a result needs no die rolled and cannot
/// fail: keeping, dropping, counting successes (also double ones), failures
/// and botches, Alien sixes, cancelling, Shadowrun glitches, Wrath & Glory
/// and Godbound damage.
pub open spec fn is_tally(m: Modifier) -> bool {
    is_counting(m) || m is Botch || m is Godbound || m is Alien || m is TargetWithDoubleSuccess
        || m is TargetLowerWithDoubleSuccess || m is Cancel || m is Shadowrun || m is WrathGlory
}

pub open spec fn tally_only(mods: Seq<Modifier>) -> bool {
    forall|i: int| 0 <= i < mods.len() ==> is_tally(#[trigger] mods[i])
}

/// What one such modifier does to a result.
pub open spec fn tally_step(a: RollResult, b: RollResult, m: Modifier) -> bool {
    match m {
        Modifier::Botch(t) => botch_step(a, b, t),
        Modifier::Godbound(straight) => godbound_step(a, b, straight),
        Modifier::Alien => crate::dice::systems::alien_step(a, b),
        Modifier::TargetWithDoubleSuccess(t, d) => crate::dice::systems::double_success_step(a, b, t, d),
        Modifier::TargetLowerWithDoubleSuccess(t, d) => crate::dice::systems::lower_double_success_step(a, b, t, d),
        Modifier::Cancel => crate::dice::systems::cancel_step(a, b),
        Modifier::Shadowrun(n) => crate::dice::systems::shadowrun_step(a, b, n),
        Modifier::WrathGlory(dn, use_total, wrath) => crate::dice::systems::wrath_glory_step(a, b, dn, use_total, wrath),
        _ => b == count_step(a, m),
    }
}

/// `states` are the results before and after each modifier of `mods` in
/// turn, starting from `start`.
pub open spec fn tally_trace(states: Seq<RollResult>, start: RollResult, mods: Seq<Modifier>) -> bool {
    &&& states.len() == mods.len() + 1
    &&& states[0] == start
    &&& forall|i: int| 0 <= i < mods.len() ==> tally_step(states[i], #[trigger] states[i + 1], mods[i])
}

/// Failures taken away from successes, once both were counted.
pub open spec fn settle_failures(r: RollResult) -> RollResult {
    match (r.successes, r.failures) {
        (Some(s), Some(f)) => RollResult { successes: Some(s.wrapping_sub(f)), ..r },
        _ => r,
    }
}

/// Successes and failures that the counting modifiers of `mods` count over
/// the dice `kept`, in the order written, before failures are taken away.
pub open spec fn tally(mods: Seq<Modifier>, kept: Seq<i32>) -> (Option<i32>, Option<i32>)
    decreases mods.len(),
{
    if mods.len() == 0 {
        (None, None)
    } else {
        let (s, f) = tally(mods.drop_last(), kept);
        let s0: i32 = match s {
            Some(x) => x,
            None => 0,
        };
        let f0: i32 = match f {
            Some(x) => x,
            None => 0,
        };
        match mods.last() {
            Modifier::Target(v) => (
                Some(s0.wrapping_add(count_in_range(kept, (v as i32) as int, i32::MAX as int) as i32)),
                f,
            ),
            Modifier::TargetLower(v) => (
                Some(s0.wrapping_add(count_in_range(kept, i32::MIN as int, (v as i32) as int) as i32)),
                f,
            ),
            Modifier::Failure(v) => (
                Some(s0),
                Some(f0.wrapping_add(count_in_range(kept, i32::MIN as int, (v as i32) as int) as i32)),
            ),
            _ => (s, f),
        }
    }
}

/// The successes reported once failures are taken away from them.
pub open spec fn net_successes(t: (Option<i32>, Option<i32>)) -> Option<i32> {
    match t {
        (Some(s), Some(f)) => Some(s.wrapping_sub(f)),
        (s, _) => s,
    }
}

/// No modifier adds dice: `+NdS` rolls no extra pool.
pub open spec fn no_added_dice(mods: Seq<Modifier>) -> bool {
    forall|i: int| 0 <= i < mods.len() ==> !(#[trigger] mods[i] is AddDice)
}

/// A keep modifier asks to keep no die.
pub open spec fn keeps_none(m: Modifier) -> bool {
    m == Modifier::KeepHigh(0) || m == Modifier::KeepLow(0) || m == Modifier::KeepMiddle(0)
}

pub open spec fn any_keeps_none(mods: Seq<Modifier>) -> bool {
    exists|i: int| 0 <= i < mods.len() && keeps_none(#[trigger] mods[i])
}

/// A keep or drop modifier, or a number added, subtracted, multiplied by
/// or divided by.
pub open spec fn is_keep_or_math(m: Modifier) -> bool {
    is_keep_drop(m) || crate::dice::arith::arith_of(m) is Some
}

pub open spec fn keep_math_only(mods: Seq<Modifier>) -> bool {
    forall|i: int| 0 <= i < mods.len() ==> is_keep_or_math(#[trigger] mods[i])
}

/// Modifiers of a plain pool: either only keeping, dropping and counting, or
/// only keeping, dropping and arithmetic (not the `number / dice` form).
pub open spec fn pool_mods(mods: Seq<Modifier>) -> bool {
    (counting_only(mods) || keep_math_only(mods)) && !is_number_over_dice(mods)
}

/// A request whose modifiers only keep, drop and count dice, or keep, drop
/// and do arithmetic, within the pool and side limits: `4d6`, `4d6 k3`,
/// `2d20 kl1`, `5d10 d2 km2`, `10d10 t7 f1`, `4d6 k3 + 2 * 3`.
pub open spec fn pool_request(d: DiceRoll) -> bool {
    &&& pool_mods(d.modifiers@)
    &&& 1 <= d.sides <= i32::MAX
    &&& 1 <= d.count <= MAX_DICE_POOL
}

/// The outcome of a pool request: `count` dice were rolled in range; the
/// keep and drop modifiers, applied in the order written, left exactly the
/// dice in the pool and the dice dropped, the first dice group shows the
/// dice rolled; the total is the sum of the kept
/// dice with the arithmetic applied strictly left to right; successes and
/// failures are those the counting modifiers count over
/// the kept dice, failures taken away from successes; nothing else is
/// counted.
pub open spec fn pool_outcome(r: RollResult, d: DiceRoll) -> bool {
    &&& exists|pool: Seq<i32>|
        #![trigger keep_drop_fold(d.modifiers@, pool, Seq::<i32>::empty())]
        pool.len() == d.count && in_die_range(pool, d.sides as int) && keep_drop_fold(
            d.modifiers@,
            pool,
            Seq::<i32>::empty(),
        ) == Some((r.individual_rolls@, r.dropped_rolls@)) && r.dice_groups@.len() >= 1
            && r.dice_groups@[0].rolls@.to_multiset() == pool.to_multiset()
    &&& r.kept_rolls@.to_multiset() == r.individual_rolls@.to_multiset()
    &&& !d.unsorted ==> crate::dice::pool::sorted_desc(r.kept_rolls@)
    &&& d.unsorted ==> r.kept_rolls@ == r.individual_rolls@
    &&& r.total == math_fold(d.modifiers@, crate::dice::systems::wsum(r.individual_rolls@), true)
    &&& r.successes == net_successes(tally(d.modifiers@, r.individual_rolls@))
    &&& r.failures == tally(d.modifiers@, r.individual_rolls@).1
    &&& r.botches is None
    &&& notes_of(r).len() == 0
}

/// A request whose one modifier is an explosion, `e#` or `ie#`, within the
/// pool and side limits: `3d6 e6`, `1d10 ie`.
pub open spec fn explode_request(d: DiceRoll) -> bool {
    &&& d.modifiers@.len() == 1
    &&& step_of(d.modifiers@[0], DiceStep::Explode)
    &&& 1 <= d.sides <= i32::MAX
    &&& 1 <= d.count <= MAX_DICE_POOL
}

/// The threshold of an explosion request: the number written, else the
/// die's maximum.
pub open spec fn explode_threshold(d: DiceRoll) -> int {
    let t: Option<u32> = match d.modifiers@[0] {
        Modifier::Explode(t) => t,
        Modifier::ExplodeIndefinite(t) => t,
        _ => None,
    };
    let e: u32 = match t {
        Some(v) => v,
        None => d.sides,
    };
    (e as i32) as int
}

/// The notes an explosion leaves: none when no die exploded; else how many
/// did, after a note that `ie#` stopped at its cap of 100 added dice.
pub open spec fn explode_notes(added: nat, capped: bool) -> Seq<Seq<char>> {
    if added == 0 {
        seq![]
    } else if capped {
        seq!["Maximum explosions reached (100)"@, explosion_note(added, false)]
    } else {
        seq![explosion_note(added, false)]
    }
}

/// The outcome of an explosion request: `count` dice were rolled and stay
/// first, every die within the die's sides; `e#` added one die for each of
/// them at or above the threshold; `ie#` let the added dice explode too,
/// stopping at 100 added dice; every die is kept and the total is their
/// sum; the notes say how many dice exploded; nothing is counted.
pub open spec fn explode_outcome(r: RollResult, d: DiceRoll) -> bool {
    let rolls = r.individual_rolls@;
    let n = d.count as int;
    let added = rolls.len() - n;
    let e = explode_threshold(d);
    let indefinite = d.modifiers@[0] is ExplodeIndefinite;
    &&& n <= rolls.len()
    &&& in_die_range(rolls, d.sides as int)
    &&& !indefinite ==> added == count_in_range(rolls.take(n), e, i32::MAX as int)
    &&& indefinite ==> added <= 100
    &&& indefinite && added < 100 ==> added == count_in_range(rolls, e, i32::MAX as int)
    &&& notes_of(r) == explode_notes(added as nat, indefinite && added == 100)
    &&& r.kept_rolls@.to_multiset() == rolls.to_multiset()
    &&& !d.unsorted ==> crate::dice::pool::sorted_desc(r.kept_rolls@)
    &&& r.dropped_rolls@.len() == 0
    &&& r.total == crate::dice::systems::wsum(rolls)
    &&& r.successes is None && r.failures is None && r.botches is None
}

/// What the explosion of an explosion request does to a result: the dice
/// already rolled stay first; `e#` adds one die for each of them at or above
/// the threshold; `ie#` lets the added dice explode too, up to 100 added
/// dice; the notes say how many exploded; only the dice, the groups and the
/// notes change.
pub open spec fn explode_effect(a: RollResult, b: RollResult, d: DiceRoll) -> bool {
    let added = b.individual_rolls@.len() - a.individual_rolls@.len();
    let e = explode_threshold(d);
    let indefinite = d.modifiers@[0] is ExplodeIndefinite;
    &&& a.individual_rolls@.len() <= b.individual_rolls@.len()
    &&& b.individual_rolls@.take(a.individual_rolls@.len() as int) == a.individual_rolls@
    &&& !indefinite ==> added == count_in_range(a.individual_rolls@, e, i32::MAX as int)
    &&& indefinite ==> added <= 100
    &&& indefinite && added < 100 ==> added == count_in_range(b.individual_rolls@, e, i32::MAX as int)
    &&& notes_of(b) == notes_of(a) + explode_notes(added as nat, indefinite && added == 100)
    &&& b == (RollResult { individual_rolls: b.individual_rolls, dice_groups: b.dice_groups, notes: b.notes, ..a })
}

/// A request whose one modifier is a reroll, `r#`, `ir#`, `rg#` or `irg#`,
/// within the pool and side limits: `4d6 r1`, `3d10 ir2`.
pub open spec fn reroll_request(d: DiceRoll) -> bool {
    &&& d.modifiers@.len() == 1
    &&& step_of(d.modifiers@[0], DiceStep::Reroll)
    &&& 1 <= d.sides <= i32::MAX
    &&& 1 <= d.count <= MAX_DICE_POOL
}

/// A reroll modifier's threshold, the side of it that calls for a reroll,
/// and whether rerolled dice are rerolled again.
pub open spec fn reroll_parts(m: Modifier) -> (u32, RerollDirection, bool) {
    match m {
        Modifier::Reroll(t) => (t, RerollDirection::AtOrBelow, false),
        Modifier::RerollIndefinite(t) => (t, RerollDirection::AtOrBelow, true),
        Modifier::RerollGreater(t) => (t, RerollDirection::AtOrAbove, false),
        Modifier::RerollGreaterIndefinite(t) => (t, RerollDirection::AtOrAbove, true),
        _ => (0, RerollDirection::AtOrBelow, false),
    }
}

/// `rolls` are what the reroll `m` left of `pool`: as many dice, and every
/// die that did not call for a reroll kept where it was.
pub open spec fn rerolled_from(pool: Seq<i32>, rolls: Seq<i32>, m: Modifier) -> bool {
    let (t, dir, _) = reroll_parts(m);
    &&& rolls.len() == pool.len()
    &&& forall|j: int| 0 <= j < pool.len() && !dir.spec_triggers(#[trigger] pool[j], t) ==> rolls[j] == pool[j]
}

/// `k` rerolls were made, at most 100, and the notes say so; unless the cap
/// was reached, an indefinite reroll left no die that calls for one.
pub open spec fn rerolls_noted(notes: Seq<Seq<char>>, rolls: Seq<i32>, m: Modifier) -> bool {
    let (t, dir, indefinite) = reroll_parts(m);
    exists|k: nat|
        k <= 100 && notes == #[trigger] reroll_notes(k) && (indefinite && k < 100 ==> forall|j: int|
            0 <= j < rolls.len() ==> !dir.spec_triggers(#[trigger] rolls[j], t))
}

/// The outcome of a reroll request: `count` dice were rolled within the
/// die's sides; the reroll kept every die that did not call for one and
/// rolled the others again, at most 100 times in all (an indefinite reroll
/// until none calls for one, unless that cap was reached); every die stays
/// within the sides and is kept; the total is their sum; the notes say how
/// many dice were rerolled; nothing is counted.
pub open spec fn reroll_outcome(r: RollResult, d: DiceRoll) -> bool {
    let rolls = r.individual_rolls@;
    let m = d.modifiers@[0];
    &&& exists|pool: Seq<i32>|
        pool.len() == d.count && in_die_range(pool, d.sides as int) && #[trigger] rerolled_from(pool, rolls, m)
    &&& in_die_range(rolls, d.sides as int)
    &&& rerolls_noted(notes_of(r), rolls, m)
    &&& r.kept_rolls@.to_multiset() == rolls.to_multiset()
    &&& !d.unsorted ==> crate::dice::pool::sorted_desc(r.kept_rolls@)
    &&& r.dropped_rolls@.len() == 0
    &&& r.total == crate::dice::systems::wsum(rolls)
    &&& r.successes is None && r.failures is None && r.botches is None
}

/// What the reroll of a reroll request does to a result: the dice are
/// rerolled as `rerolled_from` says, the notes grow by the reroll notes,
/// and only the dice, the groups and the notes change.
pub open spec fn reroll_effect(a: RollResult, b: RollResult, d: DiceRoll) -> bool {
    &&& rerolled_from(a.individual_rolls@, b.individual_rolls@, d.modifiers@[0])
    &&& exists|extra: Seq<Seq<char>>|
        notes_of(b) == notes_of(a) + extra && #[trigger] rerolls_noted(extra, b.individual_rolls@, d.modifiers@[0])
    &&& b == (RollResult { individual_rolls: b.individual_rolls, dice_groups: b.dice_groups, notes: b.notes, ..a })
}

/// A request whose one modifier is an implosion, `i#`, within the pool and
/// side limits: `6d6 i2`.
pub open spec fn implode_request(d: DiceRoll) -> bool {
    &&& d.modifiers@.len() == 1
    &&& d.modifiers@[0] is Implode
    &&& 1 <= d.sides <= i32::MAX
    &&& 1 <= d.count <= MAX_DICE_POOL
}

/// The threshold of an implosion request: the number written, else 1.
pub open spec fn implode_threshold(d: DiceRoll) -> int {
    let e: u32 = match d.modifiers@[0] {
        Modifier::Implode(Some(t)) => t,
        _ => 1,
    };
    (e as i32) as int
}

/// What the implosion of an implosion request does to a result: the dice
/// stay; one die is rolled for each die at or below the threshold and set
/// apart to be subtracted; a note says how many; only those dice, the groups
/// and the notes change.
pub open spec fn implode_effect(a: RollResult, b: RollResult, d: DiceRoll) -> bool {
    let imp = b.implosion_rolls@.skip(a.implosion_rolls@.len() as int);
    &&& b.implosion_rolls@.take(a.implosion_rolls@.len() as int) == a.implosion_rolls@
    &&& a.implosion_rolls@.len() <= b.implosion_rolls@.len()
    &&& imp.len() == count_in_range(a.individual_rolls@, i32::MIN as int, implode_threshold(d))
    &&& in_die_range(imp, d.sides as int)
    &&& notes_of(b) == notes_of(a) + implode_notes(imp.len())
    &&& b == (RollResult { implosion_rolls: b.implosion_rolls, dice_groups: b.dice_groups, notes: b.notes, ..a })
}

/// The outcome of an implosion request: `count` dice were rolled within the
/// die's sides and all are kept; one more die was rolled for each of them at
/// or below the threshold, and those are subtracted from their sum to give
/// the total; a note says how many dice imploded; nothing is counted.
pub open spec fn implode_outcome(r: RollResult, d: DiceRoll) -> bool {
    let rolls = r.individual_rolls@;
    let imp = r.implosion_rolls@;
    &&& rolls.len() == d.count
    &&& in_die_range(rolls, d.sides as int)
    &&& imp.len() == count_in_range(rolls, i32::MIN as int, implode_threshold(d))
    &&& in_die_range(imp, d.sides as int)
    &&& notes_of(r) == implode_notes(imp.len())
    &&& r.kept_rolls@.to_multiset() == rolls.to_multiset()
    &&& !d.unsorted ==> crate::dice::pool::sorted_desc(r.kept_rolls@)
    &&& r.dropped_rolls@.len() == 0
    &&& r.total == crate::dice::systems::wsum(rolls).wrapping_sub(crate::dice::systems::wsum(imp))
    &&& r.successes is None && r.failures is None && r.botches is None
}

/// A modifier of the standard pipeline: exploding, imploding, rerolling,
/// keeping, dropping, counting successes or failures, or a number added,
/// subtracted, multiplied or divided by.
pub open spec fn is_standard(m: Modifier) -> bool {
    step_of(m, DiceStep::Any) || is_counting(m) || crate::dice::arith::arith_of(m) is Some
}

/// A request that the standard pipeline rolls, modifiers combined in any
/// order, within the pool and side limits: `10d6 e6 k8 +4`,
/// `4d10 t8 ie10 f1`.
pub open spec fn standard_request(d: DiceRoll) -> bool {
    &&& forall|i: int| 0 <= i < d.modifiers@.len() ==> is_standard(#[trigger] d.modifiers@[i])
    &&& !is_number_over_dice(d.modifiers@)
    &&& 1 <= d.sides <= i32::MAX
    &&& 1 <= d.count <= MAX_DICE_POOL
}

/// No modifier counts successes or failures.
pub open spec fn counts_nothing(mods: Seq<Modifier>) -> bool {
    forall|i: int| 0 <= i < mods.len() ==> !(#[trigger] mods[i] is Target || mods[i] is TargetLower || mods[i] is Failure)
}

/// No modifier is arithmetic.
pub open spec fn no_arith(mods: Seq<Modifier>) -> bool {
    forall|i: int| 0 <= i < mods.len() ==> crate::dice::arith::arith_of(#[trigger] mods[i]) is None
}

/// The outcome of a standard request that does no arithmetic before a
/// counting modifier: every die left in the pool is kept; the total is their
/// sum less the imploded dice, with the arithmetic applied strictly left to
/// right; the successes and failures are those the counting modifiers count
/// over the kept dice, failures taken away from successes, and the
/// arithmetic applied to the successes too when a target was counted
/// against.
pub open spec fn standard_outcome(r: RollResult, d: DiceRoll) -> bool {
    let rolls = r.individual_rolls@;
    &&& r.kept_rolls@.to_multiset() == rolls.to_multiset()
    &&& !d.unsorted ==> crate::dice::pool::sorted_desc(r.kept_rolls@)
    &&& r.total == math_fold(
        d.modifiers@,
        crate::dice::systems::wsum(rolls).wrapping_sub(crate::dice::systems::wsum(r.implosion_rolls@)),
        true,
    )
    &&& counts_nothing(d.modifiers@) ==> r.successes is None && r.failures is None
    &&& no_arith(d.modifiers@) ==> r.successes == net_successes(tally(d.modifiers@, rolls)) && r.failures == tally(
        d.modifiers@,
        rolls,
    ).1
    &&& arith_after_counting(d.modifiers@) ==> r.successes == standard_successes(
        d.modifiers@,
        net_successes(tally(d.modifiers@, rolls)),
    ) && r.failures == tally(d.modifiers@, rolls).1
    &&& r.botches is None
}

/// Every modifier belongs to the standard pipeline.
pub open spec fn standard_only(mods: Seq<Modifier>) -> bool {
    forall|i: int| 0 <= i < mods.len() ==> is_standard(#[trigger] mods[i])
}

/// No arithmetic modifier comes before a modifier that counts successes,
/// failures or botches.
pub open spec fn arith_after_counting(mods: Seq<Modifier>) -> bool {
    forall|i: int, j: int|
        0 <= i < j < mods.len() ==> !(crate::dice::arith::arith_of(#[trigger] mods[i]) is Some
            && crate::dice::arith::is_target_modifier(#[trigger] mods[j]))
}

/// Some modifier counts successes against a target.
pub open spec fn any_target(mods: Seq<Modifier>) -> bool {
    exists|j: int| 0 <= j < mods.len() && (#[trigger] mods[j] is Target || mods[j] is TargetLower)
}

/// The successes of a standard request whose arithmetic all follows its
/// counting: counted over the kept dice, failures taken away, then, when a
/// target was counted against, the arithmetic applied to them as well.
pub open spec fn standard_successes(mods: Seq<Modifier>, counted: Option<i32>) -> Option<i32> {
    match counted {
        Some(s) => if any_target(mods) && !no_arith(mods) {
            Some(crate::dice::arith::fold_arith(mods, s))
        } else {
            Some(s)
        },
        None => None,
    }
}

/// Dropping the modifiers that are not arithmetic changes no fold.
proof fn lemma_fold_arith_filter(s: Seq<Modifier>, v: i32)
    ensures
        crate::dice::arith::fold_arith(s.filter(|m: Modifier| crate::dice::arith::arith_of(m) is Some), v)
            == crate::dice::arith::fold_arith(s, v),
    decreases s.len(),
{
    reveal(Seq::filter);
    if s.len() > 0 {
        lemma_fold_arith_filter(s.drop_last(), v);
        let f = s.filter(|m: Modifier| crate::dice::arith::arith_of(m) is Some);
        let g = s.drop_last().filter(|m: Modifier| crate::dice::arith::arith_of(m) is Some);
        if crate::dice::arith::arith_of(s.last()) is Some {
            assert(f == g.push(s.last()));
            assert(f.drop_last() =~= g);
        } else {
            assert(f == g);
        }
    }
}

/// Modifiers none of which is arithmetic keep none when filtered for it.
proof fn lemma_filter_arith_empty(s: Seq<Modifier>)
    requires
        forall|i: int| 0 <= i < s.len() ==> crate::dice::arith::arith_of(#[trigger] s[i]) is None,
    ensures
        s.filter(|m: Modifier| crate::dice::arith::arith_of(m) is Some).len() == 0,
    decreases s.len(),
{
    reveal(Seq::filter);
    if s.len() > 0 {
        assert(crate::dice::arith::arith_of(s[s.len() - 1]) is None);
        assert forall|i: int| 0 <= i < s.drop_last().len() implies crate::dice::arith::arith_of(
            #[trigger] s.drop_last()[i],
        ) is None by {
            assert(s.drop_last()[i] == s[i]);
        }
        lemma_filter_arith_empty(s.drop_last());
    }
}

/// Folding a concatenation folds its parts in turn.
proof fn lemma_fold_arith_concat(a: Seq<Modifier>, b: Seq<Modifier>, v: i32)
    ensures
        crate::dice::arith::fold_arith(a + b, v) == crate::dice::arith::fold_arith(b, crate::dice::arith::fold_arith(a, v)),
    decreases b.len(),
{
    if b.len() == 0 {
        assert(a + b =~= a);
    } else {
        lemma_fold_arith_concat(a, b.drop_last(), v);
        assert((a + b).drop_last() =~= a + b.drop_last());
    }
}

/// A fold over modifiers none of which is arithmetic leaves the value.
proof fn lemma_fold_arith_none(s: Seq<Modifier>, v: i32)
    requires
        forall|i: int| 0 <= i < s.len() ==> crate::dice::arith::arith_of(#[trigger] s[i]) is None,
    ensures
        crate::dice::arith::fold_arith(s, v) == v,
    decreases s.len(),
{
    if s.len() > 0 {
        assert(crate::dice::arith::arith_of(s[s.len() - 1]) is None);
        assert forall|i: int| 0 <= i < s.drop_last().len() implies crate::dice::arith::arith_of(
            #[trigger] s.drop_last()[i],
        ) is None by {
            assert(s.drop_last()[i] == s[i]);
        }
        lemma_fold_arith_none(s.drop_last(), v);
    }
}

/// When no arithmetic comes before position `p + 1`, the arithmetic after
/// `p` folds as all of it does.
proof fn lemma_fold_arith_tail(mods: Seq<Modifier>, p: int, v: i32)
    requires
        0 <= p < mods.len(),
        forall|i: int| 0 <= i <= p ==> crate::dice::arith::arith_of(#[trigger] mods[i]) is None,
    ensures
        crate::dice::arith::fold_arith(
            mods.subrange(p + 1, mods.len() as int).filter(|m: Modifier| crate::dice::arith::arith_of(m) is Some),
            v,
        ) == crate::dice::arith::fold_arith(mods, v),
{
    let a = mods.subrange(0, p + 1);
    let b = mods.subrange(p + 1, mods.len() as int);
    assert(mods =~= a + b);
    assert forall|i: int| 0 <= i < a.len() implies crate::dice::arith::arith_of(#[trigger] a[i]) is None by {
        assert(a[i] == mods[i]);
    }
    lemma_fold_arith_none(a, v);
    lemma_fold_arith_concat(a, b, v);
    lemma_fold_arith_filter(b, v);
}

/// Arithmetic that holds no arithmetic modifier leaves a value as it is.
proof fn lemma_no_arith_fold(mods: Seq<Modifier>, v: i32)
    requires
        no_arith(mods),
    ensures
        math_fold(mods, v, true) == v,
    decreases mods.len(),
{
    if mods.len() > 0 {
        assert(crate::dice::arith::arith_of(mods[mods.len() - 1]) is None);
        assert forall|i: int| 0 <= i < mods.drop_last().len() implies crate::dice::arith::arith_of(
            #[trigger] mods.drop_last()[i],
        ) is None by {
            assert(mods.drop_last()[i] == mods[i]);
        }
        lemma_no_arith_fold(mods.drop_last(), v);
    }
}

/// The modifiers of a standard request select no handler and carry no
/// advantage and no dice operand.
proof fn lemma_standard_inert(mods: Seq<Modifier>)
    requires
        forall|i: int| 0 <= i < mods.len() ==> is_standard(#[trigger] mods[i]),
    ensures
        crate::dice::arith::advantage_level(mods) == 0,
        !has_dice_operand(mods),
        first_handler(mods, 1) == 0,
    decreases mods.len(),
{
    if mods.len() > 0 {
        assert(is_standard(mods[mods.len() - 1]));
        assert forall|i: int| 0 <= i < mods.drop_last().len() implies is_standard(#[trigger] mods.drop_last()[i]) by {
            assert(mods.drop_last()[i] == mods[i]);
        }
        lemma_standard_inert(mods.drop_last());
        assert forall|i: int| 0 <= i < mods.len() implies !is_dice_operand(#[trigger] mods[i]) by {
            assert(is_standard(mods[i]));
        }
    }
    lemma_standard_no_handler(mods, 1);
}

proof fn lemma_standard_no_handler(mods: Seq<Modifier>, c: int)
    requires
        forall|i: int| 0 <= i < mods.len() ==> is_standard(#[trigger] mods[i]),
    ensures
        first_handler(mods, c) == 0,
    decreases 11 - c,
{
    if 1 <= c <= 10 {
        assert forall|i: int| 0 <= i < mods.len() implies handler_of(#[trigger] mods[i]) != c by {
            assert(is_standard(mods[i]));
        }
        lemma_standard_no_handler(mods, c + 1);
    }
}

/// Modifiers that the game-system stage passes over: keeping, dropping,
/// arithmetic, explosions, implosions and rerolls.
pub open spec fn system_inert(m: Modifier) -> bool {
    is_keep_or_math(m) || step_of(m, DiceStep::Any)
}

pub open spec fn system_inert_only(mods: Seq<Modifier>) -> bool {
    forall|i: int| 0 <= i < mods.len() ==> system_inert(#[trigger] mods[i])
}

/// The modifiers of an explosion, implosion or reroll request select no
/// handler and change nothing but the dice.
proof fn lemma_dice_step_inert(d: DiceRoll)
    requires
        explode_request(d) || reroll_request(d) || implode_request(d),
    ensures
        crate::dice::arith::advantage_level(d.modifiers@) == 0,
        !has_dice_operand(d.modifiers@),
        !has_zero_divisor(d.modifiers@),
        !is_number_over_dice(d.modifiers@),
        forall|v: i32| math_fold(d.modifiers@, v, true) == v,
        forall|ind: Seq<i32>, dr: Seq<i32>| keep_drop_fold(d.modifiers@, ind, dr) == Some((ind, dr)),
        first_handler(d.modifiers@, 1) == 0,
        system_inert_only(d.modifiers@),
        !counting_only(d.modifiers@),
        !tally_only(d.modifiers@),
        !pool_mods(d.modifiers@),
        !implode_request(d) ==> !has_modifier_of(d.modifiers@, DiceStep::Implode),
        !exists|i: int| 0 <= i < d.modifiers@.len() && #[trigger] d.modifiers@[i] is DarkHeresy,
{
    let mods = d.modifiers@;
    let m = mods[0];
    assert(mods.drop_last() =~= Seq::<Modifier>::empty());
    assert(mods.last() == m);
    assert(crate::dice::arith::advantage_level(mods.drop_last()) == 0);
    assert(crate::dice::arith::arith_of(m) is None);
    assert forall|v: i32| math_fold(mods, v, true) == v by {
        assert(math_fold(mods.drop_last(), v, true) == v);
    }
    assert forall|ind: Seq<i32>, dr: Seq<i32>| keep_drop_fold(mods, ind, dr) == Some((ind, dr)) by {
        assert(keep_drop_fold(mods.drop_last(), ind, dr) == Some((ind, dr)));
        assert(keep_drop_step(m, ind, dr) == Some((ind, dr)));
    }
    assert(!crate::dice::arith::is_zero_divide(m));
    assert(!is_dice_operand(m));
    assert(handler_of(m) == 0);
    lemma_inert_no_handler(mods, 1);
    assert(!is_counting(mods[0]));
    assert(!is_tally(mods[0]));
    assert(!is_keep_or_math(mods[0]));
    if !implode_request(d) {
        assert(!step_of(mods[0], DiceStep::Implode));
    }
}

/// Modifiers that the game-system stage passes over select no handler.
proof fn lemma_inert_no_handler(mods: Seq<Modifier>, c: int)
    requires
        system_inert_only(mods),
    ensures
        first_handler(mods, c) == 0,
    decreases 11 - c,
{
    if 1 <= c <= 10 {
        assert forall|i: int| 0 <= i < mods.len() implies handler_of(#[trigger] mods[i]) != c by {
            assert(system_inert(mods[i]));
        }
        lemma_inert_no_handler(mods, c + 1);
    }
}

/// Keeping, dropping and counting carry no advantage, arithmetic or dice
/// operand.
proof fn lemma_counting_only_inert(mods: Seq<Modifier>, v: i32, skip_zero: bool)
    requires
        counting_only(mods),
    ensures
        crate::dice::arith::advantage_level(mods) == 0,
        math_fold(mods, v, skip_zero) == v,
        !has_zero_divisor(mods),
        !has_dice_operand(mods),
        !is_number_over_dice(mods),
    decreases mods.len(),
{
    if mods.len() > 0 {
        assert(is_counting(mods[mods.len() - 1]));
        assert forall|i: int| 0 <= i < mods.drop_last().len() implies is_counting(#[trigger] mods.drop_last()[i]) by {
            assert(mods.drop_last()[i] == mods[i]);
        }
        lemma_counting_only_inert(mods.drop_last(), v, skip_zero);
        assert forall|i: int| 0 <= i < mods.len() implies !crate::dice::arith::is_zero_divide(#[trigger] mods[i]) by {
            assert(is_counting(mods[i]));
        }
        assert forall|i: int| 0 <= i < mods.len() implies !is_dice_operand(#[trigger] mods[i]) by {
            assert(is_counting(mods[i]));
        }
        assert(is_counting(mods[0]));
    }
}

/// Keeping, dropping and arithmetic carry no advantage and no dice operand.
proof fn lemma_keep_math_inert(mods: Seq<Modifier>)
    requires
        keep_math_only(mods),
    ensures
        crate::dice::arith::advantage_level(mods) == 0,
        !has_dice_operand(mods),
    decreases mods.len(),
{
    if mods.len() > 0 {
        assert(is_keep_or_math(mods[mods.len() - 1]));
        assert forall|i: int| 0 <= i < mods.drop_last().len() implies is_keep_or_math(#[trigger] mods.drop_last()[i]) by {
            assert(mods.drop_last()[i] == mods[i]);
        }
        lemma_keep_math_inert(mods.drop_last());
        assert forall|i: int| 0 <= i < mods.len() implies !is_dice_operand(#[trigger] mods[i]) by {
            assert(is_keep_or_math(mods[i]));
        }
    }
}

/// The modifiers of a plain pool select no handler and no dice modifier.
pub proof fn lemma_pool_mods_inert(mods: Seq<Modifier>)
    requires
        pool_mods(mods),
    ensures
        crate::dice::arith::advantage_level(mods) == 0,
        !has_dice_operand(mods),
        !has_modifier_of(mods, DiceStep::Any),
        first_handler(mods, 1) == 0,
        counting_only(mods) ==> !has_zero_divisor(mods) && forall|v: i32| math_fold(mods, v, true) == v,
{
    if counting_only(mods) {
        lemma_counting_only_inert(mods, 0, true);
        assert forall|v: i32| math_fold(mods, v, true) == v by {
            lemma_counting_only_inert(mods, v, true);
        }
        lemma_counting_no_handler(mods, 1);
        assert forall|i: int| 0 <= i < mods.len() implies !step_of(#[trigger] mods[i], DiceStep::Any) by {
            assert(is_counting(mods[i]));
        }
    } else {
        lemma_keep_math_inert(mods);
        lemma_keep_math_no_handler(mods, 1);
        assert forall|i: int| 0 <= i < mods.len() implies !step_of(#[trigger] mods[i], DiceStep::Any) by {
            assert(is_keep_or_math(mods[i]));
        }
    }
}

/// Keeping, dropping and arithmetic count nothing.
proof fn lemma_keep_math_tally(mods: Seq<Modifier>, kept: Seq<i32>)
    requires
        keep_math_only(mods),
    ensures
        tally(mods, kept) == (None::<i32>, None::<i32>),
    decreases mods.len(),
{
    if mods.len() > 0 {
        assert(is_keep_or_math(mods[mods.len() - 1]));
        assert forall|i: int| 0 <= i < mods.drop_last().len() implies is_keep_or_math(#[trigger] mods.drop_last()[i]) by {
            assert(mods.drop_last()[i] == mods[i]);
        }
        lemma_keep_math_tally(mods.drop_last(), kept);
    }
}

proof fn lemma_keep_math_no_handler(mods: Seq<Modifier>, c: int)
    requires
        keep_math_only(mods),
    ensures
        first_handler(mods, c) == 0,
    decreases 11 - c,
{
    if 1 <= c <= 10 {
        assert forall|i: int| 0 <= i < mods.len() implies handler_of(#[trigger] mods[i]) != c by {
            assert(is_keep_or_math(mods[i]));
        }
        lemma_keep_math_no_handler(mods, c + 1);
    }
}

/// The counting steps change only the successes and the failures, and count
/// over the kept dice: what they leave is the tally of those dice.
proof fn lemma_count_fold_tally(r: RollResult, mods: Seq<Modifier>)
    requires
        r.successes is None,
        r.failures is None,
    ensures
        count_fold(r, mods) == (RollResult {
            successes: tally(mods, r.kept_rolls@).0,
            failures: tally(mods, r.kept_rolls@).1,
            ..r
        }),
    decreases mods.len(),
{
    if mods.len() > 0 {
        lemma_count_fold_tally(r, mods.drop_last());
    }
}

/// The keep/drop fold fails exactly when some modifier keeps no die.
proof fn lemma_keep_drop_fold_fails(mods: Seq<Modifier>, ind: Seq<i32>, dr: Seq<i32>)
    ensures
        keep_drop_fold(mods, ind, dr) is None <==> any_keeps_none(mods),
    decreases mods.len(),
{
    if mods.len() > 0 {
        let pre = mods.drop_last();
        lemma_keep_drop_fold_fails(pre, ind, dr);
        if any_keeps_none(pre) {
            let i = choose|i: int| 0 <= i < pre.len() && keeps_none(#[trigger] pre[i]);
            assert(keeps_none(mods[i]));
        }
        if any_keeps_none(mods) {
            let i = choose|i: int| 0 <= i < mods.len() && keeps_none(#[trigger] mods[i]);
            if i < pre.len() {
                assert(keeps_none(pre[i]));
            }
        }
        if keeps_none(mods.last()) {
            assert(keeps_none(mods[mods.len() - 1]));
        }
    }
}

pub open spec fn has_modifier(mods: Seq<Modifier>, f: spec_fn(Modifier) -> bool) -> bool {
    exists|i: int| 0 <= i < mods.len() && f(#[trigger] mods[i])
}

/// Which handler a request goes to, in the order they are checked; 0 is the
/// standard pipeline.
pub open spec fn handler_of(m: Modifier) -> int {
    match m {
        Modifier::ConanSkill(_) => 1,
        Modifier::ConanCombat(_) => 2,
        Modifier::Wfrp(_) => 3,
        Modifier::D6System(_, _) => 4,
        Modifier::MarvelMultiverse(_, _) => 5,
        Modifier::SavageWorlds(_) => 6,
        Modifier::BraveNewWorld(_) => 7,
        Modifier::Silhouette(_) => 8,
        Modifier::MutantsMasterminds => 9,
        Modifier::Mothership(_, _) => 10,
        _ => 0,
    }
}

fn handler_code(m: &Modifier) -> (c: u32)
    ensures
        c == handler_of(*m),
{
    match m {
        Modifier::ConanSkill(_) => 1,
        Modifier::ConanCombat(_) => 2,
        Modifier::Wfrp(_) => 3,
        Modifier::D6System(_, _) => 4,
        Modifier::MarvelMultiverse(_, _) => 5,
        Modifier::SavageWorlds(_) => 6,
        Modifier::BraveNewWorld(_) => 7,
        Modifier::Silhouette(_) => 8,
        Modifier::MutantsMasterminds => 9,
        Modifier::Mothership(_, _) => 10,
        _ => 0,
    }
}

/// Some modifier selects handler `c`.
fn has_handler(mods: &Vec<Modifier>, c: u32) -> (b: bool)
    ensures
        b == exists|i: int| 0 <= i < mods@.len() && handler_of(#[trigger] mods@[i]) == c,
{
    let mut i: usize = 0;
    while i < mods.len()
        invariant
            i <= mods@.len(),
            forall|j: int| 0 <= j < i ==> handler_of(#[trigger] mods@[j]) != c,
        decreases mods.len() - i,
    {
        if handler_code(&mods[i]) == c {
            return true;
        }
        i = i + 1;
    }
    false
}

/// The handler a request goes to: the first of handlers `c` to 10 that some
/// modifier selects, or 0 (the standard pipeline) when none is.
pub open spec fn first_handler(mods: Seq<Modifier>, c: int) -> int
    decreases 11 - c,
{
    if c < 1 || c > 10 {
        0
    } else if exists|i: int| 0 <= i < mods.len() && handler_of(#[trigger] mods[i]) == c {
        c
    } else {
        first_handler(mods, c + 1)
    }
}

/// The handler a request goes to: the first of the list that some modifier selects.
fn dispatch(mods: &Vec<Modifier>) -> (c: u32)
    ensures
        c == first_handler(mods@, 1),
        c <= 10,
        counting_only(mods@) ==> c == 0,
        pool_mods(mods@) ==> c == 0,
{
    let mut c: u32 = 1;
    while c <= 10
        invariant
            1 <= c <= 11,
            first_handler(mods@, c as int) == first_handler(mods@, 1),
        decreases 11 - c,
    {
        if has_handler(mods, c) {
            return c;
        }
        c = c + 1;
    }
    proof {
        if counting_only(mods@) {
            lemma_counting_no_handler(mods@, 1);
        }
        if pool_mods(mods@) {
            lemma_pool_mods_inert(mods@);
        }
    }
    0
}

/// A request that only keeps, drops or counts selects no handler.
proof fn lemma_counting_no_handler(mods: Seq<Modifier>, c: int)
    requires
        counting_only(mods),
    ensures
        first_handler(mods, c) == 0,
    decreases 11 - c,
{
    if 1 <= c <= 10 {
        assert forall|i: int| 0 <= i < mods.len() implies handler_of(#[trigger] mods[i]) != c by {
            assert(is_counting(mods[i]));
        }
        lemma_counting_no_handler(mods, c + 1);
    }
}

pub fn roll_with(dice: &DiceRoll, rng: &mut DiceRng) -> (r: Result<RollResult, DiceError>)
    ensures
        dice.sides < 1 || (dice.sides > i32::MAX && dice.count >= 1) ==> r is Err && crate::dice::err_msg(r) == sides_error(
            dice.sides,
        ),
        1 <= dice.sides && dice.count == 0 ==> r is Err && crate::dice::err_msg(r)
            == "Cannot roll 0 dice"@,
        r matches Ok(res) ==> carries_flags(res, *dice),
        pool_request(*dice) ==> (r is Ok <==> !any_keeps_none(dice.modifiers@) && !has_zero_divisor(dice.modifiers@)),
        pool_request(*dice) && any_keeps_none(dice.modifiers@) ==> r is Err && crate::dice::err_msg(r)
            == "Cannot keep 0 dice"@,
        pool_request(*dice) && !any_keeps_none(dice.modifiers@) && has_zero_divisor(dice.modifiers@)
            ==> crate::dice::arith::err_is_divide_by_zero(r),
        1 <= dice.sides <= i32::MAX && dice.count > MAX_DICE_POOL && first_handler(dice.modifiers@, 1) == 0
            && crate::dice::arith::advantage_level(dice.modifiers@) == 0 ==> r is Err && crate::dice::err_msg(r)
            == "Maximum 500 dice allowed (advantage/disadvantage adds 0 dice)"@,
        pool_request(*dice) ==> (r matches Ok(res) ==> pool_outcome(res, *dice)),
        explode_request(*dice) ==> r is Ok && (r matches Ok(res) ==> explode_outcome(res, *dice)),
        reroll_request(*dice) ==> r is Ok && (r matches Ok(res) ==> reroll_outcome(res, *dice)),
        implode_request(*dice) ==> r is Ok && (r matches Ok(res) ==> implode_outcome(res, *dice)),
        standard_request(*dice) ==> (r is Ok <==> !any_keeps_none(dice.modifiers@) && !has_zero_divisor(dice.modifiers@)),
        standard_request(*dice) && (counts_nothing(dice.modifiers@) || no_arith(dice.modifiers@) || arith_after_counting(dice.modifiers@)) ==> (r matches Ok(res) ==> standard_outcome(res, *dice)),
        1 <= dice.sides <= i32::MAX && dice.count >= 1 && first_handler(dice.modifiers@, 1) == 1 ==> conan_skill_outcome(*dice, r),
        1 <= dice.sides <= i32::MAX && dice.count >= 1 && first_handler(dice.modifiers@, 1) == 2 ==> crate::dice::handlers::conan_combat_outcome(*dice, r),
        1 <= dice.sides <= i32::MAX && dice.count >= 1 && first_handler(dice.modifiers@, 1) == 3 ==> crate::dice::handlers::wfrp_outcome(*dice, r),
        1 <= dice.sides <= i32::MAX && dice.count >= 1 && first_handler(dice.modifiers@, 1) == 4 ==> crate::dice::handlers::d6_system_outcome(*dice, r),
        1 <= dice.sides <= i32::MAX && dice.count >= 1 && first_handler(dice.modifiers@, 1) == 5 ==> crate::dice::handlers::marvel_outcome(*dice, r),
        1 <= dice.sides <= i32::MAX && dice.count >= 1 && first_handler(dice.modifiers@, 1) == 6 ==> crate::dice::handlers::savage_worlds_outcome(*dice, r),
        1 <= dice.sides <= i32::MAX && dice.count >= 1 && first_handler(dice.modifiers@, 1) == 7 ==> crate::dice::handlers::brave_new_world_outcome(*dice, r),
        1 <= dice.sides <= i32::MAX && dice.count >= 1 && first_handler(dice.modifiers@, 1) == 8 ==> crate::dice::handlers::silhouette_outcome(*dice, r),
        1 <= dice.sides <= i32::MAX && dice.count >= 1 && first_handler(dice.modifiers@, 1) == 9 ==> crate::dice::handlers::mutants_masterminds_outcome(*dice, r),
        1 <= dice.sides <= i32::MAX && dice.count >= 1 && first_handler(dice.modifiers@, 1) == 10 ==> crate::dice::handlers::mothership_outcome(*dice, r),
    decreases *dice, 4int,
{
    proof {
        if explode_request(*dice) || reroll_request(*dice) || implode_request(*dice) {
            lemma_dice_step_inert(*dice);
        }
        if standard_request(*dice) {
            lemma_standard_inert(dice.modifiers@);
        }
    }
    if dice.sides >= 1 && dice.count == 0 {
        return Err(DiceError::from_str("Cannot roll 0 dice"));
    }
    if dice.sides < 1 || dice.sides > i32::MAX as u32 {
        let mut s = lit("Cannot roll dice with ");
        push_nat(&mut s, dice.sides as u64);
        s.append(" sides");
        return Err(DiceError::new(s));
    }
    let handler = dispatch(&dice.modifiers);
    if handler == 1 {
        let r = handle_conan_skill_roll(dice, rng);
        assert(conan_skill_outcome(*dice, r));
        return r;
    } else if handler == 2 {
        let r = crate::dice::handlers::handle_conan_combat_roll(dice, rng);
        assert(crate::dice::handlers::conan_combat_outcome(*dice, r));
        return r;
    } else if handler == 3 {
        let r = crate::dice::handlers::handle_wfrp_roll(dice, rng);
        assert(crate::dice::handlers::wfrp_outcome(*dice, r));
        return r;
    } else if handler == 4 {
        let r = crate::dice::handlers::handle_d6_system_roll(dice, rng);
        assert(crate::dice::handlers::d6_system_outcome(*dice, r));
        return r;
    } else if handler == 5 {
        let r = crate::dice::handlers::handle_marvel_multiverse_roll(dice, rng);
        assert(crate::dice::handlers::marvel_outcome(*dice, r));
        return r;
    } else if handler == 6 {
        let r = crate::dice::handlers::handle_savage_worlds_roll(dice, rng);
        assert(crate::dice::handlers::savage_worlds_outcome(*dice, r));
        return r;
    } else if handler == 7 {
        let r = crate::dice::handlers::handle_brave_new_world_roll(dice, rng);
        assert(crate::dice::handlers::brave_new_world_outcome(*dice, r));
        return r;
    } else if handler == 8 {
        let r = crate::dice::handlers::handle_silhouette_roll(dice, rng);
        assert(crate::dice::handlers::silhouette_outcome(*dice, r));
        return r;
    } else if handler == 9 {
        let r = crate::dice::handlers::handle_mutants_masterminds_roll(dice, rng);
        assert(crate::dice::handlers::mutants_masterminds_outcome(*dice, r));
        return r;
    } else if handler == 10 {
        let r = crate::dice::handlers::handle_mothership_roll(dice, rng);
        assert(crate::dice::handlers::mothership_outcome(*dice, r));
        return r;
    }
    roll_standard(dice, rng)
}

/// The standard pipeline.
#[verifier::rlimit(80)]
#[verifier::spinoff_prover]
fn roll_standard(dice: &DiceRoll, rng: &mut DiceRng) -> (r: Result<RollResult, DiceError>)
    requires
        1 <= dice.sides <= i32::MAX,
        dice.count >= 1,
    ensures
        r matches Ok(res) ==> carries_flags(res, *dice),
        pool_request(*dice) ==> (r is Ok <==> !any_keeps_none(dice.modifiers@) && !has_zero_divisor(dice.modifiers@)),
        pool_request(*dice) && any_keeps_none(dice.modifiers@) ==> r is Err && crate::dice::err_msg(r)
            == "Cannot keep 0 dice"@,
        pool_request(*dice) && !any_keeps_none(dice.modifiers@) && has_zero_divisor(dice.modifiers@)
            ==> crate::dice::arith::err_is_divide_by_zero(r),
        1 <= dice.sides <= i32::MAX && dice.count > MAX_DICE_POOL && first_handler(dice.modifiers@, 1) == 0
            && crate::dice::arith::advantage_level(dice.modifiers@) == 0 ==> r is Err && crate::dice::err_msg(r)
            == "Maximum 500 dice allowed (advantage/disadvantage adds 0 dice)"@,
        pool_request(*dice) ==> (r matches Ok(res) ==> pool_outcome(res, *dice)),
        explode_request(*dice) ==> r is Ok && (r matches Ok(res) ==> explode_outcome(res, *dice)),
        reroll_request(*dice) ==> r is Ok && (r matches Ok(res) ==> reroll_outcome(res, *dice)),
        implode_request(*dice) ==> r is Ok && (r matches Ok(res) ==> implode_outcome(res, *dice)),
        standard_request(*dice) ==> (r is Ok <==> !any_keeps_none(dice.modifiers@) && !has_zero_divisor(dice.modifiers@)),
        standard_request(*dice) && (counts_nothing(dice.modifiers@) || no_arith(dice.modifiers@) || arith_after_counting(dice.modifiers@)) ==> (r matches Ok(res) ==> standard_outcome(res, *dice)),
    decreases *dice, 3int,
{
    let mut result = RollResult::from_dice(dice);
    proof {
        if pool_mods(dice.modifiers@) {
            lemma_pool_mods_inert(dice.modifiers@);
        }
        if explode_request(*dice) || reroll_request(*dice) || implode_request(*dice) {
            lemma_dice_step_inert(*dice);
        }
        if standard_request(*dice) {
            lemma_standard_inert(dice.modifiers@);
        }
    }
    let advantage = crate::dice::arith::net_advantage_level(&dice.modifiers);
    let extra_dice: u128 = if advantage < 0 {
        (0 - advantage) as u128
    } else {
        advantage as u128
    };
    let pool_size: u128 = dice.count as u128 + extra_dice;
    if pool_size > MAX_DICE_POOL as u128 {
        let mut s = lit("Maximum 500 dice allowed (advantage/disadvantage adds ");
        crate::text::push_wide(&mut s, extra_dice);
        s.append(" dice)");
        proof {
            if crate::dice::arith::advantage_level(dice.modifiers@) == 0 {
                assert(extra_dice == 0);
                assert(nat_str(0) =~= seq!['0']);
                reveal_strlit("Maximum 500 dice allowed (advantage/disadvantage adds ");
                reveal_strlit(" dice)");
                reveal_strlit("Maximum 500 dice allowed (advantage/disadvantage adds 0 dice)");
                assert(s@ =~= "Maximum 500 dice allowed (advantage/disadvantage adds 0 dice)"@);
            }
        }
        return Err(DiceError::new(s));
    }
    let pool_size = pool_size as u64;
    let sides = dice.sides as i32;
    let ghost r0 = result;
    let mut k: u64 = 0;
    while k < pool_size
        invariant
            k <= pool_size,
            sides >= 1,
            result.individual_rolls@.len() == k,
            in_die_range(result.individual_rolls@, sides as int),
            result == (RollResult { individual_rolls: result.individual_rolls, ..r0 }),
        decreases pool_size - k,
    {
        let roll = rng.roll(sides);
        result.individual_rolls.push(roll);
        k = k + 1;
    }
    let ghost pool = result.individual_rolls@;
    let base_rolls = result.individual_rolls.clone();
    assert(result.dice_groups@.len() == 0);
    result.dice_groups.push(DiceGroup {
        _description: dice_desc(pool_size, dice.sides as u64),
        rolls: base_rolls,
        dropped_rolls: Vec::new(),
        modifier_type: lit("base"),
    });
    if extra_dice > 0 {
        let surplus = extra_dice as usize;
        if advantage > 0 {
            drop_dice(&mut result, surplus);
        } else {
            drop_highest_dice(&mut result, surplus);
        }
        update_base_group(&mut result);
    }
    let ghost before_mods = result;
    proof {
        if pool_mods(dice.modifiers@) {
            lemma_pool_mods_inert(dice.modifiers@);
            lemma_keep_drop_fold_fails(dice.modifiers@, result.individual_rolls@, result.dropped_rolls@);
            assert(result.dropped_rolls@ =~= Seq::<i32>::empty());
        }
    }
    apply_dice_modifying_modifiers(&mut result, rng, dice)?;
    let ghost after_dice = result;
    proof {
        if explode_request(*dice) || reroll_request(*dice) || implode_request(*dice) {
            lemma_dice_step_inert(*dice);
        }
        if standard_request(*dice) {
            lemma_standard_inert(dice.modifiers@);
        }
    }
    proof {
        if standard_request(*dice) {
            lemma_keep_drop_fold_fails(dice.modifiers@, result.individual_rolls@, result.dropped_rolls@);
        }
    }
    apply_keep_drop_modifiers(&mut result, dice)?;
    if result.kept_rolls.len() == 0 {
        result.kept_rolls = result.individual_rolls.clone();
    }
    result.total = sum_rolls(&result.kept_rolls);
    let imploded = sum_rolls(&result.implosion_rolls);
    result.total = result.total.wrapping_sub(imploded);
    proof {
        if pool_mods(dice.modifiers@) {
            lemma_pool_mods_inert(dice.modifiers@);
        }
    }
    let ghost before_math = result;
    assert(pool_request(*dice) ==> result.dice_groups@.len() >= 1 && result.dice_groups@[0].rolls@ == pool);
    apply_mathematical_modifiers(&mut result, dice, rng)?;
    let ghost before_counting = result;
    proof {
        if pool_request(*dice) {
            assert(before_math.successes is None && before_math.failures is None);
            assert(before_math.kept_rolls@ == before_math.individual_rolls@);
            assert(before_math.implosion_rolls@.len() == 0);
            assert(before_counting.total == math_fold(
                dice.modifiers@,
                crate::dice::systems::wsum(before_math.individual_rolls@),
                true,
            ));
        }
    }
    proof {
        if explode_request(*dice) || reroll_request(*dice) || implode_request(*dice) {
            lemma_dice_step_inert(*dice);
        }
        if standard_request(*dice) {
            lemma_standard_inert(dice.modifiers@);
        }
    }
    proof {
        if standard_request(*dice) && no_arith(dice.modifiers@) {
            assert forall|i: int| 0 <= i < dice.modifiers@.len() implies #[trigger] is_counting(dice.modifiers@[i])
                || step_of(dice.modifiers@[i], DiceStep::Any) by {
                assert(is_standard(dice.modifiers@[i]));
            }
            assert forall|v: i32| math_fold(dice.modifiers@, v, true) == v by {
                lemma_no_arith_fold(dice.modifiers@, v);
            }
        }
        if standard_request(*dice) && counts_nothing(dice.modifiers@) {
            assert forall|i: int| 0 <= i < dice.modifiers@.len() implies system_inert(#[trigger] dice.modifiers@[i]) by {
                assert(is_standard(dice.modifiers@[i]));
            }
        }
    }
    apply_special_system_modifiers(&mut result, dice, rng)?;
    proof {
        if counting_only(dice.modifiers@) {
            lemma_count_fold_tally(before_counting, dice.modifiers@);
        }
        if standard_request(*dice) && (no_arith(dice.modifiers@) || arith_after_counting(dice.modifiers@)) {
            lemma_count_fold_tally(before_counting, dice.modifiers@);
        }
    }
    if !dice.unsorted {
        sort_result_rolls(&mut result);
    }
    proof {
        if pool_request(*dice) {
            assert(keep_drop_fold(dice.modifiers@, pool, Seq::<i32>::empty()) == Some(
                (result.individual_rolls@, result.dropped_rolls@),
            ));
            if keep_math_only(dice.modifiers@) {
                lemma_keep_math_tally(dice.modifiers@, result.individual_rolls@);
            }
        }
        if explode_request(*dice) {
            let added = result.individual_rolls@.len() - dice.count;
            let capped = dice.modifiers@[0] is ExplodeIndefinite && added == 100;
            assert(before_mods.individual_rolls@ == pool);
            assert(after_dice.individual_rolls@ == result.individual_rolls@);
            assert(notes_of(before_mods) =~= Seq::<Seq<char>>::empty());
            assert(notes_of(result) =~= explode_notes(added as nat, capped));
        }
        if reroll_request(*dice) {
            let m = dice.modifiers@[0];
            assert(before_mods.individual_rolls@ == pool);
            assert(after_dice.individual_rolls@ == result.individual_rolls@);
            assert(notes_of(before_mods) =~= Seq::<Seq<char>>::empty());
            let extra = choose|extra: Seq<Seq<char>>|
                notes_of(after_dice) == notes_of(before_mods) + extra && #[trigger] rerolls_noted(
                    extra,
                    after_dice.individual_rolls@,
                    m,
                );
            assert(notes_of(result) =~= extra);
            assert(rerolled_from(pool, result.individual_rolls@, m));
        }
        if implode_request(*dice) {
            assert(before_mods.individual_rolls@ == pool);
            assert(before_mods.implosion_rolls@ =~= Seq::<i32>::empty());
            assert(after_dice.implosion_rolls@.skip(0) =~= after_dice.implosion_rolls@);
            assert(notes_of(before_mods) =~= Seq::<Seq<char>>::empty());
            assert(notes_of(result) =~= implode_notes(result.implosion_rolls@.len()));
        }
    }
    Ok(result)
}

/// Whether the modifiers name Dark Heresy (its explosions are Righteous Fury).
fn is_dark_heresy(mods: &Vec<Modifier>) -> (b: bool)
    ensures
        b == exists|i: int| 0 <= i < mods@.len() && #[trigger] mods@[i] is DarkHeresy,
{
    let mut i: usize = 0;
    while i < mods.len()
        invariant
            i <= mods@.len(),
            forall|j: int| 0 <= j < i ==> !(#[trigger] mods@[j] is DarkHeresy),
        decreases mods.len() - i,
    {
        if let Modifier::DarkHeresy = &mods[i] {
            return true;
        }
        i = i + 1;
    }
    false
}

pub open spec fn explosion_note(count: nat, dark_heresy: bool) -> Seq<char> {
    if dark_heresy {
        if count == 1 {
            "⚔️ **RIGHTEOUS FURY!** Natural 10 rolled - Purge the heretics!"@
        } else {
            "⚔️ **RIGHTEOUS FURY!** "@ + int_str(count as int) + " natural 10s - Emperor's wrath unleashed!"@
        }
    } else {
        if count == 1 {
            "1 die exploded"@
        } else {
            int_str(count as int) + " dice exploded"@
        }
    }
}

/// The note for `explosion_count` explosions: Righteous Fury for Dark Heresy.
pub fn add_explosion_notes(result: &mut RollResult, explosion_count: usize, dice: &DiceRoll)
    ensures
        notes_of(*final(result)) == notes_of(*old(result)).push(
            explosion_note(
                explosion_count as nat,
                exists|i: int| 0 <= i < dice.modifiers@.len() && #[trigger] dice.modifiers@[i] is DarkHeresy,
            ),
        ),
        *final(result) == (RollResult { notes: final(result).notes, ..*old(result) }),
{
    if is_dark_heresy(&dice.modifiers) {
        if explosion_count == 1 {
            push_note(result, lit("⚔️ **RIGHTEOUS FURY!** Natural 10 rolled - Purge the heretics!"));
        } else {
            push_note(
                result,
                cat_nat("⚔️ **RIGHTEOUS FURY!** ", explosion_count as u64, " natural 10s - Emperor's wrath unleashed!"),
            );
        }
    } else {
        if explosion_count == 1 {
            push_note(result, lit("1 die exploded"));
        } else {
            push_note(result, crate::text::nat_then(explosion_count as u64, " dice exploded"));
        }
    }
}

/// The pool as the dice modifiers left it: the original dice first, every
/// die within the die's sides.
pub open spec fn pool_grew_in_range(old: RollResult, new: RollResult, sides: int) -> bool {
    &&& new.individual_rolls@.len() >= old.individual_rolls@.len()
    &&& in_die_range(old.individual_rolls@, sides) ==> in_die_range(new.individual_rolls@, sides)
    &&& same_flags(old, new)
}

/// `e#` / `ie#`: each die at or above the threshold (default: the die's
/// maximum) rolls one more die. Indefinite explosions let the new dice explode
/// too, up to 100 explosions.
fn explode_dice(
    result: &mut RollResult,
    rng: &mut DiceRng,
    threshold: Option<u32>,
    dice_sides: u32,
    indefinite: bool,
    dice: &DiceRoll,
)
    requires
        1 <= dice_sides <= i32::MAX,
    ensures
        pool_grew_in_range(*old(result), *final(result), dice_sides as int),
        final(result).individual_rolls@.take(old(result).individual_rolls@.len() as int)
            == old(result).individual_rolls@,
        *final(result) == (RollResult {
            individual_rolls: final(result).individual_rolls,
            notes: final(result).notes,
            ..*old(result)
        }),
        ({
            let e: i32 = (match threshold {
                Some(t) => t,
                None => dice_sides,
            }) as i32;
            let added = final(result).individual_rolls@.len() - old(result).individual_rolls@.len();
            &&& !indefinite ==> added == count_in_range(old(result).individual_rolls@, e as int, i32::MAX as int)
            &&& indefinite ==> added <= 100
            &&& indefinite && added < 100 ==> added == count_in_range(
                final(result).individual_rolls@,
                e as int,
                i32::MAX as int,
            )
            &&& added == 0 ==> notes_of(*final(result)) == notes_of(*old(result))
            &&& added > 0 ==> notes_of(*final(result)).last() == explosion_note(
                added as nat,
                exists|i: int| 0 <= i < dice.modifiers@.len() && #[trigger] dice.modifiers@[i] is DarkHeresy,
            )
            &&& added > 0 ==> notes_of(*final(result)) == (if indefinite && added == 100 {
                notes_of(*old(result)).push("Maximum explosions reached (100)"@)
            } else {
                notes_of(*old(result))
            }).push(
                explosion_note(
                    added as nat,
                    exists|i: int| 0 <= i < dice.modifiers@.len() && #[trigger] dice.modifiers@[i] is DarkHeresy,
                ),
            )
        }),
{
    let explode_on: u32 = match threshold {
        Some(t) => t,
        None => dice_sides,
    };
    let sides = dice_sides as i32;
    let mut explosion_count: usize = 0;
    let ghost r0 = *result;
    if indefinite {
        let mut i: usize = 0;
        while i < result.individual_rolls.len() && explosion_count < 100
            invariant
                explosion_count <= 100,
                i <= result.individual_rolls@.len(),
                result.individual_rolls@.len() == r0.individual_rolls@.len() + explosion_count,
                result.individual_rolls@.take(r0.individual_rolls@.len() as int) == r0.individual_rolls@,
                explosion_count == count_in_range(
                    result.individual_rolls@.take(i as int),
                    (explode_on as i32) as int,
                    i32::MAX as int,
                ),
                in_die_range(r0.individual_rolls@, sides as int) ==> in_die_range(
                    result.individual_rolls@,
                    sides as int,
                ),
                sides >= 1,
                *result == (RollResult { individual_rolls: result.individual_rolls, ..r0 }),
            decreases 100 - explosion_count, result.individual_rolls@.len() - i,
        {
            let ghost before = result.individual_rolls@;
            assert(before.take(i + 1).drop_last() =~= before.take(i as int));
            if result.individual_rolls[i] >= explode_on as i32 {
                let new_roll = rng.roll(sides);
                result.individual_rolls.push(new_roll);
                assert(result.individual_rolls@.take(r0.individual_rolls@.len() as int) =~= before.take(r0.individual_rolls@.len() as int));
                explosion_count = explosion_count + 1;
            }
            assert(result.individual_rolls@.take(i + 1) =~= before.take(i + 1));
            i = i + 1;
        }
        proof {
            if explosion_count < 100 {
                assert(result.individual_rolls@.take(i as int) =~= result.individual_rolls@);
            }
        }
        if explosion_count >= 100 {
            push_note(result, lit("Maximum explosions reached (100)"));
        }
    } else {
        let original_dice_count = result.individual_rolls.len();
        let mut i: usize = 0;
        while i < original_dice_count
            invariant
                i <= original_dice_count,
                original_dice_count == r0.individual_rolls@.len(),
                explosion_count <= i,
                explosion_count == count_in_range(
                    r0.individual_rolls@.take(i as int),
                    (explode_on as i32) as int,
                    i32::MAX as int,
                ),
                result.individual_rolls@.len() == original_dice_count + explosion_count,
                result.individual_rolls@.take(original_dice_count as int) == r0.individual_rolls@,
                in_die_range(r0.individual_rolls@, sides as int) ==> in_die_range(
                    result.individual_rolls@,
                    sides as int,
                ),
                sides >= 1,
                *result == (RollResult { individual_rolls: result.individual_rolls, ..r0 }),
            decreases original_dice_count - i,
        {
            assert(result.individual_rolls@[i as int] == r0.individual_rolls@[i as int]);
            assert(r0.individual_rolls@.take(i + 1).drop_last() =~= r0.individual_rolls@.take(i as int));
            if result.individual_rolls[i] >= explode_on as i32 {
                let new_roll = rng.roll(sides);
                let ghost before = result.individual_rolls@;
                result.individual_rolls.push(new_roll);
                assert(result.individual_rolls@.take(original_dice_count as int) =~= before.take(original_dice_count as int));
                explosion_count = explosion_count + 1;
            }
            i = i + 1;
        }
        assert(r0.individual_rolls@.take(original_dice_count as int) =~= r0.individual_rolls@);
    }
    if explosion_count > 0 {
        add_explosion_notes(result, explosion_count, dice);
    }
}

/// The note of `k` imploded dice: none when there are none.
pub open spec fn implode_notes(k: nat) -> Seq<Seq<char>> {
    if k == 0 {
        seq![]
    } else if k == 1 {
        seq!["1 die imploded"@]
    } else {
        seq![int_str(k as int) + " dice imploded"@]
    }
}

/// `i#`: each original die at or below the threshold (default 1) rolls one
/// die that is subtracted from the total. Imploded dice never enter the pool.
fn implode_dice(
    result: &mut RollResult,
    rng: &mut DiceRng,
    threshold: Option<u32>,
    dice_sides: u32,
    original_dice_count: usize,
)
    requires
        1 <= dice_sides <= i32::MAX,
    ensures
        final(result).individual_rolls == old(result).individual_rolls,
        final(result).implosion_rolls@.len() >= old(result).implosion_rolls@.len(),
        ({
            let t: i32 = (match threshold {
                Some(t) => t,
                None => 1,
            }) as i32;
            let n = if original_dice_count < old(result).individual_rolls@.len() {
                original_dice_count as int
            } else {
                old(result).individual_rolls@.len() as int
            };
            let imp = final(result).implosion_rolls@.skip(old(result).implosion_rolls@.len() as int);
            &&& final(result).implosion_rolls@.take(old(result).implosion_rolls@.len() as int)
                == old(result).implosion_rolls@
            &&& imp.len() == count_in_range(old(result).individual_rolls@.take(n), i32::MIN as int, t as int)
            &&& in_die_range(imp, dice_sides as int)
            &&& notes_of(*final(result)) == notes_of(*old(result)) + implode_notes(imp.len())
        }),
        same_flags(*old(result), *final(result)),
        *final(result) == (RollResult {
            implosion_rolls: final(result).implosion_rolls,
            dice_groups: final(result).dice_groups,
            notes: final(result).notes,
            ..*old(result)
        }),
{
    let implode_on: u32 = match threshold {
        Some(t) => t,
        None => 1,
    };
    let considered = if original_dice_count < result.individual_rolls.len() {
        original_dice_count
    } else {
        result.individual_rolls.len()
    };
    let sides = dice_sides as i32;
    let mut imploded: Vec<i32> = Vec::new();
    let mut i: usize = 0;
    while i < considered
        invariant
            i <= considered,
            considered <= result.individual_rolls@.len(),
            sides >= 1,
            sides == dice_sides,
            *result == *old(result),
            imploded@.len() == count_in_range(
                result.individual_rolls@.take(i as int),
                i32::MIN as int,
                (implode_on as i32) as int,
            ),
            in_die_range(imploded@, sides as int),
        decreases considered - i,
    {
        assert(result.individual_rolls@.take(i + 1).drop_last() =~= result.individual_rolls@.take(i as int));
        if result.individual_rolls[i] <= implode_on as i32 {
            imploded.push(rng.roll(sides));
        }
        i = i + 1;
    }
    if imploded.len() == 0 {
        assert(result.implosion_rolls@.take(result.implosion_rolls@.len() as int) =~= result.implosion_rolls@);
        assert(result.implosion_rolls@.skip(result.implosion_rolls@.len() as int) =~= imploded@);
        assert(notes_of(*result) =~= notes_of(*old(result)) + implode_notes(0));
        return;
    }
    let ghost notes0 = notes_of(*result);
    let ghost k = imploded@.len();
    if imploded.len() == 1 {
        push_note(result, lit("1 die imploded"));
    } else {
        push_note(result, crate::text::nat_then(imploded.len() as u64, " dice imploded"));
    }
    result.dice_groups.push(DiceGroup {
        _description: lit("imploded dice"),
        rolls: imploded.clone(),
        dropped_rolls: Vec::new(),
        modifier_type: lit("subtract"),
    });
    let ghost imp0 = result.implosion_rolls@;
    let ghost new_imp = imploded@;
    result.implosion_rolls.append(&mut imploded);
    assert(result.implosion_rolls@.take(imp0.len() as int) =~= imp0);
    assert(result.implosion_rolls@.skip(imp0.len() as int) =~= new_imp);
    assert(notes_of(*result) =~= notes0 + implode_notes(k));
}

/// The notes of `k` rerolls: how many dice were rerolled, and that the cap
/// of 100 rerolls was reached.
pub open spec fn reroll_notes(k: nat) -> Seq<Seq<char>> {
    if k == 0 {
        seq![]
    } else {
        let count = if k == 1 {
            "1 die rerolled"@
        } else {
            int_str(k as int) + " dice rerolled"@
        };
        if k >= 100 {
            seq![count, "Maximum rerolls reached (100)"@]
        } else {
            seq![count]
        }
    }
}

/// Which side of the threshold triggers a reroll: `r`/`ir` at or below it,
/// `rg`/`irg` at or above it.
pub enum RerollDirection {
    AtOrBelow,
    AtOrAbove,
}

impl RerollDirection {
    pub open spec fn spec_triggers(self, roll: i32, threshold: u32) -> bool {
        match self {
            RerollDirection::AtOrBelow => roll <= threshold as i32,
            RerollDirection::AtOrAbove => roll >= threshold as i32,
        }
    }

    pub fn triggers(&self, roll: i32, threshold: u32) -> (b: bool)
        ensures
            b == self.spec_triggers(roll, threshold),
    {
        match self {
            RerollDirection::AtOrBelow => roll <= threshold as i32,
            RerollDirection::AtOrAbove => roll >= threshold as i32,
        }
    }
}

/// `r#`, `ir#`, `rg#`, `irg#`: reroll the dice on the triggering side of the
/// threshold, once each or (indefinitely) until they stop triggering, with at
/// most 100 rerolls in all.
fn reroll_dice(
    result: &mut RollResult,
    rng: &mut DiceRng,
    threshold: u32,
    dice_sides: u32,
    indefinite: bool,
    direction: RerollDirection,
)
    requires
        1 <= dice_sides <= i32::MAX,
    ensures
        final(result).individual_rolls@.len() == old(result).individual_rolls@.len(),
        in_die_range(old(result).individual_rolls@, dice_sides as int) ==> in_die_range(
            final(result).individual_rolls@,
            dice_sides as int,
        ),
        forall|j: int|
            0 <= j < old(result).individual_rolls@.len() && !direction.spec_triggers(
                #[trigger] old(result).individual_rolls@[j],
                threshold,
            ) ==> final(result).individual_rolls@[j] == old(result).individual_rolls@[j],
        indefinite && notes_of(*final(result)).len() < notes_of(*old(result)).len() + 2 ==> forall|j: int|
            0 <= j < final(result).individual_rolls@.len() ==> !direction.spec_triggers(
                #[trigger] final(result).individual_rolls@[j],
                threshold,
            ),
        exists|k: nat|
            k <= 100 && notes_of(*final(result)) == notes_of(*old(result)) + #[trigger] reroll_notes(k) && (indefinite
                && k < 100 ==> forall|j: int|
                0 <= j < final(result).individual_rolls@.len() ==> !direction.spec_triggers(
                    #[trigger] final(result).individual_rolls@[j],
                    threshold,
                )),
        *final(result) == (RollResult {
            individual_rolls: final(result).individual_rolls,
            notes: final(result).notes,
            ..*old(result)
        }),
{
    let sides = dice_sides as i32;
    let mut total_rerolls: u32 = 0;
    let ghost r0 = *result;
    let mut i: usize = 0;
    while i < result.individual_rolls.len()
        invariant
            i <= result.individual_rolls@.len(),
            result.individual_rolls@.len() == r0.individual_rolls@.len(),
            total_rerolls <= 100,
            sides >= 1,
            in_die_range(r0.individual_rolls@, sides as int) ==> in_die_range(
                result.individual_rolls@,
                sides as int,
            ),
            *result == (RollResult { individual_rolls: result.individual_rolls, ..r0 }),
            forall|j: int| i <= j < r0.individual_rolls@.len() ==> #[trigger] result.individual_rolls@[j]
                == r0.individual_rolls@[j],
            forall|j: int|
                0 <= j < i && !direction.spec_triggers(#[trigger] r0.individual_rolls@[j], threshold)
                    ==> result.individual_rolls@[j] == r0.individual_rolls@[j],
            indefinite && total_rerolls < 100 ==> forall|j: int|
                0 <= j < i ==> !direction.spec_triggers(#[trigger] result.individual_rolls@[j], threshold),
        decreases result.individual_rolls@.len() - i,
    {
        let mut rerolls_for_this_die: u32 = 0;
        let max_rerolls_per_die: u32 = if indefinite {
            100
        } else {
            1
        };
        let ghost at_start = result.individual_rolls@;
        let ghost total0 = total_rerolls;
        while direction.triggers(result.individual_rolls[i], threshold) && rerolls_for_this_die
            < max_rerolls_per_die && total_rerolls < 100
            invariant
                i < result.individual_rolls@.len(),
                result.individual_rolls@.len() == r0.individual_rolls@.len(),
                total_rerolls <= 100,
                rerolls_for_this_die <= max_rerolls_per_die,
                rerolls_for_this_die <= total_rerolls,
                total0 <= total_rerolls,
                max_rerolls_per_die == if indefinite { 100u32 } else { 1u32 },
                sides >= 1,
                in_die_range(r0.individual_rolls@, sides as int) ==> in_die_range(
                    result.individual_rolls@,
                    sides as int,
                ),
                *result == (RollResult { individual_rolls: result.individual_rolls, ..r0 }),
                forall|j: int| 0 <= j < at_start.len() && j != i ==> #[trigger] result.individual_rolls@[j] == at_start[j],
                at_start.len() == result.individual_rolls@.len(),
                rerolls_for_this_die == 0 ==> result.individual_rolls@[i as int] == at_start[i as int],
                rerolls_for_this_die > 0 ==> direction.spec_triggers(at_start[i as int], threshold),
            decreases max_rerolls_per_die - rerolls_for_this_die,
        {
            let new_roll = rng.roll(sides);
            result.individual_rolls.set(i, new_roll);
            rerolls_for_this_die = rerolls_for_this_die + 1;
            total_rerolls = total_rerolls + 1;
        }
        proof {
            if !direction.spec_triggers(r0.individual_rolls@[i as int], threshold) {
                assert(rerolls_for_this_die == 0);
            }
            if indefinite && total_rerolls < 100 {
                assert(rerolls_for_this_die < max_rerolls_per_die);
                assert(!direction.spec_triggers(result.individual_rolls@[i as int], threshold));
                assert forall|j: int| 0 <= j < i + 1 implies !direction.spec_triggers(
                    #[trigger] result.individual_rolls@[j],
                    threshold,
                ) by {
                    if j < i {
                        assert(result.individual_rolls@[j] == at_start[j]);
                    }
                }
            }
            assert forall|j: int| 0 <= j < i + 1 && !direction.spec_triggers(#[trigger] r0.individual_rolls@[j], threshold)
                implies result.individual_rolls@[j] == r0.individual_rolls@[j] by {
                if j < i {
                    assert(result.individual_rolls@[j] == at_start[j]);
                }
            }
        }
        i = i + 1;
    }
    let ghost n0 = notes_of(*result);
    if total_rerolls > 0 {
        if total_rerolls == 1 {
            push_note(result, lit("1 die rerolled"));
        } else {
            push_note(result, crate::text::nat_then(total_rerolls as u64, " dice rerolled"));
        }
    }
    if total_rerolls >= 100 {
        push_note(result, lit("Maximum rerolls reached (100)"));
    }
    proof {
        let k = total_rerolls as nat;
        assert(notes_of(*result) =~= n0 + reroll_notes(k));
    }
}

/// Explode, implode and reroll, in the order written. Implosion only ever
/// considers the dice rolled from the expression, not exploded ones.
fn apply_dice_modifying_modifiers(result: &mut RollResult, rng: &mut DiceRng, dice: &DiceRoll) -> (r: Result<(), DiceError>)
    requires
        1 <= dice.sides <= i32::MAX,
    ensures
        r is Ok,
        counting_only(dice.modifiers@) ==> *final(result) == *old(result),
        !has_modifier_of(dice.modifiers@, DiceStep::Any) ==> *final(result) == *old(result),
        same_flags(*old(result), *final(result)),
        in_die_range(old(result).individual_rolls@, dice.sides as int) ==> in_die_range(
            final(result).individual_rolls@,
            dice.sides as int,
        ),
        final(result).individual_rolls@.len() >= old(result).individual_rolls@.len(),
        !has_modifier_of(dice.modifiers@, DiceStep::Explode) ==> final(result).individual_rolls@.len()
            == old(result).individual_rolls@.len(),
        !has_modifier_of(dice.modifiers@, DiceStep::Reroll) ==> final(result).individual_rolls@.take(
            old(result).individual_rolls@.len() as int,
        ) == old(result).individual_rolls@,
        explode_request(*dice) ==> explode_effect(*old(result), *final(result), *dice),
        reroll_request(*dice) ==> reroll_effect(*old(result), *final(result), *dice),
        implode_request(*dice) ==> implode_effect(*old(result), *final(result), *dice),
        !has_modifier_of(dice.modifiers@, DiceStep::Implode) ==> final(result).implosion_rolls
            == old(result).implosion_rolls,
        final(result).implosion_rolls@.take(old(result).implosion_rolls@.len() as int)
            == old(result).implosion_rolls@,
        *final(result) == (RollResult {
            individual_rolls: final(result).individual_rolls,
            implosion_rolls: final(result).implosion_rolls,
            dice_groups: final(result).dice_groups,
            notes: final(result).notes,
            ..*old(result)
        }),
{
    let original_dice_count = result.individual_rolls.len();
    let mut i: usize = 0;
    while i < dice.modifiers.len()
        invariant
            i <= dice.modifiers@.len(),
            1 <= dice.sides <= i32::MAX,
            same_flags(*old(result), *result),
            in_die_range(old(result).individual_rolls@, dice.sides as int) ==> in_die_range(
                result.individual_rolls@,
                dice.sides as int,
            ),
            counting_only(dice.modifiers@) ==> *result == *old(result),
            !has_modifier_of(dice.modifiers@, DiceStep::Any) ==> *result == *old(result),
            result.individual_rolls@.len() >= old(result).individual_rolls@.len(),
            !has_modifier_of(dice.modifiers@, DiceStep::Explode) ==> result.individual_rolls@.len()
                == old(result).individual_rolls@.len(),
            explode_request(*dice) && i == 0 ==> *result == *old(result),
            explode_request(*dice) && i > 0 ==> explode_effect(*old(result), *result, *dice),
            reroll_request(*dice) && i == 0 ==> *result == *old(result),
            reroll_request(*dice) && i > 0 ==> reroll_effect(*old(result), *result, *dice),
            implode_request(*dice) && i == 0 ==> *result == *old(result),
            original_dice_count == old(result).individual_rolls@.len(),
            implode_request(*dice) && i > 0 ==> implode_effect(*old(result), *result, *dice),
            !has_modifier_of(dice.modifiers@, DiceStep::Reroll) ==> result.individual_rolls@.take(
                old(result).individual_rolls@.len() as int,
            ) == old(result).individual_rolls@,
            !has_modifier_of(dice.modifiers@, DiceStep::Implode) ==> result.implosion_rolls
                == old(result).implosion_rolls,
            result.implosion_rolls@.take(old(result).implosion_rolls@.len() as int)
                == old(result).implosion_rolls@,
            result.implosion_rolls@.len() >= old(result).implosion_rolls@.len(),
            *result == (RollResult {
                individual_rolls: result.individual_rolls,
                implosion_rolls: result.implosion_rolls,
                dice_groups: result.dice_groups,
                notes: result.notes,
                ..*old(result)
            }),
        decreases dice.modifiers.len() - i,
    {
        let ghost before = *result;
        let ghost m = dice.modifiers@[i as int];
        proof {
            if counting_only(dice.modifiers@) {
                assert(is_counting(m));
            }
            if step_of(m, DiceStep::Any) {
                assert(has_modifier_of(dice.modifiers@, DiceStep::Any));
            }
            if step_of(m, DiceStep::Explode) {
                assert(has_modifier_of(dice.modifiers@, DiceStep::Explode));
            }
            if step_of(m, DiceStep::Reroll) {
                assert(has_modifier_of(dice.modifiers@, DiceStep::Reroll));
            }
            if step_of(m, DiceStep::Implode) {
                assert(has_modifier_of(dice.modifiers@, DiceStep::Implode));
            }
        }
        match &dice.modifiers[i] {
            Modifier::Explode(threshold) => {
                explode_dice(result, rng, *threshold, dice.sides, false, dice);
                update_base_group(result);
            },
            Modifier::ExplodeIndefinite(threshold) => {
                explode_dice(result, rng, *threshold, dice.sides, true, dice);
                update_base_group(result);
            },
            Modifier::Implode(threshold) => {
                implode_dice(result, rng, *threshold, dice.sides, original_dice_count);
                proof {
                    if implode_request(*dice) {
                        assert(before.individual_rolls@.take(before.individual_rolls@.len() as int) =~= before.individual_rolls@);
                        assert(implode_effect(before, *result, *dice));
                    }
                }
                proof {
                    assert(result.implosion_rolls@.take(old(result).implosion_rolls@.len() as int) =~= before.implosion_rolls@.take(
                        old(result).implosion_rolls@.len() as int,
                    ));
                }
            },
            Modifier::Reroll(threshold) => {
                reroll_dice(result, rng, *threshold, dice.sides, false, RerollDirection::AtOrBelow);
                update_base_group(result);
            },
            Modifier::RerollIndefinite(threshold) => {
                reroll_dice(result, rng, *threshold, dice.sides, true, RerollDirection::AtOrBelow);
                update_base_group(result);
            },
            Modifier::RerollGreater(threshold) => {
                reroll_dice(result, rng, *threshold, dice.sides, false, RerollDirection::AtOrAbove);
                update_base_group(result);
            },
            Modifier::RerollGreaterIndefinite(threshold) => {
                reroll_dice(result, rng, *threshold, dice.sides, true, RerollDirection::AtOrAbove);
                update_base_group(result);
            },
            _ => {},
        }
        proof {
            if explode_request(*dice) {
                lemma_dice_step_inert(*dice);
                let added = result.individual_rolls@.len() - before.individual_rolls@.len();
                let capped = m is ExplodeIndefinite && added == 100;
                assert(notes_of(*result) =~= notes_of(before) + explode_notes(added as nat, capped));
            }
            if reroll_request(*dice) {
                lemma_dice_step_inert(*dice);
                let (t, dir, indefinite) = reroll_parts(m);
                let k = choose|k: nat|
                    k <= 100 && notes_of(*result) == notes_of(before) + #[trigger] reroll_notes(k) && (indefinite
                        && k < 100 ==> forall|j: int|
                        0 <= j < result.individual_rolls@.len() ==> !dir.spec_triggers(
                            #[trigger] result.individual_rolls@[j],
                            t,
                        ));
                assert(rerolls_noted(reroll_notes(k), result.individual_rolls@, m));
                assert(rerolled_from(before.individual_rolls@, result.individual_rolls@, m));
            }

            if step_of(m, DiceStep::Explode) {
                assert(result.individual_rolls@.take(old(result).individual_rolls@.len() as int) =~= before.individual_rolls@.take(
                    old(result).individual_rolls@.len() as int,
                ));
            }
        }
        i = i + 1;
    }
    Ok(())
}

/// The kinds of dice modifiers: exploding, imploding, rerolling, or any of
/// them.
pub enum DiceStep {
    Explode,
    Implode,
    Reroll,
    Any,
}

/// `m` is a dice modifier of the kind `k`.
pub open spec fn step_of(m: Modifier, k: DiceStep) -> bool {
    let explode = m is Explode || m is ExplodeIndefinite;
    let implode = m is Implode;
    let reroll = m is Reroll || m is RerollIndefinite || m is RerollGreater || m is RerollGreaterIndefinite;
    match k {
        DiceStep::Explode => explode,
        DiceStep::Implode => implode,
        DiceStep::Reroll => reroll,
        DiceStep::Any => explode || implode || reroll,
    }
}

/// Some modifier is a dice modifier of the kind `k`.
pub open spec fn has_modifier_of(mods: Seq<Modifier>, k: DiceStep) -> bool {
    exists|i: int| 0 <= i < mods.len() && step_of(#[trigger] mods[i], k)
}

/// One keep/drop modifier applied to a pool (kept, dropped); `None` when the
/// modifier is an error (keeping 0 dice).
pub open spec fn keep_drop_step(m: Modifier, ind: Seq<i32>, dr: Seq<i32>) -> Option<(Seq<i32>, Seq<i32>)> {
    match m {
        Modifier::Drop(c) => if c == 0 {
            Some((ind, dr))
        } else {
            let k = drop_amount(ind.len(), c as nat);
            Some((after_dropping_lowest(ind, k), dr + dropped_lowest(ind, k)))
        },
        Modifier::KeepHigh(c) => if c == 0 {
            None
        } else if c >= ind.len() {
            Some((ind, dr))
        } else {
            let mk = keep_mask(ind, c as nat, false);
            Some((select(ind, mk, true), dr + select(ind, mk, false)))
        },
        Modifier::KeepLow(c) => if c == 0 {
            None
        } else if c >= ind.len() {
            Some((ind, dr))
        } else {
            let mk = keep_mask(ind, c as nat, true);
            Some((select(ind, mk, true), dr + select(ind, mk, false)))
        },
        Modifier::KeepMiddle(c) => if c == 0 {
            None
        } else if c >= ind.len() {
            Some((ind, dr))
        } else {
            let mk = middle_mask(ind, c as nat);
            Some((select(ind, mk, true), dr + select(ind, mk, false)))
        },
        _ => Some((ind, dr)),
    }
}

/// The keep/drop modifiers applied in the order written.
pub open spec fn keep_drop_fold(mods: Seq<Modifier>, ind: Seq<i32>, dr: Seq<i32>) -> Option<(Seq<i32>, Seq<i32>)>
    decreases mods.len(),
{
    if mods.len() == 0 {
        Some((ind, dr))
    } else {
        match keep_drop_fold(mods.drop_last(), ind, dr) {
            None => None,
            Some(p) => keep_drop_step(mods.last(), p.0, p.1),
        }
    }
}

/// Keep/drop modifiers (`d#`, `k#`, `kl#`, `km#`) in the order written.
pub fn apply_keep_drop_modifiers(result: &mut RollResult, dice: &DiceRoll) -> (r: Result<(), DiceError>)
    ensures
        keep_drop_fold(dice.modifiers@, old(result).individual_rolls@, old(result).dropped_rolls@) is None
            <==> r is Err,
        r is Err ==> crate::dice::err_msg(r) == "Cannot keep 0 dice"@,
        r is Ok ==> {
            &&& (final(result).individual_rolls@, final(result).dropped_rolls@) == keep_drop_fold(
                dice.modifiers@,
                old(result).individual_rolls@,
                old(result).dropped_rolls@,
            ).unwrap()
            &&& same_except_pools(*final(result), *old(result))
        },
{
    let mut i: usize = 0;
    while i < dice.modifiers.len()
        invariant
            i <= dice.modifiers@.len(),
            keep_drop_fold(dice.modifiers@.take(i as int), old(result).individual_rolls@, old(result).dropped_rolls@)
                == Some((result.individual_rolls@, result.dropped_rolls@)),
            same_except_pools(*result, *old(result)),
        decreases dice.modifiers.len() - i,
    {
        assert(dice.modifiers@.take(i + 1).drop_last() =~= dice.modifiers@.take(i as int));
        let ghost ind = result.individual_rolls@;
        let ghost dr = result.dropped_rolls@;
        match &dice.modifiers[i] {
            Modifier::Drop(count) => {
                if *count != 0 {
                    drop_dice(result, *count as usize);
                }
            },
            Modifier::KeepHigh(count) => {
                if *count == 0 {
                    proof {
                        lemma_keep_drop_none_extends(dice.modifiers@, i as int, old(result).individual_rolls@, old(result).dropped_rolls@);
                    }
                    return Err(DiceError::from_str("Cannot keep 0 dice"));
                }
                keep_dice(result, *count as usize, false);
            },
            Modifier::KeepLow(count) => {
                if *count == 0 {
                    proof {
                        lemma_keep_drop_none_extends(dice.modifiers@, i as int, old(result).individual_rolls@, old(result).dropped_rolls@);
                    }
                    return Err(DiceError::from_str("Cannot keep 0 dice"));
                }
                keep_dice(result, *count as usize, true);
            },
            Modifier::KeepMiddle(count) => {
                if *count == 0 {
                    proof {
                        lemma_keep_drop_none_extends(dice.modifiers@, i as int, old(result).individual_rolls@, old(result).dropped_rolls@);
                    }
                    return Err(DiceError::from_str("Cannot keep 0 dice"));
                }
                keep_middle_dice(result, *count as usize);
            },
            _ => {},
        }
        proof {
            if let Modifier::Drop(c) = dice.modifiers@[i as int] {
                if c != 0 {
                    assert(drop_amount(ind.len(), c as nat) == drop_amount(ind.len(), (c as usize) as nat));
                }
            }
        }
        i = i + 1;
    }
    assert(dice.modifiers@.take(dice.modifiers@.len() as int) =~= dice.modifiers@);
    Ok(())
}

/// Once the fold fails it stays failed.
proof fn lemma_keep_drop_none_extends(mods: Seq<Modifier>, i: int, ind: Seq<i32>, dr: Seq<i32>)
    requires
        0 <= i < mods.len(),
        keep_drop_fold(mods.take(i), ind, dr) is Some,
        keep_drop_step(
            mods[i],
            keep_drop_fold(mods.take(i), ind, dr).unwrap().0,
            keep_drop_fold(mods.take(i), ind, dr).unwrap().1,
        ) is None,
    ensures
        keep_drop_fold(mods, ind, dr) is None,
    decreases mods.len() - i,
{
    lemma_keep_drop_none_from(mods, i + 1, ind, dr);
}

proof fn lemma_keep_drop_none_from(mods: Seq<Modifier>, j: int, ind: Seq<i32>, dr: Seq<i32>)
    requires
        1 <= j <= mods.len(),
        keep_drop_fold(mods.take(j - 1), ind, dr) is Some ==> keep_drop_step(
            mods[j - 1],
            keep_drop_fold(mods.take(j - 1), ind, dr).unwrap().0,
            keep_drop_fold(mods.take(j - 1), ind, dr).unwrap().1,
        ) is None,
    ensures
        keep_drop_fold(mods, ind, dr) is None,
    decreases mods.len() - j,
{
    assert(mods.take(j).drop_last() =~= mods.take(j - 1));
    assert(keep_drop_fold(mods.take(j), ind, dr) is None);
    if j < mods.len() {
        assert(mods.take(j + 1).drop_last() =~= mods.take(j));
        lemma_keep_drop_none_from(mods, j + 1, ind, dr);
    } else {
        assert(mods.take(j) =~= mods);
    }
}


/// The operator of a dice operand (`+2d6`, `-1d4`, `*1d2`, `/1d3`).
pub enum DiceOperator {
    Add,
    Subtract,
    Multiply,
    Divide,
}

impl DiceOperator {
    pub open spec fn spec_token(self) -> Token {
        match self {
            DiceOperator::Add => Token::Plus,
            DiceOperator::Subtract => Token::Minus,
            DiceOperator::Multiply => Token::Multiply,
            DiceOperator::Divide => Token::Divide,
        }
    }

    /// The token pushed into the expression.
    pub fn token(&self) -> (t: Token)
        ensures
            t == self.spec_token(),
    {
        match self {
            DiceOperator::Add => Token::Plus,
            DiceOperator::Subtract => Token::Minus,
            DiceOperator::Multiply => Token::Multiply,
            DiceOperator::Divide => Token::Divide,
        }
    }

    /// The label of the dice group, which decides how the group renders.
    pub fn group_label(&self) -> (s: &'static str)
        ensures
            s@ == group_kind(*self),
    {
        match self {
            DiceOperator::Add => "add",
            DiceOperator::Subtract => "subtract",
            DiceOperator::Multiply => "multiply",
            DiceOperator::Divide => "divide",
        }
    }
}

/// The kind written on the dice group of an operand combined with `op`.
pub open spec fn group_kind(op: DiceOperator) -> Seq<char> {
    match op {
        DiceOperator::Add => "add"@,
        DiceOperator::Subtract => "subtract"@,
        DiceOperator::Multiply => "multiply"@,
        DiceOperator::Divide => "divide"@,
    }
}

/// The token of an arithmetic operation.
pub open spec fn op_token(op: ArithmeticOp) -> Token {
    match op {
        ArithmeticOp::Add(_) => Token::Plus,
        ArithmeticOp::Subtract(_) => Token::Minus,
        ArithmeticOp::Multiply(_) => Token::Multiply,
        ArithmeticOp::Divide(_) => Token::Divide,
    }
}

pub open spec fn op_operand(op: ArithmeticOp) -> i32 {
    match op {
        ArithmeticOp::Add(x) => x,
        ArithmeticOp::Subtract(x) => x,
        ArithmeticOp::Multiply(x) => x,
        ArithmeticOp::Divide(x) => x,
    }
}

fn arith_token(op: &ArithmeticOp) -> (t: Token)
    ensures
        t == op_token(*op),
{
    match op {
        ArithmeticOp::Add(_) => Token::Plus,
        ArithmeticOp::Subtract(_) => Token::Minus,
        ArithmeticOp::Multiply(_) => Token::Multiply,
        ArithmeticOp::Divide(_) => Token::Divide,
    }
}

/// A dice operand modifier (`+NdS` and the like).
pub open spec fn is_dice_operand(m: Modifier) -> bool {
    m is AddDice || m is SubtractDice || m is MultiplyDice || m is DivideDice
}

pub open spec fn has_dice_operand(mods: Seq<Modifier>) -> bool {
    exists|i: int| 0 <= i < mods.len() && is_dice_operand(#[trigger] mods[i])
}

/// Whether a modifier is skipped as the `*0` marker of `number / dice`.
pub open spec fn skipped(m: Modifier, skip_zero: bool) -> bool {
    skip_zero && m == Modifier::Multiply(0)
}

/// `v` with the arithmetic modifiers applied in the order written, the `*0`
/// marker skipped when `skip_zero`.
pub open spec fn math_fold(mods: Seq<Modifier>, v: i32, skip_zero: bool) -> i32
    decreases mods.len(),
{
    if mods.len() == 0 {
        v
    } else {
        let w = math_fold(mods.drop_last(), v, skip_zero);
        if skipped(mods.last(), skip_zero) {
            w
        } else {
            match arith_of(mods.last()) {
                Some(op) => apply_op(op, w),
                None => w,
            }
        }
    }
}

/// Appending `op n` to a well-formed expression applies `op n` to its value.
pub proof fn lemma_eval_push(t: Seq<Token>, op: Token, n: i32)
    requires
        well_formed_tokens(t),
        !(op is Number),
    ensures
        well_formed_tokens(t + seq![op, Token::Number(n)]),
        eval_left_to_right(t + seq![op, Token::Number(n)]) == match eval_left_to_right(t) {
            None => None,
            Some(v) => combine(v, op, n),
        },
    decreases t.len(),
{
    let u = t + seq![op, Token::Number(n)];
    assert forall|i: int| 0 <= i < u.len() implies (crate::dice::arith::is_number_token(#[trigger] u[i]) <==> i % 2 == 0) by {
        if i < t.len() {
            assert(u[i] == t[i]);
        }
    }
    assert(u[0] == t[0]);
    if t.len() == 1 {
        assert(u[1] == op);
        assert(u[2] == Token::Number(n));
        assert(u.skip(3) =~= Seq::<Token>::empty());
        assert(eval_left_to_right(t) == Some(token_value(t[0])));
        match combine(token_value(t[0]), op, n) {
            None => {
                assert(eval_left_to_right(u) is None);
            },
            Some(v) => {
                assert(seq![Token::Number(v)] + u.skip(3) =~= seq![Token::Number(v)]);
                assert(eval_left_to_right(seq![Token::Number(v)]) == Some(v));
                assert(eval_left_to_right(u) == Some(v));
            },
        }
    } else {
        assert(t.len() >= 3);
        assert(u[1] == t[1]);
        assert(u[2] == t[2]);
        match combine(token_value(t[0]), t[1], token_value(t[2])) {
            None => {
                assert(eval_left_to_right(t) is None);
                assert(eval_left_to_right(u) is None);
            },
            Some(v) => {
                let t2 = seq![Token::Number(v)] + t.skip(3);
                assert forall|i: int| 0 <= i < t2.len() implies (crate::dice::arith::is_number_token(#[trigger] t2[i]) <==> i % 2 == 0) by {
                    if i > 0 {
                        assert(t2[i] == t[i + 2]);
                    }
                }
                lemma_eval_push(t2, op, n);
                assert(seq![Token::Number(v)] + u.skip(3) =~= t2 + seq![op, Token::Number(n)]);
                assert(eval_left_to_right(t) == eval_left_to_right(t2));
                assert(eval_left_to_right(u) == eval_left_to_right(t2 + seq![op, Token::Number(n)]));
            },
        }
    }
}

/// Append the dice of an operand roll to `result` as a dice group.
pub fn add_dice_group(result: &mut RollResult, dice_spec: &DiceRoll, additional: &RollResult, modifier_type: &str)
    ensures
        final(result).dice_groups@.len() == old(result).dice_groups@.len() + 1,
        final(result).dice_groups@.last().rolls@ == additional.individual_rolls@ + additional.dropped_rolls@,
        final(result).dice_groups@.last().dropped_rolls@ == additional.dropped_rolls@,
        final(result).dice_groups@.last().modifier_type@ == modifier_type@,
        final(result).dice_groups@.last()._description@ == int_str(dice_spec.count as int) + "d"@ + int_str(
            dice_spec.sides as int,
        ),
        *final(result) == (RollResult { dice_groups: final(result).dice_groups, ..*old(result) }),
{
    let mut all = additional.individual_rolls.clone();
    let mut dropped = additional.dropped_rolls.clone();
    all.append(&mut dropped);
    result.dice_groups.push(DiceGroup {
        _description: dice_desc(dice_spec.count as u64, dice_spec.sides as u64),
        rolls: all,
        dropped_rolls: additional.dropped_rolls.clone(),
        modifier_type: lit(modifier_type),
    });
}

/// Roll a dice operand, append `op total` to the expression, and fold its
/// dice into `result` (and its notes, when `merge_notes`).
fn apply_dice_operand(
    result: &mut RollResult,
    tokens: &mut Vec<Token>,
    dice_spec: &DiceRoll,
    operator: DiceOperator,
    merge_notes: bool,
    rng: &mut DiceRng,
) -> (r: Result<(), DiceError>)
    requires
        well_formed_tokens(old(tokens)@),
    ensures
        r is Ok ==> {
            &&& well_formed_tokens(final(tokens)@)
            &&& final(tokens)@.len() == old(tokens)@.len() + 2
            &&& final(tokens)@.take(old(tokens)@.len() as int) == old(tokens)@
            &&& final(tokens)@[old(tokens)@.len() as int] == operator.spec_token()
            &&& operator is Divide ==> token_value(final(tokens)@.last()) != 0
            &&& same_flags(*old(result), *final(result))
            &&& final(result).total == old(result).total
            &&& final(result).individual_rolls@.take(old(result).individual_rolls@.len() as int)
                == old(result).individual_rolls@
            &&& final(result).kept_rolls@.take(old(result).kept_rolls@.len() as int) == old(result).kept_rolls@
            &&& final(result).implosion_rolls == old(result).implosion_rolls
            &&& final(result).dice_groups@.len() >= 1
            &&& final(result).dice_groups@.last().modifier_type@ == group_kind(operator)
        },
        pool_request(*dice_spec) && !any_keeps_none(dice_spec.modifiers@) && !has_zero_divisor(dice_spec.modifiers@)
            && !(operator is Divide) ==> r is Ok,
        pool_request(*dice_spec) && !any_keeps_none(dice_spec.modifiers@) && !has_zero_divisor(dice_spec.modifiers@)
            && r is Err ==> err_msg(r) == "Cannot divide by zero (dice result was 0)"@,
        r is Ok && pool_request(*dice_spec) ==> exists|o: RollResult|
            #[trigger] pool_outcome(o, *dice_spec) && final(tokens)@.last() == Token::Number(o.total)
                && final(result).individual_rolls@ == old(result).individual_rolls@ + o.individual_rolls@,
    decreases *dice_spec, 5int,
{
    let operand = roll_with(dice_spec, rng)?;
    let is_divide = match operator {
        DiceOperator::Divide => true,
        _ => false,
    };
    if is_divide && operand.total == 0 {
        return Err(DiceError::from_str("Cannot divide by zero (dice result was 0)"));
    }
    let ghost t0 = tokens@;
    tokens.push(operator.token());
    tokens.push(Token::Number(operand.total));
    proof {
        lemma_eval_push(t0, operator.spec_token(), operand.total);
        assert(tokens@ =~= t0 + seq![operator.spec_token(), Token::Number(operand.total)]);
        assert(tokens@.take(t0.len() as int) =~= t0);
    }
    if merge_notes {
        let mut i: usize = 0;
        while i < operand.notes.len()
            invariant
                i <= operand.notes@.len(),
                same_flags(*old(result), *result),
                result.total == old(result).total,
                result.individual_rolls == old(result).individual_rolls,
                result.kept_rolls == old(result).kept_rolls,
                result.implosion_rolls == old(result).implosion_rolls,
            decreases operand.notes.len() - i,
        {
            push_note(result, operand.notes[i].clone());
            i = i + 1;
        }
    }
    let ghost ind0 = result.individual_rolls@;
    let ghost kept0 = result.kept_rolls@;
    let mut more = operand.individual_rolls.clone();
    result.individual_rolls.append(&mut more);
    let mut more_kept = operand.kept_rolls.clone();
    result.kept_rolls.append(&mut more_kept);
    assert(result.individual_rolls@.take(ind0.len() as int) =~= ind0);
    assert(result.kept_rolls@.take(kept0.len() as int) =~= kept0);
    assert(result.individual_rolls@ =~= ind0 + operand.individual_rolls@);
    add_dice_group(result, dice_spec, &operand, operator.group_label());
    proof {
        if pool_request(*dice_spec) {
            assert(pool_outcome(operand, *dice_spec));
        }
    }
    Ok(())
}

/// A copy of an arithmetic modifier (other modifiers are never copied).
fn copy_arith(m: &Modifier) -> (r: Modifier)
    requires
        arith_of(*m) is Some,
    ensures
        r == *m,
{
    match m {
        Modifier::Add(v) => Modifier::Add(*v),
        Modifier::Subtract(v) => Modifier::Subtract(*v),
        Modifier::Multiply(v) => Modifier::Multiply(*v),
        _ => match m {
            Modifier::Divide(v) => Modifier::Divide(*v),
            _ => Modifier::Add(0),
        },
    }
}

/// The expression built from the total and the modifiers from `start` on,
/// evaluated strictly left to right. Dice operands are rolled and their
/// totals enter the expression; `merge_added_notes` carries the notes of an
/// added roll up, and `skip_zero` skips the `*0` marker of `number / dice`.
fn apply_modifier_expression(
    result: &mut RollResult,
    dice: &DiceRoll,
    start: usize,
    merge_added_notes: bool,
    skip_zero: bool,
    rng: &mut DiceRng,
) -> (r: Result<(), DiceError>)
    requires
        start <= dice.modifiers@.len(),
    ensures
        ({
            let mods = dice.modifiers@.skip(start as int);
            !has_dice_operand(mods) ==> {
                &&& has_zero_divisor(mods) <==> r is Err
                &&& r is Err ==> err_is_divide_by_zero(r)
                &&& r is Ok ==> *final(result) == (RollResult {
                    total: math_fold(mods, old(result).total, skip_zero),
                    ..*old(result)
                })
            }
        }),
        r is Ok ==> same_flags(*old(result), *final(result)),
        r is Ok ==> final(result).implosion_rolls == old(result).implosion_rolls,
    decreases *dice, 1int,
{
    let ghost mods = dice.modifiers@.skip(start as int);
    let mut tokens: Vec<Token> = Vec::new();
    tokens.push(Token::Number(result.total));
    let mut i: usize = start;
    while i < dice.modifiers.len()
        invariant
            start <= i <= dice.modifiers@.len(),
            mods == dice.modifiers@.skip(start as int),
            well_formed_tokens(tokens@),
            tokens@[0] == Token::Number(old(result).total),
            same_flags(*old(result), *result),
            result.implosion_rolls == old(result).implosion_rolls,
            !has_dice_operand(dice.modifiers@.subrange(start as int, i as int)) ==> {
                &&& *result == *old(result)
                &&& !has_zero_divisor(dice.modifiers@.subrange(start as int, i as int))
                &&& eval_left_to_right(tokens@) == Some(
                    math_fold(dice.modifiers@.subrange(start as int, i as int), old(result).total, skip_zero),
                )
            },
        decreases dice.modifiers.len() - i,
    {
        let ghost pre = dice.modifiers@.subrange(start as int, i as int);
        let ghost next = dice.modifiers@.subrange(start as int, i + 1);
        assert(next.drop_last() =~= pre);
        assert(next.last() == dice.modifiers@[i as int]);
        proof {
            if !has_dice_operand(next) {
                assert forall|j: int| 0 <= j < pre.len() implies !is_dice_operand(#[trigger] pre[j]) by {
                    assert(pre[j] == next[j]);
                }
            }
            if has_dice_operand(pre) {
                let j = choose|j: int| 0 <= j < pre.len() && is_dice_operand(#[trigger] pre[j]);
                assert(next[j] == pre[j]);
            }
        }
        let ghost t0 = tokens@;
        match &dice.modifiers[i] {
            Modifier::AddDice(d) => {
                proof {
                    assert(decreases_to!(*dice => dice.modifiers));
                    assert(decreases_to!(dice.modifiers => dice.modifiers@));
                    assert(decreases_to!(dice.modifiers@ => dice.modifiers@[i as int]));
                    assert(decreases_to!(dice.modifiers@[i as int] => *d));
                    assert(is_dice_operand(next[next.len() - 1]));
                }
                apply_dice_operand(result, &mut tokens, d, DiceOperator::Add, merge_added_notes, rng)?;
            },
            Modifier::SubtractDice(d) => {
                proof {
                    assert(decreases_to!(*dice => dice.modifiers));
                    assert(decreases_to!(dice.modifiers => dice.modifiers@));
                    assert(decreases_to!(dice.modifiers@ => dice.modifiers@[i as int]));
                    assert(decreases_to!(dice.modifiers@[i as int] => *d));
                    assert(is_dice_operand(next[next.len() - 1]));
                }
                apply_dice_operand(result, &mut tokens, d, DiceOperator::Subtract, false, rng)?;
            },
            Modifier::MultiplyDice(d) => {
                proof {
                    assert(decreases_to!(*dice => dice.modifiers));
                    assert(decreases_to!(dice.modifiers => dice.modifiers@));
                    assert(decreases_to!(dice.modifiers@ => dice.modifiers@[i as int]));
                    assert(decreases_to!(dice.modifiers@[i as int] => *d));
                    assert(is_dice_operand(next[next.len() - 1]));
                }
                apply_dice_operand(result, &mut tokens, d, DiceOperator::Multiply, false, rng)?;
            },
            Modifier::DivideDice(d) => {
                proof {
                    assert(decreases_to!(*dice => dice.modifiers));
                    assert(decreases_to!(dice.modifiers => dice.modifiers@));
                    assert(decreases_to!(dice.modifiers@ => dice.modifiers@[i as int]));
                    assert(decreases_to!(dice.modifiers@[i as int] => *d));
                    assert(is_dice_operand(next[next.len() - 1]));
                }
                apply_dice_operand(result, &mut tokens, d, DiceOperator::Divide, false, rng)?;
            },
            m => {
                let is_zero_marker = match m {
                    Modifier::Multiply(v) => *v == 0,
                    _ => false,
                };
                if !(skip_zero && is_zero_marker) {
                    match ArithmeticOp::from_modifier(m) {
                        Err(e) => {
                            proof {
                                if !has_dice_operand(mods) {
                                    assert(is_zero_divide(mods[i - start]));
                                }
                            }
                            return Err(e);
                        },
                        Ok(Some(op)) => {
                            let operand = op.operand();
                            tokens.push(arith_token(&op));
                            tokens.push(Token::Number(operand));
                            proof {
                                lemma_eval_push(t0, op_token(op), operand);
                                assert(tokens@ =~= t0 + seq![op_token(op), Token::Number(operand)]);
                            }
                        },
                        Ok(None) => {},
                    }
                } else {
                    assert(skipped(next.last(), skip_zero));
                }
                proof {
                    if !has_dice_operand(next) {
                        assert forall|j: int| 0 <= j < next.len() implies !is_zero_divide(#[trigger] next[j]) by {
                            if j < pre.len() {
                                assert(next[j] == pre[j]);
                            }
                        }
                    }
                }
            },
        }
        i = i + 1;
    }
    assert(dice.modifiers@.subrange(start as int, dice.modifiers@.len() as int) =~= mods);
    if tokens.len() > 1 {
        let v = evaluate_expression(&tokens)?;
        result.total = v;
    } else {
        proof {
            if !has_dice_operand(mods) {
                assert(tokens@.len() == 1);
            }
        }
    }
    Ok(())
}

/// The `number / dice` form: the parser writes it as `*0` followed by `+number`.
pub open spec fn is_number_over_dice(mods: Seq<Modifier>) -> bool {
    mods.len() >= 2 && mods[0] == Modifier::Multiply(0) && mods[1] is Add
}

/// The arithmetic stage of the pipeline: `number / dice` when the modifiers
/// start with its marker, otherwise the expression of all modifiers.
pub fn apply_mathematical_modifiers(result: &mut RollResult, dice: &DiceRoll, rng: &mut DiceRng) -> (r: Result<(), DiceError>)
    ensures
        ({
            let mods = dice.modifiers@;
            !has_dice_operand(mods) ==> if is_number_over_dice(mods) {
                let n = mods[1]->Add_0;
                if old(result).total == 0 {
                    r is Err && err_msg(r) == "Cannot divide by zero (dice result was 0)"@
                } else {
                    &&& has_zero_divisor(mods.skip(2)) <==> r is Err
                    &&& r is Ok ==> *final(result) == (RollResult {
                        total: math_fold(mods.skip(2), wdiv(n, old(result).total), false),
                        ..*old(result)
                    })
                }
            } else {
                &&& has_zero_divisor(mods) <==> r is Err
                &&& r is Err ==> err_is_divide_by_zero(r)
                &&& r is Ok ==> *final(result) == (RollResult {
                    total: math_fold(mods, old(result).total, true),
                    ..*old(result)
                })
            }
        }),
        r is Ok ==> same_flags(*old(result), *final(result)),
    decreases *dice, 2int,
{
    if dice.modifiers.len() >= 2 {
        let is_marker = match &dice.modifiers[0] {
            Modifier::Multiply(v) => *v == 0,
            _ => false,
        };
        if is_marker {
            if let Modifier::Add(number) = &dice.modifiers[1] {
                if result.total == 0 {
                    return Err(DiceError::from_str("Cannot divide by zero (dice result was 0)"));
                }
                result.total = crate::dice::arith::div_wrapping(*number, result.total);
                proof {
                    if !has_dice_operand(dice.modifiers@) {
                        assert forall|j: int| 0 <= j < dice.modifiers@.skip(2).len() implies !is_dice_operand(#[trigger] dice.modifiers@.skip(2)[j]) by {
                            assert(dice.modifiers@.skip(2)[j] == dice.modifiers@[j + 2]);
                        }
                    }
                }
                if dice.modifiers.len() > 2 {
                    return apply_modifier_expression(result, dice, 2, false, false, rng);
                }
                assert(dice.modifiers@.skip(2) =~= Seq::<Modifier>::empty());
                proof {
                    assert(!has_zero_divisor(dice.modifiers@.skip(2)));
                }
                return Ok(());
            }
        }
    }
    assert(dice.modifiers@.skip(0) =~= dice.modifiers@);
    apply_modifier_expression(result, dice, 0, true, true, rng)
}

/// An arithmetic modifier, or one that adds or subtracts dice.
pub open spec fn is_math(m: Modifier) -> bool {
    m is Add || m is Subtract || m is Multiply || m is Divide || m is AddDice || m is SubtractDice
}

/// Whether any modifier is arithmetic or adds or subtracts dice.
fn has_math_modifier(mods: &Vec<Modifier>) -> (b: bool)
    ensures
        b <==> exists|i: int| 0 <= i < mods@.len() && is_math(#[trigger] mods@[i]),
{
    let mut i: usize = 0;
    while i < mods.len()
        invariant
            i <= mods@.len(),
            forall|j: int| 0 <= j < i ==> !is_math(#[trigger] mods@[j]),
        decreases mods.len() - i,
    {
        match &mods[i] {
            Modifier::Add(_) | Modifier::Subtract(_) | Modifier::Multiply(_) | Modifier::Divide(_)
            | Modifier::AddDice(_) | Modifier::SubtractDice(_) => {
                return true;
            },
            _ => {},
        }
        i = i + 1;
    }
    false
}

/// The arithmetic modifiers of `mods[from..to]`, in order.
fn arithmetic_between(mods: &Vec<Modifier>, from: usize, to: usize) -> (v: Vec<Modifier>)
    requires
        from <= to <= mods@.len(),
    ensures
        v@ == mods@.subrange(from as int, to as int).filter(|m: Modifier| arith_of(m) is Some),
        forall|k: int| 0 <= k < v@.len() ==> arith_of(#[trigger] v@[k]) is Some,
        has_zero_divisor(v@) ==> has_zero_divisor(mods@),
{
    let mut v: Vec<Modifier> = Vec::new();
    let mut i = from;
    assert(mods@.subrange(from as int, from as int) =~= Seq::<Modifier>::empty());
    while i < to
        invariant
            from <= i <= to,
            to <= mods@.len(),
            v@ == mods@.subrange(from as int, i as int).filter(|m: Modifier| arith_of(m) is Some),
            forall|k: int| 0 <= k < v@.len() ==> arith_of(#[trigger] v@[k]) is Some,
            forall|k: int| 0 <= k < v@.len() && is_zero_divide(#[trigger] v@[k]) ==> has_zero_divisor(mods@),
        decreases to - i,
    {
        let ghost sub = mods@.subrange(from as int, i + 1);
        assert(sub.drop_last() =~= mods@.subrange(from as int, i as int));
        assert(sub.last() == mods@[i as int]);
        assert(sub.filter(|m: Modifier| arith_of(m) is Some) == if arith_of(mods@[i as int]) is Some {
            mods@.subrange(from as int, i as int).filter(|m: Modifier| arith_of(m) is Some).push(mods@[i as int])
        } else {
            mods@.subrange(from as int, i as int).filter(|m: Modifier| arith_of(m) is Some)
        }) by {
            reveal_with_fuel(Seq::filter, 1);
        }
        if is_arithmetic_modifier(&mods[i]) {
            let c = copy_arith(&mods[i]);
            v.push(c);
            assert(mods@[i as int] == v@[v@.len() - 1]);
            assert(is_zero_divide(mods@[i as int]) ==> has_zero_divisor(mods@));
        }
        i = i + 1;
    }
    v
}

/// Whether any modifier is `m`'s kind: Cyberpunk Red or The Witcher.
fn has_cpr_or_witcher(mods: &Vec<Modifier>) -> (b: bool)
    ensures
        b <==> exists|i: int| 0 <= i < mods@.len() && (#[trigger] mods@[i] is CyberpunkRed || mods@[i] is Witcher),
{
    let mut i: usize = 0;
    while i < mods.len()
        invariant
            i <= mods@.len(),
            forall|j: int| 0 <= j < i ==> !(#[trigger] mods@[j] is CyberpunkRed || mods@[j] is Witcher),
        decreases mods.len() - i,
    {
        match &mods[i] {
            Modifier::CyberpunkRed | Modifier::Witcher => {
                return true;
            },
            _ => {},
        }
        i = i + 1;
    }
    false
}

/// What the game-system reading `m`, alone in a request of `count` dice of
/// `sides` sides, does to a result `a`, leaving `b`, with the outcome `r`:
/// each reading as its own function states it; the readings that need no
/// die and cannot fail as `tally_step`; any other modifier leaves the result
/// as it is.
pub open spec fn system_reading(m: Modifier, a: RollResult, b: RollResult, r: Result<(), DiceError>, count: u32, sides: u32) -> bool {
    match m {
        Modifier::Fudge => crate::dice::systems::fudge_step(a, b, r),
        Modifier::CypherSystem(level) => crate::dice::systems::cypher_step(a, b, r, level),
        Modifier::LaserFeelings(_, target, kind) => crate::dice::systems::laser_feelings_step(a, b, r, target, kind, count),
        Modifier::WildWorlds(cut) => crate::dice::systems::wild_worlds_step(a, b, r, cut),
        Modifier::PlotDie => crate::dice::systems::plot_die_step(a, b, r),
        Modifier::ForgedDark => crate::dice::systems::forged_dark_step(a, b, r),
        Modifier::ForgedDarkZero => crate::dice::systems::forged_dark_zero_step(a, b, r),
        Modifier::Daggerheart => crate::dice::systems::daggerheart_step(a, b, r),
        Modifier::AlienStress(level) => r is Ok && crate::dice::handlers::alien_stress_step(a, b, level),
        Modifier::HeroSystem(kind) => r is Ok && crate::dice::handlers::hero_system_step(a, b, kind),
        Modifier::CyberpunkRed => crate::dice::handlers::cyberpunk_red_step(a, b, r),
        Modifier::CyberpunkRedDamage => crate::dice::handlers::cyberpunk_red_damage_step(a, b, r, sides),
        Modifier::Witcher => crate::dice::handlers::witcher_step(a, b, r),
        Modifier::Essence20(rank, spec) => crate::dice::handlers::essence20_step(a, b, r, rank, spec, sides),
        Modifier::DarkestHouse(called) => crate::dice::handlers::darkest_house_step(a, b, r, called),
        _ => r is Ok && if is_tally(m) {
            tally_step(a, b, m)
        } else {
            b == a
        },
    }
}

/// A request whose one modifier is read by a handler that replaces the
/// whole result: Marvel Multiverse and Vampire: the Masquerade 5th edition.
pub open spec fn replaced_by_handler(m: Modifier) -> bool {
    m is MarvelMultiverse || m is VampireMasquerade5
}

/// The system readings, success counting and the arithmetic on success
/// counts, in the order the modifiers were written.
#[verifier::rlimit(80)]
#[verifier::spinoff_prover]
pub fn apply_special_system_modifiers(result: &mut RollResult, dice: &DiceRoll, rng: &mut DiceRng) -> (r: Result<(), DiceError>)
    requires
        carries_flags(*old(result), *dice),
        1 <= dice.sides <= i32::MAX,
    ensures
        r is Ok ==> carries_flags(*final(result), *dice),
        counting_only(dice.modifiers@) ==> r is Ok && *final(result) == settle_failures(
            count_fold(*old(result), dice.modifiers@),
        ),
        count_step_only(dice.modifiers@) ==> r is Ok && *final(result) == settle_failures(
            count_fold(*old(result), dice.modifiers@),
        ),
        keep_math_only(dice.modifiers@) && old(result).successes is None && old(result).failures is None ==> r is Ok
            && *final(result) == *old(result),
        system_inert_only(dice.modifiers@) && old(result).successes is None && old(result).failures is None ==> r is Ok
            && *final(result) == *old(result),
        tally_only(dice.modifiers@) ==> r is Ok && exists|states: Seq<RollResult>|
            #[trigger] tally_trace(states, *old(result), dice.modifiers@) && *final(result) == settle_failures(
                states.last(),
            ),
        (forall|i: int| 0 <= i < dice.modifiers@.len() ==> is_standard(#[trigger] dice.modifiers@[i]))
            && !has_zero_divisor(dice.modifiers@) ==> r is Ok,
        standard_only(dice.modifiers@) && arith_after_counting(dice.modifiers@) && old(result).successes is None
            && old(result).failures is None ==> (r is Ok ==> *final(result) == (RollResult {
            successes: standard_successes(
                dice.modifiers@,
                settle_failures(count_fold(*old(result), dice.modifiers@)).successes,
            ),
            ..settle_failures(count_fold(*old(result), dice.modifiers@))
        })),
        dice.modifiers@.len() == 1 && !replaced_by_handler(dice.modifiers@[0]) ==> exists|mid: RollResult|
            #[trigger] system_reading(dice.modifiers@[0], *old(result), mid, r, dice.count, dice.sides)
                && *final(result) == (if r is Ok { settle_failures(mid) } else { mid }),
        dice.modifiers@.len() == 1 && dice.modifiers@[0] is MarvelMultiverse ==> exists|rr: Result<RollResult, DiceError>|
            #[trigger] crate::dice::handlers::marvel_outcome(*dice, rr) && match rr {
                Ok(x) => r is Ok && *final(result) == x,
                Err(e) => r == Err::<(), DiceError>(e) && *final(result) == *old(result),
            },
        dice.modifiers@.len() == 1 ==> (match dice.modifiers@[0] {
            Modifier::VampireMasquerade5(p, h) => exists|rr: Result<RollResult, DiceError>|
                #[trigger] crate::dice::handlers::vtm5_outcome(*dice, p, h, rr) && match rr {
                    Ok(x) => r is Ok && *final(result) == x,
                    Err(e) => r == Err::<(), DiceError>(e) && *final(result) == *old(result),
                },
            _ => true,
        }),
{
    proof {
        if counting_only(dice.modifiers@) {
            assert forall|i: int| 0 <= i < dice.modifiers@.len() implies #[trigger] is_counting(dice.modifiers@[i])
                || step_of(dice.modifiers@[i], DiceStep::Any) by {
                assert(is_counting(dice.modifiers@[i]));
            }
        }
        if keep_math_only(dice.modifiers@) {
            assert forall|i: int| 0 <= i < dice.modifiers@.len() implies system_inert(#[trigger] dice.modifiers@[i]) by {
                assert(is_keep_or_math(dice.modifiers@[i]));
            }
        }
    }
    let target_positions = find_target_modifier_positions(&dice.modifiers);
    let has_math = has_math_modifier(&dice.modifiers);
    proof {
        if count_step_only(dice.modifiers@) && has_math {
            let j = choose|j: int| 0 <= j < dice.modifiers@.len() && is_math(#[trigger] dice.modifiers@[j]);
            assert(is_counting(dice.modifiers@[j]) || step_of(dice.modifiers@[j], DiceStep::Any));
        }
        if dice.modifiers@.len() == 1 && has_math {
            let j = choose|j: int| 0 <= j < dice.modifiers@.len() && is_math(#[trigger] dice.modifiers@[j]);
            assert(j == 0);
            if target_positions@.len() > 0 {
                assert(target_positions@[0] < 1);
                assert(is_target_modifier(dice.modifiers@[0]));
            }
        }
    }
    if target_positions.len() > 0 && has_math {
        let pre = arithmetic_between(&dice.modifiers, 0, target_positions[0]);
        proof {
            if standard_only(dice.modifiers@) && arith_after_counting(dice.modifiers@) && pre@.len() > 0 {
                let p0 = target_positions@[0] as int;
                let sub = dice.modifiers@.subrange(0, p0);
                assert(crate::dice::arith::is_target_modifier(dice.modifiers@[p0]));
                assert forall|i: int| 0 <= i < sub.len() implies crate::dice::arith::arith_of(#[trigger] sub[i]) is None by {
                    assert(sub[i] == dice.modifiers@[i]);
                    assert(!(crate::dice::arith::arith_of(dice.modifiers@[i]) is Some
                        && crate::dice::arith::is_target_modifier(dice.modifiers@[p0])));
                }
                lemma_filter_arith_empty(sub);
            }
        }
        if pre.len() > 0 {
            crate::dice::systems::apply_pre_target_mathematical_modifiers(result, &pre)?;
        }
    }
    let mut has_special_system = false;
    let mut i: usize = 0;
    let ghost mut trace: Seq<RollResult> = seq![*result];
    proof {
        if system_inert_only(dice.modifiers@) && target_positions@.len() > 0 {
            assert(system_inert(dice.modifiers@[target_positions@[0] as int]));
        }
    }
    proof {
        if tally_only(dice.modifiers@) {
            assert(!has_math) by {
                if has_math {
                    let j = choose|j: int| 0 <= j < dice.modifiers@.len() && is_math(#[trigger] dice.modifiers@[j]);
                    assert(is_tally(dice.modifiers@[j]));
                }
            }
        }
    }
    while i < dice.modifiers.len()
        invariant
            i <= dice.modifiers@.len(),
            carries_flags(*result, *dice),
            1 <= dice.sides <= i32::MAX,
            count_step_only(dice.modifiers@) ==> *result == count_fold(*old(result), dice.modifiers@.take(i as int)),
            standard_only(dice.modifiers@) && arith_after_counting(dice.modifiers@) ==> *result == count_fold(
                *old(result),
                dice.modifiers@.take(i as int),
            ),
            standard_only(dice.modifiers@) ==> (has_special_system <==> any_target(dice.modifiers@.take(i as int))),
            tally_only(dice.modifiers@) ==> tally_trace(trace, *old(result), dice.modifiers@.take(i as int))
                && trace.last() == *result && !has_math,
            system_inert_only(dice.modifiers@) ==> *result == *old(result) && !has_special_system,
            system_inert_only(dice.modifiers@) ==> target_positions@.len() == 0,
            has_math <==> exists|j: int| 0 <= j < dice.modifiers@.len() && is_math(#[trigger] dice.modifiers@[j]),
            dice.modifiers@.len() == 1 && i == 0 ==> *result == *old(result),
            dice.modifiers@.len() == 1 && i == 1 ==> !replaced_by_handler(dice.modifiers@[0]),
            dice.modifiers@.len() == 1 && has_math ==> is_math(dice.modifiers@[0]) && !has_special_system
                && target_positions@.len() == 0,
            dice.modifiers@.len() == 1 && i == 1 && !replaced_by_handler(dice.modifiers@[0]) ==> system_reading(
                dice.modifiers@[0],
                *old(result),
                *result,
                Ok(()),
                dice.count,
                dice.sides,
            ),
        decreases dice.modifiers.len() - i,
    {
        proof {
            assert(dice.modifiers@.take(i + 1).drop_last() =~= dice.modifiers@.take(i as int));
            assert(count_step_only(dice.modifiers@) ==> is_counting(dice.modifiers@[i as int]) || step_of(dice.modifiers@[i as int], DiceStep::Any));
            assert(standard_only(dice.modifiers@) ==> is_standard(dice.modifiers@[i as int]));
            if standard_only(dice.modifiers@) {
                let t = dice.modifiers@.take(i + 1);
                if any_target(t) && !any_target(dice.modifiers@.take(i as int)) {
                    let j = choose|j: int| 0 <= j < t.len() && (#[trigger] t[j] is Target || t[j] is TargetLower);
                    assert(j == i);
                }
                if any_target(dice.modifiers@.take(i as int)) {
                    let j = choose|j: int| 0 <= j < i && (#[trigger] dice.modifiers@.take(i as int)[j] is Target
                        || dice.modifiers@.take(i as int)[j] is TargetLower);
                    assert(t[j] == dice.modifiers@.take(i as int)[j]);
                }
                if dice.modifiers@[i as int] is Target || dice.modifiers@[i as int] is TargetLower {
                    assert(t[i as int] == dice.modifiers@[i as int]);
                }
            }
            assert(system_inert_only(dice.modifiers@) ==> system_inert(dice.modifiers@[i as int]));
        }
        let ghost before_step = *result;
        match &dice.modifiers[i] {
            Modifier::Alien => {
                crate::dice::systems::apply_alien_base_modifier(result);
                has_special_system = true;
            },
            Modifier::AlienStress(level) => {
                crate::dice::handlers::apply_alien_stress_modifier(result, *level, rng);
                has_special_system = true;
            },
            Modifier::TargetWithDoubleSuccess(t, d) => {
                crate::dice::systems::count_dice_with_double_success(result, *t, *d);
                has_special_system = true;
            },
            Modifier::ForgedDark => {
                let rr = crate::dice::systems::apply_forged_dark_mechanics(result);
                if rr.is_err() {
                    proof {
                        if dice.modifiers@.len() == 1 {
                            assert(system_reading(dice.modifiers@[0], *old(result), *result, rr, dice.count, dice.sides));
                        }
                    }
                    return rr;
                }
                has_special_system = true;
            },
            Modifier::ForgedDarkZero => {
                let rr = crate::dice::systems::apply_forged_dark_zero_mechanics(result);
                if rr.is_err() {
                    proof {
                        if dice.modifiers@.len() == 1 {
                            assert(system_reading(dice.modifiers@[0], *old(result), *result, rr, dice.count, dice.sides));
                        }
                    }
                    return rr;
                }
                has_special_system = true;
            },
            Modifier::Daggerheart => {
                let rr = crate::dice::systems::apply_daggerheart_mechanics(result);
                if rr.is_err() {
                    proof {
                        if dice.modifiers@.len() == 1 {
                            assert(system_reading(dice.modifiers@[0], *old(result), *result, rr, dice.count, dice.sides));
                        }
                    }
                    return rr;
                }
                has_special_system = true;
            },
            Modifier::TargetLowerWithDoubleSuccess(t, d) => {
                crate::dice::systems::count_dice_with_target_lower_double_success(result, *t, *d);
                has_special_system = true;
            },
            Modifier::Target(v) => {
                crate::dice::systems::count_successes_in(result, (*v as i32) as i64, i32::MAX as i64);
                has_special_system = true;
            },
            Modifier::TargetLower(v) => {
                crate::dice::systems::count_successes_in(result, i32::MIN as i64, (*v as i32) as i64);
                has_special_system = true;
            },
            Modifier::Failure(v) => {
                if result.successes.is_none() {
                    result.successes = Some(0);
                }
                crate::dice::systems::count_failures_and_subtract(result, *v);
            },
            Modifier::Botch(t) => {
                crate::dice::systems::count_botches(result, *t);
            },
            Modifier::Cancel => {
                crate::dice::systems::apply_cancel_modifier(result);
                has_special_system = true;
            },
            Modifier::Fudge => {
                let rr = crate::dice::systems::apply_fudge_conversion(result);
                if rr.is_err() {
                    proof {
                        if dice.modifiers@.len() == 1 {
                            assert(system_reading(dice.modifiers@[0], *old(result), *result, rr, dice.count, dice.sides));
                        }
                    }
                    return rr;
                }
            },
            Modifier::WrathGlory(difficulty, use_total, wrath) => {
                crate::dice::systems::count_wrath_glory_successes(result, *difficulty, *use_total, *wrath);
                has_special_system = true;
            },
            Modifier::Godbound(straight) => {
                crate::dice::systems::apply_godbound_damage(result, *straight, has_math);
                has_special_system = true;
            },
            Modifier::HeroSystem(kind) => {
                crate::dice::handlers::apply_hero_system_calculation(result, rng, kind);
            },
            Modifier::Shadowrun(count) => {
                crate::dice::systems::apply_shadowrun_critical_glitch_check(result, *count);
                has_special_system = true;
            },
            Modifier::MarvelMultiverse(_, _) => {
                let rr = crate::dice::handlers::handle_marvel_multiverse_roll(dice, rng);
                assert(crate::dice::handlers::marvel_outcome(*dice, rr));
                match rr {
                    Ok(replaced) => {
                        *result = replaced;
                        return Ok(());
                    },
                    Err(e) => {
                        return Err(e);
                    },
                }
            },
            Modifier::CyberpunkRed => {
                let rr = crate::dice::handlers::apply_cyberpunk_red_mechanics(result, rng);
                if rr.is_err() {
                    proof {
                        if dice.modifiers@.len() == 1 {
                            assert(system_reading(dice.modifiers@[0], *old(result), *result, rr, dice.count, dice.sides));
                        }
                    }
                    return rr;
                }
                has_special_system = true;
            },
            Modifier::CyberpunkRedDamage => {
                let rr = crate::dice::handlers::apply_cyberpunk_red_damage(result, rng, dice.sides);
                if rr.is_err() {
                    proof {
                        if dice.modifiers@.len() == 1 {
                            assert(system_reading(dice.modifiers@[0], *old(result), *result, rr, dice.count, dice.sides));
                        }
                    }
                    return rr;
                }
            },
            Modifier::Witcher => {
                let rr = crate::dice::handlers::apply_witcher_mechanics(result, rng);
                if rr.is_err() {
                    proof {
                        if dice.modifiers@.len() == 1 {
                            assert(system_reading(dice.modifiers@[0], *old(result), *result, rr, dice.count, dice.sides));
                        }
                    }
                    return rr;
                }
                has_special_system = true;
            },
            Modifier::CypherSystem(level) => {
                let rr = crate::dice::systems::apply_cypher_system_mechanics(result, *level);
                if rr.is_err() {
                    proof {
                        if dice.modifiers@.len() == 1 {
                            assert(system_reading(dice.modifiers@[0], *old(result), *result, rr, dice.count, dice.sides));
                        }
                    }
                    return rr;
                }
                has_special_system = true;
            },
            Modifier::VampireMasquerade5(pool, hunger) => {
                let rr = crate::dice::handlers::handle_vtm5_roll(dice, rng, *pool, *hunger);
                assert(crate::dice::handlers::vtm5_outcome(*dice, *pool, *hunger, rr));
                match rr {
                    Ok(replaced) => {
                        *result = replaced;
                        return Ok(());
                    },
                    Err(e) => {
                        return Err(e);
                    },
                }
            },
            Modifier::LaserFeelings(_, target, kind) => {
                let rr = crate::dice::systems::apply_laser_feelings_mechanics(result, *target, kind, dice.count);
                if rr.is_err() {
                    proof {
                        if dice.modifiers@.len() == 1 {
                            assert(system_reading(dice.modifiers@[0], *old(result), *result, rr, dice.count, dice.sides));
                        }
                    }
                    return rr;
                }
                has_special_system = true;
            },
            Modifier::WildWorlds(cut) => {
                let rr = crate::dice::systems::apply_wild_worlds_mechanics(result, *cut);
                if rr.is_err() {
                    proof {
                        if dice.modifiers@.len() == 1 {
                            assert(system_reading(dice.modifiers@[0], *old(result), *result, rr, dice.count, dice.sides));
                        }
                    }
                    return rr;
                }
                has_special_system = true;
            },
            Modifier::MutantsMasterminds => {
                has_special_system = true;
            },
            Modifier::PlotDie => {
                let rr = crate::dice::systems::apply_plot_die_conversion(result);
                if rr.is_err() {
                    proof {
                        if dice.modifiers@.len() == 1 {
                            assert(system_reading(dice.modifiers@[0], *old(result), *result, rr, dice.count, dice.sides));
                        }
                    }
                    return rr;
                }
                has_special_system = true;
            },
            Modifier::Essence20(rank, specialization) => {
                let rr = crate::dice::handlers::apply_essence20_skill_dice(result, rng, *rank, *specialization, dice.sides);
                if rr.is_err() {
                    proof {
                        if dice.modifiers@.len() == 1 {
                            assert(system_reading(dice.modifiers@[0], *old(result), *result, rr, dice.count, dice.sides));
                        }
                    }
                    return rr;
                }
            },
            Modifier::DarkestHouse(called) => {
                let rr = crate::dice::handlers::apply_darkest_house_die(result, rng, *called);
                if rr.is_err() {
                    proof {
                        if dice.modifiers@.len() == 1 {
                            assert(system_reading(dice.modifiers@[0], *old(result), *result, rr, dice.count, dice.sides));
                        }
                    }
                    return rr;
                }
            },
            _ => {},
        }
        proof {
            if dice.modifiers@.len() == 1 && !replaced_by_handler(dice.modifiers@[0]) {
                assert(system_reading(dice.modifiers@[0], *old(result), *result, Ok(()), dice.count, dice.sides));
            }
        }
        proof {
            if tally_only(dice.modifiers@) {
                let m = dice.modifiers@[i as int];
                assert(is_tally(m));
                assert(tally_step(before_step, *result, m));
                let t0 = trace;
                trace = trace.push(*result);
                let ms = dice.modifiers@.take(i + 1);
                assert forall|k: int| 0 <= k < ms.len() implies tally_step(trace[k], #[trigger] trace[k + 1], ms[k]) by {
                    if k < i {
                        assert(trace[k] == t0[k] && trace[k + 1] == t0[k + 1]);
                        assert(ms[k] == dice.modifiers@.take(i as int)[k]);
                    }
                }
            }
        }
        i = i + 1;
    }
    crate::dice::systems::finalize_success_failure_calculation(result);
    proof {
        assert(dice.modifiers@.take(dice.modifiers@.len() as int) =~= dice.modifiers@);
        if tally_only(dice.modifiers@) {
            assert(tally_trace(trace, *old(result), dice.modifiers@));
        }
        if system_inert_only(dice.modifiers@) {
            assert forall|i: int| 0 <= i < dice.modifiers@.len() implies !(#[trigger] dice.modifiers@[i] is CyberpunkRed
                || dice.modifiers@[i] is Witcher) by {
                assert(system_inert(dice.modifiers@[i]));
            }
        }
        if count_step_only(dice.modifiers@) && has_math {
            let j = choose|j: int| 0 <= j < dice.modifiers@.len() && is_math(#[trigger] dice.modifiers@[j]);
            assert(is_counting(dice.modifiers@[j]) || step_of(dice.modifiers@[j], DiceStep::Any));
        }
    }
    let ghost settled = *result;
    proof {
        if standard_only(dice.modifiers@) {
            assert(dice.modifiers@.take(dice.modifiers@.len() as int) =~= dice.modifiers@);
            if has_math {
                let j = choose|j: int| 0 <= j < dice.modifiers@.len() && is_math(#[trigger] dice.modifiers@[j]);
                assert(is_standard(dice.modifiers@[j]));
                assert(!no_arith(dice.modifiers@));
            }
            if !no_arith(dice.modifiers@) {
                let j = choose|j: int| 0 <= j < dice.modifiers@.len() && crate::dice::arith::arith_of(
                    #[trigger] dice.modifiers@[j],
                ) is Some;
                assert(is_math(dice.modifiers@[j]));
            }
            if any_target(dice.modifiers@) {
                let j = choose|j: int| 0 <= j < dice.modifiers@.len() && (#[trigger] dice.modifiers@[j] is Target
                    || dice.modifiers@[j] is TargetLower);
                assert(crate::dice::arith::is_target_modifier(dice.modifiers@[j]));
                assert(target_positions@.contains(j as usize));
            }
        }
    }
    if has_special_system && has_math && result.successes.is_some() && target_positions.len() > 0 {
        let last = target_positions[target_positions.len() - 1];
        let post = arithmetic_between(&dice.modifiers, last + 1, dice.modifiers.len());
        proof {
            if standard_only(dice.modifiers@) && arith_after_counting(dice.modifiers@) {
                assert(crate::dice::arith::is_target_modifier(dice.modifiers@[last as int]));
                assert forall|i: int| 0 <= i <= last implies crate::dice::arith::arith_of(
                    #[trigger] dice.modifiers@[i],
                ) is None by {
                    if i < last && crate::dice::arith::arith_of(dice.modifiers@[i]) is Some {
                        assert(!(crate::dice::arith::arith_of(dice.modifiers@[i]) is Some
                            && crate::dice::arith::is_target_modifier(dice.modifiers@[last as int])));
                    }
                }
                lemma_fold_arith_tail(dice.modifiers@, last as int, result.successes->0);
            }
        }
        if post.len() > 0 {
            crate::dice::systems::apply_mathematical_modifiers_to_successes_from_slice(result, &post)?;
        }
    }
    if has_cpr_or_witcher(&dice.modifiers) && has_math {
        crate::dice::systems::apply_mathematical_modifiers_to_cpr_total(result, &dice.modifiers)?;
    }
    Ok(())
}

/// The first `ConanSkill` modifier's dice count.
pub open spec fn first_conan_skill(mods: Seq<Modifier>) -> Option<u32>
    decreases mods.len(),
{
    if mods.len() == 0 {
        None
    } else {
        match mods[0] {
            Modifier::ConanSkill(c) => Some(c),
            _ => first_conan_skill(mods.drop_first()),
        }
    }
}

fn find_conan_skill(mods: &Vec<Modifier>) -> (r: Option<u32>)
    ensures
        r == first_conan_skill(mods@),
{
    let mut i: usize = 0;
    assert(mods@.skip(0) =~= mods@);
    while i < mods.len()
        invariant
            i <= mods@.len(),
            first_conan_skill(mods@.skip(i as int)) == first_conan_skill(mods@),
        decreases mods.len() - i,
    {
        assert(mods@.skip(i as int).drop_first() =~= mods@.skip(i + 1));
        if let Modifier::ConanSkill(c) = &mods[i] {
            return Some(*c);
        }
        i = i + 1;
    }
    assert(mods@.skip(i as int) =~= Seq::<Modifier>::empty());
    None
}

/// The dice operands `+NdM` among the modifiers, in order.
pub open spec fn added_dice(mods: Seq<Modifier>) -> Seq<DiceRoll>
    decreases mods.len(),
{
    if mods.len() == 0 {
        seq![]
    } else {
        let pre = added_dice(mods.drop_last());
        match mods.last() {
            Modifier::AddDice(d) => pre.push(d),
            _ => pre,
        }
    }
}

/// The dice of a list of results, one after another.
pub open spec fn concat_rolls(adds: Seq<RollResult>) -> Seq<i32>
    decreases adds.len(),
{
    if adds.len() == 0 {
        seq![]
    } else {
        concat_rolls(adds.drop_last()) + adds.last().individual_rolls@
    }
}

/// A Conan skill roll's total, its combat damage and whether it has combat
/// dice, from the total `start` and the results `adds` of its dice operands
/// `ds`: a d6 operand is read on the combat chart, any other adds its total.
pub open spec fn conan_adds(start: i32, ds: Seq<DiceRoll>, adds: Seq<RollResult>) -> (i32, i32, bool)
    decreases adds.len(),
{
    if adds.len() == 0 || ds.len() == 0 {
        (start, 0i32, false)
    } else {
        let p = conan_adds(start, ds.drop_last(), adds.drop_last());
        if ds.last().sides == 6 {
            (p.0, p.1.wrapping_add(crate::dice::systems::conan_damage(adds.last().individual_rolls@) as i32), true)
        } else {
            (p.0.wrapping_add(adds.last().total), p.1, p.2)
        }
    }
}

/// The outcome of a Conan skill roll of `c` d20s with dice operands, from
/// the operands' results `adds`: each success die counts one; a d6 operand
/// adds its combat damage to the total and the successes, any other operand
/// its total to the total; then the arithmetic modifiers apply.
pub open spec fn conan_skill_with_adds(res: RollResult, mods: Seq<Modifier>, c: u32, adds: Seq<RollResult>) -> bool {
    let ds = added_dice(mods);
    let p = conan_adds(c as i32, ds, adds);
    &&& adds.len() == ds.len()
    &&& res.individual_rolls@ == res.individual_rolls@.take(c as int) + concat_rolls(adds)
    &&& res.total == crate::dice::arith::fold_arith(mods, if p.2 { p.0.wrapping_add(p.1) } else { p.0 })
    &&& res.successes == Some(if p.2 { (c as i32).wrapping_add(p.1) } else { c as i32 })
}

/// What a Conan skill roll gives for the request `dice`.
pub open spec fn conan_skill_outcome(dice: DiceRoll, r: Result<RollResult, DiceError>) -> bool {
    &&& (first_conan_skill(dice.modifiers@) is None ==> r is Err && err_msg(r) == "Expected ConanSkill modifier"@)
    &&& (first_conan_skill(dice.modifiers@) is Some && no_added_dice(dice.modifiers@) ==> (has_zero_divisor(
            dice.modifiers@,
        ) <==> r is Err))
    &&& (r matches Ok(res) ==> {
            let c = first_conan_skill(dice.modifiers@)->Some_0;
            &&& carries_flags(res, dice)
            &&& res.individual_rolls@.len() >= c
            &&& in_die_range(res.individual_rolls@.take(c as int), 20)
            &&& no_added_dice(dice.modifiers@) ==> {
                &&& res.individual_rolls@.len() == c
                &&& res.kept_rolls@ == res.individual_rolls@
                &&& res.successes == Some(c as i32)
                &&& res.total == crate::dice::arith::fold_arith(dice.modifiers@, c as i32)
            }
       
            &&& exists|adds: Seq<RollResult>| #[trigger] conan_skill_with_adds(res, dice.modifiers@, c, adds)
        })
}

/// combat dice and other added dice summed into the total.
fn handle_conan_skill_roll(dice: &DiceRoll, rng: &mut DiceRng) -> (r: Result<RollResult, DiceError>)
    ensures
        first_conan_skill(dice.modifiers@) is None ==> r is Err && err_msg(r) == "Expected ConanSkill modifier"@,
        first_conan_skill(dice.modifiers@) is Some && no_added_dice(dice.modifiers@) ==> (has_zero_divisor(
            dice.modifiers@,
        ) <==> r is Err),
        r matches Ok(res) ==> {
            let c = first_conan_skill(dice.modifiers@)->Some_0;
            &&& carries_flags(res, *dice)
            &&& res.individual_rolls@.len() >= c
            &&& in_die_range(res.individual_rolls@.take(c as int), 20)
            &&& no_added_dice(dice.modifiers@) ==> {
                &&& res.individual_rolls@.len() == c
                &&& res.kept_rolls@ == res.individual_rolls@
                &&& res.successes == Some(c as i32)
                &&& res.total == crate::dice::arith::fold_arith(dice.modifiers@, c as i32)
            }
       
            &&& exists|adds: Seq<RollResult>| #[trigger] conan_skill_with_adds(res, dice.modifiers@, c, adds)
        },
    decreases *dice, 3int,
{
    let dice_count = match find_conan_skill(&dice.modifiers) {
        Some(c) => c,
        None => {
            return Err(DiceError::from_str("Expected ConanSkill modifier"));
        },
    };
    let mut result = RollResult::from_dice(dice);
    result.individual_rolls = crate::dice::handlers::roll_pool(rng, dice_count, 20);
    let skill_successes = result.individual_rolls.len() as i32;
    result.successes = Some(skill_successes);
    result.total = skill_successes;
    result.kept_rolls = result.individual_rolls.clone();
    let group_rolls = result.individual_rolls.clone();
    crate::dice::handlers::push_dice_group(&mut result, crate::text::nat_then(dice_count as u64, "d20"), group_rolls, "base");
    let mut combat_total: i32 = 0;
    let mut has_combat = false;
    let mut specials: usize = 0;
    let mut i: usize = 0;
    let ghost r1 = result;
    let ghost c = dice_count;
    let ghost mut adds: Seq<RollResult> = Seq::empty();
    assert(r1.individual_rolls@.take(c as int) =~= r1.individual_rolls@);
    assert(r1.individual_rolls@ + concat_rolls(adds) =~= r1.individual_rolls@);
    assert(dice.modifiers@.take(0) =~= Seq::<Modifier>::empty());
    while i < dice.modifiers.len()
        invariant
            i <= dice.modifiers@.len(),
            carries_flags(result, *dice),
            result.individual_rolls@.len() >= c,
            result.individual_rolls@.take(c as int) == r1.individual_rolls@,
            r1.individual_rolls@.len() == c,
            first_conan_skill(dice.modifiers@) == Some(c),
            in_die_range(r1.individual_rolls@, 20),
            no_added_dice(dice.modifiers@) ==> result == r1 && !has_combat,
            adds.len() == added_dice(dice.modifiers@.take(i as int)).len(),
            result.individual_rolls@ == r1.individual_rolls@ + concat_rolls(adds),
            result.total == conan_adds(c as i32, added_dice(dice.modifiers@.take(i as int)), adds).0,
            combat_total == conan_adds(c as i32, added_dice(dice.modifiers@.take(i as int)), adds).1,
            has_combat == conan_adds(c as i32, added_dice(dice.modifiers@.take(i as int)), adds).2,
            result.successes == Some(c as i32),
            r1.total == c as i32,
        decreases dice.modifiers.len() - i,
    {
        let ghost ds0 = added_dice(dice.modifiers@.take(i as int));
        proof {
            assert(dice.modifiers@.take(i + 1).drop_last() =~= dice.modifiers@.take(i as int));
        }
        if let Modifier::AddDice(extra) = &dice.modifiers[i] {
            proof {
                assert(decreases_to!(*dice => dice.modifiers));
                assert(decreases_to!(dice.modifiers => dice.modifiers@));
                assert(decreases_to!(dice.modifiers@ => dice.modifiers@[i as int]));
                assert(decreases_to!(dice.modifiers@[i as int] => *extra));
            }
            let added = roll_with(extra, rng)?;
            let ghost before = result.individual_rolls@;
            if extra.sides == 6 {
                let damage = crate::dice::systems::apply_conan_combat_interpretation(&added.individual_rolls);
                combat_total = combat_total.wrapping_add(damage);
                has_combat = true;
                let sp = crate::dice::systems::count_in(&added.individual_rolls, 5, 6);
                specials = if specials <= usize::MAX - sp { specials + sp } else { usize::MAX };
                let mut more = added.individual_rolls.clone();
                result.individual_rolls.append(&mut more);
                let mut more_kept = added.kept_rolls.clone();
                result.kept_rolls.append(&mut more_kept);
                crate::dice::handlers::push_dice_group(&mut result, crate::text::nat_then(extra.count as u64, "d6"), added.individual_rolls.clone(), "add");
                assert(result.individual_rolls@.take(c as int) =~= before.take(c as int));
                proof {
                    let ds1 = added_dice(dice.modifiers@.take(i + 1));
                    assert(dice.modifiers@.take(i + 1).last() == dice.modifiers@[i as int]);
                    assert(ds1 == ds0.push(*extra));
                    assert(ds1.drop_last() =~= ds0);
                    let a2 = adds.push(added);
                    assert(a2.drop_last() =~= adds);
                    adds = a2;
                    assert(result.individual_rolls@ =~= r1.individual_rolls@ + concat_rolls(adds));
                }
            } else {
                result.total = result.total.wrapping_add(added.total);
                let mut more = added.individual_rolls.clone();
                result.individual_rolls.append(&mut more);
                let mut more_kept = added.kept_rolls.clone();
                result.kept_rolls.append(&mut more_kept);
                crate::dice::handlers::push_dice_group(&mut result, dice_desc(extra.count as u64, extra.sides as u64), added.individual_rolls.clone(), "add");
                assert(result.individual_rolls@.take(c as int) =~= before.take(c as int));
                proof {
                    let ds1 = added_dice(dice.modifiers@.take(i + 1));
                    assert(dice.modifiers@.take(i + 1).last() == dice.modifiers@[i as int]);
                    assert(ds1 == ds0.push(*extra));
                    assert(ds1.drop_last() =~= ds0);
                    let a2 = adds.push(added);
                    assert(a2.drop_last() =~= adds);
                    adds = a2;
                    assert(result.individual_rolls@ =~= r1.individual_rolls@ + concat_rolls(adds));
                }
            }
        }
        proof {
            if !(dice.modifiers@[i as int] is AddDice) {
                assert(dice.modifiers@.take(i + 1).last() == dice.modifiers@[i as int]);
                assert(added_dice(dice.modifiers@.take(i + 1)) == ds0);
            }
        }
        i = i + 1;
    }
    proof {
        assert(dice.modifiers@.take(dice.modifiers@.len() as int) =~= dice.modifiers@);
    }
    if has_combat {
        result.total = result.total.wrapping_add(combat_total);
        let current = match result.successes {
            Some(s) => s,
            None => 0,
        };
        result.successes = Some(current.wrapping_add(combat_total));
    }
    apply_arithmetic_modifiers(&dice.modifiers, &mut result.total)?;
    if has_combat {
        if specials > 0 {
            push_note(&mut result, crate::text::nat_then(specials as u64, " special effects"));
        }
        push_note(&mut result, lit("1=1, 2=2, 3-4=0, 5-6=1+special"));
    }
    assert(result.individual_rolls@.take(c as int) =~= r1.individual_rolls@);
    assert(conan_skill_with_adds(result, dice.modifiers@, c, adds));
    Ok(result)
}

} // verus!
