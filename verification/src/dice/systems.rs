//! Success counting and the game-system readings of a finished pool that
//! need no further dice.

use vstd::prelude::*;
use vstd::string::*;
use crate::dice::{err_msg, DiceError, RollResult};
use crate::dice::arith::{apply_op, arith_of, div_wrapping, err_is_divide_by_zero, fold_arith, has_zero_divisor, wdiv, ArithmeticOp};
use crate::dice::pool::sorted_desc;
use crate::dice::Modifier;
use crate::text::{cat_int, cat_int2, int_str, join_seqs, lit, push_int};

verus! {

/// The notes of a result, as text.
pub open spec fn notes_of(r: RollResult) -> Seq<Seq<char>> {
    r.notes@.map_values(|s: String| s@)
}

/// Append a note, leaving everything else as it was.
pub fn push_note(r: &mut RollResult, s: String)
    ensures
        notes_of(*final(r)) == notes_of(*old(r)).push(s@),
        *final(r) == (RollResult { notes: final(r).notes, ..*old(r) }),
{
    let ghost s_view = s@;
    r.notes.push(s);
    assert(notes_of(*r) =~= notes_of(*old(r)).push(s_view));
}

/// How many dice lie in `[lo, hi]`.
pub open spec fn count_in_range(s: Seq<i32>, lo: int, hi: int) -> nat
    decreases s.len(),
{
    if s.len() == 0 {
        0
    } else {
        count_in_range(s.drop_last(), lo, hi) + if lo <= s.last() <= hi {
            1nat
        } else {
            0nat
        }
    }
}

proof fn lemma_count_le_len(s: Seq<i32>, lo: int, hi: int)
    ensures
        count_in_range(s, lo, hi) <= s.len(),
    decreases s.len(),
{
    if s.len() > 0 {
        lemma_count_le_len(s.drop_last(), lo, hi);
    }
}

/// Counting over two pools one after the other adds the counts.
pub proof fn lemma_count_concat(a: Seq<i32>, b: Seq<i32>, lo: int, hi: int)
    ensures
        count_in_range(a + b, lo, hi) == count_in_range(a, lo, hi) + count_in_range(b, lo, hi),
    decreases b.len(),
{
    if b.len() == 0 {
        assert(a + b =~= a);
    } else {
        assert((a + b).drop_last() =~= a + b.drop_last());
        lemma_count_concat(a, b.drop_last(), lo, hi);
    }
}

pub fn count_in(v: &Vec<i32>, lo: i64, hi: i64) -> (c: usize)
    ensures
        c == count_in_range(v@, lo as int, hi as int),
        c <= v@.len(),
{
    let mut c: usize = 0;
    let mut i: usize = 0;
    while i < v.len()
        invariant
            i <= v@.len(),
            c == count_in_range(v@.take(i as int), lo as int, hi as int),
            c <= i,
        decreases v.len() - i,
    {
        assert(v@.take(i + 1).drop_last() =~= v@.take(i as int));
        let x = v[i] as i64;
        if lo <= x && x <= hi {
            c = c + 1;
        }
        i = i + 1;
    }
    assert(v@.take(v@.len() as int) =~= v@);
    c
}

/// `successes` plus `n` (a missing count starts at zero).
pub open spec fn add_successes(r: RollResult, n: i32) -> Option<i32> {
    Some(
        match r.successes {
            Some(s) => s,
            None => 0,
        }.wrapping_add(n),
    )
}

/// Count the kept dice in `[lo, hi]` as successes, on top of any already counted.
pub fn count_successes_in(result: &mut RollResult, lo: i64, hi: i64)
    ensures
        *final(result) == (RollResult {
            successes: add_successes(
                *old(result),
                count_in_range(old(result).kept_rolls@, lo as int, hi as int) as i32,
            ),
            ..*old(result)
        }),
{
    let count = count_in(&result.kept_rolls, lo, hi) as i32;
    let current = match result.successes {
        Some(s) => s,
        None => 0,
    };
    result.successes = Some(current.wrapping_add(count));
}

/// `f#`: count the kept dice at or below `threshold` as failures, on top of
/// any already counted; they are subtracted from the successes at the end.
pub fn count_failures_and_subtract(result: &mut RollResult, threshold: u32)
    ensures
        *final(result) == (RollResult {
            failures: Some(
                match old(result).failures {
                    Some(f) => f,
                    None => 0,
                }.wrapping_add(
                    count_in_range(old(result).kept_rolls@, i32::MIN as int, (threshold as i32) as int)
                        as i32,
                ),
            ),
            ..*old(result)
        }),
{
    let failures = count_in(&result.kept_rolls, i32::MIN as i64, (threshold as i32) as i64) as i32;
    let current = match result.failures {
        Some(f) => f,
        None => 0,
    };
    result.failures = Some(current.wrapping_add(failures));
}

/// Spec of the botch note: "`n` dice botched (≤`t`)".
pub open spec fn botch_note(n: int, t: int) -> Seq<char> {
    int_str(n) + " dice botched (≤"@ + int_str(t) + ")"@
}

/// `b#`: the number of kept dice at or below the threshold (default 1) are
/// the botches, noted when there are any.
pub fn count_botches(result: &mut RollResult, threshold: Option<u32>)
    ensures
        ({
            let t: u32 = match threshold {
                Some(t) => t,
                None => 1,
            };
            let n = count_in_range(old(result).kept_rolls@, i32::MIN as int, (t as i32) as int) as i32;
            &&& final(result).botches == Some(n)
            &&& notes_of(*final(result)) == if n > 0 {
                notes_of(*old(result)).push(botch_note(n as int, t as int))
            } else {
                notes_of(*old(result))
            }
            &&& *final(result) == (RollResult {
                botches: final(result).botches,
                notes: final(result).notes,
                ..*old(result)
            })
        }),
{
    let t: u32 = match threshold {
        Some(t) => t,
        None => 1,
    };
    let n = count_in(&result.kept_rolls, i32::MIN as i64, (t as i32) as i64) as i32;
    result.botches = Some(n);
    if n > 0 {
        push_note(result, crate::text::int_then2(n as i64, " dice botched (≤", t as i64, ")"));
    }
}

/// Subtract the failures from the successes once every counting modifier ran.
pub fn finalize_success_failure_calculation(result: &mut RollResult)
    ensures
        *final(result) == match (old(result).successes, old(result).failures) {
            (Some(s), Some(f)) => RollResult { successes: Some(s.wrapping_sub(f)), ..*old(result) },
            _ => *old(result),
        },
{
    if let (Some(successes), Some(failures)) = (result.successes, result.failures) {
        result.successes = Some(successes.wrapping_sub(failures));
    }
}

/// `c` on a result: tens cancel ones among the failures (never below zero),
/// with a note; without failure counting, only a note that it needs one.
pub open spec fn cancel_step(a: RollResult, b: RollResult) -> bool {
    ({
        let tens = count_in_range(a.kept_rolls@, 10, 10) as i32;
        let ones = count_in_range(a.kept_rolls@, 1, 1) as i32;
        let c = if tens < ones { tens } else { ones };
        match a.failures {
            None => {
                &&& notes_of(b) == notes_of(a).push(
                    "Cancel modifier requires failure counting (f#) to work"@,
                )
                &&& b == (RollResult { notes: b.notes, ..a })
            },
            Some(f) => if c > 0 {
                let nf = f.wrapping_sub(c);
                &&& b.failures == Some(if nf > 0 { nf } else { 0i32 })
                &&& notes_of(b) == notes_of(a).push(
                    "**CANCELLED**: "@ + int_str(c as int) + " failures (1s) cancelled by "@
                        + int_str(c as int) + " successes (10s)"@,
                )
                &&& b == (RollResult {
                    failures: b.failures,
                    notes: b.notes,
                    ..a
                })
            } else {
                b == a
            },
        }
    })
}

/// World of Darkness `c`: each 10 cancels one 1, taking a failure away.
pub fn apply_cancel_modifier(result: &mut RollResult)
    ensures
        cancel_step(*old(result), *final(result)),
{
    let current = match result.failures {
        None => {
            push_note(result, lit("Cancel modifier requires failure counting (f#) to work"));
            return;
        },
        Some(f) => f,
    };
    let tens = count_in(&result.kept_rolls, 10, 10) as i32;
    let ones = count_in(&result.kept_rolls, 1, 1) as i32;
    let cancellations = if tens < ones {
        tens
    } else {
        ones
    };
    if cancellations > 0 {
        let new_failures = current.wrapping_sub(cancellations);
        result.failures = Some(if new_failures > 0 {
            new_failures
        } else {
            0
        });
        push_note(
            result,
            cat_int2(
                "**CANCELLED**: ",
                cancellations as i64,
                " failures (1s) cancelled by ",
                cancellations as i64,
                " successes (10s)",
            ),
        );
    }
}

/// Successes a die scores under `t#ds#`: two at or above the double value,
/// one at or above the target.
pub open spec fn double_success_score(roll: i32, target: i32, double: i32) -> int {
    if roll >= double {
        2
    } else if roll >= target {
        1
    } else {
        0
    }
}

/// Successes a die scores under `tl#ds#`: two at or below the double value,
/// one at or below the target.
pub open spec fn lower_double_success_score(roll: i32, target: i32, double: i32) -> int {
    if roll <= double {
        2
    } else if roll <= target {
        1
    } else {
        0
    }
}

pub open spec fn double_success_sum(s: Seq<i32>, target: i32, double: i32, lower: bool) -> int
    decreases s.len(),
{
    if s.len() == 0 {
        0
    } else {
        double_success_sum(s.drop_last(), target, double, lower) + if lower {
            lower_double_success_score(s.last(), target, double)
        } else {
            double_success_score(s.last(), target, double)
        }
    }
}

/// Under `t#ds#`, a kept die at or above the double value scores two
/// successes and one from the lower of the target and the double value
/// scores one: the successes are the dice at or above the lower of the two
/// plus the dice at or above the double value. Under `tl#ds#` likewise
/// downwards.
pub proof fn law_double_success_counts(s: Seq<i32>, target: i32, double: i32)
    ensures
        double_success_sum(s, target, double, false) == count_in_range(
            s,
            if target < double { target as int } else { double as int },
            i32::MAX as int,
        ) + count_in_range(s, double as int, i32::MAX as int),
        double_success_sum(s, target, double, true) == count_in_range(
            s,
            i32::MIN as int,
            if target > double { target as int } else { double as int },
        ) + count_in_range(s, i32::MIN as int, double as int),
    decreases s.len(),
{
    if s.len() > 0 {
        law_double_success_counts(s.drop_last(), target, double);
    }
}

/// What `t#ds#` adds to a result's successes: the kept dice at or above
/// the lower of the target and the double value, plus those at or above the
/// double value again.
pub proof fn law_double_success_step(a: RollResult, b: RollResult, target: u32, double: u32)
    requires
        double_success_step(a, b, target, double),
    ensures
        b.successes == add_successes(
            a,
            (count_in_range(
                a.kept_rolls@,
                if (target as i32) < (double as i32) { (target as i32) as int } else { (double as i32) as int },
                i32::MAX as int,
            ) + count_in_range(a.kept_rolls@, (double as i32) as int, i32::MAX as int)) as i32,
        ),
{
    law_double_success_counts(a.kept_rolls@, target as i32, double as i32);
}

proof fn lemma_double_sum_bounds(s: Seq<i32>, target: i32, double: i32, lower: bool)
    ensures
        0 <= double_success_sum(s, target, double, lower) <= 2 * s.len(),
    decreases s.len(),
{
    if s.len() > 0 {
        lemma_double_sum_bounds(s.drop_last(), target, double, lower);
    }
}

fn double_success_total(v: &Vec<i32>, target: i32, double: i32, lower: bool) -> (t: i32)
    ensures
        t == double_success_sum(v@, target, double, lower) as i32,
{
    let mut t: u128 = 0;
    let mut i: usize = 0;
    while i < v.len()
        invariant
            i <= v@.len(),
            t <= 2 * i,
            t == double_success_sum(v@.take(i as int), target, double, lower),
        decreases v.len() - i,
    {
        assert(v@.take(i + 1).drop_last() =~= v@.take(i as int));
        proof {
            lemma_double_sum_bounds(v@.take(i as int), target, double, lower);
        }
        let r = v[i];
        let score: u128 = if lower {
            if r <= double {
                2
            } else if r <= target {
                1
            } else {
                0
            }
        } else {
            if r >= double {
                2
            } else if r >= target {
                1
            } else {
                0
            }
        };
        t = t + score;
        i = i + 1;
    }
    assert(v@.take(v@.len() as int) =~= v@);
    t as i32
}

/// `t#ds#` on a result: one success at or above the target, two at or above
/// the double value, added to any already counted, with a note of the rule.
pub open spec fn double_success_step(a: RollResult, b: RollResult, target: u32, double_success_value: u32) -> bool {
    ({
        let n = double_success_sum(
            a.kept_rolls@,
            target as i32,
            double_success_value as i32,
            false,
        ) as i32;
        let note = if double_success_value == target {
            int_str(double_success_value as int) + "+ = 2 successes"@
        } else {
            int_str(target as int) + "+ = 1 success, "@ + int_str(double_success_value as int)
                + "+ = 2 successes"@
        };
        &&& b.successes == add_successes(a, n)
        &&& notes_of(b) == notes_of(a).push(note)
        &&& b == (RollResult {
            successes: b.successes,
            notes: b.notes,
            ..a
        })
    })
}

/// `t#ds#`: one success at or above the target, two at or above the double
/// value, on top of any already counted.
pub fn count_dice_with_double_success(result: &mut RollResult, target: u32, double_success_value: u32)
    ensures
        double_success_step(*old(result), *final(result), target, double_success_value),
{
    let n = double_success_total(&result.kept_rolls, target as i32, double_success_value as i32, false);
    let current = match result.successes {
        Some(s) => s,
        None => 0,
    };
    result.successes = Some(current.wrapping_add(n));
    if double_success_value == target {
        push_note(result, crate::text::int_then(double_success_value as i64, "+ = 2 successes"));
    } else {
        push_note(
            result,
            crate::text::int_then2(target as i64, "+ = 1 success, ", double_success_value as i64, "+ = 2 successes"),
        );
    }
}

/// `tl#ds#` on a result: one success at or below the target, two at or
/// below the double value, added to any already counted, with a note.
pub open spec fn lower_double_success_step(a: RollResult, b: RollResult, target: u32, double_success_value: u32) -> bool {
    ({
        let n = double_success_sum(
            a.kept_rolls@,
            target as i32,
            double_success_value as i32,
            true,
        ) as i32;
        let note = if double_success_value == target {
            "≤"@ + int_str(double_success_value as int) + " = 2 successes"@
        } else {
            "≤"@ + int_str(double_success_value as int) + " = 2 successes, ≤"@ + int_str(
                target as int,
            ) + " = 1 success"@
        };
        &&& b.successes == add_successes(a, n)
        &&& notes_of(b) == notes_of(a).push(note)
        &&& b == (RollResult {
            successes: b.successes,
            notes: b.notes,
            ..a
        })
    })
}

/// `tl#ds#`: one success at or below the target, two at or below the double
/// value, on top of any already counted.
pub fn count_dice_with_target_lower_double_success(
    result: &mut RollResult,
    target: u32,
    double_success_value: u32,
)
    ensures
        lower_double_success_step(*old(result), *final(result), target, double_success_value),
{
    let n = double_success_total(&result.kept_rolls, target as i32, double_success_value as i32, true);
    let current = match result.successes {
        Some(s) => s,
        None => 0,
    };
    result.successes = Some(current.wrapping_add(n));
    if double_success_value == target {
        push_note(result, cat_int("≤", double_success_value as i64, " = 2 successes"));
    } else {
        push_note(
            result,
            cat_int2("≤", double_success_value as i64, " = 2 successes, ≤", target as i64, " = 1 success"),
        );
    }
}

/// Godbound damage chart: 1 or less is 0, 2-5 is 1, 6-9 is 2, 10 or more is 4.
pub open spec fn godbound_chart(v: i32) -> i32 {
    if v <= 1 {
        0
    } else if v <= 5 {
        1
    } else if v <= 9 {
        2
    } else {
        4
    }
}

pub fn convert_to_godbound_damage(value: i32) -> (d: i32)
    ensures
        d == godbound_chart(value),
{
    if value <= 1 {
        0
    } else if value <= 5 {
        1
    } else if value <= 9 {
        2
    } else {
        4
    }
}

pub open spec fn godbound_sum(s: Seq<i32>) -> int
    decreases s.len(),
{
    if s.len() == 0 {
        0
    } else {
        godbound_sum(s.drop_last()) + godbound_chart(s.last())
    }
}

pub open spec fn godbound_conversion(v: i32) -> Seq<char> {
    int_str(v as int) + " → "@ + int_str(godbound_chart(v) as int)
}

fn int_arrow_int(a: i64, b: i64) -> (res: String)
    ensures
        res@ == int_str(a as int) + " → "@ + int_str(b as int),
{
    let mut s = String::new();
    push_int(&mut s, a);
    s.append(" → ");
    push_int(&mut s, b);
    s
}

pub open spec fn godbound_chart_note() -> Seq<char> {
    "Using Godbound damage chart (1-=0, 2-5=1, 6-9=2, 10+=4)"@
}

/// The notes `gb` adds when each die is read on the chart.
pub open spec fn godbound_per_die_notes(kept: Seq<i32>) -> Seq<Seq<char>> {
    if kept.len() > 1 {
        seq![
            "Damage chart conversions: ["@ + join_seqs(
                kept.map_values(|v: i32| godbound_conversion(v)),
                ", "@,
            ) + "]"@,
            godbound_chart_note(),
        ]
    } else if kept.len() == 1 {
        seq!["Damage chart: "@ + godbound_conversion(kept[0]), godbound_chart_note()]
    } else {
        seq![godbound_chart_note()]
    }
}

proof fn lemma_godbound_sum_bounds(s: Seq<i32>)
    ensures
        0 <= godbound_sum(s) <= 4 * s.len(),
    decreases s.len(),
{
    if s.len() > 0 {
        lemma_godbound_sum_bounds(s.drop_last());
    }
}

/// `gb` / `gbs`: straight damage is the total; otherwise the total (when
/// arithmetic modifiers were written) or each kept die is read on the chart.
pub fn apply_godbound_damage(result: &mut RollResult, straight_damage: bool, has_math_modifiers: bool)
    ensures
        straight_damage ==> {
            &&& final(result).godbound_damage == Some(old(result).total)
            &&& notes_of(*final(result)) == notes_of(*old(result)).push(
                "Straight damage (bypasses chart)"@,
            )
        },
        !straight_damage && has_math_modifiers ==> {
            &&& final(result).godbound_damage == Some(godbound_chart(old(result).total))
            &&& notes_of(*final(result)) == notes_of(*old(result)).push(
                "Damage chart: "@ + godbound_conversion(old(result).total),
            ).push(godbound_chart_note())
        },
        !straight_damage && !has_math_modifiers ==> {
            &&& final(result).godbound_damage == Some(
                godbound_sum(old(result).kept_rolls@) as i32,
            )
            &&& notes_of(*final(result)) == notes_of(*old(result)) + godbound_per_die_notes(
                old(result).kept_rolls@,
            )
        },
        *final(result) == (RollResult {
            godbound_damage: final(result).godbound_damage,
            notes: final(result).notes,
            ..*old(result)
        }),
{
    if straight_damage {
        result.godbound_damage = Some(result.total);
        push_note(result, lit("Straight damage (bypasses chart)"));
        return;
    }
    let ghost n0 = notes_of(*result);
    if has_math_modifiers {
        let damage = convert_to_godbound_damage(result.total);
        result.godbound_damage = Some(damage);
        let note = crate::text::cat_int_int("Damage chart: ", result.total as i64, " → ", damage as i64);
        assert(note@ =~= "Damage chart: "@ + godbound_conversion(old(result).total));
        push_note(result, note);
    } else {
        let mut total_damage: i128 = 0;
        let mut conversions: Vec<String> = Vec::new();
        let mut i: usize = 0;
        let ghost kept = result.kept_rolls@;
        while i < result.kept_rolls.len()
            invariant
                kept == result.kept_rolls@,
                i <= kept.len(),
                total_damage == godbound_sum(kept.take(i as int)),
                0 <= total_damage <= 4 * i,
                conversions@.len() == i,
                forall|j: int| 0 <= j < i ==> #[trigger] conversions@[j]@ == godbound_conversion(kept[j]),
                *result == *old(result),
            decreases kept.len() - i,
        {
            assert(kept.take(i + 1).drop_last() =~= kept.take(i as int));
            let roll = result.kept_rolls[i];
            let damage = convert_to_godbound_damage(roll);
            total_damage = total_damage + damage as i128;
            let ghost before = conversions@;
            let c = int_arrow_int(roll as i64, damage as i64);
            conversions.push(c);
            assert(conversions@ == before.push(c));
            i = i + 1;
        }
        assert(kept.take(kept.len() as int) =~= kept);
        assert(conversions@.map_values(|s: String| s@) =~= kept.map_values(|v: i32| godbound_conversion(v)));
        result.godbound_damage = Some(total_damage as i32);
        if result.kept_rolls.len() > 1 {
            let mut s = lit("Damage chart conversions: [");
            crate::text::push_joined(&mut s, &conversions, ", ");
            s.append("]");
            assert(s@ =~= "Damage chart conversions: ["@ + join_seqs(
                kept.map_values(|v: i32| godbound_conversion(v)),
                ", "@,
            ) + "]"@);
            push_note(result, s);
        } else if result.kept_rolls.len() == 1 {
            let roll = result.kept_rolls[0];
            let note = crate::text::cat_int_int(
                "Damage chart: ",
                roll as i64,
                " → ",
                convert_to_godbound_damage(roll) as i64,
            );
            assert(note@ =~= "Damage chart: "@ + godbound_conversion(kept[0]));
            push_note(result, note);
        }
    }
    push_note(result, lit("Using Godbound damage chart (1-=0, 2-5=1, 6-9=2, 10+=4)"));
    proof {
        assert(notes_of(*result) =~= n0 + if has_math_modifiers {
            seq!["Damage chart: "@ + godbound_conversion(old(result).total), godbound_chart_note()]
        } else {
            godbound_per_die_notes(old(result).kept_rolls@)
        });
    }
}

/// The sum of the dice, wrapping as the released program does.
pub open spec fn wsum(s: Seq<i32>) -> i32
    decreases s.len(),
{
    if s.len() == 0 {
        0
    } else {
        wsum(s.drop_last()).wrapping_add(s.last())
    }
}

pub fn sum_rolls(v: &Vec<i32>) -> (t: i32)
    ensures
        t == wsum(v@),
{
    let mut t: i32 = 0;
    let mut i: usize = 0;
    while i < v.len()
        invariant
            i <= v@.len(),
            t == wsum(v@.take(i as int)),
        decreases v.len() - i,
    {
        assert(v@.take(i + 1).drop_last() =~= v@.take(i as int));
        t = t.wrapping_add(v[i]);
        i = i + 1;
    }
    assert(v@.take(v@.len() as int) =~= v@);
    t
}

/// A Fudge die: 1 is `-` (-1), 2 is blank (0), 3 is `+` (+1).
pub open spec fn fudge_face(r: i32) -> Option<(Seq<char>, int)> {
    if r == 1 {
        Some(("-"@, -1))
    } else if r == 2 {
        Some((" "@, 0))
    } else if r == 3 {
        Some(("+"@, 1))
    } else {
        None
    }
}

pub open spec fn all_fudge(s: Seq<i32>) -> bool {
    forall|i: int| 0 <= i < s.len() ==> 1 <= #[trigger] s[i] <= 3
}

pub open spec fn fudge_sum(s: Seq<i32>) -> int
    decreases s.len(),
{
    if s.len() == 0 {
        0
    } else {
        fudge_sum(s.drop_last()) + (s.last() - 2)
    }
}

proof fn lemma_fudge_sum_bounds(s: Seq<i32>)
    requires
        all_fudge(s),
    ensures
        -(s.len() as int) <= fudge_sum(s) <= s.len(),
    decreases s.len(),
{
    if s.len() > 0 {
        assert(all_fudge(s.drop_last()));
        assert(1 <= s[s.len() - 1] <= 3);
        lemma_fudge_sum_bounds(s.drop_last());
    }
}

/// What Fudge dice read as -1, 0 and +1 does to a result `a`, leaving `b`.
pub open spec fn fudge_step(a: RollResult, b: RollResult, r: Result<(), DiceError>) -> bool {
    &&& (!all_fudge(a.kept_rolls@) <==> r is Err)
    &&& (r is Err ==> (exists|i: int|
            0 <= i < a.kept_rolls@.len() && !(1 <= a.kept_rolls@[i] <= 3) && err_msg(r)
                == "Invalid Fudge die value: "@ + int_str(
                a.kept_rolls@[i] as int,
            )))
    &&& (r is Ok ==> {
            &&& b.fudge_symbols matches Some(syms) && syms@.map_values(|s: String| s@)
                == a.kept_rolls@.map_values(|v: i32| fudge_face(v).unwrap().0)
            &&& b.total == a.total.wrapping_add(
                ((fudge_sum(a.kept_rolls@) as i32).wrapping_sub(
                    wsum(a.kept_rolls@),
                )),
            )
            &&& notes_of(b) == notes_of(a).push(
                "Fudge dice: 1=(-), 2=( ), 3=(+)"@,
            )
            &&& b == (RollResult {
                fudge_symbols: b.fudge_symbols,
                total: b.total,
                notes: b.notes,
                ..a
            })
        })
}

/// `df`: read the kept dice as Fudge dice; the total moves by the difference
/// between the Fudge total and the dice total.
pub fn apply_fudge_conversion(result: &mut RollResult) -> (r: Result<(), DiceError>)
    ensures
        !all_fudge(old(result).kept_rolls@) <==> r is Err,
        r is Err ==> (exists|i: int|
            0 <= i < old(result).kept_rolls@.len() && !(1 <= old(result).kept_rolls@[i] <= 3) && err_msg(r)
                == "Invalid Fudge die value: "@ + int_str(
                old(result).kept_rolls@[i] as int,
            )),
        r is Ok ==> {
            &&& final(result).fudge_symbols matches Some(syms) && syms@.map_values(|s: String| s@)
                == old(result).kept_rolls@.map_values(|v: i32| fudge_face(v).unwrap().0)
            &&& final(result).total == old(result).total.wrapping_add(
                ((fudge_sum(old(result).kept_rolls@) as i32).wrapping_sub(
                    wsum(old(result).kept_rolls@),
                )),
            )
            &&& notes_of(*final(result)) == notes_of(*old(result)).push(
                "Fudge dice: 1=(-), 2=( ), 3=(+)"@,
            )
            &&& *final(result) == (RollResult {
                fudge_symbols: final(result).fudge_symbols,
                total: final(result).total,
                notes: final(result).notes,
                ..*old(result)
            })
        },
{
    let ghost kept = result.kept_rolls@;
    let mut symbols: Vec<String> = Vec::new();
    let mut fudge_total: i128 = 0;
    let mut i: usize = 0;
    while i < result.kept_rolls.len()
        invariant
            kept == result.kept_rolls@,
            *result == *old(result),
            i <= kept.len(),
            all_fudge(kept.take(i as int)),
            fudge_total == fudge_sum(kept.take(i as int)),
            -(i as int) <= fudge_total <= i,
            symbols@.len() == i,
            forall|j: int| 0 <= j < i ==> #[trigger] symbols@[j]@ == fudge_face(kept[j]).unwrap().0,
        decreases kept.len() - i,
    {
        assert(kept.take(i + 1).drop_last() =~= kept.take(i as int));
        let roll = result.kept_rolls[i];
        let (symbol, value) = if roll == 1 {
            ("-", -1i128)
        } else if roll == 2 {
            (" ", 0i128)
        } else if roll == 3 {
            ("+", 1i128)
        } else {
            assert(!(1 <= kept[i as int] <= 3));
            return Err(DiceError::new(crate::text::lit_int("Invalid Fudge die value: ", roll as i64)));
        };
        let ghost before = symbols@;
        let sym = lit(symbol);
        symbols.push(sym);
        assert(symbols@ == before.push(sym));
        fudge_total = fudge_total + value;
        i = i + 1;
        assert(all_fudge(kept.take(i as int))) by {
            assert forall|j: int| 0 <= j < i implies 1 <= #[trigger] kept.take(i as int)[j] <= 3 by {
                if j < i - 1 {
                    assert(kept.take(i as int)[j] == kept.take(i - 1)[j]);
                }
            }
        }
    }
    assert(kept.take(kept.len() as int) =~= kept);
    assert(symbols@.map_values(|s: String| s@) =~= kept.map_values(|v: i32| fudge_face(v).unwrap().0));
    result.fudge_symbols = Some(symbols);
    let original_dice_total = sum_rolls(&result.kept_rolls);
    let adjustment = (fudge_total as i32).wrapping_sub(original_dice_total);
    result.total = result.total.wrapping_add(adjustment);
    push_note(result, lit("Fudge dice: 1=(-), 2=( ), 3=(+)"));
    Ok(())
}

/// A plot die: 1 is C+2, 2 is C+4, 3-4 blank, 5-6 an Opportunity.
pub open spec fn plot_face(r: i32) -> (Seq<char>, int) {
    if r == 1 {
        ("C+2"@, 2)
    } else if r == 2 {
        ("C+4"@, 4)
    } else if r == 3 || r == 4 {
        ("_"@, 0)
    } else {
        ("Opp"@, 0)
    }
}

pub open spec fn all_plot(s: Seq<i32>) -> bool {
    forall|i: int| 0 <= i < s.len() ==> 1 <= #[trigger] s[i] <= 6
}

pub open spec fn plot_sum(s: Seq<i32>) -> int
    decreases s.len(),
{
    if s.len() == 0 {
        0
    } else {
        plot_sum(s.drop_last()) + plot_face(s.last()).1
    }
}

proof fn lemma_plot_sum_bounds(s: Seq<i32>)
    ensures
        0 <= plot_sum(s) <= 4 * s.len(),
    decreases s.len(),
{
    if s.len() > 0 {
        lemma_plot_sum_bounds(s.drop_last());
    }
}

/// What a plot die does to a result `a`, leaving `b`.
pub open spec fn plot_die_step(a: RollResult, b: RollResult, r: Result<(), DiceError>) -> bool {
    &&& (!all_plot(a.kept_rolls@) <==> r is Err)
    &&& (r is Err ==> (exists|i: int|
            0 <= i < a.kept_rolls@.len() && !(1 <= a.kept_rolls@[i] <= 6) && err_msg(r)
                == "Invalid Plot die value: "@ + int_str(
                a.kept_rolls@[i] as int,
            )))
    &&& (r is Ok ==> {
            &&& b.plot_symbols matches Some(syms) && syms@.map_values(|s: String| s@)
                == a.kept_rolls@.map_values(|v: i32| plot_face(v).0)
            &&& b.total == a.total.wrapping_add(
                ((plot_sum(a.kept_rolls@) as i32).wrapping_sub(
                    wsum(a.kept_rolls@),
                )),
            )
            &&& b == (RollResult {
                plot_symbols: b.plot_symbols,
                total: b.total,
                ..a
            })
        })
}

/// `dp`: read the kept dice as plot dice; the total moves by the difference
/// between the complication total and the dice total.
pub fn apply_plot_die_conversion(result: &mut RollResult) -> (r: Result<(), DiceError>)
    ensures
        !all_plot(old(result).kept_rolls@) <==> r is Err,
        r is Err ==> (exists|i: int|
            0 <= i < old(result).kept_rolls@.len() && !(1 <= old(result).kept_rolls@[i] <= 6) && err_msg(r)
                == "Invalid Plot die value: "@ + int_str(
                old(result).kept_rolls@[i] as int,
            )),
        r is Ok ==> {
            &&& final(result).plot_symbols matches Some(syms) && syms@.map_values(|s: String| s@)
                == old(result).kept_rolls@.map_values(|v: i32| plot_face(v).0)
            &&& final(result).total == old(result).total.wrapping_add(
                ((plot_sum(old(result).kept_rolls@) as i32).wrapping_sub(
                    wsum(old(result).kept_rolls@),
                )),
            )
            &&& *final(result) == (RollResult {
                plot_symbols: final(result).plot_symbols,
                total: final(result).total,
                ..*old(result)
            })
        },
{
    let ghost kept = result.kept_rolls@;
    let mut symbols: Vec<String> = Vec::new();
    let mut plot_total: i128 = 0;
    let mut i: usize = 0;
    while i < result.kept_rolls.len()
        invariant
            kept == result.kept_rolls@,
            *result == *old(result),
            i <= kept.len(),
            all_plot(kept.take(i as int)),
            plot_total == plot_sum(kept.take(i as int)),
            0 <= plot_total <= 4 * i,
            symbols@.len() == i,
            forall|j: int| 0 <= j < i ==> #[trigger] symbols@[j]@ == plot_face(kept[j]).0,
        decreases kept.len() - i,
    {
        assert(kept.take(i + 1).drop_last() =~= kept.take(i as int));
        let roll = result.kept_rolls[i];
        let (symbol, value) = if roll == 1 {
            ("C+2", 2i128)
        } else if roll == 2 {
            ("C+4", 4i128)
        } else if roll == 3 || roll == 4 {
            ("_", 0i128)
        } else if roll == 5 || roll == 6 {
            ("Opp", 0i128)
        } else {
            assert(!(1 <= kept[i as int] <= 6));
            return Err(DiceError::new(crate::text::lit_int("Invalid Plot die value: ", roll as i64)));
        };
        let ghost before = symbols@;
        let sym = lit(symbol);
        symbols.push(sym);
        assert(symbols@ == before.push(sym));
        plot_total = plot_total + value;
        i = i + 1;
        assert(all_plot(kept.take(i as int))) by {
            assert forall|j: int| 0 <= j < i implies 1 <= #[trigger] kept.take(i as int)[j] <= 6 by {
                if j < i - 1 {
                    assert(kept.take(i as int)[j] == kept.take(i - 1)[j]);
                }
            }
        }
    }
    assert(kept.take(kept.len() as int) =~= kept);
    assert(symbols@.map_values(|s: String| s@) =~= kept.map_values(|v: i32| plot_face(v).0));
    result.plot_symbols = Some(symbols);
    let original_dice_total = sum_rolls(&result.kept_rolls);
    let adjustment = (plot_total as i32).wrapping_sub(original_dice_total);
    result.total = result.total.wrapping_add(adjustment);
    Ok(())
}

/// Apply the arithmetic modifiers to the success count, when there is one.
/// A `/0` is an error whether or not there is a count.
pub fn apply_mathematical_modifiers_to_successes_from_slice(
    result: &mut RollResult,
    modifiers: &Vec<Modifier>,
) -> (r: Result<(), DiceError>)
    ensures
        has_zero_divisor(modifiers@) <==> r is Err,
        r is Err ==> err_is_divide_by_zero(r),
        r is Ok ==> *final(result) == (RollResult {
            successes: match old(result).successes {
                Some(s) => Some(fold_arith(modifiers@, s)),
                None => None,
            },
            ..*old(result)
        }),
{
    match result.successes {
        Some(s) => {
            let mut v = s;
            let r = crate::dice::arith::apply_arithmetic_modifiers(modifiers, &mut v);
            if r.is_err() {
                return r;
            }
            result.successes = Some(v);
            Ok(())
        },
        None => {
            let mut v: i32 = 0;
            crate::dice::arith::apply_arithmetic_modifiers(modifiers, &mut v)
        },
    }
}

/// Successes of a Wrath & Glory pool: 4-5 is an icon (one), 6 an exalted icon (two).
pub open spec fn wng_successes(s: Seq<i32>) -> int {
    (count_in_range(s, 4, 5) + 2 * count_in_range(s, 6, 6)) as int
}

/// The notes the wrath dice add: complications for 1s, and (outside soak
/// rolls) glory for 6s.
pub open spec fn wrath_notes(values: Seq<i32>, glory: bool) -> Seq<Seq<char>> {
    let ones = count_in_range(values, 1, 1);
    let sixes = count_in_range(values, 6, 6);
    let c: Seq<Seq<char>> = if ones == 0 {
        seq![]
    } else if ones == 1 {
        seq!["Wrath die rolled 1 - Complication!"@]
    } else {
        seq![int_str(ones as int) + " Wrath dice rolled 1 - Complications!"@]
    };
    let g: Seq<Seq<char>> = if !glory || sixes == 0 {
        seq![]
    } else if sixes == 1 {
        seq!["Wrath die rolled 6 - Critical/Glory!"@]
    } else {
        seq![int_str(sixes as int) + " Wrath dice rolled 6 - Glory potential!"@]
    };
    c + g
}

pub open spec fn opt_ints(o: Option<Vec<i32>>) -> Option<Seq<i32>> {
    match o {
        Some(v) => Some(v@),
        None => None,
    }
}

pub open spec fn opt_text(o: Option<String>) -> Option<Seq<char>> {
    match o {
        Some(v) => Some(v@),
        None => None,
    }
}

/// Notes for the wrath dice; `has_complication` and `has_critical` say
/// whether any wrath die showed 1 or 6.
pub fn add_wrath_die_notes(
    result: &mut RollResult,
    has_complication: bool,
    has_critical: bool,
    wrath_dice_values: &Vec<i32>,
)
    requires
        has_complication == (count_in_range(wrath_dice_values@, 1, 1) > 0),
    ensures
        notes_of(*final(result)) == notes_of(*old(result)) + wrath_notes(
            wrath_dice_values@,
            has_critical,
        ),
        *final(result) == (RollResult { notes: final(result).notes, ..*old(result) }),
{
    let ghost n0 = notes_of(*result);
    if has_complication {
        let complication_count = count_in(wrath_dice_values, 1, 1);
        if complication_count == 1 {
            push_note(result, lit("Wrath die rolled 1 - Complication!"));
        } else {
            push_note(
                result,
                crate::text::nat_then(complication_count as u64, " Wrath dice rolled 1 - Complications!"),
            );
        }
    }
    let ghost n1 = notes_of(*result);
    if has_critical {
        let critical_count = count_in(wrath_dice_values, 6, 6);
        if critical_count == 1 {
            push_note(result, lit("Wrath die rolled 6 - Critical/Glory!"));
        } else if critical_count > 1 {
            push_note(
                result,
                crate::text::nat_then(critical_count as u64, " Wrath dice rolled 6 - Glory potential!"),
            );
        }
    }
    assert(notes_of(*result) =~= n0 + wrath_notes(wrath_dice_values@, has_critical));
}

pub open spec fn pass_fail(passed: bool) -> Seq<char> {
    if passed {
        "PASS"@
    } else {
        "FAIL"@
    }
}

/// Wrath & Glory on a result: with `use_total`, the total of the kept dice
/// and a note against the difficulty; otherwise the successes (4 or more,
/// two for a 6), the icons, the wrath dice (the first kept dice) and notes.
pub open spec fn wrath_glory_step(a: RollResult, b: RollResult, difficulty: Option<u32>, use_total: bool, wrath_dice_count: u32) -> bool {
    ({
        let kept = a.kept_rolls@;
        let wrath = kept.take(
            if wrath_dice_count as int <= kept.len() {
                wrath_dice_count as int
            } else {
                kept.len() as int
            },
        );
        if use_total {
            let total = wsum(kept);
            let dn_notes: Seq<Seq<char>> = match difficulty {
                Some(dn) => seq![
                    "Difficulty "@ + int_str(dn as int) + ": "@ + pass_fail(total >= dn as i32)
                        + " (needed "@ + int_str(dn as int) + ", rolled "@ + int_str(total as int)
                        + ")"@,
                ],
                None => seq![],
            };
            &&& b == (RollResult {
                total: total,
                successes: None,
                notes: b.notes,
                ..a
            })
            &&& notes_of(b) == notes_of(a) + dn_notes + wrath_notes(
                wrath,
                false,
            )
        } else {
            let n = wng_successes(kept) as i32;
            let dn_notes: Seq<Seq<char>> = match difficulty {
                Some(dn) => seq![
                    "Difficulty "@ + int_str(dn as int) + ": "@ + pass_fail(n >= dn as i32)
                        + " (needed "@ + int_str(dn as int) + ")"@,
                ],
                None => seq![],
            };
            &&& b.successes == Some(n)
            &&& b.wng_icons == Some(count_in_range(kept, 4, 5) as i32)
            &&& b.wng_exalted_icons == Some(count_in_range(kept, 6, 6) as i32)
            &&& wrath.len() > 0 ==> b.wng_wrath_die == Some(wrath[0])
                && opt_ints(b.wng_wrath_dice) == Some(wrath)
            &&& wrath.len() == 0 ==> b.wng_wrath_die == a.wng_wrath_die
                && b.wng_wrath_dice == a.wng_wrath_dice
            &&& b == (RollResult {
                successes: b.successes,
                wng_icons: b.wng_icons,
                wng_exalted_icons: b.wng_exalted_icons,
                wng_wrath_die: b.wng_wrath_die,
                wng_wrath_dice: b.wng_wrath_dice,
                notes: b.notes,
                ..a
            })
            &&& notes_of(b) == notes_of(a) + dn_notes + wrath_notes(
                wrath,
                true,
            )
        }
    })
}

/// Wrath & Glory: count icons (or, for soak/damage rolls, total the dice);
/// the first `wrath_dice_count` kept dice are wrath dice.
pub fn count_wrath_glory_successes(
    result: &mut RollResult,
    difficulty: Option<u32>,
    use_total: bool,
    wrath_dice_count: u32,
)
    ensures
        ({
            let kept = old(result).kept_rolls@;
            let wrath = kept.take(
                if wrath_dice_count as int <= kept.len() {
                    wrath_dice_count as int
                } else {
                    kept.len() as int
                },
            );
            if use_total {
                let total = wsum(kept);
                let dn_notes: Seq<Seq<char>> = match difficulty {
                    Some(dn) => seq![
                        "Difficulty "@ + int_str(dn as int) + ": "@ + pass_fail(total >= dn as i32)
                            + " (needed "@ + int_str(dn as int) + ", rolled "@ + int_str(total as int)
                            + ")"@,
                    ],
                    None => seq![],
                };
                &&& *final(result) == (RollResult {
                    total: total,
                    successes: None,
                    notes: final(result).notes,
                    ..*old(result)
                })
                &&& notes_of(*final(result)) == notes_of(*old(result)) + dn_notes + wrath_notes(
                    wrath,
                    false,
                )
            } else {
                let n = wng_successes(kept) as i32;
                let dn_notes: Seq<Seq<char>> = match difficulty {
                    Some(dn) => seq![
                        "Difficulty "@ + int_str(dn as int) + ": "@ + pass_fail(n >= dn as i32)
                            + " (needed "@ + int_str(dn as int) + ")"@,
                    ],
                    None => seq![],
                };
                &&& final(result).successes == Some(n)
                &&& final(result).wng_icons == Some(count_in_range(kept, 4, 5) as i32)
                &&& final(result).wng_exalted_icons == Some(count_in_range(kept, 6, 6) as i32)
                &&& wrath.len() > 0 ==> final(result).wng_wrath_die == Some(wrath[0])
                    && opt_ints(final(result).wng_wrath_dice) == Some(wrath)
                &&& wrath.len() == 0 ==> final(result).wng_wrath_die == old(result).wng_wrath_die
                    && final(result).wng_wrath_dice == old(result).wng_wrath_dice
                &&& *final(result) == (RollResult {
                    successes: final(result).successes,
                    wng_icons: final(result).wng_icons,
                    wng_exalted_icons: final(result).wng_exalted_icons,
                    wng_wrath_die: final(result).wng_wrath_die,
                    wng_wrath_dice: final(result).wng_wrath_dice,
                    notes: final(result).notes,
                    ..*old(result)
                })
                &&& notes_of(*final(result)) == notes_of(*old(result)) + dn_notes + wrath_notes(
                    wrath,
                    true,
                )
            }
        }),
{
    let ghost kept = result.kept_rolls@;
    let n_wrath: usize = if (wrath_dice_count as usize) <= result.kept_rolls.len() {
        wrath_dice_count as usize
    } else {
        result.kept_rolls.len()
    };
    let wrath_dice_values = crate::dice::pool_slice(&result.kept_rolls, 0, n_wrath);
    assert(wrath_dice_values@ =~= kept.take(n_wrath as int));
    let has_complication = count_in(&wrath_dice_values, 1, 1) > 0;
    let ghost n0 = notes_of(*result);
    if use_total {
        result.total = sum_rolls(&result.kept_rolls);
        result.successes = None;
        if let Some(dn) = difficulty {
            let passed = result.total >= dn as i32;
            let mut s = cat_int("Difficulty ", dn as i64, ": ");
            s.append(if passed { "PASS" } else { "FAIL" });
            s.append(" (needed ");
            push_int(&mut s, dn as i64);
            s.append(", rolled ");
            push_int(&mut s, result.total as i64);
            s.append(")");
            push_note(result, s);
        }
        let ghost n1 = notes_of(*result);
        add_wrath_die_notes(result, has_complication, false, &wrath_dice_values);
        assert(notes_of(*result) =~= n1 + wrath_notes(kept.take(n_wrath as int), false));
    } else {
        let icons = count_in(&result.kept_rolls, 4, 5);
        let exalted = count_in(&result.kept_rolls, 6, 6);
        let total_successes = ((icons as u128) + 2 * (exalted as u128)) as i32;
        let has_critical = count_in(&wrath_dice_values, 6, 6) > 0;
        if wrath_dice_values.len() > 0 {
            result.wng_wrath_die = Some(wrath_dice_values[0]);
            result.wng_wrath_dice = Some(wrath_dice_values.clone());
        }
        result.wng_icons = Some(icons as i32);
        result.wng_exalted_icons = Some(exalted as i32);
        result.successes = Some(total_successes);
        if let Some(dn) = difficulty {
            let passed = total_successes >= dn as i32;
            let mut s = cat_int("Difficulty ", dn as i64, ": ");
            s.append(if passed { "PASS" } else { "FAIL" });
            s.append(" (needed ");
            push_int(&mut s, dn as i64);
            s.append(")");
            push_note(result, s);
        }
        let ghost n1 = notes_of(*result);
        add_wrath_die_notes(result, has_complication, has_critical, &wrath_dice_values);
        proof {
            if !has_critical {
                assert(wrath_notes(kept.take(n_wrath as int), false) =~= wrath_notes(kept.take(n_wrath as int), true));
            }
        }
    }
}

/// Shadowrun on a result: more ones than half the pool is a glitch, noted
/// as critical when no success was counted.
pub open spec fn shadowrun_step(a: RollResult, b: RollResult, dice_count: u32) -> bool {
    ({
        let ones = count_in_range(a.kept_rolls@, 1, 1);
        if ones > dice_count / 2 {
            let note = match a.successes {
                Some(0i32) => "💀 **CRITICAL GLITCH!** More than half the dice pool rolled 1s with no successes - catastrophic failure!"@,
                Some(_) => "⚠️ **GLITCH!** More than half the dice pool rolled 1s but successes were achieved - complications arise!"@,
                None => "💀 **CRITICAL GLITCH!** More than half the dice pool rolled 1s - catastrophic failure!"@,
            };
            &&& notes_of(b) == notes_of(a).push(note)
            &&& b == (RollResult { notes: b.notes, ..a })
        } else {
            b == a
        }
    })
}

/// Shadowrun: a glitch when more than half the pool shows 1s; a critical
/// glitch when there are also no successes.
pub fn apply_shadowrun_critical_glitch_check(result: &mut RollResult, dice_count: u32)
    ensures
        shadowrun_step(*old(result), *final(result), dice_count),
{
    let ones_count = count_in(&result.kept_rolls, 1, 1);
    let half_dice_pool = (dice_count / 2) as usize;
    if ones_count > half_dice_pool {
        match result.successes {
            Some(0) => push_note(result, lit("💀 **CRITICAL GLITCH!** More than half the dice pool rolled 1s with no successes - catastrophic failure!")),
            Some(_) => push_note(result, lit("⚠️ **GLITCH!** More than half the dice pool rolled 1s but successes were achieved - complications arise!")),
            None => push_note(result, lit("💀 **CRITICAL GLITCH!** More than half the dice pool rolled 1s - catastrophic failure!")),
        }
    }
}

/// Shadowrun: a glitch is noted exactly when strictly more than half the
/// dice pool shows 1 (twice the ones exceed the pool); otherwise the result
/// is left as it was. The note is the only change, and it is the warning
/// (not the critical glitch) exactly when some success was counted.
pub proof fn law_shadowrun_glitch(a: RollResult, b: RollResult, dice_count: u32)
    requires
        shadowrun_step(a, b, dice_count),
    ensures
        2 * count_in_range(a.kept_rolls@, 1, 1) > dice_count ==> notes_of(b).len() == notes_of(a).len() + 1
            && notes_of(b).drop_last() == notes_of(a) && b == (RollResult { notes: b.notes, ..a }),
        2 * count_in_range(a.kept_rolls@, 1, 1) <= dice_count ==> b == a,
        2 * count_in_range(a.kept_rolls@, 1, 1) > dice_count ==> (notes_of(b).last()[0] == '⚠'
            <==> (a.successes matches Some(s) && s != 0)),
{
    reveal_strlit("💀 **CRITICAL GLITCH!** More than half the dice pool rolled 1s with no successes - catastrophic failure!");
    reveal_strlit("⚠️ **GLITCH!** More than half the dice pool rolled 1s but successes were achieved - complications arise!");
    reveal_strlit("💀 **CRITICAL GLITCH!** More than half the dice pool rolled 1s - catastrophic failure!");
    let ones = count_in_range(a.kept_rolls@, 1, 1);
    assert(ones > dice_count / 2 <==> 2 * ones > dice_count) by (nonlinear_arith);
    if ones > dice_count / 2 {
        assert(notes_of(b).drop_last() =~= notes_of(a));
    }
}

/// The notes of a Cypher System task of `level` read from `roll`.
pub open spec fn cypher_notes(roll: i32, level: u32) -> Seq<Seq<char>> {
    let target = level.wrapping_mul(3);
    let verdict = if roll >= target as i32 {
        "**SUCCESS** (rolled "@
    } else {
        "**FAILURE** (rolled "@
    } + int_str(roll as int) + " vs target "@ + int_str(target as int) + ")"@;
    let special: Seq<Seq<char>> = if roll == 1 {
        seq!["**GM INTRUSION** (Natural 1)"@]
    } else if 17 <= roll <= 19 {
        seq!["**MINOR EFFECT** (17-19)"@]
    } else if roll == 20 {
        seq!["**MAJOR EFFECT** (Natural 20)"@]
    } else {
        seq![]
    };
    seq![verdict] + special + seq!["Cypher System - Level "@ + int_str(level as int) + " Task"@]
}

/// What a Cypher System task does to a result `a`, leaving `b`.
pub open spec fn cypher_step(a: RollResult, b: RollResult, r: Result<(), DiceError>, level: u32) -> bool {
    &&& (a.individual_rolls@.len() == 0 <==> r is Err)
    &&& (r is Err ==> err_msg(r) == "No dice rolled for Cypher System"@)
    &&& (r is Ok ==> {
            &&& notes_of(b) == notes_of(a) + cypher_notes(
                a.individual_rolls@[0],
                level,
            )
            &&& b == (RollResult {
                successes: None,
                failures: None,
                botches: None,
                notes: b.notes,
                ..a
            })
        })
}

/// Cypher System: the first die against a target of three times the level;
/// success counting is cleared, since the task simply succeeds or fails.
pub fn apply_cypher_system_mechanics(result: &mut RollResult, level: u32) -> (r: Result<(), DiceError>)
    ensures
        old(result).individual_rolls@.len() == 0 <==> r is Err,
        r is Err ==> err_msg(r) == "No dice rolled for Cypher System"@,
        r is Ok ==> {
            &&& notes_of(*final(result)) == notes_of(*old(result)) + cypher_notes(
                old(result).individual_rolls@[0],
                level,
            )
            &&& *final(result) == (RollResult {
                successes: None,
                failures: None,
                botches: None,
                notes: final(result).notes,
                ..*old(result)
            })
        },
{
    if result.individual_rolls.len() == 0 {
        return Err(DiceError::from_str("No dice rolled for Cypher System"));
    }
    let roll = result.individual_rolls[0];
    let target_number = level.wrapping_mul(3);
    let success = roll >= target_number as i32;
    result.successes = None;
    result.failures = None;
    result.botches = None;
    let ghost n0 = notes_of(*result);
    let mut s = lit(if success { "**SUCCESS** (rolled " } else { "**FAILURE** (rolled " });
    push_int(&mut s, roll as i64);
    s.append(" vs target ");
    push_int(&mut s, target_number as i64);
    s.append(")");
    push_note(result, s);
    if roll == 1 {
        push_note(result, lit("**GM INTRUSION** (Natural 1)"));
    } else if 17 <= roll && roll <= 19 {
        push_note(result, lit("**MINOR EFFECT** (17-19)"));
    } else if roll == 20 {
        push_note(result, lit("**MAJOR EFFECT** (Natural 20)"));
    }
    push_note(result, cat_int("Cypher System - Level ", level as i64, " Task"));
    assert(notes_of(*result) =~= n0 + cypher_notes(old(result).individual_rolls@[0], level));
    Ok(())
}

/// Conan combat dice: 1 is one, 2 is two, 3-4 nothing, 5-6 one (and an effect).
pub open spec fn conan_face(r: i32) -> int {
    if r == 1 {
        1
    } else if r == 2 {
        2
    } else if r == 5 || r == 6 {
        1
    } else {
        0
    }
}

pub open spec fn conan_damage(s: Seq<i32>) -> int
    decreases s.len(),
{
    if s.len() == 0 {
        0
    } else {
        conan_damage(s.drop_last()) + conan_face(s.last())
    }
}

proof fn lemma_conan_bounds(s: Seq<i32>)
    ensures
        0 <= conan_damage(s) <= 2 * s.len(),
    decreases s.len(),
{
    if s.len() > 0 {
        lemma_conan_bounds(s.drop_last());
    }
}

pub fn apply_conan_combat_interpretation(rolls: &Vec<i32>) -> (d: i32)
    ensures
        d == conan_damage(rolls@) as i32,
{
    let mut damage: u128 = 0;
    let mut i: usize = 0;
    while i < rolls.len()
        invariant
            i <= rolls@.len(),
            damage == conan_damage(rolls@.take(i as int)),
            damage <= 2 * i,
        decreases rolls.len() - i,
    {
        assert(rolls@.take(i + 1).drop_last() =~= rolls@.take(i as int));
        proof {
            lemma_conan_bounds(rolls@.take(i as int));
        }
        let r = rolls[i];
        if r == 1 {
            damage = damage + 1;
        } else if r == 2 {
            damage = damage + 2;
        } else if r == 5 || r == 6 {
            damage = damage + 1;
        }
        i = i + 1;
    }
    assert(rolls@.take(rolls@.len() as int) =~= rolls@);
    damage as i32
}

pub open spec fn laser_feelings_name(t: crate::dice::LaserFeelingsType) -> Seq<char> {
    match t {
        crate::dice::LaserFeelingsType::Lasers => "Lasers"@,
        crate::dice::LaserFeelingsType::Feelings => "Feelings"@,
    }
}

pub open spec fn all_d6(s: Seq<i32>) -> bool {
    forall|i: int| 0 <= i < s.len() ==> 1 <= #[trigger] s[i] <= 6
}

/// What a Lasers & Feelings roll does to a result `a`, leaving `b`.
pub open spec fn laser_feelings_step(a: RollResult, b: RollResult, r: Result<(), DiceError>, target: u32, roll_type: crate::dice::LaserFeelingsType, dice_count: u32) -> bool {
    &&& (a.individual_rolls@.len() == 0 ==> err_msg(r) == "No dice rolled for Lasers & Feelings"@ && r is Err)
    &&& (a.individual_rolls@.len() > 0 && !all_d6(a.individual_rolls@) ==> r is Err
            && err_msg(r) == "Lasers & Feelings requires d6 dice"@)
    &&& (a.individual_rolls@.len() > 0 && all_d6(a.individual_rolls@) ==> r is Ok)
    &&& (r is Ok ==> {
            let rolls = a.individual_rolls@;
            let t = target as i32;
            let successes = match roll_type {
                crate::dice::LaserFeelingsType::Lasers => count_in_range(rolls, i32::MIN as int, t as int),
                crate::dice::LaserFeelingsType::Feelings => count_in_range(rolls, t as int, i32::MAX as int),
            };
            let lf = count_in_range(rolls, t as int, t as int);
            let summary = "Lasers & Feelings: "@ + int_str(dice_count as int) + "d6 target "@ + int_str(
                target as int,
            ) + " ("@ + laser_feelings_name(roll_type) + ")"@;
            &&& b.successes == Some(successes as i32)
            &&& b.total == 0
            &&& notes_of(b) == if lf > 0 {
                notes_of(a).push(summary).push(
                    "💡 **"@ + int_str(lf as int) + "** LASER FEELINGS! Ask the GM a question!"@,
                )
            } else {
                notes_of(a).push(summary)
            }
            &&& b == (RollResult {
                successes: b.successes,
                total: 0,
                notes: b.notes,
                ..a
            })
        })
}

/// Lasers & Feelings: Lasers succeed at or under the target, Feelings at or
/// over it; a die showing the target exactly is LASER FEELINGS.
pub fn apply_laser_feelings_mechanics(
    result: &mut RollResult,
    target: u32,
    roll_type: &crate::dice::LaserFeelingsType,
    dice_count: u32,
) -> (r: Result<(), DiceError>)
    ensures
        old(result).individual_rolls@.len() == 0 ==> err_msg(r) == "No dice rolled for Lasers & Feelings"@ && r is Err,
        old(result).individual_rolls@.len() > 0 && !all_d6(old(result).individual_rolls@) ==> r is Err
            && err_msg(r) == "Lasers & Feelings requires d6 dice"@,
        old(result).individual_rolls@.len() > 0 && all_d6(old(result).individual_rolls@) ==> r is Ok,
        r is Ok ==> {
            let rolls = old(result).individual_rolls@;
            let t = target as i32;
            let successes = match *roll_type {
                crate::dice::LaserFeelingsType::Lasers => count_in_range(rolls, i32::MIN as int, t as int),
                crate::dice::LaserFeelingsType::Feelings => count_in_range(rolls, t as int, i32::MAX as int),
            };
            let lf = count_in_range(rolls, t as int, t as int);
            let summary = "Lasers & Feelings: "@ + int_str(dice_count as int) + "d6 target "@ + int_str(
                target as int,
            ) + " ("@ + laser_feelings_name(*roll_type) + ")"@;
            &&& final(result).successes == Some(successes as i32)
            &&& final(result).total == 0
            &&& notes_of(*final(result)) == if lf > 0 {
                notes_of(*old(result)).push(summary).push(
                    "💡 **"@ + int_str(lf as int) + "** LASER FEELINGS! Ask the GM a question!"@,
                )
            } else {
                notes_of(*old(result)).push(summary)
            }
            &&& *final(result) == (RollResult {
                successes: final(result).successes,
                total: 0,
                notes: final(result).notes,
                ..*old(result)
            })
        },
{
    if result.individual_rolls.len() == 0 {
        return Err(DiceError::from_str("No dice rolled for Lasers & Feelings"));
    }
    let n = count_in(&result.individual_rolls, 1, 6);
    proof {
        lemma_count_all(result.individual_rolls@, 1, 6);
    }
    if n != result.individual_rolls.len() {
        return Err(DiceError::from_str("Lasers & Feelings requires d6 dice"));
    }
    let t = target as i32;
    let successes = match roll_type {
        crate::dice::LaserFeelingsType::Lasers => count_in(&result.individual_rolls, i32::MIN as i64, t as i64),
        crate::dice::LaserFeelingsType::Feelings => count_in(&result.individual_rolls, t as i64, i32::MAX as i64),
    };
    let lf = count_in(&result.individual_rolls, t as i64, t as i64);
    result.successes = Some(successes as i32);
    result.total = 0;
    let mut s = cat_int2("Lasers & Feelings: ", dice_count as i64, "d6 target ", target as i64, " (");
    s.append(
        match roll_type {
            crate::dice::LaserFeelingsType::Lasers => "Lasers",
            crate::dice::LaserFeelingsType::Feelings => "Feelings",
        },
    );
    s.append(")");
    assert(s@ == "Lasers & Feelings: "@ + int_str(dice_count as int) + "d6 target "@ + int_str(
                target as int,
            ) + " ("@ + laser_feelings_name(*roll_type) + ")"@);
    let ghost n1 = notes_of(*result);
    push_note(result, s);
    assert(notes_of(*result) == n1.push(s@));
    if lf > 0 {
        push_note(result, crate::text::cat_nat("💡 **", lf as u64, "** LASER FEELINGS! Ask the GM a question!"));
    }
    Ok(())
}

/// Every die in `[lo, hi]` exactly when the count of such dice is the length.
pub proof fn lemma_count_all(s: Seq<i32>, lo: int, hi: int)
    ensures
        (count_in_range(s, lo, hi) == s.len()) <==> (forall|i: int| 0 <= i < s.len() ==> lo <= #[trigger] s[i] <= hi),
    decreases s.len(),
{
    if s.len() > 0 {
        lemma_count_all(s.drop_last(), lo, hi);
        lemma_count_le_len(s.drop_last(), lo, hi);
        if count_in_range(s, lo, hi) == s.len() {
            assert forall|i: int| 0 <= i < s.len() implies lo <= #[trigger] s[i] <= hi by {
                if i < s.len() - 1 {
                    assert(s[i] == s.drop_last()[i]);
                }
            }
        }
        if forall|i: int| 0 <= i < s.len() ==> lo <= #[trigger] s[i] <= hi {
            assert forall|i: int| 0 <= i < s.drop_last().len() implies lo <= #[trigger] s.drop_last()[i] <= hi by {
                assert(s.drop_last()[i] == s[i]);
            }
            assert(lo <= s[s.len() - 1] <= hi);
        }
    }
}

/// Alien: each kept six is a success.
pub open spec fn alien_step(a: RollResult, b: RollResult) -> bool {
    b == (RollResult {
        successes: add_successes(a, count_in_range(a.kept_rolls@, 6, 6) as i32),
        ..a
    })
}

/// Alien RPG base dice: each 6 is a success.
pub fn apply_alien_base_modifier(result: &mut RollResult)
    ensures
        alien_step(*old(result), *final(result)),
{
    count_successes_in(result, 6, 6);
}

/// The Alien RPG panic table.
pub open spec fn panic_effect(t: i32) -> Seq<char> {
    if 1 <= t <= 6 {
        "Keeping it together"@
    } else if t == 7 {
        "Tremble - Shaky hands (-2 to next roll)"@
    } else if t == 8 {
        "Drop Item - You drop a weapon or important item"@
    } else if t == 9 {
        "Freeze - You lose your next turn"@
    } else if t == 10 {
        "Seek Cover - You must move to safety immediately"@
    } else if t == 11 {
        "Scream - Everyone who hears you must make a Panic Roll"@
    } else if t == 12 {
        "Flee - You must move away from the threat"@
    } else if t == 13 {
        "Berserk - You attack the nearest person or creature"@
    } else if t == 14 {
        "Catatonic - You become unresponsive for one turn"@
    } else if 15 <= t <= 99 {
        "Heart Attack - You suffer a heart attack and become Broken"@
    } else {
        "Catastrophic Panic"@
    }
}

pub fn interpret_panic_roll(panic_total: i32) -> (s: String)
    ensures
        s@ == panic_effect(panic_total),
{
    let t = panic_total;
    lit(
        if 1 <= t && t <= 6 {
            "Keeping it together"
        } else if t == 7 {
            "Tremble - Shaky hands (-2 to next roll)"
        } else if t == 8 {
            "Drop Item - You drop a weapon or important item"
        } else if t == 9 {
            "Freeze - You lose your next turn"
        } else if t == 10 {
            "Seek Cover - You must move to safety immediately"
        } else if t == 11 {
            "Scream - Everyone who hears you must make a Panic Roll"
        } else if t == 12 {
            "Flee - You must move away from the threat"
        } else if t == 13 {
            "Berserk - You attack the nearest person or creature"
        } else if t == 14 {
            "Catatonic - You become unresponsive for one turn"
        } else if 15 <= t && t <= 99 {
            "Heart Attack - You suffer a heart attack and become Broken"
        } else {
            "Catastrophic Panic"
        },
    )
}

pub open spec fn seq_max(s: Seq<i32>) -> i32
    decreases s.len(),
{
    if s.len() <= 1 {
        s[0]
    } else {
        let m = seq_max(s.drop_last());
        if s.last() > m {
            s.last()
        } else {
            m
        }
    }
}

pub open spec fn seq_min(s: Seq<i32>) -> i32
    decreases s.len(),
{
    if s.len() <= 1 {
        s[0]
    } else {
        let m = seq_min(s.drop_last());
        if s.last() < m {
            s.last()
        } else {
            m
        }
    }
}

pub fn max_of(v: &Vec<i32>) -> (m: i32)
    requires
        v@.len() > 0,
    ensures
        m == seq_max(v@),
{
    let mut m = v[0];
    let mut i: usize = 1;
    while i < v.len()
        invariant
            1 <= i <= v@.len(),
            m == seq_max(v@.take(i as int)),
        decreases v.len() - i,
    {
        assert(v@.take(i + 1).drop_last() =~= v@.take(i as int));
        if v[i] > m {
            m = v[i];
        }
        i = i + 1;
    }
    assert(v@.take(v@.len() as int) =~= v@);
    m
}

pub fn min_of(v: &Vec<i32>) -> (m: i32)
    requires
        v@.len() > 0,
    ensures
        m == seq_min(v@),
{
    let mut m = v[0];
    let mut i: usize = 1;
    while i < v.len()
        invariant
            1 <= i <= v@.len(),
            m == seq_min(v@.take(i as int)),
        decreases v.len() - i,
    {
        assert(v@.take(i + 1).drop_last() =~= v@.take(i as int));
        if v[i] < m {
            m = v[i];
        }
        i = i + 1;
    }
    assert(v@.take(v@.len() as int) =~= v@);
    m
}

/// Forged in the Dark outcome of the deciding die, as (outcome, result).
pub open spec fn fitd_reading(d: i32, many_sixes: bool, zero: bool) -> (Seq<char>, Seq<char>) {
    if 1 <= d <= 3 {
        ("FAILURE"@, if zero { "Bad outcome - GM makes a hard move"@ } else { "Bad outcome - GM makes a move"@ })
    } else if 4 <= d <= 5 {
        (
            "PARTIAL SUCCESS"@,
            if zero { "You do it, but with serious consequences"@ } else { "You do it, but with consequences"@ },
        )
    } else if d == 6 {
        if zero {
            ("SUCCESS"@, "You do it, but it's costly"@)
        } else if many_sixes {
            ("CRITICAL SUCCESS"@, "Great effect + extra advantage!"@)
        } else {
            ("SUCCESS"@, "You do it well"@)
        }
    } else {
        ("UNKNOWN"@, "Invalid die result"@)
    }
}

fn fitd_strings(d: i32, many_sixes: bool, zero: bool) -> (r: (&'static str, &'static str))
    ensures
        (r.0@, r.1@) == fitd_reading(d, many_sixes, zero),
{
    if 1 <= d && d <= 3 {
        ("FAILURE", if zero { "Bad outcome - GM makes a hard move" } else { "Bad outcome - GM makes a move" })
    } else if 4 <= d && d <= 5 {
        (
            "PARTIAL SUCCESS",
            if zero { "You do it, but with serious consequences" } else { "You do it, but with consequences" },
        )
    } else if d == 6 {
        if zero {
            ("SUCCESS", "You do it, but it's costly")
        } else if many_sixes {
            ("CRITICAL SUCCESS", "Great effect + extra advantage!")
        } else {
            ("SUCCESS", "You do it well")
        }
    } else {
        ("UNKNOWN", "Invalid die result")
    }
}

/// What a Forged in the Dark roll does to a result `a`, leaving `b`.
pub open spec fn forged_dark_step(a: RollResult, b: RollResult, r: Result<(), DiceError>) -> bool {
    &&& (a.kept_rolls@.len() == 0 <==> r is Err)
    &&& (r is Err ==> err_msg(r) == "No dice to apply FitD mechanics to"@)
    &&& (r is Ok ==> {
            let kept = a.kept_rolls@;
            let highest = seq_max(kept);
            let sixes = count_in_range(kept, 6, 6);
            let reading = fitd_reading(highest, sixes > 1, false);
            &&& opt_text(b.fitd_outcome) == Some(reading.0)
            &&& opt_text(b.fitd_result) == Some(reading.1)
            &&& b.fitd_highest_die == Some(highest)
            &&& notes_of(b) == if sixes > 1 {
                notes_of(a).push(
                    "⚡ **CRITICAL**: "@ + int_str(sixes as int) + " sixes rolled - extra advantage!"@,
                )
            } else {
                notes_of(a)
            }
            &&& b == (RollResult {
                fitd_outcome: b.fitd_outcome,
                fitd_result: b.fitd_result,
                fitd_highest_die: b.fitd_highest_die,
                notes: b.notes,
                ..a
            })
        })
}

/// Forged in the Dark: the highest die decides; more than one 6 is critical.
pub fn apply_forged_dark_mechanics(result: &mut RollResult) -> (r: Result<(), DiceError>)
    ensures
        old(result).kept_rolls@.len() == 0 <==> r is Err,
        r is Err ==> err_msg(r) == "No dice to apply FitD mechanics to"@,
        r is Ok ==> {
            let kept = old(result).kept_rolls@;
            let highest = seq_max(kept);
            let sixes = count_in_range(kept, 6, 6);
            let reading = fitd_reading(highest, sixes > 1, false);
            &&& opt_text(final(result).fitd_outcome) == Some(reading.0)
            &&& opt_text(final(result).fitd_result) == Some(reading.1)
            &&& final(result).fitd_highest_die == Some(highest)
            &&& notes_of(*final(result)) == if sixes > 1 {
                notes_of(*old(result)).push(
                    "⚡ **CRITICAL**: "@ + int_str(sixes as int) + " sixes rolled - extra advantage!"@,
                )
            } else {
                notes_of(*old(result))
            }
            &&& *final(result) == (RollResult {
                fitd_outcome: final(result).fitd_outcome,
                fitd_result: final(result).fitd_result,
                fitd_highest_die: final(result).fitd_highest_die,
                notes: final(result).notes,
                ..*old(result)
            })
        },
{
    if result.kept_rolls.len() == 0 {
        return Err(DiceError::from_str("No dice to apply FitD mechanics to"));
    }
    let highest_die = max_of(&result.kept_rolls);
    let six_count = count_in(&result.kept_rolls, 6, 6);
    let (outcome, fitd_result) = fitd_strings(highest_die, six_count > 1, false);
    result.fitd_outcome = Some(lit(outcome));
    result.fitd_result = Some(lit(fitd_result));
    result.fitd_highest_die = Some(highest_die);
    if six_count > 1 {
        push_note(result, crate::text::cat_nat("⚡ **CRITICAL**: ", six_count as u64, " sixes rolled - extra advantage!"));
    }
    Ok(())
}

/// What a Forged in the Dark roll of zero dice does to a result `a`, leaving `b`.
pub open spec fn forged_dark_zero_step(a: RollResult, b: RollResult, r: Result<(), DiceError>) -> bool {
    &&& (a.kept_rolls@.len() != 2 <==> r is Err)
    &&& (r is Err ==> err_msg(r) == "FitD zero dice requires exactly 2 dice"@)
    &&& (r is Ok ==> {
            let lowest = seq_min(a.kept_rolls@);
            let reading = fitd_reading(lowest, false, true);
            &&& opt_text(b.fitd_outcome) == Some(reading.0)
            &&& opt_text(b.fitd_result) == Some(reading.1)
            &&& b.fitd_highest_die == Some(lowest)
            &&& notes_of(b) == notes_of(a).push(
                "⚠️ **DESPERATE POSITION**: Zero dice - risky situation!"@,
            )
            &&& b == (RollResult {
                fitd_outcome: b.fitd_outcome,
                fitd_result: b.fitd_result,
                fitd_highest_die: b.fitd_highest_die,
                notes: b.notes,
                ..a
            })
        })
}

/// Forged in the Dark with zero dice: two dice, the lowest decides.
pub fn apply_forged_dark_zero_mechanics(result: &mut RollResult) -> (r: Result<(), DiceError>)
    ensures
        old(result).kept_rolls@.len() != 2 <==> r is Err,
        r is Err ==> err_msg(r) == "FitD zero dice requires exactly 2 dice"@,
        r is Ok ==> {
            let lowest = seq_min(old(result).kept_rolls@);
            let reading = fitd_reading(lowest, false, true);
            &&& opt_text(final(result).fitd_outcome) == Some(reading.0)
            &&& opt_text(final(result).fitd_result) == Some(reading.1)
            &&& final(result).fitd_highest_die == Some(lowest)
            &&& notes_of(*final(result)) == notes_of(*old(result)).push(
                "⚠️ **DESPERATE POSITION**: Zero dice - risky situation!"@,
            )
            &&& *final(result) == (RollResult {
                fitd_outcome: final(result).fitd_outcome,
                fitd_result: final(result).fitd_result,
                fitd_highest_die: final(result).fitd_highest_die,
                notes: final(result).notes,
                ..*old(result)
            })
        },
{
    if result.kept_rolls.len() != 2 {
        return Err(DiceError::from_str("FitD zero dice requires exactly 2 dice"));
    }
    let lowest_die = min_of(&result.kept_rolls);
    let (outcome, fitd_result) = fitd_strings(lowest_die, false, true);
    result.fitd_outcome = Some(lit(outcome));
    result.fitd_result = Some(lit(fitd_result));
    result.fitd_highest_die = Some(lowest_die);
    push_note(result, lit("⚠️ **DESPERATE POSITION**: Zero dice - risky situation!"));
    Ok(())
}

/// Daggerheart verdict for the Hope and Fear dice.
pub open spec fn daggerheart_verdict(hope: i32, fear: i32) -> Seq<char> {
    let total = hope.wrapping_add(fear);
    if hope == fear {
        "Critical Success!"@
    } else if hope > fear {
        "roll is "@ + int_str(total as int) + " with Hope"@
    } else {
        "roll is "@ + int_str(total as int) + " with Fear"@
    }
}

/// What a Daggerheart roll does to a result `a`, leaving `b`.
pub open spec fn daggerheart_step(a: RollResult, b: RollResult, r: Result<(), DiceError>) -> bool {
    &&& ((a.dice_groups@.len() == 0 || a.dice_groups@[0].rolls@.len() == 0) ==> r is Err
            && err_msg(r) == "No dice to apply Daggerheart mechanics to"@)
    &&& ((a.dice_groups@.len() > 0 && a.dice_groups@[0].rolls@.len() > 0
            && a.dice_groups@[0].rolls@.len() != 2) ==> r is Err && err_msg(r)
            == "Daggerheart requires exactly 2 dice (Hope and Fear)"@)
    &&& ((a.dice_groups@.len() > 0 && a.dice_groups@[0].rolls@.len() == 2) ==> r is Ok)
    &&& (r is Ok ==> {
            let hope = a.dice_groups@[0].rolls@[0];
            let fear = a.dice_groups@[0].rolls@[1];
            let verdict = daggerheart_verdict(hope, fear);
            &&& b.total == hope.wrapping_add(fear)
            &&& opt_text(b.comment) == Some(verdict)
            &&& notes_of(b) == notes_of(a).push(
                "**Daggerheart Roll**: Hope: "@ + int_str(hope as int) + ", Fear: "@ + int_str(fear as int)
                    + " → "@ + verdict,
            )
            &&& b == (RollResult {
                total: b.total,
                comment: b.comment,
                notes: b.notes,
                ..a
            })
        })
}

/// Daggerheart: the first group's two dice are Hope and Fear; the verdict
/// becomes the comment.
pub fn apply_daggerheart_mechanics(result: &mut RollResult) -> (r: Result<(), DiceError>)
    ensures
        (old(result).dice_groups@.len() == 0 || old(result).dice_groups@[0].rolls@.len() == 0) ==> r is Err
            && err_msg(r) == "No dice to apply Daggerheart mechanics to"@,
        (old(result).dice_groups@.len() > 0 && old(result).dice_groups@[0].rolls@.len() > 0
            && old(result).dice_groups@[0].rolls@.len() != 2) ==> r is Err && err_msg(r)
            == "Daggerheart requires exactly 2 dice (Hope and Fear)"@,
        (old(result).dice_groups@.len() > 0 && old(result).dice_groups@[0].rolls@.len() == 2) ==> r is Ok,
        r is Ok ==> {
            let hope = old(result).dice_groups@[0].rolls@[0];
            let fear = old(result).dice_groups@[0].rolls@[1];
            let verdict = daggerheart_verdict(hope, fear);
            &&& final(result).total == hope.wrapping_add(fear)
            &&& opt_text(final(result).comment) == Some(verdict)
            &&& notes_of(*final(result)) == notes_of(*old(result)).push(
                "**Daggerheart Roll**: Hope: "@ + int_str(hope as int) + ", Fear: "@ + int_str(fear as int)
                    + " → "@ + verdict,
            )
            &&& *final(result) == (RollResult {
                total: final(result).total,
                comment: final(result).comment,
                notes: final(result).notes,
                ..*old(result)
            })
        },
{
    if result.dice_groups.len() == 0 || result.dice_groups[0].rolls.len() == 0 {
        return Err(DiceError::from_str("No dice to apply Daggerheart mechanics to"));
    }
    if result.dice_groups[0].rolls.len() != 2 {
        return Err(DiceError::from_str("Daggerheart requires exactly 2 dice (Hope and Fear)"));
    }
    let hope_die = result.dice_groups[0].rolls[0];
    let fear_die = result.dice_groups[0].rolls[1];
    let total = hope_die.wrapping_add(fear_die);
    result.total = total;
    let verdict = if hope_die == fear_die {
        lit("Critical Success!")
    } else if hope_die > fear_die {
        cat_int("roll is ", total as i64, " with Hope")
    } else {
        cat_int("roll is ", total as i64, " with Fear")
    };
    let mut s = cat_int2("**Daggerheart Roll**: Hope: ", hope_die as i64, ", Fear: ", fear_die as i64, " → ");
    s.append(verdict.as_str());
    push_note(result, s);
    result.comment = Some(verdict);
    Ok(())
}

/// Two dice of the same face among 1-6.
pub open spec fn has_double(s: Seq<i32>) -> bool {
    exists|v: int| 1 <= v <= 6 && #[trigger] count_in_range(s, v, v) >= 2
}

pub fn has_matching_dice(dice: &Vec<i32>) -> (b: bool)
    ensures
        b == has_double(dice@),
{
    let mut v: i64 = 1;
    while v <= 6
        invariant
            1 <= v <= 7,
            forall|w: int| 1 <= w < v ==> #[trigger] count_in_range(dice@, w, w) < 2,
        decreases 7 - v,
    {
        if count_in(dice, v, v) >= 2 {
            assert(count_in_range(dice@, v as int, v as int) >= 2);
            return true;
        }
        v = v + 1;
    }
    false
}

/// The reading of a single WFRP test.
pub struct WfrpTest {
    pub success: bool,
    pub success_levels: i32,
    /// A double (11, 22 ... 99, 00): Astounding Success or Failure.
    pub is_double: bool,
    /// Inside the 01-05 or 96-00 band, where the roll decides on its own.
    pub is_automatic: bool,
}

/// Read a d100 (1-100, 100 standing for 00) against a WFRP target: 01-05
/// always succeeds with at least +1 SL, 96-00 always fails with at most -1 SL,
/// otherwise success is rolling at or under the target; SL is the tens digit
/// of the target minus the tens digit of the roll.
pub open spec fn wfrp_spec(target: i32, roll: i32) -> WfrpTest {
    let auto_success = roll <= 5;
    let auto_failure = roll >= 96;
    let rolled = wdiv(target, 10) - wdiv(roll, 10);
    WfrpTest {
        success: if auto_success { true } else if auto_failure { false } else { roll <= target },
        success_levels: (if auto_success {
            if rolled > 1 { rolled } else { 1 }
        } else if auto_failure {
            if rolled < -1 { rolled } else { -1 }
        } else {
            rolled
        }) as i32,
        is_double: roll == 100 || wdiv(roll, 10) == wrem(roll, 10),
        is_automatic: auto_success || auto_failure,
    }
}

/// Truncating remainder.
pub open spec fn wrem(a: i32, b: i32) -> i32 {
    match a.checked_rem(b) {
        Some(r) => r,
        None => 0,
    }
}

pub fn wfrp_test_outcome(target: i32, roll: i32) -> (t: WfrpTest)
    ensures
        t == wfrp_spec(target, roll),
{
    let automatic_success = roll <= 5;
    let automatic_failure = roll >= 96;
    let success = if automatic_success {
        true
    } else if automatic_failure {
        false
    } else {
        roll <= target
    };
    let rolled: i64 = (div_wrapping(target, 10) as i64) - (div_wrapping(roll, 10) as i64);
    let success_levels: i64 = if automatic_success {
        if rolled > 1 { rolled } else { 1 }
    } else if automatic_failure {
        if rolled < -1 { rolled } else { -1 }
    } else {
        rolled
    };
    let rem = match roll.checked_rem(10) {
        Some(r) => r,
        None => 0,
    };
    WfrpTest {
        success,
        success_levels: success_levels as i32,
        is_double: roll == 100 || div_wrapping(roll, 10) == rem,
        is_automatic: automatic_success || automatic_failure,
    }
}

pub open spec fn signed_sl(t: WfrpTest) -> Seq<char> {
    if t.success_levels > 0 {
        "+"@ + int_str(t.success_levels as int)
    } else if t.success_levels == 0 {
        if t.success { "+0"@ } else { "-0"@ }
    } else {
        int_str(t.success_levels as int)
    }
}

pub open spec fn wfrp_notes(t: WfrpTest, target: i32) -> Seq<Seq<char>> {
    let verdict = if t.success {
        if t.is_automatic { "**AUTOMATIC SUCCESS** (01-05)"@ } else { "**SUCCESS**"@ }
    } else {
        if t.is_automatic { "**AUTOMATIC FAILURE** (96-00)"@ } else { "**FAILURE**"@ }
    };
    let first = verdict + " - "@ + signed_sl(t) + " SL (Target "@ + int_str(target as int) + ")"@;
    if t.is_double {
        seq![
            first,
            if t.success {
                "**ASTOUNDING SUCCESS** (doubles) - Critical Hit in combat"@
            } else {
                "**ASTOUNDING FAILURE** (doubles) - Fumble in combat"@
            },
        ]
    } else {
        seq![first]
    }
}

impl WfrpTest {
    /// Success Levels as WFRP writes them, including the "-0" of a test
    /// that failed on the ones digit alone.
    pub fn signed_success_levels(&self) -> (s: String)
        ensures
            s@ == signed_sl(*self),
    {
        if self.success_levels > 0 {
            crate::text::lit_int("+", self.success_levels as i64)
        } else if self.success_levels == 0 {
            lit(if self.success { "+0" } else { "-0" })
        } else {
            crate::text::int_to_string(self.success_levels as i64)
        }
    }

    pub fn notes(&self, target: i32) -> (v: Vec<String>)
        ensures
            v@.map_values(|s: String| s@) == wfrp_notes(*self, target),
    {
        let mut first = lit(
            if self.success {
                if self.is_automatic { "**AUTOMATIC SUCCESS** (01-05)" } else { "**SUCCESS**" }
            } else {
                if self.is_automatic { "**AUTOMATIC FAILURE** (96-00)" } else { "**FAILURE**" }
            },
        );
        first.append(" - ");
        let sl = self.signed_success_levels();
        first.append(sl.as_str());
        first.append(" SL (Target ");
        push_int(&mut first, target as i64);
        first.append(")");
        let mut v: Vec<String> = Vec::new();
        v.push(first);
        if self.is_double {
            v.push(
                lit(
                    if self.success {
                        "**ASTOUNDING SUCCESS** (doubles) - Critical Hit in combat"
                    } else {
                        "**ASTOUNDING FAILURE** (doubles) - Fumble in combat"
                    },
                ),
            );
        }
        assert(v@.map_values(|s: String| s@) =~= wfrp_notes(*self, target));
        v
    }
}

/// Wild Worlds reading of the deciding die.
pub open spec fn wild_worlds_reading(d: i32) -> Seq<char> {
    if d == 6 {
        "Triumph"@
    } else if d == 4 || d == 5 {
        "Conflict"@
    } else {
        "Disaster"@
    }
}

pub open spec fn cut_amount(cut_count: Option<u32>) -> int {
    match cut_count {
        Some(c) => c as int,
        None => 0,
    }
}

pub open spec fn cut_notes(cut_count: Option<u32>) -> Seq<Seq<char>> {
    match cut_count {
        Some(c) => seq!["Cut "@ + int_str(c as int) + " highest dice"@],
        None => seq![],
    }
}

pub open spec fn wild_worlds_line(highest: i32, twist: bool) -> Seq<Seq<char>> {
    let line = "Wild Worlds: "@ + wild_worlds_reading(highest) + " ("@ + int_str(highest as int) + ")"@;
    if twist {
        seq![line + " + Twist"@, "Doubles detected - add a small twist to the outcome!"@]
    } else {
        seq![line]
    }
}

/// The Wild Worlds reading of `old` is `new`.
pub open spec fn wild_worlds_outcome(old: RollResult, new: RollResult, cut_count: Option<u32>) -> bool {
    let rolls = old.individual_rolls@;
    let cut = cut_amount(cut_count);
    let working = new.kept_rolls@;
    let highest = seq_max(working);
    &&& 0 <= cut < rolls.len()
    &&& 1 <= highest <= 6
    &&& working.len() == rolls.len() - cut
    &&& exists|sorted: Seq<i32>|
        sorted_desc(sorted) && sorted.to_multiset() == rolls.to_multiset() && #[trigger] sorted.skip(cut)
            == working
    &&& new.total == highest
    &&& notes_of(new) == notes_of(old) + cut_notes(cut_count) + wild_worlds_line(highest, has_double(working))
    &&& new == (RollResult { total: new.total, kept_rolls: new.kept_rolls, notes: new.notes, ..old })
}

/// What a Wild Worlds roll does to a result `a`, leaving `b`.
pub open spec fn wild_worlds_step(a: RollResult, b: RollResult, r: Result<(), DiceError>, cut_count: Option<u32>) -> bool {
    &&& (a.individual_rolls@.len() == 0 ==> r is Err && err_msg(r)
            == "No dice to apply Wild Worlds mechanics to"@)
    &&& (a.individual_rolls@.len() > 0 && cut_count is Some && cut_count->0 as int
            >= a.individual_rolls@.len() ==> r is Err && err_msg(r) == "Cannot cut "@
            + int_str(cut_count->0 as int) + " dice from "@ + int_str(
            a.individual_rolls@.len() as int,
        ) + " rolled"@)
    &&& (r is Ok ==> wild_worlds_outcome(a, b, cut_count))
}

#[verifier::rlimit(40)]
/// Wild Worlds: cut the highest dice, then the highest remaining die decides;
/// matching dice add a twist.
pub fn apply_wild_worlds_mechanics(result: &mut RollResult, cut_count: Option<u32>) -> (r: Result<(), DiceError>)
    ensures
        old(result).individual_rolls@.len() == 0 ==> r is Err && err_msg(r)
            == "No dice to apply Wild Worlds mechanics to"@,
        old(result).individual_rolls@.len() > 0 && cut_count is Some && cut_count->0 as int
            >= old(result).individual_rolls@.len() ==> r is Err && err_msg(r) == "Cannot cut "@
            + int_str(cut_count->0 as int) + " dice from "@ + int_str(
            old(result).individual_rolls@.len() as int,
        ) + " rolled"@,
        r is Ok ==> wild_worlds_outcome(*old(result), *final(result), cut_count),
{
    if result.individual_rolls.len() == 0 {
        return Err(DiceError::from_str("No dice to apply Wild Worlds mechanics to"));
    }
    let ghost n0 = notes_of(*result);
    let sorted = crate::dice::pool::sort_desc(result.individual_rolls.clone());
    let ghost sv = sorted@;
    let mut working = result.individual_rolls.clone();
    let mut cut: usize = 0;
    if let Some(c) = cut_count {
        if c as usize >= working.len() {
            return Err(DiceError::new(crate::text::cat_int_int_then(
                "Cannot cut ",
                c as u64,
                " dice from ",
                working.len() as u64,
                " rolled",
            )));
        }
        cut = c as usize;
        working = crate::dice::pool_slice(&sorted, cut, sorted.len());
        push_note(result, crate::text::cat_nat("Cut ", c as u64, " highest dice"));
    } else {
        proof {
            assert(sorted@.skip(0) =~= sorted@);
        }
        working = sorted;
        assert(working@ =~= sorted@.skip(0));
    }
    let ghost n1 = notes_of(*result);
    assert(n1 =~= n0 + cut_notes(cut_count));
    let highest_die = max_of(&working);
    if highest_die < 1 || highest_die > 6 {
        return Err(DiceError::from_str("d6 can only roll 1-6"));
    }
    let has_twist = has_matching_dice(&working);
    let interpretation = if highest_die == 6 {
        "Triumph"
    } else if highest_die == 4 || highest_die == 5 {
        "Conflict"
    } else {
        "Disaster"
    };
    assert(interpretation@ == wild_worlds_reading(highest_die));
    result.total = highest_die;
    let mut text = lit("Wild Worlds: ");
    text.append(interpretation);
    text.append(" (");
    push_int(&mut text, highest_die as i64);
    text.append(")");
    if has_twist {
        text.append(" + Twist");
    }
    push_note(result, text);
    if has_twist {
        push_note(result, lit("Doubles detected - add a small twist to the outcome!"));
    }
    result.kept_rolls = working;
    proof {
        let rolls = old(result).individual_rolls@;
        assert(sorted_desc(sv) && sv.to_multiset() == rolls.to_multiset());
        assert(cut_amount(cut_count) == cut as int);
        assert(sv.skip(cut_amount(cut_count)) =~= result.kept_rolls@);
        assert(notes_of(*result) =~= n1 + wild_worlds_line(highest_die, has_twist));
        assert(wild_worlds_outcome(*old(result), *result, cut_count));
    }
    Ok(())
}

/// Each die run through the arithmetic modifiers.
pub open spec fn map_arith(s: Seq<i32>, mods: Seq<Modifier>) -> Seq<i32> {
    s.map_values(|x: i32| fold_arith(mods, x))
}

fn check_no_zero_divisor(modifiers: &Vec<Modifier>) -> (r: Result<(), DiceError>)
    ensures
        has_zero_divisor(modifiers@) <==> r is Err,
        r is Err ==> err_is_divide_by_zero(r),
{
    let mut probe: i32 = 0;
    crate::dice::arith::apply_arithmetic_modifiers(modifiers, &mut probe)
}

fn map_dice(v: &Vec<i32>, modifiers: &Vec<Modifier>) -> (r: Vec<i32>)
    requires
        !has_zero_divisor(modifiers@),
    ensures
        r@ == map_arith(v@, modifiers@),
{
    let mut r: Vec<i32> = Vec::new();
    let mut i: usize = 0;
    while i < v.len()
        invariant
            i <= v@.len(),
            !has_zero_divisor(modifiers@),
            r@ =~= map_arith(v@.take(i as int), modifiers@),
        decreases v.len() - i,
    {
        let mut x = v[i];
        let res = crate::dice::arith::apply_arithmetic_modifiers(modifiers, &mut x);
        r.push(x);
        i = i + 1;
    }
    assert(v@.take(v@.len() as int) =~= v@);
    r
}

/// Arithmetic written before the first success-counting modifier applies to
/// every die (kept, rolled and shown), and the total is re-summed.
pub fn apply_pre_target_mathematical_modifiers(
    result: &mut RollResult,
    modifiers: &Vec<Modifier>,
) -> (r: Result<(), DiceError>)
    ensures
        has_zero_divisor(modifiers@) <==> r is Err,
        r is Err ==> err_is_divide_by_zero(r),
        r is Ok ==> {
            &&& final(result).kept_rolls@ == map_arith(old(result).kept_rolls@, modifiers@)
            &&& final(result).individual_rolls@ == map_arith(old(result).individual_rolls@, modifiers@)
            &&& final(result).dice_groups@.len() == old(result).dice_groups@.len()
            &&& forall|g: int|
                0 <= g < final(result).dice_groups@.len() ==> #[trigger] final(result).dice_groups@[g]
                    == (crate::dice::DiceGroup {
                    rolls: final(result).dice_groups@[g].rolls,
                    ..old(result).dice_groups@[g]
                }) && final(result).dice_groups@[g].rolls@ == map_arith(
                    old(result).dice_groups@[g].rolls@,
                    modifiers@,
                )
            &&& final(result).total == wsum(final(result).kept_rolls@)
            &&& *final(result) == (RollResult {
                kept_rolls: final(result).kept_rolls,
                individual_rolls: final(result).individual_rolls,
                dice_groups: final(result).dice_groups,
                total: final(result).total,
                ..*old(result)
            })
        },
{
    check_no_zero_divisor(modifiers)?;
    result.kept_rolls = map_dice(&result.kept_rolls, modifiers);
    result.individual_rolls = map_dice(&result.individual_rolls, modifiers);
    let mut groups: Vec<crate::dice::DiceGroup> = Vec::new();
    std::mem::swap(&mut groups, &mut result.dice_groups);
    let ghost old_groups = groups@;
    assert(old_groups == old(result).dice_groups@);
    let mut mapped: Vec<crate::dice::DiceGroup> = Vec::new();
    while groups.len() > 0
        invariant
            !has_zero_divisor(modifiers@),
            mapped@.len() + groups@.len() == old_groups.len(),
            groups@ =~= old_groups.skip(mapped@.len() as int),
            forall|g: int|
                0 <= g < mapped@.len() ==> #[trigger] mapped@[g] == (crate::dice::DiceGroup {
                    rolls: mapped@[g].rolls,
                    ..old_groups[g]
                }) && mapped@[g].rolls@ == map_arith(old_groups[g].rolls@, modifiers@),
        decreases groups.len(),
    {
        let ghost k = mapped@.len() as int;
        let g = groups.remove(0);
        assert(g == old_groups[k]);
        let crate::dice::DiceGroup { _description, rolls, dropped_rolls, modifier_type } = g;
        let new_rolls = map_dice(&rolls, modifiers);
        mapped.push(crate::dice::DiceGroup { _description, rolls: new_rolls, dropped_rolls, modifier_type });
        assert(groups@ =~= old_groups.skip(k + 1));
    }
    result.dice_groups = mapped;
    result.total = sum_rolls(&result.kept_rolls);
    Ok(())
}

/// Cyberpunk Red / Witcher: `*` and `/` scale the total in order, while `+`
/// and `-` are summed apart and added last, so a multiplier scales the dice
/// and not the flat bonus.
pub open spec fn cpr_fold(mods: Seq<Modifier>, total: i32) -> (i32, i32)
    decreases mods.len(),
{
    if mods.len() == 0 {
        (total, 0)
    } else {
        let (t, acc) = cpr_fold(mods.drop_last(), total);
        match mods.last() {
            Modifier::Add(v) => (t, acc.wrapping_add(v)),
            Modifier::Subtract(v) => (t, acc.wrapping_sub(v)),
            Modifier::Multiply(v) => (t.wrapping_mul(v), acc),
            Modifier::Divide(v) => (wdiv(t, v), acc),
            _ => (t, acc),
        }
    }
}

pub fn apply_mathematical_modifiers_to_cpr_total(
    result: &mut RollResult,
    modifiers: &Vec<Modifier>,
) -> (r: Result<(), DiceError>)
    ensures
        has_zero_divisor(modifiers@) <==> r is Err,
        r is Err ==> err_is_divide_by_zero(r),
        r is Ok ==> *final(result) == (RollResult {
            total: cpr_fold(modifiers@, old(result).total).0.wrapping_add(
                cpr_fold(modifiers@, old(result).total).1,
            ),
            ..*old(result)
        }),
{
    check_no_zero_divisor(modifiers)?;
    let mut modifier_total: i32 = 0;
    let mut i: usize = 0;
    while i < modifiers.len()
        invariant
            i <= modifiers@.len(),
            !has_zero_divisor(modifiers@),
            (result.total, modifier_total) == cpr_fold(modifiers@.take(i as int), old(result).total),
            *result == (RollResult { total: result.total, ..*old(result) }),
        decreases modifiers.len() - i,
    {
        assert(modifiers@.take(i + 1).drop_last() =~= modifiers@.take(i as int));
        match &modifiers[i] {
            Modifier::Add(v) => modifier_total = modifier_total.wrapping_add(*v),
            Modifier::Subtract(v) => modifier_total = modifier_total.wrapping_sub(*v),
            Modifier::Multiply(v) => result.total = result.total.wrapping_mul(*v),
            Modifier::Divide(v) => {
                assert(!is_zero_divide_at(modifiers@, i as int));
                result.total = div_wrapping(result.total, *v);
            },
            _ => {},
        }
        i = i + 1;
    }
    assert(modifiers@.take(modifiers@.len() as int) =~= modifiers@);
    if modifier_total != 0 {
        result.total = result.total.wrapping_add(modifier_total);
    }
    Ok(())
}

pub open spec fn is_zero_divide_at(mods: Seq<Modifier>, i: int) -> bool {
    crate::dice::arith::is_zero_divide(mods[i])
}

/// Vampire: the arithmetic moves the success count and the total together,
/// and only when there is a success count.
pub fn apply_mathematical_modifiers_to_vtm5_successes(
    result: &mut RollResult,
    modifiers: &Vec<Modifier>,
) -> (r: Result<(), DiceError>)
    ensures
        has_zero_divisor(modifiers@) <==> r is Err,
        r is Err ==> err_is_divide_by_zero(r),
        r is Ok ==> *final(result) == match old(result).successes {
            Some(s) => RollResult {
                successes: Some(fold_arith(modifiers@, s)),
                total: fold_arith(modifiers@, old(result).total),
                ..*old(result)
            },
            None => *old(result),
        },
{
    check_no_zero_divisor(modifiers)?;
    if let Some(s) = result.successes {
        let mut v = s;
        let _ = crate::dice::arith::apply_arithmetic_modifiers(modifiers, &mut v);
        let mut t = result.total;
        let _ = crate::dice::arith::apply_arithmetic_modifiers(modifiers, &mut t);
        result.successes = Some(v);
        result.total = t;
    }
    Ok(())
}

} // verus!
