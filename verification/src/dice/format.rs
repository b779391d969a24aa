//! Rendering of roll results as message text, and the entry points that
//! parse, roll and render a request.

use vstd::prelude::*;
use vstd::string::*;
use crate::dice::{carries_flags, DiceError, DiceGroup, DiceRoll, RollResult};
use crate::dice::grammar::{request_spec, RollShape};
use crate::dice::roller::{any_keeps_none, is_counting, keeps_none, pool_outcome, pool_request};
use crate::dice::parser::{has_shape, ModShape};
use crate::dice::rng::DiceRng;
use crate::dice::systems::{notes_of, opt_text};
use crate::text::{
    int_str, join_ints, join_seqs, push_chars, push_int, push_joined, push_joined_ints, starts_with,
    str_chars, trim_chars, trim_seq, utf8_len,
};

verus! {

/// A die as shown in a group: `-1` stands for the Marvel logo.
pub open spec fn group_die_text(x: i32) -> Seq<char> {
    if x == -1 { "**M**"@ } else { int_str(x as int) }
}

pub open spec fn group_rolls_text(v: Seq<i32>) -> Seq<char> {
    join_seqs(v.map_values(|x: i32| group_die_text(x)), ", "@)
}

/// What stands between a group and the one before it.
pub open spec fn group_separator(t: Seq<char>) -> Seq<char> {
    if t == "add"@ {
        " + "@
    } else if t == "subtract"@ {
        " - "@
    } else if t == "multiply"@ {
        " * "@
    } else if t == "divide"@ {
        " / "@
    } else if t == "result"@ {
        " → "@
    } else {
        " "@
    }
}

/// The arithmetic that the text between two dice groups shows: ` + `,
/// ` - `, ` * ` or ` / ` (none for a division by zero or any other text).
pub open spec fn shown_arith(sep: Seq<char>, l: i32, r: i32) -> Option<i32> {
    if sep == " + "@ {
        Some(l.wrapping_add(r))
    } else if sep == " - "@ {
        Some(l.wrapping_sub(r))
    } else if sep == " * "@ {
        Some(l.wrapping_mul(r))
    } else if sep == " / "@ {
        if r == 0 {
            None
        } else {
            Some(crate::dice::arith::wdiv(l, r))
        }
    } else {
        None
    }
}

/// A dice operand's group is shown after the operator the roll combined it
/// with: for every operator and every pair of values, the text displayed
/// before the group (of the kind the roller writes for that operator) shows
/// exactly the arithmetic the operator performs.
pub proof fn law_operand_shown_with_its_operator(op: crate::dice::roller::DiceOperator, l: i32, r: i32)
    ensures
        shown_arith(group_separator(crate::dice::roller::group_kind(op)), l, r) == crate::dice::arith::combine(
            l,
            op.spec_token(),
            r,
        ),
{
    reveal_strlit("add");
    reveal_strlit("subtract");
    reveal_strlit("multiply");
    reveal_strlit("divide");
    reveal_strlit("result");
    reveal_strlit(" + ");
    reveal_strlit(" - ");
    reveal_strlit(" * ");
    reveal_strlit(" / ");
    match op {
        crate::dice::roller::DiceOperator::Add => {
            assert(group_separator("add"@) == " + "@);
            assert(" + "@ == " + "@);
        },
        crate::dice::roller::DiceOperator::Subtract => {
            assert("subtract"@.len() != "add"@.len());
            assert(" - "@[1] != " + "@[1]);
        },
        crate::dice::roller::DiceOperator::Multiply => {
            assert("multiply"@.len() != "add"@.len() && "multiply"@[0] != "subtract"@[0]);
            assert(" * "@[1] != " + "@[1] && " * "@[1] != " - "@[1]);
        },
        crate::dice::roller::DiceOperator::Divide => {
            assert("divide"@.len() != "add"@.len() && "divide"@[0] != "subtract"@[0] && "divide"@[0] != "multiply"@[0]);
            assert(" / "@[1] != " + "@[1] && " / "@[1] != " - "@[1] && " / "@[1] != " * "@[1]);
        },
    }
}

/// The groups, each as `` `[dice]` ``, with the separator of its kind
/// before every group but the first.
pub open spec fn groups_text(gs: Seq<DiceGroup>) -> Seq<char>
    decreases gs.len(),
{
    if gs.len() == 0 {
        Seq::empty()
    } else {
        let g = gs.last();
        groups_text(gs.drop_last()) + (if gs.len() > 1 { group_separator(g.modifier_type@) } else { Seq::empty() })
            + "`["@ + group_rolls_text(g.rolls@) + "]`"@
    }
}

/// The dice shown for a result: Fudge symbols, else the groups, else the
/// kept dice, else nothing.
pub open spec fn dice_display(r: RollResult) -> Seq<char> {
    match r.fudge_symbols {
        Some(syms) => "`["@ + join_seqs(syms@.map_values(|s: String| s@), ", "@) + "]`"@,
        None => if r.dice_groups@.len() > 0 {
            groups_text(r.dice_groups@)
        } else if r.kept_rolls@.len() > 0 {
            "`["@ + join_ints(r.kept_rolls@) + "]`"@
        } else {
            Seq::empty()
        },
    }
}

pub open spec fn dropped_text(r: RollResult) -> Seq<char> {
    if r.dropped_rolls@.len() == 0 {
        Seq::empty()
    } else {
        " ~~["@ + join_ints(r.dropped_rolls@) + "]~~"@
    }
}

/// The value of a result: the Wrath & Glory reading, Godbound damage, the
/// successes (with failures and botches), the total with botches, or the total.
pub open spec fn result_value_text(r: RollResult) -> Seq<char> {
    if r.wng_wrath_die is Some && r.wng_icons is Some && r.wng_exalted_icons is Some {
        let e = r.wng_exalted_icons.unwrap();
        "Wrath: `"@ + int_str(r.wng_wrath_die.unwrap() as int) + "` | TOTAL - Icons: `"@ + int_str(
            r.wng_icons.unwrap() as int,
        ) + "` Exalted Icons: `"@ + int_str(e as int) + "` (Value:"@ + int_str(e.wrapping_mul(2) as int) + ")"@
    } else if r.godbound_damage is Some {
        "**"@ + int_str(r.godbound_damage.unwrap() as int) + "** damage"@
    } else if r.successes is Some {
        "**"@ + int_str(r.successes.unwrap() as int) + "** successes"@ + (match r.failures {
            Some(f) => if f > 0 { " ("@ + int_str(f as int) + " failures)"@ } else { Seq::empty() },
            None => Seq::empty(),
        }) + (match r.botches {
            Some(b) => if b > 0 { " ("@ + int_str(b as int) + " botches)"@ } else { Seq::empty() },
            None => Seq::empty(),
        })
    } else if r.botches is Some {
        "**"@ + int_str(r.total as int) + "** total, **"@ + int_str(r.botches.unwrap() as int) + "** botches"@
    } else {
        "**"@ + int_str(r.total as int) + "**"@
    }
}

/// The label, then (when shown) the dice and dropped dice, then (when
/// shown) the value.
pub open spec fn label_text(r: RollResult) -> Seq<char> {
    match r.label {
        Some(l) => "**"@ + l@ + "**: "@,
        None => Seq::empty(),
    }
}

pub open spec fn output_text(r: RollResult, show_dice: bool, show_result: bool) -> Seq<char> {
    let label = label_text(r);
    let shown = show_dice && dice_display(r).len() > 0;
    let dice = if shown { "Roll: "@ + dice_display(r) + dropped_text(r) } else { Seq::empty() };
    let value = if show_result {
        if shown { " = "@ + result_value_text(r) } else { "= "@ + result_value_text(r) }
    } else {
        Seq::empty()
    };
    label + dice + value
}

pub open spec fn notes_text(notes: Seq<Seq<char>>) -> Seq<char>
    decreases notes.len(),
{
    if notes.len() == 0 {
        Seq::empty()
    } else {
        notes_text(notes.drop_last()) + "\n*Note: "@ + notes.last() + "*"@
    }
}

pub open spec fn comment_and_notes(r: RollResult) -> Seq<char> {
    (if !r.suppress_comment && r.comment is Some {
        " Reason: `"@ + r.comment.unwrap()@ + "`"@
    } else {
        Seq::empty()
    }) + notes_text(notes_of(r))
}

/// A result as message text: the dice without the value for `nr`, the value
/// alone for `s`, else both; then the reason and the notes.
pub open spec fn display_text(r: RollResult) -> Seq<char> {
    (if r.no_results {
        output_text(r, true, false)
    } else if r.simple {
        output_text(r, false, true)
    } else {
        output_text(r, true, true)
    }) + comment_and_notes(r)
}

fn push_group_rolls(out: &mut String, v: &Vec<i32>)
    ensures
        final(out)@ == old(out)@ + group_rolls_text(v@),
{
    let ghost views = v@.map_values(|x: i32| group_die_text(x));
    let mut i: usize = 0;
    while i < v.len()
        invariant
            i <= v@.len(),
            views == v@.map_values(|x: i32| group_die_text(x)),
            out@ == old(out)@ + join_seqs(views.take(i as int), ", "@),
        decreases v.len() - i,
    {
        assert(views.take(i + 1).drop_last() =~= views.take(i as int));
        assert(views.take(i + 1).last() == group_die_text(v@[i as int]));
        if i > 0 {
            out.append(", ");
        }
        if v[i] == -1 {
            out.append("**M**");
        } else {
            push_int(out, v[i] as i64);
        }
        proof {
            if i == 0 {
                assert(views.take(0).len() == 0);
            }
        }
        i = i + 1;
    }
    assert(views.take(v@.len() as int) =~= views);
}

fn push_separator(out: &mut String, t: &String)
    ensures
        final(out)@ == old(out)@ + group_separator(t@),
{
    let cs = str_chars(t.as_str());
    if crate::text::chars_eq_str(cs.as_slice(), "add") {
        out.append(" + ");
    } else if crate::text::chars_eq_str(cs.as_slice(), "subtract") {
        out.append(" - ");
    } else if crate::text::chars_eq_str(cs.as_slice(), "multiply") {
        out.append(" * ");
    } else if crate::text::chars_eq_str(cs.as_slice(), "divide") {
        out.append(" / ");
    } else if crate::text::chars_eq_str(cs.as_slice(), "result") {
        out.append(" → ");
    } else {
        out.append(" ");
    }
}

/// The dice groups, with separators.
pub fn format_dice_groups(out: &mut String, groups: &Vec<DiceGroup>)
    ensures
        final(out)@ == old(out)@ + groups_text(groups@),
{
    let mut i: usize = 0;
    while i < groups.len()
        invariant
            i <= groups@.len(),
            out@ == old(out)@ + groups_text(groups@.take(i as int)),
        decreases groups.len() - i,
    {
        assert(groups@.take(i + 1).drop_last() =~= groups@.take(i as int));
        if i > 0 {
            push_separator(out, &groups[i].modifier_type);
        }
        out.append("`[");
        push_group_rolls(out, &groups[i].rolls);
        out.append("]`");
        i = i + 1;
    }
    assert(groups@.take(groups@.len() as int) =~= groups@);
}

/// The dice of a result as shown.
pub fn format_dice_display(out: &mut String, r: &RollResult)
    ensures
        final(out)@ == old(out)@ + dice_display(*r),
{
    match &r.fudge_symbols {
        Some(syms) => {
            out.append("`[");
            push_joined(out, syms, ", ");
            out.append("]`");
        },
        None => {
            if r.dice_groups.len() > 0 {
                format_dice_groups(out, &r.dice_groups);
            } else if r.kept_rolls.len() > 0 {
                out.append("`[");
                push_joined_ints(out, &r.kept_rolls);
                out.append("]`");
            } else {
                assert(old(out)@ + Seq::<char>::empty() =~= old(out)@);
            }
        },
    }
}

/// The struck-through dropped dice, when there are any.
pub fn format_dropped_dice(out: &mut String, r: &RollResult)
    ensures
        final(out)@ == old(out)@ + dropped_text(*r),
{
    if r.dropped_rolls.len() == 0 {
        assert(old(out)@ + Seq::<char>::empty() =~= old(out)@);
    } else {
        out.append(" ~~[");
        push_joined_ints(out, &r.dropped_rolls);
        out.append("]~~");
    }
}

/// The value of a result.
pub fn format_result_value(out: &mut String, r: &RollResult)
    ensures
        final(out)@ == old(out)@ + result_value_text(*r),
{
    if let (Some(w), Some(icons), Some(e)) = (r.wng_wrath_die, r.wng_icons, r.wng_exalted_icons) {
        out.append("Wrath: `");
        push_int(out, w as i64);
        out.append("` | TOTAL - Icons: `");
        push_int(out, icons as i64);
        out.append("` Exalted Icons: `");
        push_int(out, e as i64);
        out.append("` (Value:");
        push_int(out, e.wrapping_mul(2) as i64);
        out.append(")");
        return;
    }
    if let Some(d) = r.godbound_damage {
        out.append("**");
        push_int(out, d as i64);
        out.append("** damage");
    } else if let Some(s) = r.successes {
        out.append("**");
        push_int(out, s as i64);
        out.append("** successes");
        let ghost mid = out@;
        if let Some(f) = r.failures {
            if f > 0 {
                out.append(" (");
                push_int(out, f as i64);
                out.append(" failures)");
            }
        }
        assert(r.failures matches Some(f) && f > 0 || out@ =~= mid + Seq::<char>::empty());
        let ghost mid2 = out@;
        if let Some(b) = r.botches {
            if b > 0 {
                out.append(" (");
                push_int(out, b as i64);
                out.append(" botches)");
            }
        }
        assert(r.botches matches Some(b) && b > 0 || out@ =~= mid2 + Seq::<char>::empty());
    } else if let Some(b) = r.botches {
        out.append("**");
        push_int(out, r.total as i64);
        out.append("** total, **");
        push_int(out, b as i64);
        out.append("** botches");
    } else {
        out.append("**");
        push_int(out, r.total as i64);
        out.append("**");
    }
}

/// Whether the result shows any dice.
fn has_dice_display(r: &RollResult) -> (b: bool)
    ensures
        b == (dice_display(*r).len() > 0),
{
    let mut s = String::new();
    format_dice_display(&mut s, r);
    s.unicode_len() > 0
}

/// The label, dice and value, as asked for.
pub fn format_output(out: &mut String, r: &RollResult, show_dice: bool, show_result: bool)
    ensures
        final(out)@ == old(out)@ + output_text(*r, show_dice, show_result),
{
    let ghost o0 = out@;
    if let Some(label) = &r.label {
        out.append("**");
        out.append(label.as_str());
        out.append("**: ");
    }
    let ghost o1 = out@;
    let shown = show_dice && has_dice_display(r);
    if shown {
        out.append("Roll: ");
        format_dice_display(out, r);
        format_dropped_dice(out, r);
    }
    let ghost o2 = out@;
    if show_result {
        if shown {
            out.append(" = ");
        } else {
            out.append("= ");
        }
        format_result_value(out, r);
    }
    proof {
        let label = label_text(*r);
        assert(o1 =~= o0 + label);
        let dice = if shown { "Roll: "@ + dice_display(*r) + dropped_text(*r) } else { Seq::<char>::empty() };
        assert(o2 =~= o1 + dice);
        let value = if show_result {
            if shown { " = "@ + result_value_text(*r) } else { "= "@ + result_value_text(*r) }
        } else {
            Seq::<char>::empty()
        };
        assert(out@ =~= o2 + value);
        assert(out@ =~= o0 + (label + dice + value));
    }
}

/// The reason (unless suppressed) and the notes.
pub fn add_comment_and_notes(out: &mut String, r: &RollResult)
    ensures
        final(out)@ == old(out)@ + comment_and_notes(*r),
{
    let ghost o0 = out@;
    if !r.suppress_comment {
        if let Some(c) = &r.comment {
            out.append(" Reason: `");
            out.append(c.as_str());
            out.append("`");
        }
    }
    let ghost o1 = out@;
    assert(o1 =~= o0 + (if !r.suppress_comment && r.comment is Some {
        " Reason: `"@ + r.comment.unwrap()@ + "`"@
    } else {
        Seq::<char>::empty()
    }));
    let ghost ns = notes_of(*r);
    let mut i: usize = 0;
    while i < r.notes.len()
        invariant
            i <= r.notes@.len(),
            ns == notes_of(*r),
            out@ == o1 + notes_text(ns.take(i as int)),
        decreases r.notes.len() - i,
    {
        assert(ns.take(i + 1).drop_last() =~= ns.take(i as int));
        assert(ns.take(i + 1).last() == r.notes@[i as int]@);
        out.append("\n*Note: ");
        out.append(r.notes[i].as_str());
        out.append("*");
        i = i + 1;
    }
    assert(ns.take(r.notes@.len() as int) =~= ns);
}

impl RollResult {
    /// The result as message text.
    pub fn to_string(&self) -> (s: String)
        ensures
            s@ == display_text(*self),
    {
        let mut out = String::new();
        if self.no_results {
            format_output(&mut out, self, true, false);
        } else if self.simple {
            format_output(&mut out, self, false, true);
        } else {
            format_output(&mut out, self, true, true);
        }
        add_comment_and_notes(&mut out, self);
        out
    }

    /// A copy whose comment is replaced by a note that the roll was
    /// simplified, and is not shown as a reason.
    pub fn create_simplified(&self) -> (r: RollResult)
        ensures
            same_view(r, RollResult { suppress_comment: true, comment: r.comment, ..*self }),
            opt_text(r.comment) == Some("Simplified roll due to character limit"@),
            r.suppress_comment,
    {
        let mut c = copy_result(self);
        c.suppress_comment = true;
        c.comment = Some(String::from_str("Simplified roll due to character limit"));
        c
    }
}

/// Two groups show the same.
pub open spec fn same_group(a: DiceGroup, b: DiceGroup) -> bool {
    a._description@ == b._description@ && a.rolls@ == b.rolls@ && a.dropped_rolls@ == b.dropped_rolls@
        && a.modifier_type@ == b.modifier_type@
}

pub open spec fn opt_texts(o: Option<Vec<String>>) -> Option<Seq<Seq<char>>> {
    match o {
        Some(v) => Some(v@.map_values(|s: String| s@)),
        None => None,
    }
}

/// Two results hold the same values, field by field.
pub open spec fn same_view(a: RollResult, b: RollResult) -> bool {
    &&& a.individual_rolls@ == b.individual_rolls@
    &&& a.kept_rolls@ == b.kept_rolls@
    &&& a.dropped_rolls@ == b.dropped_rolls@
    &&& a.implosion_rolls@ == b.implosion_rolls@
    &&& a.total == b.total
    &&& a.successes == b.successes
    &&& a.failures == b.failures
    &&& a.botches == b.botches
    &&& opt_text(a.comment) == opt_text(b.comment)
    &&& opt_text(a.label) == opt_text(b.label)
    &&& notes_of(a) == notes_of(b)
    &&& a.dice_groups@.len() == b.dice_groups@.len()
    &&& forall|i: int| 0 <= i < a.dice_groups@.len() ==> same_group(#[trigger] a.dice_groups@[i], b.dice_groups@[i])
    &&& opt_text(a.original_expression) == opt_text(b.original_expression)
    &&& a.simple == b.simple
    &&& a.no_results == b.no_results
    &&& a.private == b.private
    &&& a.godbound_damage == b.godbound_damage
    &&& opt_texts(a.fudge_symbols) == opt_texts(b.fudge_symbols)
    &&& a.wng_wrath_die == b.wng_wrath_die
    &&& crate::dice::systems::opt_ints(a.wng_wrath_dice) == crate::dice::systems::opt_ints(b.wng_wrath_dice)
    &&& a.wng_icons == b.wng_icons
    &&& a.wng_exalted_icons == b.wng_exalted_icons
    &&& a.suppress_comment == b.suppress_comment
    &&& a.alien_stress_ones == b.alien_stress_ones
    &&& a.alien_stress_level == b.alien_stress_level
    &&& a.alien_panic_roll == b.alien_panic_roll
    &&& opt_text(a.fitd_outcome) == opt_text(b.fitd_outcome)
    &&& opt_text(a.fitd_result) == opt_text(b.fitd_result)
    &&& a.fitd_highest_die == b.fitd_highest_die
    &&& opt_texts(a.plot_symbols) == opt_texts(b.plot_symbols)
}

pub open spec fn texts(v: Seq<String>) -> Seq<Seq<char>> {
    v.map_values(|s: String| s@)
}

fn copy_texts(v: &Vec<String>) -> (r: Vec<String>)
    ensures
        texts(r@) == texts(v@),
{
    let mut r: Vec<String> = Vec::new();
    let mut i: usize = 0;
    while i < v.len()
        invariant
            i <= v@.len(),
            r@.len() == i,
            texts(r@) == texts(v@.take(i as int)),
        decreases v.len() - i,
    {
        let c = v[i].clone();
        let ghost before = r@;
        r.push(c);
        proof {
            assert forall|k: int| 0 <= k < i + 1 implies #[trigger] texts(r@)[k] == texts(v@.take(i + 1))[k] by {
                if k < i {
                    assert(r@[k] == before[k]);
                    assert(texts(before)[k] == texts(v@.take(i as int))[k]);
                    assert(v@.take(i as int)[k] == v@.take(i + 1)[k]);
                } else {
                    assert(r@[k] == c);
                }
            }
            assert(texts(r@) =~= texts(v@.take(i + 1)));
        }
        i = i + 1;
    }
    assert(v@.take(v@.len() as int) =~= v@);
    r
}

fn copy_opt_texts(o: &Option<Vec<String>>) -> (r: Option<Vec<String>>)
    ensures
        opt_texts(r) == opt_texts(*o),
{
    match o {
        Some(v) => Some(copy_texts(v)),
        None => None,
    }
}

fn copy_opt_ints(o: &Option<Vec<i32>>) -> (r: Option<Vec<i32>>)
    ensures
        crate::dice::systems::opt_ints(r) == crate::dice::systems::opt_ints(*o),
{
    match o {
        Some(v) => Some(v.clone()),
        None => None,
    }
}

fn copy_groups(v: &Vec<DiceGroup>) -> (r: Vec<DiceGroup>)
    ensures
        r@.len() == v@.len(),
        forall|i: int| 0 <= i < v@.len() ==> same_group(#[trigger] r@[i], v@[i]),
{
    let mut r: Vec<DiceGroup> = Vec::new();
    let mut i: usize = 0;
    while i < v.len()
        invariant
            i <= v@.len(),
            r@.len() == i,
            forall|k: int| 0 <= k < i ==> same_group(#[trigger] r@[k], v@[k]),
        decreases v.len() - i,
    {
        let g = &v[i];
        r.push(DiceGroup {
            _description: g._description.clone(),
            rolls: g.rolls.clone(),
            dropped_rolls: g.dropped_rolls.clone(),
            modifier_type: g.modifier_type.clone(),
        });
        i = i + 1;
    }
    r
}

fn copy_opt_string(o: &Option<String>) -> (r: Option<String>)
    ensures
        opt_text(r) == opt_text(*o),
{
    match o {
        Some(s) => Some(s.clone()),
        None => None,
    }
}

/// A copy of a result, value for value.
pub fn copy_result(r: &RollResult) -> (c: RollResult)
    ensures
        same_view(c, *r),
{
    RollResult {
        individual_rolls: r.individual_rolls.clone(),
        kept_rolls: r.kept_rolls.clone(),
        dropped_rolls: r.dropped_rolls.clone(),
        implosion_rolls: r.implosion_rolls.clone(),
        total: r.total,
        successes: r.successes,
        failures: r.failures,
        botches: r.botches,
        comment: copy_opt_string(&r.comment),
        label: copy_opt_string(&r.label),
        notes: copy_texts(&r.notes),
        dice_groups: copy_groups(&r.dice_groups),
        original_expression: copy_opt_string(&r.original_expression),
        simple: r.simple,
        no_results: r.no_results,
        private: r.private,
        godbound_damage: r.godbound_damage,
        fudge_symbols: copy_opt_texts(&r.fudge_symbols),
        wng_wrath_die: r.wng_wrath_die,
        wng_wrath_dice: copy_opt_ints(&r.wng_wrath_dice),
        wng_icons: r.wng_icons,
        wng_exalted_icons: r.wng_exalted_icons,
        suppress_comment: r.suppress_comment,
        alien_stress_ones: r.alien_stress_ones,
        alien_stress_level: r.alien_stress_level,
        alien_panic_roll: r.alien_panic_roll,
        fitd_outcome: copy_opt_string(&r.fitd_outcome),
        fitd_result: copy_opt_string(&r.fitd_result),
        fitd_highest_die: r.fitd_highest_die,
        plot_symbols: copy_opt_texts(&r.plot_symbols),
    }
}

pub open spec fn set_labelled(r: RollResult) -> bool {
    r.label matches Some(l) && starts_with(l@, "Set "@)
}

/// Every result is labelled `Set N`: the results of a roll set.
pub open spec fn is_roll_set(rs: Seq<RollResult>) -> bool {
    rs.len() > 1 && forall|i: int| 0 <= i < rs.len() ==> set_labelled(#[trigger] rs[i])
}

/// Several results of which some carry the request they came from.
pub open spec fn is_semicolon_separated(rs: Seq<RollResult>) -> bool {
    rs.len() > 1 && !is_roll_set(rs) && exists|i: int| 0 <= i < rs.len() && (#[trigger] rs[i]).original_expression is Some
}

/// The value a result adds to a set's total.
pub open spec fn result_value(r: RollResult) -> i32 {
    match r.godbound_damage {
        Some(d) => d,
        None => match r.successes {
            Some(s) => s,
            None => r.total,
        },
    }
}

pub fn calculate_result_value(r: &RollResult) -> (v: i32)
    ensures
        v == result_value(*r),
{
    match r.godbound_damage {
        Some(d) => d,
        None => match r.successes {
            Some(s) => s,
            None => r.total,
        },
    }
}

/// A result shown as part of a set, without its reason.
pub open spec fn set_line(r: RollResult) -> Seq<char> {
    display_text(RollResult { suppress_comment: true, ..r })
}

pub open spec fn set_total(rs: Seq<RollResult>) -> i32
    decreases rs.len(),
{
    if rs.len() == 0 {
        0
    } else {
        set_total(rs.drop_last()).wrapping_add(result_value(rs.last()))
    }
}

/// Texts joined with line breaks.
pub open spec fn lines(ts: Seq<Seq<char>>) -> Seq<char> {
    join_seqs(ts, "\n"@)
}

/// A roll set: each result on its line without its reason, then the total
/// and, once, the reason of the first result.
pub open spec fn roll_set_text(rs: Seq<RollResult>) -> Seq<char> {
    lines(rs.map_values(|r: RollResult| set_line(r))) + "\n**Total: "@ + int_str(set_total(rs) as int) + "**"@
        + (if rs.len() > 0 && rs[0].comment is Some {
        " Reason: `"@ + rs[0].comment.unwrap()@ + "`"@
    } else {
        Seq::empty()
    })
}

/// The whitespace characters right before position `b`.
pub open spec fn ws_before(s: Seq<char>, b: int) -> nat
    decreases b,
{
    if 0 < b <= s.len() && crate::text::is_whitespace(s[b - 1]) {
        1 + ws_before(s, b - 1)
    } else {
        0
    }
}

/// After the `!` at `b`, every line break lies in the whitespace right
/// after it, so the rest of the text can be read as a comment.
pub open spec fn tail_ok(s: Seq<char>, b: int) -> bool {
    forall|j: int| b < j < s.len() && s[j] == '\n' ==> (forall|m: int| b < m <= j ==> crate::text::is_whitespace(#[trigger] s[m]))
}

/// Where the comment of `s` starts, with the whitespace before its `!`;
/// the length of `s` when it has none.
pub open spec fn comment_cut(s: Seq<char>, i: int) -> int
    decreases s.len() - i,
{
    if i >= s.len() {
        s.len() as int
    } else if s[i] == '!' && tail_ok(s, i) {
        i - ws_before(s, i)
    } else {
        comment_cut(s, i + 1)
    }
}

/// The request text without its `! comment`, trimmed.
pub open spec fn stripped_expression(s: Seq<char>) -> Seq<char> {
    trim_seq(s.take(comment_cut(s, 0)))
}

fn check_tail(cs: &Vec<char>, b: usize) -> (ok: bool)
    requires
        b < cs@.len(),
    ensures
        ok == tail_ok(cs@, b as int),
{
    let n = cs.len();
    let mut j = b + 1;
    let mut in_ws = true;
    while j < n
        invariant
            b < j <= n,
            n == cs@.len(),
            in_ws == (forall|m: int| b < m < j ==> crate::text::is_whitespace(#[trigger] cs@[m])),
            forall|k: int| b < k < j && cs@[k] == '\n' ==> (forall|m: int| b < m <= k ==> crate::text::is_whitespace(#[trigger] cs@[m])),
        decreases n - j,
    {
        if cs[j] == '\n' && !in_ws {
            proof {
                let m = choose|m: int| b < m < j && !crate::text::is_whitespace(#[trigger] cs@[m]);
                assert(!crate::text::is_whitespace(cs@[m]));
            }
            return false;
        }
        if !crate::text::char_is_ws(cs[j]) {
            in_ws = false;
        }
        j = j + 1;
    }
    true
}

fn count_ws_before(cs: &Vec<char>, b: usize) -> (n: usize)
    requires
        b <= cs@.len(),
    ensures
        n == ws_before(cs@, b as int),
        n <= b,
{
    let mut k = b;
    while k > 0 && crate::text::char_is_ws(cs[k - 1])
        invariant
            k <= b <= cs@.len(),
            ws_before(cs@, b as int) == (b - k) + ws_before(cs@, k as int),
        decreases k,
    {
        k = k - 1;
    }
    b - k
}

/// The request text without its `! comment`.
pub fn strip_comment_from_expression(expr: &str) -> (s: String)
    ensures
        s@ == stripped_expression(expr@),
{
    let cs = str_chars(expr);
    let n = cs.len();
    let mut cut = n;
    let mut found = false;
    let mut i: usize = 0;
    while i < n && !found
        invariant
            i <= n,
            n == cs@.len(),
            cut <= n,
            found ==> cut == comment_cut(cs@, 0),
            !found ==> comment_cut(cs@, 0) == comment_cut(cs@, i as int) && cut == n,
        decreases n - i + (if found { 0int } else { 1int }),
    {
        if cs[i] == '!' && check_tail(&cs, i) {
            cut = i - count_ws_before(&cs, i);
            found = true;
        } else {
            i = i + 1;
        }
    }
    let head = crate::text::sub_chars(cs.as_slice(), 0, cut);
    let t = trim_chars(head.as_slice());
    assert(head@ =~= cs@.take(cut as int));
    crate::text::chars_to_string(t.as_slice())
}

/// The notes of a result, each on its own line.
pub fn add_notes(out: &mut String, r: &RollResult)
    ensures
        final(out)@ == old(out)@ + notes_text(notes_of(*r)),
{
    let ghost o1 = out@;
    let ghost ns = notes_of(*r);
    let mut i: usize = 0;
    while i < r.notes.len()
        invariant
            i <= r.notes@.len(),
            ns == notes_of(*r),
            out@ == o1 + notes_text(ns.take(i as int)),
        decreases r.notes.len() - i,
    {
        assert(ns.take(i + 1).drop_last() =~= ns.take(i as int));
        assert(ns.take(i + 1).last() == r.notes@[i as int]@);
        out.append("\n*Note: ");
        out.append(r.notes[i].as_str());
        out.append("*");
        i = i + 1;
    }
    assert(ns.take(r.notes@.len() as int) =~= ns);
}

/// A result as one line of a set: as `to_string`, without the reason.
pub fn set_line_text(r: &RollResult) -> (s: String)
    ensures
        s@ == set_line(*r),
{
    let mut out = String::new();
    if r.no_results {
        format_output(&mut out, r, true, false);
    } else if r.simple {
        format_output(&mut out, r, false, true);
    } else {
        format_output(&mut out, r, true, true);
    }
    add_notes(&mut out, r);
    out
}

/// A roll set: each result on its own line without its reason, then the
/// total of their values and the first result's reason.
#[verifier::rlimit(40)]
pub fn format_roll_set_results(results: &Vec<RollResult>) -> (s: String)
    ensures
        s@ == roll_set_text(results@),
{
    let ghost ls = results@.map_values(|r: RollResult| set_line(r));
    let mut out = String::new();
    let mut total: i32 = 0;
    let mut i: usize = 0;
    while i < results.len()
        invariant
            i <= results@.len(),
            ls == results@.map_values(|r: RollResult| set_line(r)),
            out@ == lines(ls.take(i as int)),
            total == set_total(results@.take(i as int)),
        decreases results.len() - i,
    {
        assert(ls.take(i + 1).drop_last() =~= ls.take(i as int));
        assert(ls.take(i + 1).last() == set_line(results@[i as int]));
        assert(results@.take(i + 1).drop_last() =~= results@.take(i as int));
        if i > 0 {
            out.append("\n");
        }
        let line = set_line_text(&results[i]);
        out.append(line.as_str());
        total = total.wrapping_add(calculate_result_value(&results[i]));
        proof {
            if i == 0 {
                assert(ls.take(0).len() == 0);
            }
        }
        i = i + 1;
    }
    assert(ls.take(results@.len() as int) =~= ls);
    assert(results@.take(results@.len() as int) =~= results@);
    out.append("\n**Total: ");
    push_int(&mut out, total as i64);
    out.append("**");
    if results.len() > 0 {
        if let Some(c) = &results[0].comment {
            out.append(" Reason: `");
            out.append(c.as_str());
            out.append("`");
        }
    }
    out
}

/// How the lines of several results begin.
pub open spec fn request_line(r: RollResult) -> Seq<char> {
    match r.original_expression {
        Some(e) => "Request: `"@ + stripped_expression(e@) + "` "@ + display_text(r),
        None => display_text(r),
    }
}

pub fn request_line_text(r: &RollResult) -> (s: String)
    ensures
        s@ == request_line(*r),
{
    match &r.original_expression {
        Some(e) => {
            let mut out = String::from_str("Request: `");
            let stripped = strip_comment_from_expression(e.as_str());
            out.append(stripped.as_str());
            out.append("` ");
            let body = r.to_string();
            out.append(body.as_str());
            out
        },
        None => r.to_string(),
    }
}

/// Results separated by line breaks, each shown with its request.
pub fn format_semicolon_separated_results(results: &Vec<RollResult>) -> (s: String)
    ensures
        s@ == lines(results@.map_values(|r: RollResult| request_line(r))),
{
    let ghost ls = results@.map_values(|r: RollResult| request_line(r));
    let mut out = String::new();
    let mut i: usize = 0;
    while i < results.len()
        invariant
            i <= results@.len(),
            ls == results@.map_values(|r: RollResult| request_line(r)),
            out@ == lines(ls.take(i as int)),
        decreases results.len() - i,
    {
        assert(ls.take(i + 1).drop_last() =~= ls.take(i as int));
        assert(ls.take(i + 1).last() == request_line(results@[i as int]));
        if i > 0 {
            out.append("\n");
        }
        let line = request_line_text(&results[i]);
        out.append(line.as_str());
        proof {
            if i == 0 {
                assert(ls.take(0).len() == 0);
            }
        }
        i = i + 1;
    }
    assert(ls.take(results@.len() as int) =~= ls);
    out
}

/// Results separated by line breaks.
pub fn format_standard_multiple_results(results: &Vec<RollResult>) -> (s: String)
    ensures
        s@ == lines(results@.map_values(|r: RollResult| display_text(r))),
{
    let ghost ls = results@.map_values(|r: RollResult| display_text(r));
    let mut out = String::new();
    let mut i: usize = 0;
    while i < results.len()
        invariant
            i <= results@.len(),
            ls == results@.map_values(|r: RollResult| display_text(r)),
            out@ == lines(ls.take(i as int)),
        decreases results.len() - i,
    {
        assert(ls.take(i + 1).drop_last() =~= ls.take(i as int));
        assert(ls.take(i + 1).last() == display_text(results@[i as int]));
        if i > 0 {
            out.append("\n");
        }
        let line = results[i].to_string();
        out.append(line.as_str());
        proof {
            if i == 0 {
                assert(ls.take(0).len() == 0);
            }
        }
        i = i + 1;
    }
    assert(ls.take(results@.len() as int) =~= ls);
    out
}

/// The message text of the results of one request.
pub open spec fn results_text(rs: Seq<RollResult>) -> Seq<char> {
    if rs.len() == 0 {
        "No dice to roll!"@
    } else if rs.len() == 1 {
        display_text(rs[0])
    } else if is_roll_set(rs) {
        roll_set_text(rs)
    } else if is_semicolon_separated(rs) {
        lines(rs.map_values(|r: RollResult| request_line(r)))
    } else {
        lines(rs.map_values(|r: RollResult| display_text(r)))
    }
}

fn label_starts_set(r: &RollResult) -> (b: bool)
    ensures
        b == set_labelled(*r),
{
    match &r.label {
        Some(l) => {
            let cs = str_chars(l.as_str());
            crate::text::chars_starts_with(cs.as_slice(), "Set ")
        },
        None => false,
    }
}

pub(crate) fn all_set_labelled(results: &Vec<RollResult>) -> (b: bool)
    ensures
        b == (forall|i: int| 0 <= i < results@.len() ==> set_labelled(#[trigger] results@[i])),
{
    let mut i: usize = 0;
    while i < results.len()
        invariant
            i <= results@.len(),
            forall|k: int| 0 <= k < i ==> set_labelled(#[trigger] results@[k]),
        decreases results.len() - i,
    {
        if !label_starts_set(&results[i]) {
            return false;
        }
        i = i + 1;
    }
    true
}

pub(crate) fn any_original_expression(results: &Vec<RollResult>) -> (b: bool)
    ensures
        b == (exists|i: int| 0 <= i < results@.len() && (#[trigger] results@[i]).original_expression is Some),
{
    let mut i: usize = 0;
    while i < results.len()
        invariant
            i <= results@.len(),
            forall|k: int| 0 <= k < i ==> (#[trigger] results@[k]).original_expression is None,
        decreases results.len() - i,
    {
        if results[i].original_expression.is_some() {
            return true;
        }
        i = i + 1;
    }
    false
}

/// The results of one request as message text: a single result on its
/// own, a roll set with its total, the rolls of a `;` request each with
/// its request, or one result per line.
pub fn format_multiple_results(results: &Vec<RollResult>) -> (s: String)
    ensures
        s@ == results_text(results@),
{
    if results.len() == 0 {
        return String::from_str("No dice to roll!");
    }
    if results.len() == 1 {
        return results[0].to_string();
    }
    let is_set = all_set_labelled(results);
    if is_set {
        format_roll_set_results(results)
    } else if any_original_expression(results) {
        format_semicolon_separated_results(results)
    } else {
        format_standard_multiple_results(results)
    }
}

/// Discord's limit on the length of a message, in bytes.
pub const DISCORD_MESSAGE_LIMIT: usize = 2000;

/// `s` is `r` simplified: the same values, its comment replaced by the
/// simplification note and not shown as a reason.
pub open spec fn simplified_of(r: RollResult, s: RollResult) -> bool {
    &&& same_view(s, RollResult { suppress_comment: true, comment: s.comment, ..r })
    &&& opt_text(s.comment) == Some("Simplified roll due to character limit"@)
}

/// A result shown by its value alone.
pub open spec fn simple_text(r: RollResult) -> Seq<char> {
    display_text(RollResult { simple: true, ..r })
}

/// The text of simplified results: one on its own by value, a roll set in
/// its set layout, otherwise one per line by value.
pub open spec fn simplified_results_text(ss: Seq<RollResult>) -> Seq<char> {
    if ss.len() == 1 {
        simple_text(ss[0])
    } else if is_roll_set(ss) {
        roll_set_text(ss)
    } else {
        lines(ss.map_values(|r: RollResult| simple_text(r)))
    }
}

/// `t` is the message text of `rs` within Discord's limit: the full text
/// when it fits in 2000 bytes, otherwise the text of the simplified results.
pub open spec fn limited_text(rs: Seq<RollResult>, t: Seq<char>) -> bool {
    if utf8_len(results_text(rs)) <= DISCORD_MESSAGE_LIMIT {
        t == results_text(rs)
    } else {
        exists|ss: Seq<RollResult>|
            #![trigger simplified_results_text(ss)]
            ss.len() == rs.len() && (forall|i: int| 0 <= i < rs.len() ==> simplified_of(rs[i], #[trigger] ss[i]))
                && t == simplified_results_text(ss)
    }
}

/// The results as message text within Discord's limit where it can be
/// done: text over 2000 bytes is replaced by the simplified results, shown
/// by value alone (a roll set keeps its set layout).
pub fn format_multiple_results_with_limit(results: &Vec<RollResult>) -> (s: String)
    ensures
        limited_text(results@, s@),
{
    let full = format_multiple_results(results);
    let full_chars = str_chars(full.as_str());
    let too_long = if full_chars.len() >= 0x1000_0000 {
        true
    } else {
        crate::text::byte_len(full_chars.as_slice()) > DISCORD_MESSAGE_LIMIT
    };
    proof {
        if full_chars@.len() >= 0x1000_0000 {
            crate::text::lemma_utf8_len_ge(full_chars@);
        }
    }
    if !too_long {
        return full;
    }
    let mut simplified: Vec<RollResult> = Vec::new();
    let mut i: usize = 0;
    while i < results.len()
        invariant
            i <= results@.len(),
            simplified@.len() == i,
            forall|j: int| 0 <= j < i ==> simplified_of(results@[j], #[trigger] simplified@[j]),
        decreases results.len() - i,
    {
        simplified.push(results[i].create_simplified());
        i = i + 1;
    }
    let ghost ss = simplified@;
    assert(results_text(results@) == "No dice to roll!"@ ==> utf8_len(results_text(results@)) <= 2000) by {
        reveal_strlit("No dice to roll!");
        lemma_utf8_len_small("No dice to roll!"@);
    }
    if simplified.len() == 1 {
        let mut one = simplified.remove(0);
        one.simple = true;
        let out = one.to_string();
        assert(out@ == simplified_results_text(ss));
        return out;
    }
    if all_set_labelled(&simplified) && simplified.len() > 1 {
        let out = format_roll_set_results(&simplified);
        assert(out@ == simplified_results_text(ss));
        return out;
    }
    let out = simple_lines(simplified);
    assert(out@ == simplified_results_text(ss));
    out
}

/// Results one per line, each by value alone.
fn simple_lines(results: Vec<RollResult>) -> (s: String)
    ensures
        s@ == lines(results@.map_values(|r: RollResult| simple_text(r))),
{
    let n = results.len();
    let ghost ss = results@;
    let ghost ls = ss.map_values(|r: RollResult| simple_text(r));
    let mut rest = results;
    let mut out = String::new();
    let mut k: usize = 0;
    while rest.len() > 0
        invariant
            k + rest@.len() == ss.len(),
            ss.len() == n,
            rest@ == ss.skip(k as int),
            ls == ss.map_values(|r: RollResult| simple_text(r)),
            out@ == lines(ls.take(k as int)),
        decreases rest.len(),
    {
        assert(ls.take(k + 1).drop_last() =~= ls.take(k as int));
        assert(ls.take(k + 1).last() == simple_text(ss[k as int]));
        if k > 0 {
            out.append("\n");
        }
        let mut one = rest.remove(0);
        assert(one == ss[k as int]);
        one.simple = true;
        let line = one.to_string();
        out.append(line.as_str());
        proof {
            if k == 0 {
                assert(ls.take(0).len() == 0);
            }
        }
        assert(rest@ =~= ss.skip(k + 1));
        k = k + 1;
    }
    assert(ls.take(ss.len() as int) =~= ls);
    out
}

/// A short text takes at most four bytes per character.
pub proof fn lemma_utf8_len_small(s: Seq<char>)
    ensures
        utf8_len(s) <= 4 * s.len(),
    decreases s.len(),
{
    if s.len() > 0 {
        lemma_utf8_len_small(s.drop_last());
    }
}

/// A parsed roll that can always be rolled: `1` to `500` dice of `1` to
/// `1000` sides, whose modifiers only keep (at least one die), drop or count,
/// or whose one modifier explodes, implodes or rerolls, or whose modifiers
/// all belong to the standard pipeline, keep at least one die and divide by
/// no zero.
pub open spec fn poolable(shape: RollShape) -> bool {
    &&& 1 <= shape.count <= 500
    &&& 1 <= shape.sides <= 1000
    &&& counting_shape(shape) || dice_step_shape(shape) || standard_shape(shape)
}

/// Every modifier belongs to the standard pipeline, keeps at least one die
/// and divides by no zero, and the modifiers are not the `number / dice`
/// form.
pub open spec fn standard_shape(shape: RollShape) -> bool {
    &&& forall|i: int| 0 <= i < shape.mods.len() ==> (#[trigger] shape.mods[i] matches ModShape::Plain(m)
        && crate::dice::roller::is_standard(m) && !keeps_none(m) && !crate::dice::arith::is_zero_divide(m))
    &&& !(shape.mods.len() >= 2 && shape.mods[0] == ModShape::Plain(crate::dice::Modifier::Multiply(0))
        && shape.mods[1] matches ModShape::Plain(crate::dice::Modifier::Add(_)))
}

/// Every modifier keeps (at least one die), drops or counts.
pub open spec fn counting_shape(shape: RollShape) -> bool {
    forall|i: int| 0 <= i < shape.mods.len() ==> (#[trigger] shape.mods[i] matches ModShape::Plain(m)
        && is_counting(m) && !keeps_none(m))
}

/// The one modifier explodes, implodes or rerolls.
pub open spec fn dice_step_shape(shape: RollShape) -> bool {
    &&& shape.mods.len() == 1
    &&& shape.mods[0] matches ModShape::Plain(m) && crate::dice::roller::step_of(m, crate::dice::roller::DiceStep::Any)
}

/// A roll shaped as a poolable shape rolls without error.
proof fn lemma_poolable_rolls(d: DiceRoll, shape: RollShape)
    requires
        crate::dice::grammar::shaped(d, shape),
        poolable(shape),
    ensures
        (pool_request(d) && !any_keeps_none(d.modifiers@)) || crate::dice::roller::explode_request(d)
            || crate::dice::roller::reroll_request(d) || crate::dice::roller::implode_request(d) || (
        crate::dice::roller::standard_request(d) && !any_keeps_none(d.modifiers@)
            && !crate::dice::arith::has_zero_divisor(d.modifiers@)),
{
    if standard_shape(shape) && !counting_shape(shape) && !dice_step_shape(shape) {
        assert forall|i: int| 0 <= i < d.modifiers@.len() implies crate::dice::roller::is_standard(#[trigger] d.modifiers@[i])
            && !keeps_none(d.modifiers@[i]) && !crate::dice::arith::is_zero_divide(d.modifiers@[i]) by {
            assert(has_shape(d.modifiers@[i], shape.mods[i]));
        }
        if d.modifiers@.len() >= 2 {
            assert(has_shape(d.modifiers@[0], shape.mods[0]));
            assert(has_shape(d.modifiers@[1], shape.mods[1]));
        }
        return;
    }
    if counting_shape(shape) {
        assert forall|i: int| 0 <= i < d.modifiers@.len() implies is_counting(#[trigger] d.modifiers@[i])
            && !keeps_none(d.modifiers@[i]) by {
            assert(has_shape(d.modifiers@[i], shape.mods[i]));
        }
    } else {
        assert(has_shape(d.modifiers@[0], shape.mods[0]));
    }
}

/// A result is the outcome of a roll that the shape describes: it carries
/// that roll's flags, and for a request that only keeps, drops or counts
/// dice, or only explodes, implodes or rerolls them, it is that request's
/// outcome.
pub open spec fn rolled_from(res: RollResult, shape: RollShape) -> bool {
    exists|d: DiceRoll|
        #[trigger] crate::dice::grammar::shaped(d, shape) && carries_flags(res, d) && (pool_request(d)
            ==> pool_outcome(res, d)) && (crate::dice::roller::explode_request(d)
            ==> crate::dice::roller::explode_outcome(res, d)) && (crate::dice::roller::reroll_request(d)
            ==> crate::dice::roller::reroll_outcome(res, d)) && (crate::dice::roller::implode_request(d)
            ==> crate::dice::roller::implode_outcome(res, d)) && (crate::dice::roller::standard_request(d)
            && (crate::dice::roller::counts_nothing(d.modifiers@) || crate::dice::roller::no_arith(d.modifiers@)
                || crate::dice::roller::arith_after_counting(d.modifiers@))
            ==> crate::dice::roller::standard_outcome(res, d))
}

/// Parse a request and roll every roll of it with `rng`.
pub fn parse_and_roll_with_rng(input: &str, rng: &mut DiceRng) -> (r: Result<Vec<RollResult>, DiceError>)
    ensures
        crate::dice::parser::semicolons(trim_seq(input@)) > 3 ==> r is Err
            && crate::dice::err_msg(r) == "Maximum of 4 separate rolls allowed"@,
        request_spec(input@) matches Err(e) ==> r is Err && crate::dice::err_msg(r) == e,
        r matches Ok(v) ==> 1 <= v@.len() <= 80 && (request_spec(input@) matches Ok(shapes) && v@.len()
            == shapes.len() && forall|k: int| 0 <= k < v@.len() ==> rolled_from(#[trigger] v@[k], shapes[k])),
        request_spec(input@) matches Ok(shapes) ==> ((forall|k: int| 0 <= k < shapes.len() ==> #[trigger] poolable(
            shapes[k],
        )) ==> r is Ok),
        request_spec(input@) matches Ok(shapes) ==> forall|k: int|
            0 <= k < shapes.len() && #[trigger] shapes[k].count == 0 && (forall|j: int| 0 <= j < k ==> poolable(shapes[j]))
                ==> r is Err && crate::dice::err_msg(r) == "Cannot roll 0 dice"@,
{
    let rolls0 = crate::dice::parser::parse_dice_string(input);
    let mut rolls = match rolls0 {
        Ok(v) => v,
        Err(e) => {
            return Err(e);
        },
    };
    let ghost shapes = request_spec(input@)->Ok_0;
    let ghost all = rolls@;
    let n = rolls.len();
    let mut results: Vec<RollResult> = Vec::new();
    let mut k: usize = 0;
    while k < n
        invariant
            k <= n,
            n <= 80,
            n == all.len(),
            rolls@.len() == n - k,
            rolls@ == all.skip(k as int),
            results@.len() == k,
            crate::dice::parser::semicolons(trim_seq(input@)) <= 3,
            request_spec(input@) == Ok::<Seq<RollShape>, Seq<char>>(shapes),
            crate::dice::parser::all_shaped(all, shapes),
            forall|j: int| 0 <= j < k ==> rolled_from(#[trigger] results@[j], shapes[j]),
            forall|j: int| 0 <= j < all.len() ==> crate::dice::parser::within_limits(#[trigger] all[j]),
            forall|z: int|
                0 <= z < k ==> !(#[trigger] shapes[z].count == 0 && (forall|j: int| 0 <= j < z ==> poolable(shapes[j]))),
        decreases n - k,
    {
        let ghost before = results@;
        let dice = rolls.remove(0);
        let ghost d0 = dice;
        assert(d0 == all[k as int]);
        assert(rolls@ =~= all.skip(k + 1));
        proof {
            if poolable(shapes[k as int]) {
                lemma_poolable_rolls(d0, shapes[k as int]);
            }
        }
        let res = match crate::dice::roller::roll_dice_with_rng(dice, rng) {
            Ok(x) => x,
            Err(e) => {
                proof {
                    assert(!poolable(shapes[k as int]));
                    assert forall|z: int|
                        0 <= z < shapes.len() && #[trigger] shapes[z].count == 0 && (forall|j: int|
                            0 <= j < z ==> poolable(shapes[j])) implies e.message@ == "Cannot roll 0 dice"@ by {
                        if z > k {
                            assert(poolable(shapes[k as int]));
                        }
                        if z == k {
                            assert(all[k as int].count == 0);
                            assert(crate::dice::parser::within_limits(all[k as int]));
                        }
                    }
                }
                return Err(e);
            },
        };
        assert(crate::dice::grammar::shaped(d0, shapes[k as int]));
        assert(rolled_from(res, shapes[k as int]));
        results.push(res);
        assert forall|j: int| 0 <= j < k + 1 implies rolled_from(#[trigger] results@[j], shapes[j]) by {
            if j < k {
                assert(results@[j] == before[j]);
            }
        }
        k = k + 1;
    }
    Ok(results)
}


/// What parsing and rolling the request `input` gives, as
/// `parse_and_roll` states it.
pub open spec fn rolled_request(input: Seq<char>, r: Result<Vec<RollResult>, DiceError>) -> bool {
    &&& (crate::dice::parser::semicolons(trim_seq(input)) > 3 ==> r is Err
        && crate::dice::err_msg(r) == "Maximum of 4 separate rolls allowed"@)
    &&& (request_spec(input) matches Err(e) ==> r is Err && crate::dice::err_msg(r) == e)
    &&& (r matches Ok(v) ==> 1 <= v@.len() <= 80 && (request_spec(input) matches Ok(shapes) && v@.len()
        == shapes.len() && forall|k: int| 0 <= k < v@.len() ==> rolled_from(#[trigger] v@[k], shapes[k])))
    &&& (request_spec(input) matches Ok(shapes) ==> ((forall|k: int| 0 <= k < shapes.len() ==> #[trigger] poolable(
        shapes[k],
    )) ==> r is Ok))
    &&& (request_spec(input) matches Ok(shapes) ==> forall|k: int|
        0 <= k < shapes.len() && #[trigger] shapes[k].count == 0 && (forall|j: int| 0 <= j < k ==> poolable(shapes[j]))
            ==> r is Err && crate::dice::err_msg(r) == "Cannot roll 0 dice"@)
}

/// Parse a request and roll it with a freshly seeded generator.
pub fn parse_and_roll(input: &str) -> (r: Result<Vec<RollResult>, DiceError>)
    ensures
        rolled_request(input@, r),
{
    let mut rng = crate::dice::rng::get_dice_rng();
    parse_and_roll_with_rng(input, &mut rng)
}

} // verus!
