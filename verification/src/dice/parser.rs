//! The dice grammar: text to `DiceRoll`s.
//!
//! A request is up to four `;`-separated rolls; a roll may be a set
//! (`6 4d6 k3`), and carries optional flags (`p `, `s `, `nr `, `ul `), a
//! `(label)` and a `! comment` around a dice expression such as
//! `2d20 k1 + 5` or `4d6e6k3`.

use vstd::prelude::*;
use vstd::string::*;
use crate::dice::{err_msg, DiceError, DiceRoll, HeroSystemType, Modifier};
use crate::dice::aliases::{expand_alias_chars, ws_run};
use crate::dice::systems::opt_text;
use crate::dice::grammar::{parts_spec, request_spec, prepend_rolls, part_spec, set_spec, RollShape, base_spec, expr_spec, shaped, single_spec, mods_shaped, mods_spec, prepend, tokens_mods, operator_spec, sides_of, expression_alias, spaced_tail, flatten, split_word_spec, spaced_spec, spaced_from, tokens_from, comment_at_spec, comment_spec, first_comment, flags_spec, label_spec, last_break, semi_parts, set_match, until_close};
use crate::text::{int_str, nat_str, 
    all_digits, chars_all_digits, chars_eq_str, chars_has, chars_starts_with, chars_to_string,
    char_is_alpha, char_is_digit, char_is_ws, is_ascii_alpha, is_whitespace, is_digit, join_words,
    parse_i32, parse_i32_chars, parse_u32, parse_u32_chars, push_chars, split_words, starts_with,
    str_chars, sub_chars, trim_chars, trim_seq, utf8_len, words,
};

verus! {

/// How deep alias expansions may nest inside one another.
pub const ALIAS_DEPTH: u32 = 8;

/// A roll of one d6 with nothing else set, the starting point of parsing.
pub open spec fn blank_roll(d: DiceRoll) -> bool {
    &&& d.count == 1
    &&& d.sides == 6
    &&& d.modifiers@.len() == 0
    &&& d.comment is None
    &&& d.label is None
    &&& !d.private
    &&& !d.simple
    &&& !d.no_results
    &&& !d.unsorted
    &&& d.original_expression is None
}

pub fn new_roll() -> (d: DiceRoll)
    ensures
        blank_roll(d),
{
    DiceRoll {
        count: 1,
        sides: 6,
        modifiers: Vec::new(),
        comment: None,
        label: None,
        private: false,
        simple: false,
        no_results: false,
        unsorted: false,
        original_expression: None,
    }
}

/// A plain `count`d`sides` roll.
pub fn plain_roll(count: u32, sides: u32) -> (d: DiceRoll)
    ensures
        d.count == count,
        d.sides == sides,
        d.modifiers@.len() == 0,
        d.comment is None && d.label is None && d.original_expression is None,
        !d.private && !d.simple && !d.no_results && !d.unsorted,
{
    let mut d = new_roll();
    d.count = count;
    d.sides = sides;
    d
}

fn err_text(prefix: &str, cs: &[char]) -> (e: DiceError)
    ensures
        e.message@ == prefix@ + cs@,
{
    let mut s = String::from_str(prefix);
    push_chars(&mut s, cs);
    DiceError::new(s)
}

/// Number of ASCII digits at the start of `s` from `i`.
pub open spec fn digit_run(s: Seq<char>, i: int) -> nat
    decreases s.len() - i,
{
    if 0 <= i < s.len() && is_digit(s[i]) {
        1 + digit_run(s, i + 1)
    } else {
        0
    }
}

/// Index just past the digits starting at `i`.
pub fn skip_digits(cs: &[char], i: usize) -> (j: usize)
    requires
        i <= cs@.len(),
    ensures
        j == i + digit_run(cs@, i as int),
        j <= cs@.len(),
        all_digits(cs@.subrange(i as int, j as int)),
        j < cs@.len() ==> !is_digit(cs@[j as int]),
{
    let mut j = i;
    while j < cs.len() && char_is_digit(cs[j])
        invariant
            i <= j <= cs@.len(),
            i + digit_run(cs@, i as int) == j + digit_run(cs@, j as int),
            all_digits(cs@.subrange(i as int, j as int)),
        decreases cs.len() - j,
    {
        assert(cs@.subrange(i as int, j + 1) =~= cs@.subrange(i as int, j as int).push(cs@[j as int]));
        j = j + 1;
    }
    j
}

/// The flags at the front, each checked once in the order `p `, `s `,
/// `nr `, `ul `, `!`; returns the text after them.
fn parse_flags(dice: &mut DiceRoll, text: &Vec<char>) -> (rest: Vec<char>)
    ensures
        final(dice).count == old(dice).count,
        final(dice).sides == old(dice).sides,
        final(dice).modifiers == old(dice).modifiers,
        final(dice).comment == old(dice).comment,
        final(dice).label == old(dice).label,
        final(dice).original_expression == old(dice).original_expression,
        final(dice).private == (old(dice).private || flags_spec(text@).0),
        final(dice).simple == (old(dice).simple || flags_spec(text@).1),
        final(dice).no_results == (old(dice).no_results || flags_spec(text@).2),
        final(dice).unsorted == (old(dice).unsorted || flags_spec(text@).3),
        rest@ == flags_spec(text@).4,
        rest@.len() <= text@.len(),
{
    let mut rest = text.clone();
    assert(rest@ == text@);
    if rest.len() >= 2 && chars_starts_with(rest.as_slice(), "p ") {
        dice.private = true;
        rest = sub_chars(rest.as_slice(), 2, rest.len());
    }
    if rest.len() >= 2 && chars_starts_with(rest.as_slice(), "s ") {
        dice.simple = true;
        rest = sub_chars(rest.as_slice(), 2, rest.len());
    }
    if rest.len() >= 3 && chars_starts_with(rest.as_slice(), "nr ") {
        dice.no_results = true;
        rest = sub_chars(rest.as_slice(), 3, rest.len());
    }
    if rest.len() >= 3 && chars_starts_with(rest.as_slice(), "ul ") {
        dice.unsorted = true;
        rest = sub_chars(rest.as_slice(), 3, rest.len());
    }
    if rest.len() >= 1 && rest[0] == '!' {
        rest = sub_chars(rest.as_slice(), 1, rest.len());
    }
    proof {
        let t = text@;
        let f = flags_spec(t);
        let p = t.len() >= 2 && starts_with(t, "p "@);
        let r1 = if p { t.skip(2) } else { t };
        let s1 = r1.len() >= 2 && starts_with(r1, "s "@);
        let r2 = if s1 { r1.skip(2) } else { r1 };
        let nr = r2.len() >= 3 && starts_with(r2, "nr "@);
        let r3 = if nr { r2.skip(3) } else { r2 };
        let ul = r3.len() >= 3 && starts_with(r3, "ul "@);
        let r4 = if ul { r3.skip(3) } else { r3 };
        assert(rest@ =~= f.4);
    }
    rest
}

/// `(label)` at the front: the text between the parentheses (at least one
/// character, no `)`), then any whitespace.
fn parse_label(dice: &mut DiceRoll, text: &Vec<char>) -> (rest: Vec<char>)
    ensures
        final(dice).count == old(dice).count,
        final(dice).sides == old(dice).sides,
        final(dice).modifiers == old(dice).modifiers,
        final(dice).comment == old(dice).comment,
        final(dice).private == old(dice).private,
        final(dice).simple == old(dice).simple,
        final(dice).no_results == old(dice).no_results,
        final(dice).unsorted == old(dice).unsorted,
        final(dice).original_expression == old(dice).original_expression,
        match label_spec(text@).0 {
            Some(l) => opt_text(final(dice).label) == Some(l),
            None => final(dice).label == old(dice).label,
        },
        rest@ == label_spec(text@).1,
        rest@.len() <= text@.len(),
{
    if text.len() < 3 || text[0] != '(' {
        return text.clone();
    }
    let mut j: usize = 1;
    while j < text.len() && text[j] != ')'
        invariant
            1 <= j <= text@.len(),
            j + until_close(text@, j as int) == 1 + until_close(text@, 1),
        decreases text.len() - j,
    {
        j = j + 1;
    }
    if j >= text.len() || j == 1 {
        return text.clone();
    }
    let label = sub_chars(text.as_slice(), 1, j);
    dice.label = Some(chars_to_string(label.as_slice()));
    let mut k = j + 1;
    while k < text.len() && char_is_ws(text[k])
        invariant
            j + 1 <= k <= text@.len(),
            k + ws_run(text@, k as int) == j + 1 + ws_run(text@, j + 1),
        decreases text.len() - k,
    {
        k = k + 1;
    }
    let r = sub_chars(text.as_slice(), k, text.len());
    assert(r@ =~= text@.skip(k as int));
    r
}

/// The comment of `! comment` starting at `bang`: after the `!` and any
/// whitespace, at least one character up to the end with no line break.
fn comment_at(text: &Vec<char>, bang: usize) -> (r: Option<Vec<char>>)
    requires
        bang < text@.len(),
    ensures
        crate::dice::aliases::opt_chars(r) == comment_at_spec(text@, bang as int),
{
    let n = text.len();
    let mut last_nl: usize = bang;
    let mut k: usize = bang + 1;
    assert(text@.take(k as int).len() <= bang + 1);
    while k < n
        invariant
            bang < k <= n,
            n == text@.len(),
            bang <= last_nl < n,
            last_nl == last_break(text@.take(k as int), bang as int),
        decreases n - k,
    {
        assert(text@.take(k + 1).drop_last() =~= text@.take(k as int));
        if text[k] == '\n' {
            last_nl = k;
        }
        k = k + 1;
    }
    assert(text@.take(n as int) =~= text@);
    let mut j: usize = bang + 1;
    while j < n && char_is_ws(text[j])
        invariant
            bang < j <= n,
            n == text@.len(),
            j + ws_run(text@, j as int) == bang + 1 + ws_run(text@, bang + 1),
        decreases n - j,
    {
        j = j + 1;
    }
    if j <= last_nl {
        return None;
    }
    if j < n {
        let c = sub_chars(text.as_slice(), j, n);
        assert(c@ =~= text@.skip(j as int));
        return Some(c);
    }
    if n - bang >= 2 && text[n - 1] != '\n' && j - 1 > last_nl {
        return Some(sub_chars(text.as_slice(), n - 1, n));
    }
    None
}

/// `! comment`: the first `!` followed by a comment; the text before it,
/// trimmed, is what remains.
fn parse_comment(dice: &mut DiceRoll, text: &Vec<char>) -> (rest: Vec<char>)
    ensures
        final(dice).count == old(dice).count,
        final(dice).sides == old(dice).sides,
        final(dice).modifiers == old(dice).modifiers,
        final(dice).label == old(dice).label,
        final(dice).private == old(dice).private,
        final(dice).simple == old(dice).simple,
        final(dice).no_results == old(dice).no_results,
        final(dice).unsorted == old(dice).unsorted,
        final(dice).original_expression == old(dice).original_expression,
        match comment_spec(text@).0 {
            Some(c) => opt_text(final(dice).comment) == Some(c),
            None => final(dice).comment == old(dice).comment,
        },
        rest@ == comment_spec(text@).1,
{
    let mut i: usize = 0;
    while i < text.len()
        invariant
            i <= text@.len(),
            *dice == *old(dice),
            first_comment(text@, 0) == first_comment(text@, i as int),
        decreases text.len() - i,
    {
        if text[i] == '!' {
            if let Some(c) = comment_at(text, i) {
                dice.comment = Some(chars_to_string(c.as_slice()));
                let before = sub_chars(text.as_slice(), 0, i);
                assert(before@ =~= text@.take(i as int));
                return trim_chars(before.as_slice());
            }
        }
        i = i + 1;
    }
    text.clone()
}

/// `^(\d+)\s+(.+)$`: a set count, whitespace, then the expression, which
/// runs to the end and holds no line break.
fn match_set(text: &Vec<char>) -> (r: Option<(Vec<char>, Vec<char>)>)
    ensures
        match r {
            Some(p) => set_match(text@) == Some((p.0@, p.1@)),
            None => set_match(text@) is None,
        },
        r matches Some(p) ==> is_number_run(p.0@) && p.1@.len() > 0 && !p.1@.contains('\n'),
{
    let n = text.len();
    let d = skip_digits(text.as_slice(), 0);
    if d == 0 {
        return None;
    }
    let mut w = d;
    while w < n && char_is_ws(text[w])
        invariant
            d <= w <= n,
            n == text@.len(),
            w + ws_run(text@, w as int) == d + ws_run(text@, d as int),
        decreases n - w,
    {
        w = w + 1;
    }
    if w == d {
        return None;
    }
    let start = if w < n {
        w
    } else if n - d >= 2 && text[n - 1] != '\n' {
        n - 1
    } else {
        return None;
    };
    let expr = sub_chars(text.as_slice(), start, n);
    assert(expr@ =~= text@.skip(start as int));
    if chars_has(expr.as_slice(), '\n') {
        return None;
    }
    let count = sub_chars(text.as_slice(), 0, d);
    assert(count@ =~= text@.subrange(0, d as int));
    assert(count@ =~= text@.take(d as int));
    Some((count, expr))
}

pub open spec fn is_number_run(s: Seq<char>) -> bool {
    s.len() > 0 && all_digits(s)
}

/// `^(\d+)?d(\d+|%)$`: optional count digits, `d`, then side digits or `%`.
pub open spec fn dice_only(s: Seq<char>) -> Option<(Seq<char>, Seq<char>)> {
    let k = digit_run(s, 0);
    if k < s.len() && s[k as int] == 'd' {
        let tail = s.skip((k + 1) as int);
        if tail == seq!['%'] || is_number_run(tail) {
            Some((s.take(k as int), tail))
        } else {
            None
        }
    } else {
        None
    }
}

fn match_dice_only(cs: &[char]) -> (r: Option<(Vec<char>, Vec<char>)>)
    ensures
        match r {
            Some(p) => dice_only(cs@) == Some((p.0@, p.1@)),
            None => dice_only(cs@) is None,
        },
{
    let k = skip_digits(cs, 0);
    if k < cs.len() && cs[k] == 'd' {
        let tail = sub_chars(cs, k + 1, cs.len());
        assert(tail@ =~= cs@.skip(k + 1));
        let is_pct = tail.len() == 1 && tail[0] == '%';
        assert(is_pct == (tail@ == seq!['%'])) by {
            if tail@ == seq!['%'] {
                assert(tail@[0] == '%');
            }
            if is_pct {
                assert(tail@ =~= seq!['%']);
            }
        }
        if is_pct || (tail.len() > 0 && chars_all_digits(tail.as_slice())) {
            let head = sub_chars(cs, 0, k);
            assert(head@ =~= cs@.take(k as int));
            return Some((head, tail));
        }
    }
    None
}

/// What `parse_dice_expression_only` gives for a `dice_only` match: the
/// count digits read as a number (1 when absent or too large), the sides
/// 100 for `%`, else the side digits.
pub open spec fn dice_count_of(count: Seq<char>) -> u32 {
    if count.len() == 0 {
        1
    } else {
        match parse_u32(count) {
            Some(v) => v,
            None => 1,
        }
    }
}

fn read_count(count: &Vec<char>) -> (c: u32)
    ensures
        c == dice_count_of(count@),
{
    if count.len() == 0 {
        1
    } else {
        match parse_u32_chars(count.as_slice()) {
            Some(v) => v,
            None => 1,
        }
    }
}

/// Whether `s` is a bare dice expression such as `2d6` or `d%`.
pub fn is_dice_expression(cs: &[char]) -> (b: bool)
    ensures
        b == dice_only(cs@) is Some,
{
    match match_dice_only(cs) {
        Some(_) => true,
        None => false,
    }
}

/// A bare dice expression as a roll, with no modifiers.
pub fn parse_dice_expression_only(cs: &[char]) -> (r: Result<DiceRoll, DiceError>)
    ensures
        dice_only(cs@) is None ==> r is Err && err_msg(r) == "Invalid dice expression: "@ + cs@,
        dice_only(cs@) matches Some(p) ==> {
            &&& p.1 != seq!['%'] && parse_u32(p.1) is None ==> r is Err && err_msg(r) == "Invalid dice sides"@
            &&& r matches Ok(d) ==> {
                &&& d.count == dice_count_of(p.0)
                &&& d.sides == (if p.1 == seq!['%'] { 100 } else { parse_u32(p.1).unwrap() })
                &&& d.modifiers@.len() == 0
            }
            &&& (p.1 == seq!['%'] || parse_u32(p.1) is Some) ==> r is Ok
        },
{
    match match_dice_only(cs) {
        None => Err(err_text("Invalid dice expression: ", cs)),
        Some((count, sides)) => {
            let c = read_count(&count);
            let s = if sides.len() == 1 && sides[0] == '%' {
                assert(sides@ =~= seq!['%']);
                100
            } else {
                assert(sides@ != seq!['%']) by {
                    if sides@ == seq!['%'] {
                        assert(sides@[0] == '%');
                    }
                }
                match parse_u32_chars(sides.as_slice()) {
                    Some(v) => v,
                    None => {
                        return Err(DiceError::from_str("Invalid dice sides"));
                    },
                }
            };
            Ok(plain_roll(c, s))
        },
    }
}

/// `s` with the literal prefix `p` removed, when it has it.
fn strip_prefix(cs: &[char], p: &str) -> (r: Option<Vec<char>>)
    ensures
        match r {
            Some(v) => starts_with(cs@, p@) && v@ == cs@.skip(p@.len() as int),
            None => !starts_with(cs@, p@),
        },
{
    if chars_starts_with(cs, p) {
        let n = p.unicode_len();
        Some(sub_chars(cs, n, cs.len()))
    } else {
        None
    }
}

/// An optional number after a modifier's letters: none when empty.
fn parse_optional_number(cs: &[char], msg: &str) -> (r: Result<Option<u32>, DiceError>)
    ensures
        cs@.len() == 0 ==> r == Ok::<Option<u32>, DiceError>(None),
        cs@.len() > 0 ==> match parse_u32(cs@) {
            Some(v) => r == Ok::<Option<u32>, DiceError>(Some(v)),
            None => r is Err && err_msg(r) == msg@,
        },
{
    if cs.len() == 0 {
        Ok(None)
    } else {
        match parse_u32_chars(cs) {
            Some(v) => Ok(Some(v)),
            None => Err(DiceError::from_str(msg)),
        }
    }
}

/// A required number after a modifier's letters.
fn parse_required_number(cs: &[char], msg: &str) -> (r: Result<u32, DiceError>)
    ensures
        match parse_u32(cs@) {
            Some(v) => r == Ok::<u32, DiceError>(v),
            None => r is Err && err_msg(r) == msg@,
        },
{
    match parse_u32_chars(cs) {
        Some(v) => Ok(v),
        None => Err(DiceError::from_str(msg)),
    }
}

/// What a modifier token reads as: a modifier with no dice inside, or added
/// or subtracted dice (count, sides).
pub enum ModShape {
    Plain(Modifier),
    AddDice(u32, u32),
    SubtractDice(u32, u32),
}

/// `m` is a modifier of shape `shape`.
pub open spec fn has_shape(m: Modifier, shape: ModShape) -> bool {
    match shape {
        ModShape::Plain(p) => m == p,
        ModShape::AddDice(c, s) => m matches Modifier::AddDice(d) && d.count == c && d.sides == s
            && d.modifiers@.len() == 0,
        ModShape::SubtractDice(c, s) => m matches Modifier::SubtractDice(d) && d.count == c && d.sides == s
            && d.modifiers@.len() == 0,
    }
}

/// `^([+\-*/])(\d+)$`: `None` when the token is not of that form.
pub open spec fn operator_modifier(s: Seq<char>) -> Option<Result<Modifier, Seq<char>>> {
    if s.len() >= 2 && (s[0] == '+' || s[0] == '-' || s[0] == '*' || s[0] == '/') && all_digits(s.skip(1)) {
        match parse_i32(s.skip(1)) {
            None => Some(Err("Invalid modifier number"@)),
            Some(n) => Some(Ok(
                if s[0] == '+' {
                    Modifier::Add(n)
                } else if s[0] == '-' {
                    Modifier::Subtract(n)
                } else if s[0] == '*' {
                    Modifier::Multiply(n)
                } else {
                    Modifier::Divide(n)
                },
            )),
        }
    } else {
        None
    }
}

/// `^([+\-])(\d+)d(\d+)$`: `None` when the token is not of that form.
pub open spec fn dice_modifier(s: Seq<char>) -> Option<Result<ModShape, Seq<char>>> {
    let k: int = 1int + digit_run(s, 1);
    let m: int = k + 1int + digit_run(s, k + 1);
    if s.len() >= 4 && (s[0] == '+' || s[0] == '-') && k > 1 && k < s.len() && s[k] == 'd' && m > k + 1
        && m == s.len() {
        match (parse_u32(s.subrange(1, k)), parse_u32(s.subrange(k + 1, m))) {
            (None, _) => Some(Err("Invalid dice count in modifier"@)),
            (Some(_), None) => Some(Err("Invalid dice sides in modifier"@)),
            (Some(c), Some(d)) => Some(Ok(if s[0] == '+' { ModShape::AddDice(c, d) } else { ModShape::SubtractDice(c, d) })),
        }
    } else {
        None
    }
}

/// An optional number: none when empty, else the number or `msg`.
pub open spec fn optional_number(s: Seq<char>, msg: Seq<char>) -> Result<Option<u32>, Seq<char>> {
    if s.len() == 0 {
        Ok(None)
    } else {
        match parse_u32(s) {
            Some(v) => Ok(Some(v)),
            None => Err(msg),
        }
    }
}

pub open spec fn required_number(s: Seq<char>, msg: Seq<char>) -> Result<u32, Seq<char>> {
    match parse_u32(s) {
        Some(v) => Ok(v),
        None => Err(msg),
    }
}

pub open spec fn wrap_opt(r: Result<Option<u32>, Seq<char>>, f: spec_fn(Option<u32>) -> Modifier) -> Result<ModShape, Seq<char>> {
    match r {
        Ok(v) => Ok(ModShape::Plain(f(v))),
        Err(e) => Err(e),
    }
}

pub open spec fn wrap_req(r: Result<u32, Seq<char>>, f: spec_fn(u32) -> Modifier) -> Result<ModShape, Seq<char>> {
    match r {
        Ok(v) => Ok(ModShape::Plain(f(v))),
        Err(e) => Err(e),
    }
}

/// The text after `t` (or `tl` when `lower`): a target, optionally followed
/// by `ds` and the double-success value, which defaults to the target.
pub open spec fn target_modifier(s: Seq<char>, lower: bool) -> Result<ModShape, Seq<char>> {
    let n: int = digit_run(s, 0) as int;
    if n + 2 <= s.len() && s[n] == 'd' && s[n + 1] == 's' {
        match required_number(s.take(n), "Invalid target value"@) {
            Err(e) => Err(e),
            Ok(t) => match optional_number(s.skip(n + 2), "Invalid double success value"@) {
                Err(e) => Err(e),
                Ok(ds) => {
                    let d = match ds {
                        Some(v) => v,
                        None => t,
                    };
                    Ok(ModShape::Plain(
                        if lower {
                            Modifier::TargetLowerWithDoubleSuccess(t, d)
                        } else {
                            Modifier::TargetWithDoubleSuccess(t, d)
                        },
                    ))
                },
            },
        }
    } else {
        match required_number(s, "Invalid target value"@) {
            Err(e) => Err(e),
            Ok(t) => Ok(ModShape::Plain(if lower { Modifier::TargetLower(t) } else { Modifier::Target(t) })),
        }
    }
}

/// `r` and a number rerolls dice at or below it once; `ir` and a number
/// rerolls them until none is left; `rg` and `irg` do the same for dice at
/// or above it: the four tokens read as four different modifiers for every
/// number.
pub proof fn law_reroll_tokens(n: u32)
    ensures
        modifier_spec("rg"@ + nat_str(n as nat)) == Ok::<ModShape, Seq<char>>(
            ModShape::Plain(Modifier::RerollGreater(n)),
        ),
        modifier_spec("irg"@ + nat_str(n as nat)) == Ok::<ModShape, Seq<char>>(
            ModShape::Plain(Modifier::RerollGreaterIndefinite(n)),
        ),
        modifier_spec("r"@ + nat_str(n as nat)) == Ok::<ModShape, Seq<char>>(ModShape::Plain(Modifier::Reroll(n))),
        modifier_spec("ir"@ + nat_str(n as nat)) == Ok::<ModShape, Seq<char>>(
            ModShape::Plain(Modifier::RerollIndefinite(n)),
        ),
        Modifier::Reroll(n) != Modifier::RerollIndefinite(n),
{
    crate::text::lemma_nat_str_reads_back(n as nat);
    crate::text::lemma_nat_str_starts_with_digit(n as nat);
    reveal_strlit("r");
    reveal_strlit("ir");
    reveal_strlit("dh");
    reveal_strlit("hsn");
    reveal_strlit("hsk");
    reveal_strlit("hsh");
    reveal_strlit("fudge");
    reveal_strlit("df");
    reveal_strlit("gb");
    reveal_strlit("gbs");
    reveal_strlit("wng");
    reveal_strlit("adv");
    reveal_strlit("dis");
    reveal_strlit("irg");
    reveal_strlit("ie");
    reveal_strlit("e");
    reveal_strlit("rg");
    let d = nat_str(n as nat);
    let p = "r"@ + d;
    let q = "ir"@ + d;
    assert(p.skip(1) =~= d);
    assert(q.skip(2) =~= d);
    assert(p[0] == 'r' && p[1] == d[0]);
    assert(q[0] == 'i' && q[1] == 'r' && q[2] == d[0]);
    assert(parse_u32(d) == Some(n));
    assert(parse_i32(p) is None);
    assert(parse_i32(q) is None);
    assert(operator_modifier(p) is None);
    assert(operator_modifier(q) is None);
    assert(p != "dh"@ && p != "hsn"@ && p != "hsk"@ && p != "hsh"@ && p != "fudge"@ && p != "df"@ && p != "gb"@
        && p != "gbs"@) by {
        assert(p[0] == 'r');
    }
    assert(q != "dh"@ && q != "hsn"@ && q != "hsk"@ && q != "hsh"@ && q != "fudge"@ && q != "df"@ && q != "gb"@
        && q != "gbs"@) by {
        assert(q[0] == 'i' && q[1] == 'r');
    }
    lemma_not_prefix(p, "wng"@, 0);
    lemma_not_prefix(p, "adv"@, 0);
    lemma_not_prefix(p, "dis"@, 0);
    lemma_not_prefix(p, "irg"@, 0);
    lemma_not_prefix(p, "ie"@, 0);
    lemma_not_prefix(p, "e"@, 0);
    lemma_not_prefix(p, "ir"@, 0);
    lemma_not_prefix(p, "rg"@, 1);
    assert(p.take(1) =~= "r"@);
    lemma_not_prefix(q, "wng"@, 0);
    lemma_not_prefix(q, "adv"@, 0);
    lemma_not_prefix(q, "dis"@, 0);
    lemma_not_prefix(q, "irg"@, 2);
    lemma_not_prefix(q, "ie"@, 1);
    lemma_not_prefix(q, "e"@, 0);
    assert(q.take(2) =~= "ir"@);
    let g = "rg"@ + d;
    let h = "irg"@ + d;
    assert(g.skip(2) =~= d);
    assert(h.skip(3) =~= d);
    assert(g[0] == 'r' && g[1] == 'g' && g[2] == d[0]);
    assert(h[0] == 'i' && h[1] == 'r' && h[2] == 'g' && h[3] == d[0]);
    assert(parse_i32(g) is None);
    assert(parse_i32(h) is None);
    assert(operator_modifier(g) is None);
    assert(operator_modifier(h) is None);
    assert(g != "dh"@ && g != "hsn"@ && g != "hsk"@ && g != "hsh"@ && g != "fudge"@ && g != "df"@ && g != "gb"@
        && g != "gbs"@) by {
        assert(g[0] == 'r');
    }
    assert(h != "dh"@ && h != "hsn"@ && h != "hsk"@ && h != "hsh"@ && h != "fudge"@ && h != "df"@ && h != "gb"@
        && h != "gbs"@) by {
        assert(h[0] == 'i' && h[1] == 'r');
    }
    lemma_not_prefix(g, "wng"@, 0);
    lemma_not_prefix(g, "adv"@, 0);
    lemma_not_prefix(g, "dis"@, 0);
    lemma_not_prefix(g, "irg"@, 0);
    lemma_not_prefix(g, "ie"@, 0);
    lemma_not_prefix(g, "e"@, 0);
    lemma_not_prefix(g, "ir"@, 0);
    assert(g.take(2) =~= "rg"@);
    lemma_not_prefix(h, "wng"@, 0);
    lemma_not_prefix(h, "adv"@, 0);
    lemma_not_prefix(h, "dis"@, 0);
    assert(h.take(3) =~= "irg"@);
}

/// A text whose character at `k` differs from that of a literal does not
/// start with the literal.
proof fn lemma_not_prefix(p: Seq<char>, l: Seq<char>, k: int)
    requires
        0 <= k < l.len(),
        k < p.len(),
        p[k] != l[k],
    ensures
        !starts_with(p, l),
{
    if starts_with(p, l) {
        assert(p.take(l.len() as int)[k] == p[k]);
    }
}

/// The modifier grammar: what one token reads as, or the error message.
pub open spec fn modifier_spec(p: Seq<char>) -> Result<ModShape, Seq<char>> {
    if p == "dh"@ {
        Ok(ModShape::Plain(Modifier::DarkHeresy))
    } else if p == "hsn"@ {
        Ok(ModShape::Plain(Modifier::HeroSystem(HeroSystemType::Normal)))
    } else if p == "hsk"@ {
        Ok(ModShape::Plain(Modifier::HeroSystem(HeroSystemType::Killing)))
    } else if p == "hsh"@ {
        Ok(ModShape::Plain(Modifier::HeroSystem(HeroSystemType::Hit)))
    } else if p == "fudge"@ || p == "df"@ {
        Ok(ModShape::Plain(Modifier::Fudge))
    } else if p == "gb"@ {
        Ok(ModShape::Plain(Modifier::Godbound(false)))
    } else if p == "gbs"@ {
        Ok(ModShape::Plain(Modifier::Godbound(true)))
    } else if starts_with(p, "wng"@) {
        let stripped = p.skip("wng"@.len() as int);
        let use_total = p.len() > 0 && p.last() == 't';
        let np = if use_total && stripped.len() > 0 { stripped.drop_last() } else { stripped };
        match optional_number(np, "Invalid difficulty number"@) {
            Ok(d) => Ok(ModShape::Plain(Modifier::WrathGlory(d, use_total, 1))),
            Err(e) => Err(e),
        }
    } else if parse_i32(p) is Some {
        Ok(ModShape::Plain(Modifier::Add(parse_i32(p).unwrap())))
    } else if operator_modifier(p) is Some {
        match operator_modifier(p).unwrap() {
            Ok(m) => Ok(ModShape::Plain(m)),
            Err(e) => Err(e),
        }
    } else if starts_with(p, "adv"@) {
        wrap_req(required_number(p.skip("adv"@.len() as int), "Invalid advantage value"@), |v: u32| Modifier::Advantage(v))
    } else if starts_with(p, "dis"@) {
        wrap_req(required_number(p.skip("dis"@.len() as int), "Invalid disadvantage value"@), |v: u32| Modifier::Disadvantage(v))
    } else if starts_with(p, "irg"@) {
        wrap_req(required_number(p.skip("irg"@.len() as int), "Invalid reroll value"@), |v: u32| Modifier::RerollGreaterIndefinite(v))
    } else if starts_with(p, "ie"@) {
        wrap_opt(optional_number(p.skip("ie"@.len() as int), "Invalid explode value"@), |v: Option<u32>| Modifier::ExplodeIndefinite(v))
    } else if starts_with(p, "e"@) {
        wrap_opt(optional_number(p.skip("e"@.len() as int), "Invalid explode value"@), |v: Option<u32>| Modifier::Explode(v))
    } else if starts_with(p, "ir"@) {
        wrap_req(required_number(p.skip("ir"@.len() as int), "Invalid reroll value"@), |v: u32| Modifier::RerollIndefinite(v))
    } else if starts_with(p, "rg"@) {
        wrap_req(required_number(p.skip("rg"@.len() as int), "Invalid reroll value"@), |v: u32| Modifier::RerollGreater(v))
    } else if starts_with(p, "r"@) {
        wrap_req(required_number(p.skip("r"@.len() as int), "Invalid reroll value"@), |v: u32| Modifier::Reroll(v))
    } else if starts_with(p, "kh"@) {
        wrap_req(required_number(p.skip("kh"@.len() as int), "Invalid keep value"@), |v: u32| Modifier::KeepHigh(v))
    } else if starts_with(p, "kl"@) {
        wrap_req(required_number(p.skip("kl"@.len() as int), "Invalid keep low value"@), |v: u32| Modifier::KeepLow(v))
    } else if starts_with(p, "km"@) {
        wrap_req(required_number(p.skip("km"@.len() as int), "Invalid keep middle value"@), |v: u32| Modifier::KeepMiddle(v))
    } else if starts_with(p, "k"@) {
        wrap_req(required_number(p.skip("k"@.len() as int), "Invalid keep value"@), |v: u32| Modifier::KeepHigh(v))
    } else if starts_with(p, "d"@) {
        wrap_req(required_number(p.skip("d"@.len() as int), "Invalid drop value"@), |v: u32| Modifier::Drop(v))
    } else if starts_with(p, "tl"@) {
        target_modifier(p.skip("tl"@.len() as int), true)
    } else if starts_with(p, "t"@) {
        target_modifier(p.skip("t"@.len() as int), false)
    } else if starts_with(p, "f"@) {
        wrap_req(required_number(p.skip("f"@.len() as int), "Invalid failure value"@), |v: u32| Modifier::Failure(v))
    } else if starts_with(p, "b"@) {
        wrap_opt(optional_number(p.skip("b"@.len() as int), "Invalid botch value"@), |v: Option<u32>| Modifier::Botch(v))
    } else if starts_with(p, "i"@) {
        wrap_opt(optional_number(p.skip("i"@.len() as int), "Invalid implode value"@), |v: Option<u32>| Modifier::Implode(v))
    } else if dice_modifier(p) is Some {
        dice_modifier(p).unwrap()
    } else {
        Err("Unknown modifier: "@ + p)
    }
}

/// `^([+\-*/])(\d+)$` read as an arithmetic modifier.
fn parse_operator_modifier(cs: &[char]) -> (r: Result<Option<Modifier>, DiceError>)
    ensures
        match operator_modifier(cs@) {
            None => r == Ok::<Option<Modifier>, DiceError>(None),
            Some(Ok(m)) => r == Ok::<Option<Modifier>, DiceError>(Some(m)),
            Some(Err(e)) => r is Err && err_msg(r) == e,
        },
{
    if cs.len() < 2 {
        return Ok(None);
    }
    let op = cs[0];
    if !(op == '+' || op == '-' || op == '*' || op == '/') {
        return Ok(None);
    }
    let digits = sub_chars(cs, 1, cs.len());
    assert(digits@ =~= cs@.skip(1));
    if !chars_all_digits(digits.as_slice()) {
        return Ok(None);
    }
    let num = match parse_i32_chars(digits.as_slice()) {
        Some(v) => v,
        None => {
            return Err(DiceError::from_str("Invalid modifier number"));
        },
    };
    if op == '+' {
        Ok(Some(Modifier::Add(num)))
    } else if op == '-' {
        Ok(Some(Modifier::Subtract(num)))
    } else if op == '*' {
        Ok(Some(Modifier::Multiply(num)))
    } else {
        Ok(Some(Modifier::Divide(num)))
    }
}

/// `^([+\-])(\d+)d(\d+)$` read as added or subtracted dice.
fn parse_dice_modifier(cs: &[char]) -> (r: Result<Option<Modifier>, DiceError>)
    ensures
        match dice_modifier(cs@) {
            None => r == Ok::<Option<Modifier>, DiceError>(None),
            Some(Ok(shape)) => r matches Ok(Some(m)) && has_shape(m, shape),
            Some(Err(e)) => r is Err && err_msg(r) == e,
        },
{
    if cs.len() < 4 || !(cs[0] == '+' || cs[0] == '-') {
        return Ok(None);
    }
    let k = skip_digits(cs, 1);
    if k == 1 || k >= cs.len() || cs[k] != 'd' {
        return Ok(None);
    }
    let m = skip_digits(cs, k + 1);
    if m == k + 1 || m != cs.len() {
        return Ok(None);
    }
    let count = match parse_u32_chars(sub_chars(cs, 1, k).as_slice()) {
        Some(v) => v,
        None => {
            return Err(DiceError::from_str("Invalid dice count in modifier"));
        },
    };
    let sides = match parse_u32_chars(sub_chars(cs, k + 1, m).as_slice()) {
        Some(v) => v,
        None => {
            return Err(DiceError::from_str("Invalid dice sides in modifier"));
        },
    };
    if cs[0] == '+' {
        Ok(Some(Modifier::AddDice(plain_roll(count, sides))))
    } else {
        Ok(Some(Modifier::SubtractDice(plain_roll(count, sides))))
    }
}

/// A target modifier from the text after `t` (or `tl` when `lower`).
fn parse_target(s: &[char], lower: bool) -> (r: Result<Modifier, DiceError>)
    ensures
        match target_modifier(s@, lower) {
            Ok(shape) => r matches Ok(m) && has_shape(m, shape),
            Err(e) => r is Err && err_msg(r) == e,
        },
{
    let n = skip_digits(s, 0);
    if s.len() >= 2 && n <= s.len() - 2 && s[n] == 'd' && s[n + 1] == 's' {
        let num_part = sub_chars(s, 0, n);
        assert(num_part@ =~= s@.take(n as int));
        let target = parse_required_number(num_part.as_slice(), "Invalid target value")?;
        let ds_part = sub_chars(s, n + 2, s.len());
        assert(ds_part@ =~= s@.skip(n + 2));
        let ds = parse_optional_number(ds_part.as_slice(), "Invalid double success value")?;
        let d = match ds {
            Some(v) => v,
            None => target,
        };
        if lower {
            Ok(Modifier::TargetLowerWithDoubleSuccess(target, d))
        } else {
            Ok(Modifier::TargetWithDoubleSuccess(target, d))
        }
    } else {
        let target = parse_required_number(s, "Invalid target value")?;
        if lower {
            Ok(Modifier::TargetLower(target))
        } else {
            Ok(Modifier::Target(target))
        }
    }
}

/// One modifier token as a `Modifier`, following the modifier grammar.
pub fn parse_modifier(part: &[char]) -> (r: Result<Modifier, DiceError>)
    ensures
        match modifier_spec(part@) {
            Ok(shape) => r matches Ok(m) && has_shape(m, shape),
            Err(e) => r is Err && err_msg(r) == e,
        },
{
    if chars_eq_str(part, "dh") {
        return Ok(Modifier::DarkHeresy);
    }
    if chars_eq_str(part, "hsn") {
        return Ok(Modifier::HeroSystem(HeroSystemType::Normal));
    }
    if chars_eq_str(part, "hsk") {
        return Ok(Modifier::HeroSystem(HeroSystemType::Killing));
    }
    if chars_eq_str(part, "hsh") {
        return Ok(Modifier::HeroSystem(HeroSystemType::Hit));
    }
    if chars_eq_str(part, "fudge") || chars_eq_str(part, "df") {
        return Ok(Modifier::Fudge);
    }
    if chars_eq_str(part, "gb") {
        return Ok(Modifier::Godbound(false));
    }
    if chars_eq_str(part, "gbs") {
        return Ok(Modifier::Godbound(true));
    }
    if let Some(stripped) = strip_prefix(part, "wng") {
        let use_total = part.len() > 0 && part[part.len() - 1] == 't';
        let number_part = if use_total && stripped.len() > 0 {
            let v = sub_chars(stripped.as_slice(), 0, stripped.len() - 1);
            assert(v@ =~= stripped@.drop_last());
            v
        } else {
            stripped
        };
        let difficulty = parse_optional_number(number_part.as_slice(), "Invalid difficulty number")?;
        return Ok(Modifier::WrathGlory(difficulty, use_total, 1));
    }
    if let Some(num) = parse_i32_chars(part) {
        return Ok(Modifier::Add(num));
    }
    if let Some(m) = parse_operator_modifier(part)? {
        return Ok(m);
    }
    if let Some(stripped) = strip_prefix(part, "adv") {
        let num = parse_required_number(stripped.as_slice(), "Invalid advantage value")?;
        return Ok(Modifier::Advantage(num));
    }
    if let Some(stripped) = strip_prefix(part, "dis") {
        let num = parse_required_number(stripped.as_slice(), "Invalid disadvantage value")?;
        return Ok(Modifier::Disadvantage(num));
    }
    if let Some(stripped) = strip_prefix(part, "irg") {
        let num = parse_required_number(stripped.as_slice(), "Invalid reroll value")?;
        return Ok(Modifier::RerollGreaterIndefinite(num));
    }
    if let Some(stripped) = strip_prefix(part, "ie") {
        let num = parse_optional_number(stripped.as_slice(), "Invalid explode value")?;
        return Ok(Modifier::ExplodeIndefinite(num));
    }
    if let Some(stripped) = strip_prefix(part, "e") {
        let num = parse_optional_number(stripped.as_slice(), "Invalid explode value")?;
        return Ok(Modifier::Explode(num));
    }
    if let Some(stripped) = strip_prefix(part, "ir") {
        let num = parse_required_number(stripped.as_slice(), "Invalid reroll value")?;
        return Ok(Modifier::RerollIndefinite(num));
    }
    if let Some(stripped) = strip_prefix(part, "rg") {
        let num = parse_required_number(stripped.as_slice(), "Invalid reroll value")?;
        return Ok(Modifier::RerollGreater(num));
    }
    if let Some(stripped) = strip_prefix(part, "r") {
        let num = parse_required_number(stripped.as_slice(), "Invalid reroll value")?;
        return Ok(Modifier::Reroll(num));
    }
    if let Some(stripped) = strip_prefix(part, "kh") {
        let num = parse_required_number(stripped.as_slice(), "Invalid keep value")?;
        return Ok(Modifier::KeepHigh(num));
    }
    if let Some(stripped) = strip_prefix(part, "kl") {
        let num = parse_required_number(stripped.as_slice(), "Invalid keep low value")?;
        return Ok(Modifier::KeepLow(num));
    }
    if let Some(stripped) = strip_prefix(part, "km") {
        let num = parse_required_number(stripped.as_slice(), "Invalid keep middle value")?;
        return Ok(Modifier::KeepMiddle(num));
    }
    if let Some(stripped) = strip_prefix(part, "k") {
        let num = parse_required_number(stripped.as_slice(), "Invalid keep value")?;
        return Ok(Modifier::KeepHigh(num));
    }
    if let Some(stripped) = strip_prefix(part, "d") {
        let num = parse_required_number(stripped.as_slice(), "Invalid drop value")?;
        return Ok(Modifier::Drop(num));
    }
    if let Some(stripped) = strip_prefix(part, "tl") {
        return parse_target(stripped.as_slice(), true);
    }
    if let Some(stripped) = strip_prefix(part, "t") {
        return parse_target(stripped.as_slice(), false);
    }
    if let Some(stripped) = strip_prefix(part, "f") {
        let num = parse_required_number(stripped.as_slice(), "Invalid failure value")?;
        return Ok(Modifier::Failure(num));
    }
    if let Some(stripped) = strip_prefix(part, "b") {
        let num = parse_optional_number(stripped.as_slice(), "Invalid botch value")?;
        return Ok(Modifier::Botch(num));
    }
    if let Some(stripped) = strip_prefix(part, "i") {
        let num = parse_optional_number(stripped.as_slice(), "Invalid implode value")?;
        return Ok(Modifier::Implode(num));
    }
    if let Some(m) = parse_dice_modifier(part)? {
        return Ok(m);
    }
    Err(err_text("Unknown modifier: ", part))
}

/// Length of the modifier at the front of a combined token such as
/// `e6k8`: the letters of a known modifier and the digits after them.
pub open spec fn modifier_prefix(s: Seq<char>) -> Option<nat> {
    if s == "hsh"@ || s == "hsk"@ || s == "hsn"@ || s == "gb"@ || s == "gbs"@ {
        Some(s.len())
    } else if starts_with(s, "gbs"@) {
        None
    } else if starts_with(s, "wng"@) {
        let k = 3 + digit_run(s, 3);
        Some(if k < s.len() && s[k as int] == 't' { (k + 1) as nat } else { k as nat })
    } else if starts_with(s, "ie"@) {
        Some((2 + digit_run(s, 2)) as nat)
    } else if starts_with(s, "ir"@) || starts_with(s, "kl"@) || starts_with(s, "kh"@) {
        if digit_run(s, 2) > 0 { Some((2 + digit_run(s, 2)) as nat) } else { None }
    } else if s.len() > 0 && (s[0] == 'e' || s[0] == 'b') {
        Some((1 + digit_run(s, 1)) as nat)
    } else if s.len() > 0 && s[0] == 't' && digit_run(s, 1) > 0 {
        let k: int = 1int + digit_run(s, 1);
        if k + 1 < s.len() && s[k] == 'd' && s[k + 1] == 's' {
            Some((k + 2 + digit_run(s, k + 2)) as nat)
        } else {
            Some(k as nat)
        }
    } else if s.len() > 0 && (s[0] == 'k' || s[0] == 'r' || s[0] == 'd' || s[0] == 't' || s[0] == 'f') {
        if digit_run(s, 1) > 0 { Some((1 + digit_run(s, 1)) as nat) } else { None }
    } else {
        None
    }
}

fn modifier_prefix_len(cs: &[char]) -> (r: Option<usize>)
    ensures
        match r {
            Some(n) => modifier_prefix(cs@) == Some(n as nat) && 1 <= n <= cs@.len(),
            None => modifier_prefix(cs@) is None,
        },
{
    proof {
        reveal_strlit("gbs");
        reveal_strlit("wng");
        reveal_strlit("ie");
        reveal_strlit("ir");
        reveal_strlit("kl");
        reveal_strlit("kh");
    }
    if chars_eq_str(cs, "hsh") || chars_eq_str(cs, "hsk") || chars_eq_str(cs, "hsn") || chars_eq_str(cs, "gb")
        || chars_eq_str(cs, "gbs") {
        proof {
            reveal_strlit("hsh");
            reveal_strlit("hsk");
            reveal_strlit("hsn");
            reveal_strlit("gb");
        }
        return Some(cs.len());
    }
    if chars_starts_with(cs, "gbs") {
        return None;
    }
    if chars_starts_with(cs, "wng") {
        let k = skip_digits(cs, 3);
        return Some(if k < cs.len() && cs[k] == 't' { k + 1 } else { k });
    }
    if chars_starts_with(cs, "ie") {
        return Some(skip_digits(cs, 2));
    }
    if chars_starts_with(cs, "ir") || chars_starts_with(cs, "kl") || chars_starts_with(cs, "kh") {
        let k = skip_digits(cs, 2);
        return if k > 2 { Some(k) } else { None };
    }
    if cs.len() > 0 && (cs[0] == 'e' || cs[0] == 'b') {
        return Some(skip_digits(cs, 1));
    }
    if cs.len() > 0 && cs[0] == 't' && skip_digits(cs, 1) > 1 {
        let k = skip_digits(cs, 1);
        if cs.len() >= 2 && k <= cs.len() - 2 && cs[k] == 'd' && cs[k + 1] == 's' {
            return Some(skip_digits(cs, k + 2));
        }
        return Some(k);
    }
    if cs.len() > 0 && (cs[0] == 'k' || cs[0] == 'r' || cs[0] == 'd' || cs[0] == 't' || cs[0] == 'f') {
        let k = skip_digits(cs, 1);
        return if k > 1 { Some(k) } else { None };
    }
    None
}

/// Every character of `s` from `i` on is a digit.
fn digits_from(cs: &[char], i: usize) -> (b: bool)
    requires
        i <= cs@.len(),
    ensures
        b == all_digits(cs@.skip(i as int)),
{
    let t = sub_chars(cs, i, cs.len());
    assert(t@ =~= cs@.skip(i as int));
    chars_all_digits(t.as_slice())
}

/// A token that is one modifier on its own and is never split: a fixed word
/// (`gb`, `gbs`, `ie`, `hsn`, `hsk`, `hsh`, `fudge`, `df`); within 6 bytes, an
/// operator and digits or digits alone; within 2 to 5 bytes, `ie`, `ir`,
/// `kl` or `kh` and digits, one of `e k r d t f b` and digits, or `wng` and digits
/// or `t`.
pub open spec fn simple_modifier(s: Seq<char>) -> bool {
    let bytes = utf8_len(s);
    if s == "gb"@ || s == "gbs"@ || s == "ie"@ || s == "hsn"@ || s == "hsk"@ || s == "hsh"@ || s == "fudge"@
        || s == "df"@ {
        true
    } else if bytes <= 6 && s.len() > 0 && (s[0] == '+' || s[0] == '-' || s[0] == '*' || s[0] == '/') {
        s.len() > 1 && all_digits(s.skip(1))
    } else if bytes <= 6 && s.len() > 0 && is_digit(s[0]) {
        all_digits(s)
    } else if 2 <= bytes <= 5 && (starts_with(s, "ie"@) || starts_with(s, "ir"@) || starts_with(s, "kl"@)
        || starts_with(s, "kh"@)) {
        all_digits(s.skip(2))
    } else if 2 <= bytes <= 5 && (s[0] == 'e' || s[0] == 'k' || s[0] == 'r' || s[0] == 'd' || s[0] == 't'
        || s[0] == 'f' || s[0] == 'b') {
        all_digits(s.skip(1))
    } else if 2 <= bytes <= 5 && starts_with(s, "wng"@) {
        (forall|i: int| 3 <= i < s.len() ==> is_digit(#[trigger] s[i]) || s[i] == 't') || s == "wng"@
    } else {
        false
    }
}

/// Every character after the first three is a digit or `t`.
fn wng_tail(cs: &[char]) -> (b: bool)
    ensures
        b == forall|i: int| 3 <= i < cs@.len() ==> is_digit(#[trigger] cs@[i]) || cs@[i] == 't',
{
    let mut i: usize = 3;
    while i < cs.len()
        invariant
            3 <= i,
            i <= cs@.len() || cs@.len() < 3,
            forall|j: int| 3 <= j < i && j < cs@.len() ==> is_digit(#[trigger] cs@[j]) || cs@[j] == 't',
        decreases cs.len() - i,
    {
        if !(char_is_digit(cs[i]) || cs[i] == 't') {
            assert(!(is_digit(cs@[i as int]) || cs@[i as int] == 't'));
            return false;
        }
        i = i + 1;
    }
    true
}

/// Whether a token is one modifier on its own, which is never split.
pub fn is_simple_modifier(cs: &[char]) -> (b: bool)
    ensures
        b == simple_modifier(cs@),
{
    proof {
        reveal_strlit("gb");
        reveal_strlit("gbs");
        reveal_strlit("ie");
        reveal_strlit("hsn");
        reveal_strlit("hsk");
        reveal_strlit("hsh");
        reveal_strlit("fudge");
        reveal_strlit("df");
        reveal_strlit("ir");
        reveal_strlit("kl");
        reveal_strlit("kh");
        reveal_strlit("wng");
    }
    if chars_eq_str(cs, "gb") || chars_eq_str(cs, "gbs") || chars_eq_str(cs, "ie") || chars_eq_str(cs, "hsn")
        || chars_eq_str(cs, "hsk") || chars_eq_str(cs, "hsh") || chars_eq_str(cs, "fudge") || chars_eq_str(cs, "df") {
        return true;
    }
    if cs.len() == 0 {
        proof {
            assert(utf8_len(cs@) == 0);
        }
        return false;
    }
    if cs.len() >= 0x1000_0000 {
        proof {
            crate::text::lemma_utf8_len_ge(cs@);
        }
        return false;
    }
    let bytes = crate::text::byte_len(cs);
    if bytes <= 6 {
        let c = cs[0];
        if c == '+' || c == '-' || c == '*' || c == '/' {
            return cs.len() > 1 && digits_from(cs, 1);
        }
        if char_is_digit(c) {
            return chars_all_digits(cs);
        }
    }
    if bytes >= 2 && bytes <= 5 {
        if chars_starts_with(cs, "ie") || chars_starts_with(cs, "ir") || chars_starts_with(cs, "kl")
            || chars_starts_with(cs, "kh") {
            return digits_from(cs, 2);
        }
        let c = cs[0];
        if c == 'e' || c == 'k' || c == 'r' || c == 'd' || c == 't' || c == 'f' || c == 'b' {
            return digits_from(cs, 1);
        }
        if chars_starts_with(cs, "wng") {
            return wng_tail(cs) || chars_eq_str(cs, "wng");
        }
    }
    false
}

/// The modifiers at the front of a combined token, one after another, until
/// no known modifier begins what is left.
pub open spec fn prefix_chunks(s: Seq<char>) -> Seq<Seq<char>>
    decreases s.len(),
{
    if s.len() == 0 {
        seq![]
    } else {
        match modifier_prefix(s) {
            Some(n) => if 1 <= n <= s.len() {
                seq![s.take(n as int)] + prefix_chunks(s.skip(n as int))
            } else {
                seq![]
            },
            None => seq![],
        }
    }
}

/// A token split into its modifiers: a simple modifier, or one that no
/// known modifier begins, stays whole.
pub open spec fn combined_split(s: Seq<char>) -> Seq<Seq<char>> {
    if simple_modifier(s) || prefix_chunks(s).len() == 0 {
        seq![s]
    } else {
        prefix_chunks(s)
    }
}

pub open spec fn char_views(v: Seq<Vec<char>>) -> Seq<Seq<char>> {
    v.map_values(|w: Vec<char>| w@)
}

/// A combined token such as `e6k8` split into its modifiers; a token that
/// is one modifier, or that no known modifier begins, stays whole, and text
/// after the last modifier found is dropped.
pub fn split_combined_modifiers(cs: &[char]) -> (r: Vec<Vec<char>>)
    ensures
        char_views(r@) == combined_split(cs@),
        r@.len() >= 1,
{
    assert(cs@.subrange(0, cs@.len() as int) =~= cs@);
    if is_simple_modifier(cs) {
        let v = vec![sub_chars(cs, 0, cs.len())];
        assert(char_views(v@) =~= seq![cs@]);
        return v;
    }
    let mut mods: Vec<Vec<char>> = Vec::new();
    let mut rest = sub_chars(cs, 0, cs.len());
    let mut stuck = false;
    assert(char_views(mods@) =~= Seq::<Seq<char>>::empty());
    while rest.len() > 0 && !stuck
        invariant
            char_views(mods@) + prefix_chunks(rest@) == prefix_chunks(cs@),
            stuck ==> prefix_chunks(rest@) =~= Seq::<Seq<char>>::empty(),
        decreases rest@.len() + if stuck { 0int } else { 1int },
    {
        match modifier_prefix_len(rest.as_slice()) {
            Some(n) => {
                let ghost before = rest@;
                let ghost old_mods = mods@;
                let chunk = sub_chars(rest.as_slice(), 0, n);
                mods.push(chunk);
                rest = sub_chars(rest.as_slice(), n, rest.len());
                assert(before.subrange(0, n as int) =~= before.take(n as int));
                assert(before.subrange(n as int, before.len() as int) =~= before.skip(n as int));
                assert(char_views(mods@) =~= char_views(old_mods).push(before.take(n as int)));
                assert(prefix_chunks(before) == seq![before.take(n as int)] + prefix_chunks(before.skip(n as int)));
                assert(char_views(mods@) + prefix_chunks(rest@) =~= char_views(old_mods) + prefix_chunks(before));
            },
            None => {
                stuck = true;
            },
        }
    }
    assert(prefix_chunks(rest@) =~= Seq::<Seq<char>>::empty());
    assert(char_views(mods@) =~= prefix_chunks(cs@));
    if mods.len() == 0 {
        let v = vec![sub_chars(cs, 0, cs.len())];
        assert(char_views(v@) =~= seq![cs@]);
        v
    } else {
        assert(char_views(mods@).len() == mods@.len());
        mods
    }
}

/// Length of the modifier token `([+\-*/]\d*d\d+|[+\-*/]\d+|[a-zA-Z]+\d*)`
/// that begins at `i`, trying the alternatives in that order.
pub open spec fn token_len_at(s: Seq<char>, i: int) -> Option<nat> {
    if 0 <= i < s.len() && (s[i] == '+' || s[i] == '-' || s[i] == '*' || s[i] == '/') {
        let j = i + 1 + digit_run(s, i + 1);
        if j < s.len() && s[j] == 'd' && digit_run(s, j + 1) > 0 {
            Some((j + 1 + digit_run(s, j + 1) - i) as nat)
        } else if digit_run(s, i + 1) > 0 {
            Some((1 + digit_run(s, i + 1)) as nat)
        } else {
            None
        }
    } else if 0 <= i < s.len() && is_ascii_alpha(s[i]) {
        let a = alpha_run(s, i);
        Some((a + digit_run(s, i + a)) as nat)
    } else {
        None
    }
}

pub open spec fn alpha_run(s: Seq<char>, i: int) -> nat
    decreases s.len() - i,
{
    if 0 <= i < s.len() && is_ascii_alpha(s[i]) {
        1 + alpha_run(s, i + 1)
    } else {
        0
    }
}

pub fn skip_alpha(cs: &[char], i: usize) -> (j: usize)
    requires
        i <= cs@.len(),
    ensures
        j == i + alpha_run(cs@, i as int),
        j <= cs@.len(),
{
    let mut j = i;
    while j < cs.len() && char_is_alpha(cs[j])
        invariant
            i <= j <= cs@.len(),
            i + alpha_run(cs@, i as int) == j + alpha_run(cs@, j as int),
        decreases cs.len() - j,
    {
        j = j + 1;
    }
    j
}

fn token_len(cs: &[char], i: usize) -> (r: Option<usize>)
    requires
        i < cs@.len(),
    ensures
        match r {
            Some(n) => token_len_at(cs@, i as int) == Some(n as nat) && 1 <= n && i + n <= cs@.len(),
            None => token_len_at(cs@, i as int) is None,
        },
{
    let c = cs[i];
    if c == '+' || c == '-' || c == '*' || c == '/' {
        let j = skip_digits(cs, i + 1);
        if j < cs.len() && cs[j] == 'd' {
            let m = skip_digits(cs, j + 1);
            if m > j + 1 {
                return Some(m - i);
            }
        }
        if j > i + 1 {
            return Some(j - i);
        }
        return None;
    }
    if char_is_alpha(c) {
        let a = skip_alpha(cs, i);
        let e = skip_digits(cs, a);
        return Some(e - i);
    }
    None
}

/// Every modifier token found scanning left to right, skipping characters
/// where none begins; and whether every character was covered.
fn find_tokens(cs: &[char]) -> (r: (Vec<Vec<char>>, bool))
    ensures
        (char_views(r.0@), r.1) == tokens_from(cs@, 0),
        forall|k: int| 0 <= k < r.0@.len() ==> #[trigger] r.0@[k]@.len() >= 1,
{
    let mut out: Vec<Vec<char>> = Vec::new();
    let mut covered = true;
    let mut p: usize = 0;
    assert(char_views(out@) =~= Seq::<Seq<char>>::empty());
    while p < cs.len()
        invariant
            p <= cs@.len(),
            forall|k: int| 0 <= k < out@.len() ==> #[trigger] out@[k]@.len() >= 1,
            char_views(out@) + tokens_from(cs@, p as int).0 == tokens_from(cs@, 0).0,
            (covered && tokens_from(cs@, p as int).1) == tokens_from(cs@, 0).1,
        decreases cs.len() - p,
    {
        let ghost before = char_views(out@);
        match token_len(cs, p) {
            Some(n) => {
                let t = sub_chars(cs, p, p + n);
                out.push(t);
                assert(char_views(out@) =~= before.push(cs@.subrange(p as int, p + n)));
                assert(char_views(out@) + tokens_from(cs@, p + n).0 =~= before + (seq![
                    cs@.subrange(p as int, p + n),
                ] + tokens_from(cs@, p + n).0));
                p = p + n;
            },
            None => {
                covered = false;
                p = p + 1;
            },
        }
    }
    assert(tokens_from(cs@, p as int).0 =~= Seq::<Seq<char>>::empty());
    assert(char_views(out@) =~= char_views(out@) + tokens_from(cs@, p as int).0);
    (out, covered)
}

/// The parts from `from` on, one after another.
fn concat_all(parts: &Vec<Vec<char>>, from: usize) -> (r: Vec<char>)
    requires
        from <= parts@.len(),
    ensures
        r@ == flatten(char_views(parts@).skip(from as int)),
{
    let ghost views = char_views(parts@);
    let mut r: Vec<char> = Vec::new();
    let mut i = from;
    assert(views.subrange(from as int, from as int) =~= Seq::<Seq<char>>::empty());
    while i < parts.len()
        invariant
            from <= i <= parts@.len(),
            views == char_views(parts@),
            r@ == flatten(views.subrange(from as int, i as int)),
        decreases parts.len() - i,
    {
        assert(views.subrange(from as int, i + 1).drop_last() =~= views.subrange(from as int, i as int));
        let mut more = parts[i].clone();
        r.append(&mut more);
        i = i + 1;
    }
    assert(views.subrange(from as int, parts@.len() as int) =~= views.skip(from as int));
    r
}

/// A token with no spaces such as `2d20+8` split into the dice and its
/// modifiers (`2d20`, `+8`); a token like `4df+1` into the alias and its
/// modifiers.
fn split_dice_and_modifiers(input: &Vec<char>) -> (r: Result<Vec<Vec<char>>, DiceError>)
    ensures
        match split_word_spec(input@) {
            Ok(v) => r matches Ok(x) && char_views(x@) == v,
            Err(e) => r is Err && err_msg(r) == e,
        },
        r matches Ok(v) ==> v@.len() >= 1,
{
    reveal(split_word_spec);
    let words = split_words(input.as_slice());
    let normalized = join_words(&words);
    proof {
        assert(words@.map_values(|x: Vec<char>| x@) == char_views(words@));
    }
    if chars_has(normalized.as_slice(), ' ') {
        let v = vec![normalized];
        assert(char_views(v@) =~= seq![v@[0]@]);
        return Ok(v);
    }
    let n = normalized.len();
    let k = skip_digits(normalized.as_slice(), 0);
    if k < n && normalized[k] == 'd' {
        let e = skip_digits(normalized.as_slice(), k + 1);
        if e > k + 1 {
            let dice_part = sub_chars(normalized.as_slice(), 0, e);
            assert(dice_part@ =~= normalized@.take(e as int));
            if e == n {
                let v = vec![dice_part];
                assert(char_views(v@) =~= seq![normalized@.take(e as int)]);
                return Ok(v);
            }
            let rest = sub_chars(normalized.as_slice(), e, n);
            assert(rest@ =~= normalized@.skip(e as int));
            let (tokens, covered) = find_tokens(rest.as_slice());
            let mut parts: Vec<Vec<char>> = vec![dice_part];
            let mut i: usize = 0;
            assert(char_views(parts@) =~= seq![normalized@.take(e as int)]);
            while i < tokens.len()
                invariant
                    i <= tokens@.len(),
                    char_views(parts@) == seq![normalized@.take(e as int)] + char_views(tokens@).take(i as int),
                decreases tokens.len() - i,
            {
                let ghost before = char_views(parts@);
                parts.push(tokens[i].clone());
                assert(char_views(tokens@).take(i + 1) =~= char_views(tokens@).take(i as int).push(tokens@[i as int]@));
                assert(char_views(parts@) =~= before.push(tokens@[i as int]@));
                i = i + 1;
            }
            assert(char_views(tokens@).take(tokens@.len() as int) =~= char_views(tokens@));
            let reconstructed = concat_all(&parts, 1);
            assert(char_views(parts@).skip(1) =~= char_views(tokens@));
            if !covered || reconstructed.len() != rest.len() {
                let mut s = String::from_str("Unable to parse dice expression: ");
                push_chars(&mut s, input.as_slice());
                s.append(" (parsed: ");
                push_chars(&mut s, reconstructed.as_slice());
                s.append(" vs original: ");
                push_chars(&mut s, rest.as_slice());
                s.append(")");
                return Err(DiceError::new(s));
            }
            return Ok(parts);
        }
    }
    if n >= 2 && k < n - 2 && normalized[k] == 'd' && normalized[k + 1] == 'f' {
        let c = normalized[k + 2];
        if c == '+' || c == '-' || c == '*' || c == '/' {
            let alias_part = sub_chars(normalized.as_slice(), 0, k + 2);
            let rest = sub_chars(normalized.as_slice(), k + 2, n);
            assert(alias_part@ =~= normalized@.take(k + 2));
            assert(rest@ =~= normalized@.skip(k + 2));
            let (tokens, _) = find_tokens(rest.as_slice());
            let mut parts: Vec<Vec<char>> = vec![alias_part];
            let mut i: usize = 0;
            assert(char_views(parts@) =~= seq![normalized@.take(k + 2)]);
            while i < tokens.len()
                invariant
                    i <= tokens@.len(),
                    char_views(parts@) == seq![normalized@.take(k + 2)] + char_views(tokens@).take(i as int),
                decreases tokens.len() - i,
            {
                let ghost before = char_views(parts@);
                parts.push(tokens[i].clone());
                assert(char_views(tokens@).take(i + 1) =~= char_views(tokens@).take(i as int).push(tokens@[i as int]@));
                assert(char_views(parts@) =~= before.push(tokens@[i as int]@));
                i = i + 1;
            }
            assert(char_views(tokens@).take(tokens@.len() as int) =~= char_views(tokens@));
            return Ok(parts);
        }
    }
    let v = vec![normalized];
    assert(char_views(v@) =~= seq![v@[0]@]);
    Ok(v)
}

/// A space-separated expression such as `1d20 + 5` as its parts, a lone
/// operator joined to the word after it (`+5`).
fn parse_space_separated_expression(input: &Vec<char>) -> (r: Result<Vec<Vec<char>>, DiceError>)
    ensures
        match spaced_spec(input@) {
            Ok(v) => r matches Ok(x) && char_views(x@) == v,
            Err(e) => r is Err && err_msg(r) == e,
        },
{
    reveal(spaced_spec);
    let ws = split_words(input.as_slice());
    let ghost w = char_views(ws@);
    proof {
        assert(ws@.map_values(|x: Vec<char>| x@) == w);
        assert(w == crate::text::words(input@));
    }
    let mut result: Vec<Vec<char>> = Vec::new();
    if ws.len() == 0 {
        assert(char_views(result@) =~= Seq::<Seq<char>>::empty());
        return Ok(result);
    }
    result.push(ws[0].clone());
    let mut i: usize = 1;
    assert(char_views(result@) =~= seq![w[0]]);
    while i < ws.len()
        invariant
            1 <= i,
            w == char_views(ws@),
            w == crate::text::words(input@),
            w.len() >= 1,
            match spaced_from(w, i as int) {
                Ok(rest) => match spaced_from(w, 1) {
                    Ok(all) => seq![w[0]] + all == char_views(result@) + rest,
                    Err(_) => false,
                },
                Err(e) => spaced_from(w, 1) == Err::<Seq<Seq<char>>, Seq<char>>(e),
            },
        decreases ws.len() - i,
    {
        let ghost before = char_views(result@);
        let wi = &ws[i];
        let lone_op = wi.len() == 1 && (wi[0] == '+' || wi[0] == '-' || wi[0] == '*' || wi[0] == '/');
        if lone_op {
            if i + 1 < ws.len() {
                let mut joined = wi.clone();
                let mut next = ws[i + 1].clone();
                joined.append(&mut next);
                result.push(joined);
                assert(char_views(result@) =~= before.push(w[i as int] + w[i + 1]));
                proof {
                    match spaced_from(w, i + 2) {
                        Ok(rest) => {
                            assert(before + (seq![w[i as int] + w[i + 1]] + rest) =~= char_views(result@) + rest);
                        },
                        Err(e) => {},
                    }
                }
                i = i + 2;
            } else {
                let mut msg = String::from_str("Operator ");
                push_chars(&mut msg, wi.as_slice());
                msg.append(" has no operand");
                proof {
                    assert(wi@ == w[i as int]);
                    assert(spaced_from(w, i as int) == Err::<Seq<Seq<char>>, Seq<char>>(
                        "Operator "@ + w[i as int] + " has no operand"@,
                    ));
                    assert(msg@ == "Operator "@ + w[i as int] + " has no operand"@);
                    assert(spaced_from(w, 1) == Err::<Seq<Seq<char>>, Seq<char>>(msg@));
                    reveal(spaced_spec);
                    assert(spaced_spec(input@) == Err::<Seq<Seq<char>>, Seq<char>>(msg@));
                }
                return Err(DiceError::new(msg));
            }
        } else {
            result.push(wi.clone());
            assert(char_views(result@) =~= before.push(w[i as int]));
            proof {
                match spaced_from(w, i + 1) {
                    Ok(rest) => {
                        assert(before + (seq![w[i as int]] + rest) =~= char_views(result@) + rest);
                    },
                    Err(e) => {},
                }
            }
            i = i + 1;
        }
    }
    proof {
        assert(spaced_from(w, i as int) == Ok::<Seq<Seq<char>>, Seq<char>>(seq![]));
        assert(char_views(result@) + seq![] =~= char_views(result@));
    }
    Ok(result)
}

/// The limits a parsed roll is held to.
pub open spec fn within_limits(d: DiceRoll) -> bool {
    d.count <= 500 && 1 <= d.sides <= 1000
}

/// The base dice of an expression: an alias (expanded and parsed, its
/// modifiers added), or `NdS` / `Nd%` within the limits.
fn parse_base_dice(dice: &mut DiceRoll, part: &Vec<char>, depth: u32) -> (r: Result<(), DiceError>)
    ensures
        match base_spec(part@, depth as nat) {
            Err(e) => r is Err && err_msg(r) == e,
            Ok(b) => r is Ok && final(dice).count == b.0 && final(dice).sides == b.1
                && final(dice).modifiers@.take(old(dice).modifiers@.len() as int) == old(dice).modifiers@
                && mods_shaped(final(dice).modifiers@.skip(old(dice).modifiers@.len() as int), b.2),
        },
        r is Ok ==> within_limits(*final(dice)),
        r is Ok ==> final(dice).label == old(dice).label && final(dice).comment == old(dice).comment,
        r is Ok ==> final(dice).private == old(dice).private && final(dice).simple == old(dice).simple,
        r is Ok ==> final(dice).no_results == old(dice).no_results && final(dice).unsorted == old(dice).unsorted,
        r is Ok ==> final(dice).original_expression == old(dice).original_expression,
    decreases depth, 0int,
{
    if depth > 0 {
        if let Some(expanded) = expand_alias_chars(part.as_slice()) {
            assert(crate::dice::aliases::alias_expansion(part@) == Some(expanded@));
            assert(base_spec(part@, depth as nat) == match single_spec(expanded@, (depth - 1) as nat) {
                Ok(r) => Ok((r.count, r.sides, r.mods)),
                Err(e) => Err(e),
            });
            let inner = parse_single_dice_expression(&expanded, depth - 1)?;
            let ghost old_mods = dice.modifiers@;
            dice.count = inner.count;
            dice.sides = inner.sides;
            let mut inner_mods = inner.modifiers;
            let ghost im = inner_mods@;
            dice.modifiers.append(&mut inner_mods);
            assert(dice.modifiers@.take(old_mods.len() as int) =~= old_mods);
            assert(dice.modifiers@.skip(old_mods.len() as int) =~= im);
            return Ok(());
        }
    }
    match match_dice_only(part.as_slice()) {
        Some((count, sides)) => {
            let c = read_count(&count);
            let s = if sides.len() == 1 && sides[0] == '%' {
                100
            } else {
                match parse_u32_chars(sides.as_slice()) {
                    Some(v) => v,
                    None => {
                        return Err(DiceError::from_str("Invalid dice sides"));
                    },
                }
            };
            dice.count = c;
            dice.sides = s;
            if c > 500 {
                return Err(DiceError::from_str("Maximum 500 dice allowed"));
            }
            if s < 1 {
                return Err(DiceError::from_str("Dice must have at least 1 side"));
            }
            if s > 1000 {
                return Err(DiceError::from_str("Maximum 1000 sides allowed"));
            }
            Ok(())
        },
        None => Err(err_text("Invalid dice expression: ", part.as_slice())),
    }
}

/// An operator word followed by its operand (`+`, `5` or `+`, `2d6`);
/// the number of parts consumed, or `None` when the parts are not that.
fn try_parse_operator_modifier(dice: &mut DiceRoll, parts: &Vec<Vec<char>>, i: usize) -> (r: Result<Option<usize>, DiceError>)
    requires
        i < parts@.len(),
    ensures
        match operator_spec(char_views(parts@), i as int) {
            Err(e) => r is Err && err_msg(r) == e,
            Ok(None) => r == Ok::<Option<usize>, DiceError>(None) && final(dice).modifiers == old(dice).modifiers,
            Ok(Some(m)) => r == Ok::<Option<usize>, DiceError>(Some(2usize)) && final(dice).modifiers@.len()
                == old(dice).modifiers@.len() + 1 && final(dice).modifiers@.drop_last() == old(dice).modifiers@
                && has_shape(final(dice).modifiers@.last(), m),
        },
        r matches Ok(Some(n)) ==> n == 2 && i + 2 <= parts@.len(),
        final(dice).count == old(dice).count && final(dice).sides == old(dice).sides,
        final(dice).label == old(dice).label && final(dice).comment == old(dice).comment,
        final(dice).private == old(dice).private && final(dice).simple == old(dice).simple,
        final(dice).no_results == old(dice).no_results && final(dice).unsorted == old(dice).unsorted,
        final(dice).original_expression == old(dice).original_expression,
{
    let ghost ps = char_views(parts@);
    if i >= parts.len() - 1 {
        return Ok(None);
    }
    let op = &parts[i];
    let next = &parts[i + 1];
    assert(op@ == ps[i as int] && next@ == ps[i + 1]);
    if op.len() != 1 {
        return Ok(None);
    }
    let c = op[0];
    let num = parse_i32_chars(next.as_slice());
    let m: Option<Modifier> = if c == '+' || c == '-' {
        match num {
            Some(v) => Some(if c == '+' { Modifier::Add(v) } else { Modifier::Subtract(v) }),
            None => if is_dice_expression(next.as_slice()) {
                let d = parse_dice_expression_only(next.as_slice())?;
                Some(if c == '+' { Modifier::AddDice(d) } else { Modifier::SubtractDice(d) })
            } else {
                None
            },
        }
    } else if c == '*' || c == '/' {
        match num {
            Some(v) => Some(if c == '*' { Modifier::Multiply(v) } else { Modifier::Divide(v) }),
            None => None,
        }
    } else {
        None
    };
    match m {
        Some(modifier) => {
            dice.modifiers.push(modifier);
            Ok(Some(2))
        },
        None => Ok(None),
    }
}

/// The modifier parts, from `from` on, in order.
fn parse_all_modifiers(dice: &mut DiceRoll, parts: &Vec<Vec<char>>, from: usize) -> (r: Result<(), DiceError>)
    requires
        from >= 1,
    ensures
        match mods_spec(char_views(parts@), from as int) {
            Err(e) => r is Err && err_msg(r) == e,
            Ok(ms) => r is Ok && final(dice).modifiers@.take(old(dice).modifiers@.len() as int) == old(dice).modifiers@
                && mods_shaped(final(dice).modifiers@.skip(old(dice).modifiers@.len() as int), ms),
        },
        r is Ok ==> final(dice).modifiers@.len() >= old(dice).modifiers@.len(),
        final(dice).count == old(dice).count && final(dice).sides == old(dice).sides,
        final(dice).label == old(dice).label && final(dice).comment == old(dice).comment,
        final(dice).private == old(dice).private && final(dice).simple == old(dice).simple,
        final(dice).no_results == old(dice).no_results && final(dice).unsorted == old(dice).unsorted,
        final(dice).original_expression == old(dice).original_expression,
{
    let ghost ps = char_views(parts@);
    let ghost n0 = old(dice).modifiers@.len() as int;
    let ghost mut done: Seq<ModShape> = seq![];
    let mut i = from;
    assert(dice.modifiers@.skip(n0) =~= Seq::<Modifier>::empty());
    assert(dice.modifiers@.take(n0) =~= old(dice).modifiers@);
    assert(prepend(done, mods_spec(ps, i as int)) =~= mods_spec(ps, from as int)) by {
        match mods_spec(ps, i as int) {
            Ok(x) => {
                assert(done + x =~= x);
            },
            Err(e) => {},
        }
    }
    while i < parts.len()
        invariant
            from <= i,
            ps == char_views(parts@),
            n0 == old(dice).modifiers@.len(),
            dice.modifiers@.len() >= n0,
            dice.modifiers@.take(n0) == old(dice).modifiers@,
            mods_shaped(dice.modifiers@.skip(n0), done),
            prepend(done, mods_spec(ps, i as int)) == mods_spec(ps, from as int),
            dice.count == old(dice).count && dice.sides == old(dice).sides,
            dice.label == old(dice).label && dice.comment == old(dice).comment,
            dice.private == old(dice).private && dice.simple == old(dice).simple,
            dice.no_results == old(dice).no_results && dice.unsorted == old(dice).unsorted,
            dice.original_expression == old(dice).original_expression,
        decreases parts.len() - i,
    {
        let ghost before = dice.modifiers@;
        let op = try_parse_operator_modifier(dice, parts, i)?;
        if let Some(consumed) = op {
            proof {
                let m = operator_spec(ps, i as int)->Ok_0->Some_0;
                assert(dice.modifiers@.skip(n0) =~= before.skip(n0).push(dice.modifiers@.last()));
                assert(dice.modifiers@.take(n0) =~= before.take(n0));
                match mods_spec(ps, i + 2) {
                    Ok(x) => {
                        assert(done + (seq![m] + x) =~= done.push(m) + x);
                    },
                    Err(e) => {},
                }
                done = done.push(m);
            }
            i = i + consumed;
        } else {
            let split = split_combined_modifiers(parts[i].as_slice());
            let ghost sv = char_views(split@);
            assert(parts@[i as int]@ == ps[i as int]);
            let mut k: usize = 0;
            let ghost mut got: Seq<ModShape> = seq![];
            assert(sv.skip(0) =~= sv);
            assert(prepend(got, tokens_mods(sv.skip(0))) =~= tokens_mods(sv)) by {
                match tokens_mods(sv) {
                    Ok(x) => {
                        assert(got + x =~= x);
                    },
                    Err(e) => {},
                }
            }
            while k < split.len()
                invariant
                    k <= split@.len(),
                    i < parts@.len(),
                    sv == char_views(split@),
                    ps == char_views(parts@),
                    sv == combined_split(ps[i as int]),
                    operator_spec(ps, i as int) == Ok::<Option<ModShape>, Seq<char>>(None),
                    prepend(done, mods_spec(ps, i as int)) == mods_spec(ps, from as int),
                    n0 == old(dice).modifiers@.len(),
                    dice.modifiers@.len() >= n0,
                    dice.modifiers@.take(n0) == old(dice).modifiers@,
                    mods_shaped(dice.modifiers@.skip(n0), done + got),
                    prepend(got, tokens_mods(sv.skip(k as int))) == tokens_mods(sv),
                    dice.count == old(dice).count && dice.sides == old(dice).sides,
                    dice.label == old(dice).label && dice.comment == old(dice).comment,
                    dice.private == old(dice).private && dice.simple == old(dice).simple,
                    dice.no_results == old(dice).no_results && dice.unsorted == old(dice).unsorted,
                    dice.original_expression == old(dice).original_expression,
                decreases split.len() - k,
            {
                let ghost before_k = dice.modifiers@;
                assert(split@[k as int]@ == sv.skip(k as int)[0]);
                assert(sv.skip(k as int).drop_first() =~= sv.skip(k + 1));
                let m = match parse_modifier(split[k].as_slice()) {
                    Ok(m) => m,
                    Err(e) => {
                        proof {
                            assert(tokens_mods(sv.skip(k as int)) == Err::<Seq<ModShape>, Seq<char>>(e.message@));
                            assert(tokens_mods(sv) == Err::<Seq<ModShape>, Seq<char>>(e.message@));
                            assert(mods_spec(ps, i as int) == Err::<Seq<ModShape>, Seq<char>>(e.message@));
                        }
                        return Err(e);
                    },
                };
                dice.modifiers.push(m);
                proof {
                    let sh = modifier_spec(sv[k as int])->Ok_0;
                    assert(dice.modifiers@.skip(n0) =~= before_k.skip(n0).push(m));
                    assert(dice.modifiers@.take(n0) =~= before_k.take(n0));
                    match tokens_mods(sv.skip(k + 1)) {
                        Ok(x) => {
                            assert(got + (seq![sh] + x) =~= got.push(sh) + x);
                        },
                        Err(e) => {},
                    }
                    assert(done + got.push(sh) =~= (done + got).push(sh));
                    got = got.push(sh);
                }
                k = k + 1;
            }
            proof {
                assert(sv.skip(k as int) =~= Seq::<Seq<char>>::empty());
                assert(tokens_mods(sv) == Ok::<Seq<ModShape>, Seq<char>>(got)) by {
                    assert(got + seq![] =~= got);
                }
                match mods_spec(ps, i + 1) {
                    Ok(x) => {
                        assert(done + (got + x) =~= (done + got) + x);
                    },
                    Err(e) => {},
                }
                done = done + got;
            }
            i = i + 1;
        }
    }
    proof {
        assert(done + seq![] =~= done);
    }
    Ok(())
}

/// An expression whose first word is an alias, with that word expanded.
fn try_expand_expression_with_alias(input: &Vec<char>) -> (r: Option<Vec<char>>)
    ensures
        crate::dice::aliases::opt_chars(r) == expression_alias(input@),
{
    let ws = split_words(input.as_slice());
    let ghost w = char_views(ws@);
    proof {
        assert(ws@.map_values(|x: Vec<char>| x@) == w);
    }
    if ws.len() == 0 {
        return None;
    }
    match expand_alias_chars(ws[0].as_slice()) {
        Some(expanded) => {
            let mut result = expanded;
            let ghost e = result@;
            let mut i: usize = 1;
            assert(w.skip(1).take(0) =~= Seq::<Seq<char>>::empty());
            while i < ws.len()
                invariant
                    1 <= i <= ws@.len(),
                    w == char_views(ws@),
                    result@ == e + spaced_tail(w.skip(1).take(i - 1)),
                decreases ws.len() - i,
            {
                assert(w.skip(1).take(i as int).drop_last() =~= w.skip(1).take(i - 1));
                result.push(' ');
                let mut more = ws[i].clone();
                result.append(&mut more);
                i = i + 1;
            }
            assert(w.skip(1).take(ws@.len() - 1) =~= w.skip(1));
            Some(result)
        },
        None => None,
    }
}

/// An expression parsed without first trying it as an alias.
#[verifier::rlimit(40)]
fn parse_expression_without_alias_check(input: &Vec<char>, depth: u32) -> (r: Result<DiceRoll, DiceError>)
    ensures
        match expr_spec(input@, depth as nat) {
            Err(e) => r is Err && err_msg(r) == e,
            Ok(b) => r matches Ok(d) && d.count == b.0 && d.sides == b.1 && mods_shaped(d.modifiers@, b.2),
        },
        r matches Ok(d) ==> within_limits(d) && d.label is None && d.comment is None && d.original_expression is None,
        r matches Ok(d) ==> !d.private && !d.simple && !d.no_results && !d.unsorted,
    decreases depth, 1int,
{
    let mut dice = new_roll();
    let parts = if chars_has(input.as_slice(), ' ') {
        parse_space_separated_expression(input)?
    } else {
        split_dice_and_modifiers(input)?
    };
    let ghost ps = char_views(parts@);
    if parts.len() == 0 {
        return Err(DiceError::from_str("No dice expression found"));
    }
    assert(parts@[0]@ == ps[0]);
    parse_base_dice(&mut dice, &parts[0], depth)?;
    let ghost base_mods = dice.modifiers@;
    proof {
        assert(base_mods.skip(0) =~= base_mods);
    }
    parse_all_modifiers(&mut dice, &parts, 1)?;
    proof {
        let b = base_spec(ps[0], depth as nat)->Ok_0;
        let ms = mods_spec(ps, 1)->Ok_0;
        crate::dice::grammar::lemma_mods_shaped_concat(dice.modifiers@, base_mods.len() as int, b.2, ms);
    }
    Ok(dice)
}

/// One roll: flags, label and comment, then the expression (with its first
/// word expanded when it is an alias).
fn parse_single_dice_expression(input: &Vec<char>, depth: u32) -> (r: Result<DiceRoll, DiceError>)
    ensures
        match single_spec(input@, depth as nat) {
            Err(e) => r is Err && err_msg(r) == e,
            Ok(sh) => r matches Ok(d) && shaped(d, sh),
        },
        r matches Ok(d) ==> within_limits(d) && d.original_expression is None,
    decreases depth, 2int,
{
    let mut dice = new_roll();
    let trimmed = trim_chars(input.as_slice());
    let r1 = parse_flags(&mut dice, &trimmed);
    let r2 = parse_label(&mut dice, &r1);
    let remaining = parse_comment(&mut dice, &r2);
    if let Some(expanded) = try_expand_expression_with_alias(&remaining) {
        if let Some(_) = match_set(&expanded) {
            return Err(err_text("NEEDS_SET_PARSING: ", expanded.as_slice()));
        }
        let mut expanded_dice = parse_expression_without_alias_check(&expanded, depth)?;
        expanded_dice.private = dice.private;
        expanded_dice.simple = dice.simple;
        expanded_dice.no_results = dice.no_results;
        expanded_dice.unsorted = dice.unsorted;
        expanded_dice.comment = dice.comment;
        expanded_dice.label = dice.label;
        return Ok(expanded_dice);
    }
    let mut d = parse_expression_without_alias_check(&remaining, depth)?;
    d.private = dice.private;
    d.simple = dice.simple;
    d.no_results = dice.no_results;
    d.unsorted = dice.unsorted;
    d.comment = dice.comment;
    d.label = dice.label;
    Ok(d)
}

/// `text` split at every `;`.
fn split_semicolons(text: &Vec<char>) -> (parts: Vec<Vec<char>>)
    ensures
        char_views(parts@) == semi_parts(text@),
        parts@.len() == semicolons(text@) + 1,
{
    let mut parts: Vec<Vec<char>> = Vec::new();
    let mut cur: Vec<char> = Vec::new();
    let mut i: usize = 0;
    assert(char_views(parts@).push(cur@) =~= semi_parts(text@.take(0)));
    while i < text.len()
        invariant
            i <= text@.len(),
            parts@.len() == semicolons(text@.take(i as int)),
            char_views(parts@).push(cur@) == semi_parts(text@.take(i as int)),
        decreases text.len() - i,
    {
        assert(text@.take(i + 1).drop_last() =~= text@.take(i as int));
        let ghost before = char_views(parts@);
        let ghost cur0 = cur@;
        if text[i] == ';' {
            let mut done: Vec<char> = Vec::new();
            std::mem::swap(&mut done, &mut cur);
            parts.push(done);
            assert(char_views(parts@) =~= before.push(cur0));
        } else {
            cur.push(text[i]);
            assert(char_views(parts@).push(cur@) =~= before.push(cur0).update(
                before.len() as int,
                cur0.push(text@[i as int]),
            ));
        }
        i = i + 1;
    }
    assert(text@.take(text@.len() as int) =~= text@);
    let ghost fin = char_views(parts@).push(cur@);
    parts.push(cur);
    assert(char_views(parts@) =~= fin);
    parts
}

/// Number of `;` in `s`.
pub open spec fn semicolons(s: Seq<char>) -> nat
    decreases s.len(),
{
    if s.len() == 0 {
        0
    } else {
        semicolons(s.drop_last()) + if s.last() == ';' { 1nat } else { 0nat }
    }
}

fn count_semicolons(text: &Vec<char>) -> (n: usize)
    ensures
        n == semicolons(text@),
{
    let mut n: usize = 0;
    let mut i: usize = 0;
    while i < text.len()
        invariant
            i <= text@.len(),
            n == semicolons(text@.take(i as int)),
            n <= i,
        decreases text.len() - i,
    {
        assert(text@.take(i + 1).drop_last() =~= text@.take(i as int));
        if text[i] == ';' {
            n = n + 1;
        }
        i = i + 1;
    }
    assert(text@.take(text@.len() as int) =~= text@);
    n
}

/// The rolls are those the shapes describe, one for one.
pub open spec fn all_shaped(v: Seq<DiceRoll>, shapes: Seq<RollShape>) -> bool {
    v.len() == shapes.len() && forall|k: int| 0 <= k < v.len() ==> shaped(#[trigger] v[k], shapes[k])
}

/// `count` copies of `expr`, labelled `Set 1` to `Set count`.
fn parse_set(count_text: &Vec<char>, expr: &Vec<char>) -> (r: Result<Vec<DiceRoll>, DiceError>)
    ensures
        match set_spec(count_text@, expr@) {
            Err(e) => r is Err && err_msg(r) == e,
            Ok(v) => r matches Ok(x) && all_shaped(x@, v),
        },
        r matches Ok(v) ==> 2 <= v@.len() <= 20 && forall|k: int| 0 <= k < v@.len() ==> within_limits(#[trigger] v@[k])
            && v@[k].original_expression is None,
{
    let count = match parse_u32_chars(count_text.as_slice()) {
        Some(c) => c,
        None => {
            return Err(DiceError::from_str("Invalid set count"));
        },
    };
    if count < 2 || count > 20 {
        return Err(DiceError::from_str("Set count must be between 2 and 20"));
    }
    let mut results: Vec<DiceRoll> = Vec::new();
    let mut i: u32 = 0;
    while i < count
        invariant
            i <= count <= 20,
            2 <= count,
            parse_u32(count_text@) == Some(count),
            results@.len() == i,
            forall|k: int| 0 <= k < results@.len() ==> within_limits(#[trigger] results@[k])
                && results@[k].original_expression is None,
            i > 0 ==> single_spec(expr@, 8) is Ok,
            forall|k: int| 0 <= k < results@.len() ==> shaped(
                #[trigger] results@[k],
                RollShape { label: Some("Set "@ + int_str(k + 1)), ..single_spec(expr@, 8)->Ok_0 },
            ),
        decreases count - i,
    {
        let mut dice = parse_single_dice_expression(expr, ALIAS_DEPTH)?;
        let label = crate::text::cat_nat("Set ", (i + 1) as u64, "");
        proof {
            reveal_strlit("");
            assert(label@ =~= "Set "@ + int_str(i + 1));
        }
        dice.label = Some(label);
        let ghost before = results@;
        results.push(dice);
        assert forall|k: int| 0 <= k < results@.len() implies shaped(
            #[trigger] results@[k],
            RollShape { label: Some("Set "@ + int_str(k + 1)), ..single_spec(expr@, 8)->Ok_0 },
        ) by {
            if k < before.len() {
                assert(results@[k] == before[k]);
            }
        }
        i = i + 1;
    }
    proof {
        let sh = single_spec(expr@, 8)->Ok_0;
        let want = Seq::new(count as nat, |i: int| RollShape { label: Some("Set "@ + int_str(i + 1)), ..sh });
        assert(set_spec(count_text@, expr@) == Ok::<Seq<RollShape>, Seq<char>>(want));
        assert forall|k: int| 0 <= k < results@.len() implies shaped(#[trigger] results@[k], want[k]) by {
            assert(want[k] == RollShape { label: Some("Set "@ + int_str(k + 1)), ..sh });
        }
    }
    Ok(results)
}

/// One `;`-free part of a request: a set, an alias that expands to a set
/// (keeping the flags and comment written around it), or a single roll.
fn parse_part(input: &Vec<char>) -> (r: Result<Vec<DiceRoll>, DiceError>)
    ensures
        match part_spec(input@) {
            Err(e) => r is Err && err_msg(r) == e,
            Ok(v) => r matches Ok(x) && all_shaped(x@, v),
        },
        r matches Ok(v) ==> 1 <= v@.len() <= 20 && forall|k: int| 0 <= k < v@.len() ==> within_limits(#[trigger] v@[k])
            && v@[k].original_expression is None,
{
    reveal(part_spec);
    if let Some((count, expr)) = match_set(input) {
        return parse_set(&count, &expr);
    }
    let mut temp = new_roll();
    let r1 = parse_flags(&mut temp, input);
    let r2 = parse_label(&mut temp, &r1);
    let remaining = parse_comment(&mut temp, &r2);
    let ghost f = flags_spec(input@);
    let ghost c = comment_spec(label_spec(f.4).1);
    if let Some(expanded) = expand_alias_chars(remaining.as_slice()) {
        if let Some((count, expr)) = match_set(&expanded) {
            let mut sets = parse_set(&count, &expr)?;
            let ghost v = set_spec(count@, expr@)->Ok_0;
            let ghost want = v.map_values(
                |r: RollShape|
                    RollShape {
                        private: f.0,
                        simple: f.1,
                        no_results: f.2,
                        unsorted: f.3,
                        comment: if c.0 is Some { c.0 } else { r.comment },
                        ..r
                    },
            );
            let mut i: usize = 0;
            while i < sets.len()
                invariant
                    i <= sets@.len(),
                    2 <= sets@.len() <= 20,
                    v.len() == sets@.len(),
                    want.len() == v.len(),
                    forall|k: int| 0 <= k < v.len() ==> #[trigger] want[k] == (RollShape {
                        private: f.0,
                        simple: f.1,
                        no_results: f.2,
                        unsorted: f.3,
                        comment: if c.0 is Some { c.0 } else { v[k].comment },
                        ..v[k]
                    }),
                    temp.private == f.0 && temp.simple == f.1 && temp.no_results == f.2 && temp.unsorted == f.3,
                    match c.0 {
                        Some(t) => opt_text(temp.comment) == Some(t),
                        None => temp.comment is None,
                    },
                    forall|k: int| 0 <= k < i ==> shaped(#[trigger] sets@[k], want[k]),
                    forall|k: int| i <= k < sets@.len() ==> shaped(#[trigger] sets@[k], v[k]),
                    forall|k: int| 0 <= k < sets@.len() ==> within_limits(#[trigger] sets@[k])
                        && sets@[k].original_expression is None,
                decreases sets.len() - i,
            {
                let ghost before = sets@;
                let mut d = sets.remove(i);
                d.private = temp.private;
                d.simple = temp.simple;
                d.no_results = temp.no_results;
                d.unsorted = temp.unsorted;
                if temp.comment.is_some() {
                    d.comment = crate::dice::clone_opt_string(&temp.comment);
                }
                sets.insert(i, d);
                assert forall|k: int| 0 <= k < sets@.len() && k != i implies sets@[k] == before[k] by {}
                i = i + 1;
            }
            return Ok(sets);
        }
    }
    let single = parse_single_dice_expression(input, ALIAS_DEPTH)?;
    let v = vec![single];
    proof {
        reveal(single_spec);
    }
    Ok(v)
}

/// The rolls of a request: up to four `;`-separated parts, each a single
/// roll or a set of 2 to 20; every roll within the dice limits (at most 500
/// dice of 1 to 1000 sides).
pub fn parse_dice_string(input: &str) -> (r: Result<Vec<DiceRoll>, DiceError>)
    ensures
        match request_spec(input@) {
            Err(e) => r is Err && err_msg(r) == e,
            Ok(v) => r matches Ok(x) && all_shaped(x@, v),
        },
        semicolons(trim_seq(input@)) > 3 ==> r is Err && err_msg(r) == "Maximum of 4 separate rolls allowed"@,
        r matches Ok(v) ==> 1 <= v@.len() <= 80 && forall|k: int| 0 <= k < v@.len() ==> within_limits(#[trigger] v@[k]),
        r matches Ok(v) ==> semicolons(trim_seq(input@)) == 0 ==> forall|k: int| 0 <= k < v@.len() ==> (#[trigger] v@[k]).original_expression is None,
{
    let chars = str_chars(input);
    let text = trim_chars(chars.as_slice());
    assert(text@ == trim_seq(input@));
    let n_semis = count_semicolons(&text);
    if n_semis > 0 {
        if n_semis > 3 {
            return Err(DiceError::from_str("Maximum of 4 separate rolls allowed"));
        }
        let parts = split_semicolons(&text);
        let ghost ps = char_views(parts@);
        let mut results: Vec<DiceRoll> = Vec::new();
        let ghost mut got: Seq<RollShape> = seq![];
        let mut i: usize = 0;
        assert(parts_spec(ps, 0) == prepend_rolls(got, parts_spec(ps, 0))) by {
            match parts_spec(ps, 0) {
                Ok(x) => {
                    assert(got + x =~= x);
                },
                Err(e) => {},
            }
        }
        while i < parts.len()
            invariant
                i <= parts@.len(),
                parts@.len() <= 4,
                ps == char_views(parts@),
                ps == semi_parts(text@),
                text@ == trim_seq(input@),
                0 < semicolons(trim_seq(input@)) <= 3,
                i <= results@.len() <= 20 * i,
                forall|k: int| 0 <= k < results@.len() ==> within_limits(#[trigger] results@[k]),
                all_shaped(results@, got),
                prepend_rolls(got, parts_spec(ps, i as int)) == parts_spec(ps, 0),
            decreases parts.len() - i,
        {
            assert(parts@[i as int]@ == ps[i as int]);
            let part = trim_chars(parts[i].as_slice());
            let mut sub = match parse_part(&part) {
                Ok(x) => x,
                Err(e) => {
                    proof {
                        assert(part@ == trim_seq(ps[i as int]));
                        assert(parts_spec(ps, i as int) == Err::<Seq<RollShape>, Seq<char>>(e.message@));
                        assert(parts_spec(ps, 0) == Err::<Seq<RollShape>, Seq<char>>(e.message@));
                    }
                    return Err(e);
                },
            };
            let ghost v = part_spec(part@)->Ok_0;
            let ghost want = v.map_values(|r: RollShape| RollShape { original: Some(part@), ..r });
            let mut k: usize = 0;
            while k < sub.len()
                invariant
                    k <= sub@.len(),
                    1 <= sub@.len() <= 20,
                    v.len() == sub@.len(),
                    want.len() == v.len(),
                    forall|j: int| 0 <= j < v.len() ==> #[trigger] want[j] == (RollShape { original: Some(part@), ..v[j] }),
                    forall|j: int| 0 <= j < sub@.len() ==> within_limits(#[trigger] sub@[j]),
                    forall|j: int| 0 <= j < k ==> shaped(#[trigger] sub@[j], want[j]),
                    forall|j: int| k <= j < sub@.len() ==> shaped(#[trigger] sub@[j], v[j]),
                decreases sub.len() - k,
            {
                let ghost before = sub@;
                let mut d = sub.remove(k);
                d.original_expression = Some(chars_to_string(part.as_slice()));
                sub.insert(k, d);
                assert forall|j: int| 0 <= j < sub@.len() && j != k implies sub@[j] == before[j] by {}
                k = k + 1;
            }
            let ghost before_results = results@;
            let ghost sub_v = sub@;
            results.append(&mut sub);
            proof {
                assert(results@ =~= before_results + sub_v);
                assert forall|j: int| 0 <= j < results@.len() implies shaped(#[trigger] results@[j], (got + want)[j]) by {
                    if j < before_results.len() {
                        assert(results@[j] == before_results[j]);
                    } else {
                        assert(results@[j] == sub_v[j - before_results.len()]);
                    }
                }
                match parts_spec(ps, i + 1) {
                    Ok(x) => {
                        assert(got + (want + x) =~= (got + want) + x);
                    },
                    Err(e) => {},
                }
                got = got + want;
            }
            i = i + 1;
        }
        proof {
            assert(got + seq![] =~= got);
        }
        return Ok(results);
    }
    parse_part(&text)
}

} // verus!
