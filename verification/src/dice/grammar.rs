//! The request grammar as the parser's contracts state it: what each stage
//! of `parse_dice_string` reads from the text, and the rolls a whole request
//! stands for.

use vstd::prelude::*;
use crate::dice::aliases::{alias_expansion, ws_run};
use crate::dice::parser::{
    combined_split, dice_count_of, dice_only, digit_run, has_shape, modifier_spec, semicolons, token_len_at,
    ModShape,
};
use crate::dice::{DiceRoll, Modifier};
use crate::dice::systems::opt_text;
use crate::text::{int_str, join_seqs, parse_i32, parse_u32, starts_with, trim_seq, words};

verus! {

/// The display flags at the front of a roll, each looked for once in the
/// order `p `, `s `, `nr `, `ul `, then a lone `!`: which were set (private,
/// simple, no results, unsorted) and the text after them.
pub open spec fn flags_spec(text: Seq<char>) -> (bool, bool, bool, bool, Seq<char>) {
    let p = text.len() >= 2 && starts_with(text, "p "@);
    let r1 = if p { text.skip(2) } else { text };
    let s = r1.len() >= 2 && starts_with(r1, "s "@);
    let r2 = if s { r1.skip(2) } else { r1 };
    let nr = r2.len() >= 3 && starts_with(r2, "nr "@);
    let r3 = if nr { r2.skip(3) } else { r2 };
    let ul = r3.len() >= 3 && starts_with(r3, "ul "@);
    let r4 = if ul { r3.skip(3) } else { r3 };
    let r5 = if r4.len() >= 1 && r4[0] == '!' { r4.skip(1) } else { r4 };
    (p, s, nr, ul, r5)
}

/// Number of characters from `i` on before the first `)`.
pub open spec fn until_close(s: Seq<char>, i: int) -> nat
    decreases s.len() - i,
{
    if 0 <= i < s.len() && s[i] != ')' {
        1 + until_close(s, i + 1)
    } else {
        0
    }
}

/// `(label)` at the front: the label (at least one character, no `)`) and
/// the text after it and any whitespace; no label where the text does not
/// start so.
pub open spec fn label_spec(text: Seq<char>) -> (Option<Seq<char>>, Seq<char>) {
    if text.len() < 3 || text[0] != '(' {
        (None, text)
    } else {
        let j: int = 1 + until_close(text, 1) as int;
        if j >= text.len() || j == 1 {
            (None, text)
        } else {
            let k: int = j + 1 + ws_run(text, j + 1) as int;
            (Some(text.subrange(1, j)), text.skip(k))
        }
    }
}

/// Index of the last line break after `from` (`from` itself when there is
/// none).
pub open spec fn last_break(s: Seq<char>, from: int) -> int
    decreases s.len(),
{
    if s.len() == 0 || s.len() <= from + 1 {
        from
    } else if s.last() == '\n' {
        s.len() - 1
    } else {
        last_break(s.drop_last(), from)
    }
}

/// The comment of `! comment` whose `!` is at `bang`: after the `!` and any
/// whitespace, the rest of the text, which must hold no line break; a
/// single last character counts when only whitespace came between.
pub open spec fn comment_at_spec(text: Seq<char>, bang: int) -> Option<Seq<char>> {
    let n = text.len() as int;
    let nl = last_break(text, bang);
    let j: int = bang + 1 + ws_run(text, bang + 1) as int;
    if j <= nl {
        None
    } else if j < n {
        Some(text.skip(j))
    } else if n - bang >= 2 && text[n - 1] != '\n' && j - 1 > nl {
        Some(text.subrange(n - 1, n))
    } else {
        None
    }
}

/// Index of the first `!` from `i` on that starts a comment.
pub open spec fn first_comment(text: Seq<char>, i: int) -> Option<int>
    decreases text.len() - i,
{
    if i < 0 || i >= text.len() {
        None
    } else if text[i] == '!' && comment_at_spec(text, i) is Some {
        Some(i)
    } else {
        first_comment(text, i + 1)
    }
}

/// `! comment`: the comment and, trimmed, the text before its `!`; the text
/// unchanged where there is none.
pub open spec fn comment_spec(text: Seq<char>) -> (Option<Seq<char>>, Seq<char>) {
    match first_comment(text, 0) {
        Some(i) => (comment_at_spec(text, i), trim_seq(text.take(i))),
        None => (None, text),
    }
}

/// `^(\d+)\s+(.+)$` read as a set: the count's digits and the expression.
pub open spec fn set_match(text: Seq<char>) -> Option<(Seq<char>, Seq<char>)> {
    let n = text.len() as int;
    let d = digit_run(text, 0) as int;
    let w: int = d + ws_run(text, d) as int;
    if d == 0 || w == d {
        None
    } else {
        let start = if w < n {
            w
        } else {
            n - 1
        };
        if w >= n && !(n - d >= 2 && text[n - 1] != '\n') {
            None
        } else if text.skip(start).contains('\n') {
            None
        } else {
            Some((text.take(d), text.skip(start)))
        }
    }
}

/// The text split at every `;`.
pub open spec fn semi_parts(s: Seq<char>) -> Seq<Seq<char>>
    decreases s.len(),
{
    if s.len() == 0 {
        seq![Seq::<char>::empty()]
    } else {
        let p = semi_parts(s.drop_last());
        if s.last() == ';' {
            p.push(Seq::<char>::empty())
        } else {
            p.update(p.len() - 1, p.last().push(s.last()))
        }
    }
}

/// The modifier tokens found scanning `s` from `p` left to right, skipping
/// characters where none begins, and whether no character was skipped.
pub open spec fn tokens_from(s: Seq<char>, p: int) -> (Seq<Seq<char>>, bool)
    decreases s.len() - p,
{
    if p < 0 || p >= s.len() {
        (seq![], true)
    } else {
        match token_len_at(s, p) {
            Some(n) => if n >= 1 && p + n <= s.len() {
                let rest = tokens_from(s, p + n);
                (seq![s.subrange(p, p + n)] + rest.0, rest.1)
            } else {
                (seq![], false)
            },
            None => {
                let rest = tokens_from(s, p + 1);
                (rest.0, false)
            },
        }
    }
}

/// The pieces one after another.
pub open spec fn flatten(parts: Seq<Seq<char>>) -> Seq<char>
    decreases parts.len(),
{
    if parts.len() == 0 {
        Seq::empty()
    } else {
        flatten(parts.drop_last()) + parts.last()
    }
}

pub open spec fn is_operator(c: char) -> bool {
    c == '+' || c == '-' || c == '*' || c == '/'
}

/// A word with no spaces such as `2d20+8` split into the dice and its
/// modifier tokens; `4df+1` into the alias and its tokens; an error where
/// the tokens after `NdS` do not cover the rest of the word.
#[verifier::opaque]
pub open spec fn split_word_spec(input: Seq<char>) -> Result<Seq<Seq<char>>, Seq<char>> {
    let normalized = join_seqs(words(input), seq![' ']);
    let n = normalized.len() as int;
    let k = digit_run(normalized, 0) as int;
    let e = k + 1 + digit_run(normalized, k + 1) as int;
    if normalized.contains(' ') {
        Ok(seq![normalized])
    } else if k < n && normalized[k] == 'd' && e > k + 1 {
        if e == n {
            Ok(seq![normalized.take(e)])
        } else {
            let rest = normalized.skip(e);
            let found = tokens_from(rest, 0);
            let rebuilt = flatten(found.0);
            if !found.1 || rebuilt.len() != rest.len() {
                Err("Unable to parse dice expression: "@ + input + " (parsed: "@ + rebuilt + " vs original: "@
                    + rest + ")"@)
            } else {
                Ok(seq![normalized.take(e)] + found.0)
            }
        }
    } else if n >= 2 && k < n - 2 && normalized[k] == 'd' && normalized[k + 1] == 'f' && is_operator(
        normalized[k + 2],
    ) {
        Ok(seq![normalized.take(k + 2)] + tokens_from(normalized.skip(k + 2), 0).0)
    } else {
        Ok(seq![normalized])
    }
}

/// The words of a spaced expression from `i` on, a lone operator joined to
/// the word after it; an error for an operator with nothing after it.
pub open spec fn spaced_from(w: Seq<Seq<char>>, i: int) -> Result<Seq<Seq<char>>, Seq<char>>
    decreases w.len() - i,
{
    if i < 1 || i >= w.len() {
        Ok(seq![])
    } else if w[i].len() == 1 && is_operator(w[i][0]) {
        if i + 1 < w.len() {
            match spaced_from(w, i + 2) {
                Ok(rest) => Ok(seq![w[i] + w[i + 1]] + rest),
                Err(e) => Err(e),
            }
        } else {
            Err("Operator "@ + w[i] + " has no operand"@)
        }
    } else {
        match spaced_from(w, i + 1) {
            Ok(rest) => Ok(seq![w[i]] + rest),
            Err(e) => Err(e),
        }
    }
}

/// A space-separated expression such as `1d20 + 5` as its parts.
#[verifier::opaque]
pub open spec fn spaced_spec(input: Seq<char>) -> Result<Seq<Seq<char>>, Seq<char>> {
    let w = words(input);
    if w.len() == 0 {
        Ok(seq![])
    } else {
        match spaced_from(w, 1) {
            Ok(rest) => Ok(seq![w[0]] + rest),
            Err(e) => Err(e),
        }
    }
}

/// The words after the first, each after a space.
pub open spec fn spaced_tail(w: Seq<Seq<char>>) -> Seq<char>
    decreases w.len(),
{
    if w.len() == 0 {
        Seq::empty()
    } else {
        spaced_tail(w.drop_last()) + seq![' '] + w.last()
    }
}

/// An expression whose first word is an alias: that word expanded, then the
/// other words.
pub open spec fn expression_alias(input: Seq<char>) -> Option<Seq<char>> {
    let w = words(input);
    if w.len() == 0 {
        None
    } else {
        match alias_expansion(w[0]) {
            Some(e) => Some(e + spaced_tail(w.skip(1))),
            None => None,
        }
    }
}

/// The sides of `NdS` or `Nd%`.
pub open spec fn sides_of(sides: Seq<char>) -> u32 {
    if sides == seq!['%'] {
        100
    } else {
        parse_u32(sides).unwrap()
    }
}

/// An operator word and its operand, at `parts[i]` and `parts[i + 1]`:
/// `+ 5`, `- 2d6`, `* 2`, `/ 3`; `None` where the two parts are not that.
pub open spec fn operator_spec(parts: Seq<Seq<char>>, i: int) -> Result<Option<ModShape>, Seq<char>> {
    if i + 1 >= parts.len() || parts[i].len() != 1 {
        Ok(None)
    } else {
        let c = parts[i][0];
        let next = parts[i + 1];
        let num = parse_i32(next);
        if c == '+' || c == '-' {
            match num {
                Some(v) => Ok(Some(ModShape::Plain(if c == '+' { Modifier::Add(v) } else { Modifier::Subtract(v) }))),
                None => match dice_only(next) {
                    Some(p) => if p.1 != seq!['%'] && parse_u32(p.1) is None {
                        Err("Invalid dice sides"@)
                    } else if c == '+' {
                        Ok(Some(ModShape::AddDice(dice_count_of(p.0), sides_of(p.1))))
                    } else {
                        Ok(Some(ModShape::SubtractDice(dice_count_of(p.0), sides_of(p.1))))
                    },
                    None => Ok(None),
                },
            }
        } else if c == '*' || c == '/' {
            match num {
                Some(v) => Ok(Some(ModShape::Plain(if c == '*' { Modifier::Multiply(v) } else { Modifier::Divide(v) }))),
                None => Ok(None),
            }
        } else {
            Ok(None)
        }
    }
}

/// `front` before what `r` reads, or `r`'s error.
pub open spec fn prepend(front: Seq<ModShape>, r: Result<Seq<ModShape>, Seq<char>>) -> Result<Seq<ModShape>, Seq<char>> {
    match r {
        Ok(rest) => Ok(front + rest),
        Err(e) => Err(e),
    }
}

/// Each token read as a modifier, in order; the first error stops it.
pub open spec fn tokens_mods(tokens: Seq<Seq<char>>) -> Result<Seq<ModShape>, Seq<char>>
    decreases tokens.len(),
{
    if tokens.len() == 0 {
        Ok(seq![])
    } else {
        match modifier_spec(tokens[0]) {
            Err(e) => Err(e),
            Ok(m) => match tokens_mods(tokens.drop_first()) {
                Ok(rest) => Ok(seq![m] + rest),
                Err(e) => Err(e),
            },
        }
    }
}

/// The modifier parts of an expression from `parts[i]` on: an operator word
/// with its operand, or a word split into the modifiers it combines.
pub open spec fn mods_spec(parts: Seq<Seq<char>>, i: int) -> Result<Seq<ModShape>, Seq<char>>
    decreases parts.len() - i,
{
    if i < 0 || i >= parts.len() {
        Ok(seq![])
    } else {
        match operator_spec(parts, i) {
            Err(e) => Err(e),
            Ok(Some(m)) => match mods_spec(parts, i + 2) {
                Ok(rest) => Ok(seq![m] + rest),
                Err(e) => Err(e),
            },
            Ok(None) => match tokens_mods(combined_split(parts[i])) {
                Err(e) => Err(e),
                Ok(ms) => match mods_spec(parts, i + 1) {
                    Ok(rest) => Ok(ms + rest),
                    Err(e) => Err(e),
                },
            },
        }
    }
}

/// A parsed roll as the contracts see it: dice, the modifiers by shape, the
/// comment and label texts, the display flags and the request text it came
/// from.
pub struct RollShape {
    pub count: u32,
    pub sides: u32,
    pub mods: Seq<ModShape>,
    pub comment: Option<Seq<char>>,
    pub label: Option<Seq<char>>,
    pub private: bool,
    pub simple: bool,
    pub no_results: bool,
    pub unsorted: bool,
    pub original: Option<Seq<char>>,
}

/// The modifiers have the shapes, one for one.
pub open spec fn mods_shaped(ms: Seq<Modifier>, shapes: Seq<ModShape>) -> bool {
    ms.len() == shapes.len() && forall|i: int| 0 <= i < ms.len() ==> has_shape(#[trigger] ms[i], shapes[i])
}

/// Modifiers shaped in two runs are shaped by the two runs together.
pub proof fn lemma_mods_shaped_concat(all: Seq<Modifier>, n: int, a: Seq<ModShape>, b: Seq<ModShape>)
    requires
        0 <= n <= all.len(),
        mods_shaped(all.take(n), a),
        mods_shaped(all.skip(n), b),
    ensures
        mods_shaped(all, a + b),
{
    assert forall|k: int| 0 <= k < all.len() implies has_shape(#[trigger] all[k], (a + b)[k]) by {
        if k < n {
            assert(all[k] == all.take(n)[k]);
        } else {
            assert(all[k] == all.skip(n)[k - n]);
        }
    }
}

/// `d` is the roll `s` describes.
pub open spec fn shaped(d: DiceRoll, s: RollShape) -> bool {
    &&& d.count == s.count
    &&& d.sides == s.sides
    &&& mods_shaped(d.modifiers@, s.mods)
    &&& opt_text(d.comment) == s.comment
    &&& opt_text(d.label) == s.label
    &&& d.private == s.private
    &&& d.simple == s.simple
    &&& d.no_results == s.no_results
    &&& d.unsorted == s.unsorted
    &&& opt_text(d.original_expression) == s.original
}

/// The base dice of an expression: an alias, expanded and read as a roll
/// (while `depth` allows), or `NdS` / `Nd%` within the limits.
pub open spec fn base_spec(part: Seq<char>, depth: nat) -> Result<(u32, u32, Seq<ModShape>), Seq<char>>
    decreases depth, 0int,
{
    if depth > 0 && alias_expansion(part) is Some {
        match single_spec(alias_expansion(part).unwrap(), (depth - 1) as nat) {
            Ok(r) => Ok((r.count, r.sides, r.mods)),
            Err(e) => Err(e),
        }
    } else {
        match dice_only(part) {
            None => Err("Invalid dice expression: "@ + part),
            Some(p) => if p.1 != seq!['%'] && parse_u32(p.1) is None {
                Err("Invalid dice sides"@)
            } else {
                let c = dice_count_of(p.0);
                let s = sides_of(p.1);
                if c > 500 {
                    Err("Maximum 500 dice allowed"@)
                } else if s < 1 {
                    Err("Dice must have at least 1 side"@)
                } else if s > 1000 {
                    Err("Maximum 1000 sides allowed"@)
                } else {
                    Ok((c, s, seq![]))
                }
            },
        }
    }
}

/// An expression read without first trying it as an alias: its parts, the
/// base dice, then the modifiers.
pub open spec fn expr_spec(input: Seq<char>, depth: nat) -> Result<(u32, u32, Seq<ModShape>), Seq<char>>
    decreases depth, 1int,
{
    let parts = if input.contains(' ') {
        spaced_spec(input)
    } else {
        split_word_spec(input)
    };
    match parts {
        Err(e) => Err(e),
        Ok(ps) => if ps.len() == 0 {
            Err("No dice expression found"@)
        } else {
            match base_spec(ps[0], depth) {
                Err(e) => Err(e),
                Ok(b) => match mods_spec(ps, 1) {
                    Err(e) => Err(e),
                    Ok(ms) => Ok((b.0, b.1, b.2 + ms)),
                },
            }
        },
    }
}

/// One roll: flags, label and comment, then the expression, its first word
/// expanded when it is an alias (an alias that expands to a set is an error
/// here).
pub open spec fn single_spec(input: Seq<char>, depth: nat) -> Result<RollShape, Seq<char>>
    decreases depth, 2int,
{
    let f = flags_spec(trim_seq(input));
    let l = label_spec(f.4);
    let c = comment_spec(l.1);
    let e = match expression_alias(c.1) {
        Some(x) => if set_match(x) is Some {
            Err("NEEDS_SET_PARSING: "@ + x)
        } else {
            expr_spec(x, depth)
        },
        None => expr_spec(c.1, depth),
    };
    match e {
        Err(msg) => Err(msg),
        Ok(b) => Ok(
            RollShape {
                count: b.0,
                sides: b.1,
                mods: b.2,
                comment: c.0,
                label: l.0,
                private: f.0,
                simple: f.1,
                no_results: f.2,
                unsorted: f.3,
                original: None,
            },
        ),
    }
}

/// `count` copies of `expr`, labelled `Set 1` to `Set count`.
pub open spec fn set_spec(count_text: Seq<char>, expr: Seq<char>) -> Result<Seq<RollShape>, Seq<char>> {
    match parse_u32(count_text) {
        None => Err("Invalid set count"@),
        Some(count) => if count < 2 || count > 20 {
            Err("Set count must be between 2 and 20"@)
        } else {
            match single_spec(expr, 8) {
                Err(e) => Err(e),
                Ok(r) => Ok(
                    Seq::new(
                        count as nat,
                        |i: int| RollShape { label: Some("Set "@ + int_str(i + 1)), ..r },
                    ),
                ),
            }
        },
    }
}

/// One `;`-free part of a request: a set, an alias that expands to a set
/// (taking the flags, and the comment if any, written around it), or one
/// roll.
#[verifier::opaque]
pub open spec fn part_spec(input: Seq<char>) -> Result<Seq<RollShape>, Seq<char>> {
    match set_match(input) {
        Some(m) => set_spec(m.0, m.1),
        None => {
            let f = flags_spec(input);
            let l = label_spec(f.4);
            let c = comment_spec(l.1);
            let x = alias_expansion(c.1);
            if x is Some && set_match(x.unwrap()) is Some {
                let m = set_match(x.unwrap()).unwrap();
                match set_spec(m.0, m.1) {
                    Err(e) => Err(e),
                    Ok(v) => Ok(
                        v.map_values(
                            |r: RollShape|
                                RollShape {
                                    private: f.0,
                                    simple: f.1,
                                    no_results: f.2,
                                    unsorted: f.3,
                                    comment: if c.0 is Some { c.0 } else { r.comment },
                                    ..r
                                },
                        ),
                    ),
                }
            } else {
                match single_spec(input, 8) {
                    Err(e) => Err(e),
                    Ok(r) => Ok(seq![r]),
                }
            }
        },
    }
}

/// The `;`-separated parts from `parts[i]` on, each trimmed and read as a
/// part that remembers its own text.
pub open spec fn parts_spec(parts: Seq<Seq<char>>, i: int) -> Result<Seq<RollShape>, Seq<char>>
    decreases parts.len() - i,
{
    if i < 0 || i >= parts.len() {
        Ok(seq![])
    } else {
        let text = trim_seq(parts[i]);
        match part_spec(text) {
            Err(e) => Err(e),
            Ok(v) => match parts_spec(parts, i + 1) {
                Err(e) => Err(e),
                Ok(rest) => Ok(v.map_values(|r: RollShape| RollShape { original: Some(text), ..r }) + rest),
            },
        }
    }
}

/// `front` before the rolls `r` reads, or `r`'s error.
pub open spec fn prepend_rolls(front: Seq<RollShape>, r: Result<Seq<RollShape>, Seq<char>>) -> Result<Seq<RollShape>, Seq<char>> {
    match r {
        Ok(rest) => Ok(front + rest),
        Err(e) => Err(e),
    }
}

/// A whole request: up to four `;`-separated parts, or one part.
pub open spec fn request_spec(input: Seq<char>) -> Result<Seq<RollShape>, Seq<char>> {
    let text = trim_seq(input);
    if semicolons(text) > 3 {
        Err("Maximum of 4 separate rolls allowed"@)
    } else if semicolons(text) > 0 {
        parts_spec(semi_parts(text), 0)
    } else {
        part_spec(text)
    }
}

} // verus!
