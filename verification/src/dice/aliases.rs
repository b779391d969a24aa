//! Game-system aliases: short user-facing syntax rewritten into a standard
//! `NdS [modifiers]` expression before parsing.

use vstd::prelude::*;
use vstd::string::*;
use crate::dice::parser::skip_digits;
use crate::dice::parser::digit_run;
use crate::text::{
    char_is_digit, char_is_ws, chars_eq_str, digits_value, int_str, is_whitespace, is_digit,
    is_number, lower, lower_seq, nat_str, parse_u32, push_chars, push_nat, push_int, str_chars, sub_chars,
    trim_chars, trim_seq,
};

verus! {

/// The fixed aliases, looked up after the parameterized ones.
pub open spec fn static_alias(s: Seq<char>) -> Option<Seq<char>> {
    if s == "age"@ { Some("2d6 + 1d6"@) }
    else if s == "dndstats"@ { Some("6 4d6 k3"@) }
    else if s == "attack"@ { Some("1d20"@) }
    else if s == "skill"@ { Some("1d20"@) }
    else if s == "save"@ { Some("1d20"@) }
    else if s == "gb"@ { Some("1d20 gb"@) }
    else if s == "gbs"@ { Some("1d20 gbs"@) }
    else if s == "hsn"@ { Some("1d6 hsn"@) }
    else if s == "hsk"@ { Some("1d6 hsk"@) }
    else if s == "hsh"@ { Some("3d6 hsh"@) }
    else if s == "3df"@ { Some("3d3 fudge"@) }
    else if s == "4df"@ { Some("4d3 fudge"@) }
    else if s == "dh"@ { Some("1d10 dh"@) }
    else if s == "wng"@ { Some("1d6 wng"@) }
    else if s == "conan"@ { Some("2d20 conan"@) }
    else if s == "cd"@ { Some("1d6 cd"@) }
    else if s == "sil"@ { Some("1d6 sil1"@) }
    else if s == "fitd1"@ { Some("1d6 fitd"@) }
    else if s == "fitd2"@ { Some("2d6 fitd"@) }
    else if s == "fitd3"@ { Some("3d6 fitd"@) }
    else if s == "fitd4"@ { Some("4d6 fitd"@) }
    else if s == "fitd5"@ { Some("5d6 fitd"@) }
    else if s == "fitd6"@ { Some("6d6 fitd"@) }
    else if s == "fitd0"@ { Some("2d6 fitd0"@) }
    else if s == "ww1"@ { Some("1d6 ww"@) }
    else if s == "ww2"@ { Some("2d6 ww"@) }
    else if s == "ww3"@ { Some("3d6 ww"@) }
    else if s == "ww4"@ { Some("4d6 ww"@) }
    else if s == "ww5"@ { Some("5d6 ww"@) }
    else if s == "ww6"@ { Some("6d6 ww"@) }
    else if s == "ww7"@ { Some("7d6 ww"@) }
    else if s == "ww8"@ { Some("8d6 ww"@) }
    else if s == "ww9"@ { Some("9d6 ww"@) }
    else if s == "ww10"@ { Some("10d6 ww"@) }
    else if s == "ww4c1"@ { Some("4d6 wwc1"@) }
    else if s == "ww4c2"@ { Some("4d6 wwc2"@) }
    else if s == "ww5c1"@ { Some("5d6 wwc1"@) }
    else if s == "ww5c2"@ { Some("5d6 wwc2"@) }
    else if s == "ww6c1"@ { Some("6d6 wwc1"@) }
    else if s == "ww6c2"@ { Some("6d6 wwc2"@) }
    else if s == "ww6c3"@ { Some("6d6 wwc3"@) }
    else if s == "dp"@ { Some("1d6 plot"@) }
    else { None }
}

fn lookup_static_alias(cs: &[char]) -> (r: Option<&'static str>)
    ensures
        match r {
            Some(t) => static_alias(cs@) == Some(t@),
            None => static_alias(cs@) is None,
        },
{
    if chars_eq_str(cs, "age") { Some("2d6 + 1d6") }
    else if chars_eq_str(cs, "dndstats") { Some("6 4d6 k3") }
    else if chars_eq_str(cs, "attack") { Some("1d20") }
    else if chars_eq_str(cs, "skill") { Some("1d20") }
    else if chars_eq_str(cs, "save") { Some("1d20") }
    else if chars_eq_str(cs, "gb") { Some("1d20 gb") }
    else if chars_eq_str(cs, "gbs") { Some("1d20 gbs") }
    else if chars_eq_str(cs, "hsn") { Some("1d6 hsn") }
    else if chars_eq_str(cs, "hsk") { Some("1d6 hsk") }
    else if chars_eq_str(cs, "hsh") { Some("3d6 hsh") }
    else if chars_eq_str(cs, "3df") { Some("3d3 fudge") }
    else if chars_eq_str(cs, "4df") { Some("4d3 fudge") }
    else if chars_eq_str(cs, "dh") { Some("1d10 dh") }
    else if chars_eq_str(cs, "wng") { Some("1d6 wng") }
    else if chars_eq_str(cs, "conan") { Some("2d20 conan") }
    else if chars_eq_str(cs, "cd") { Some("1d6 cd") }
    else if chars_eq_str(cs, "sil") { Some("1d6 sil1") }
    else if chars_eq_str(cs, "fitd1") { Some("1d6 fitd") }
    else if chars_eq_str(cs, "fitd2") { Some("2d6 fitd") }
    else if chars_eq_str(cs, "fitd3") { Some("3d6 fitd") }
    else if chars_eq_str(cs, "fitd4") { Some("4d6 fitd") }
    else if chars_eq_str(cs, "fitd5") { Some("5d6 fitd") }
    else if chars_eq_str(cs, "fitd6") { Some("6d6 fitd") }
    else if chars_eq_str(cs, "fitd0") { Some("2d6 fitd0") }
    else if chars_eq_str(cs, "ww1") { Some("1d6 ww") }
    else if chars_eq_str(cs, "ww2") { Some("2d6 ww") }
    else if chars_eq_str(cs, "ww3") { Some("3d6 ww") }
    else if chars_eq_str(cs, "ww4") { Some("4d6 ww") }
    else if chars_eq_str(cs, "ww5") { Some("5d6 ww") }
    else if chars_eq_str(cs, "ww6") { Some("6d6 ww") }
    else if chars_eq_str(cs, "ww7") { Some("7d6 ww") }
    else if chars_eq_str(cs, "ww8") { Some("8d6 ww") }
    else if chars_eq_str(cs, "ww9") { Some("9d6 ww") }
    else if chars_eq_str(cs, "ww10") { Some("10d6 ww") }
    else if chars_eq_str(cs, "ww4c1") { Some("4d6 wwc1") }
    else if chars_eq_str(cs, "ww4c2") { Some("4d6 wwc2") }
    else if chars_eq_str(cs, "ww5c1") { Some("5d6 wwc1") }
    else if chars_eq_str(cs, "ww5c2") { Some("5d6 wwc2") }
    else if chars_eq_str(cs, "ww6c1") { Some("6d6 wwc1") }
    else if chars_eq_str(cs, "ww6c2") { Some("6d6 wwc2") }
    else if chars_eq_str(cs, "ww6c3") { Some("6d6 wwc3") }
    else if chars_eq_str(cs, "dp") { Some("1d6 plot") }
    else { None }
}

/// ASCII lower-casing of every character.
pub fn lower_chars(cs: &[char]) -> (r: Vec<char>)
    ensures
        r@ == lower_seq(cs@),
{
    let mut r: Vec<char> = Vec::new();
    let mut i: usize = 0;
    while i < cs.len()
        invariant
            i <= cs@.len(),
            r@ == lower_seq(cs@.take(i as int)),
        decreases cs.len() - i,
    {
        r.push(lower(cs[i]));
        i = i + 1;
        assert(r@ =~= lower_seq(cs@.take(i as int)));
    }
    assert(cs@.take(cs@.len() as int) =~= cs@);
    r
}

/// The literal `l` stands at `pos` of `s`.
pub open spec fn lit_at(s: Seq<char>, pos: int, l: Seq<char>) -> bool {
    0 <= pos && pos + l.len() <= s.len() && s.subrange(pos, pos + l.len()) == l
}

/// Number of whitespace characters from `i` on.
pub open spec fn ws_run(s: Seq<char>, i: int) -> nat
    decreases s.len() - i,
{
    if 0 <= i < s.len() && is_whitespace(s[i]) {
        1 + ws_run(s, i + 1)
    } else {
        0
    }
}

/// Index just past the digits from `pos` (the end of `s` past it).
pub open spec fn ne(s: Seq<char>, pos: int) -> int {
    if 0 <= pos <= s.len() { pos + digit_run(s, pos) } else { s.len() as int }
}

/// Index just past the whitespace from `pos` (the end of `s` past it).
pub open spec fn we(s: Seq<char>, pos: int) -> int {
    if 0 <= pos <= s.len() { pos + ws_run(s, pos) } else { s.len() as int }
}

proof fn lemma_runs_bounded(s: Seq<char>, i: int)
    requires
        0 <= i <= s.len(),
    ensures
        i + digit_run(s, i) <= s.len(),
        i + ws_run(s, i) <= s.len(),
    decreases s.len() - i,
{
    if i < s.len() {
        lemma_runs_bounded(s, i + 1);
    }
}

/// `(?:\s*([+-]\s*\d+))?$` at `pos`: `Some(None)` at the end, `Some(Some(m))`
/// for a signed number running to the end (`m` from the sign on), else `None`.
pub open spec fn tail_at(s: Seq<char>, pos: int) -> Option<Option<Seq<char>>> {
    if pos == s.len() {
        Some(None)
    } else if pos > s.len() || pos < 0 {
        None
    } else {
        let p = we(s, pos);
        if p < s.len() && (s[p] == '+' || s[p] == '-') {
            let q = we(s, p + 1);
            let e = ne(s, q);
            if e > q && e == s.len() {
                Some(Some(s.subrange(p, s.len() as int)))
            } else {
                None
            }
        } else {
            None
        }
    }
}

/// The tail modifier as written, or nothing.
pub open spec fn tail_text(t: Option<Seq<char>>) -> Seq<char> {
    match t {
        Some(m) => m,
        None => Seq::empty(),
    }
}

/// The tail modifier after a space, or nothing.
pub open spec fn spaced_tail(t: Option<Seq<char>>) -> Seq<char> {
    match t {
        Some(m) => " "@ + m,
        None => Seq::empty(),
    }
}

/// `s` with its spaces removed.
pub open spec fn no_spaces(s: Seq<char>) -> Seq<char>
    decreases s.len(),
{
    if s.len() == 0 {
        s
    } else if s.last() == ' ' {
        no_spaces(s.drop_last())
    } else {
        no_spaces(s.drop_last()).push(s.last())
    }
}

/// What `str::parse::<i64>` accepts: an optional sign, then digits whose
/// signed value fits in 64 bits.
pub open spec fn parse_i64(s: Seq<char>) -> Option<i64> {
    let neg = s.len() > 0 && s[0] == '-';
    let body = if s.len() > 0 && (s[0] == '-' || s[0] == '+') { s.drop_first() } else { s };
    if !is_number(body) {
        None
    } else if neg {
        if digits_value(body) <= 0x8000_0000_0000_0000 {
            Some((-(digits_value(body) as int)) as i64)
        } else {
            None
        }
    } else if digits_value(body) <= 0x7FFF_FFFF_FFFF_FFFF {
        Some(digits_value(body) as i64)
    } else {
        None
    }
}

pub open spec fn opt_chars(o: Option<Vec<char>>) -> Option<Seq<char>> {
    match o {
        Some(v) => Some(v@),
        None => None,
    }
}

pub open spec fn opt_opt_chars(o: Option<Option<Vec<char>>>) -> Option<Option<Seq<char>>> {
    match o {
        Some(Some(v)) => Some(Some(v@)),
        Some(None) => Some(None),
        None => None,
    }
}

/// The characters of `cs` from `a` up to `b` (none when that is not a range of `cs`).
fn seg(cs: &[char], a: usize, b: usize) -> (v: Vec<char>)
    ensures
        a <= b <= cs@.len() ==> v@ == cs@.subrange(a as int, b as int),
{
    if a <= b && b <= cs.len() {
        sub_chars(cs, a, b)
    } else {
        Vec::new()
    }
}

/// Whether the literal `l` stands at `pos`.
fn at(cs: &[char], pos: usize, l: &str) -> (b: bool)
    ensures
        b == lit_at(cs@, pos as int, l@),
{
    let n = l.unicode_len();
    if pos > cs.len() || n > cs.len() - pos {
        return false;
    }
    let mut i: usize = 0;
    while i < n
        invariant
            i <= n,
            n == l@.len(),
            pos + n <= cs@.len(),
            cs@.len() == cs.len(),
            forall|j: int| 0 <= j < i ==> cs@[pos + j] == l@[j],
        decreases n - i,
    {
        if cs[pos + i] != l.get_char(i) {
            assert(cs@.subrange(pos as int, pos + n)[i as int] != l@[i as int]);
            return false;
        }
        i = i + 1;
    }
    assert(cs@.subrange(pos as int, pos + n) =~= l@);
    true
}

/// Index just past the whitespace starting at `pos` (the end of `cs` when
/// `pos` lies beyond it).
fn ws_end(cs: &[char], pos: usize) -> (e: usize)
    ensures
        e == we(cs@, pos as int),
        e <= cs@.len(),
        pos <= cs@.len() ==> pos <= e,
{
    if pos > cs.len() {
        return cs.len();
    }
    proof {
        lemma_runs_bounded(cs@, pos as int);
    }
    let mut e = pos;
    while e < cs.len() && char_is_ws(cs[e])
        invariant
            pos <= e <= cs@.len(),
            e + ws_run(cs@, e as int) == pos + ws_run(cs@, pos as int),
        decreases cs.len() - e,
    {
        e = e + 1;
    }
    e
}

/// Index just past the digits starting at `pos` (the end of `cs` when
/// `pos` lies beyond it).
fn num_end(cs: &[char], pos: usize) -> (e: usize)
    ensures
        e == ne(cs@, pos as int),
        e <= cs@.len(),
        pos <= cs@.len() ==> pos <= e,
{
    if pos > cs.len() {
        return cs.len();
    }
    skip_digits(cs, pos)
}

/// `(?:\s*([+-]\s*\d+))?$` at `pos`.
fn mod_tail(cs: &[char], pos: usize) -> (r: Option<Option<Vec<char>>>)
    ensures
        opt_opt_chars(r) == tail_at(cs@, pos as int),
{
    if pos == cs.len() {
        return Some(None);
    }
    if pos > cs.len() {
        return None;
    }
    let p = ws_end(cs, pos);
    if p < cs.len() && (cs[p] == '+' || cs[p] == '-') {
        let q = ws_end(cs, p + 1);
        let e = num_end(cs, q);
        if e > q && e == cs.len() {
            return Some(Some(seg(cs, p, cs.len())));
        }
    }
    None
}

fn without_spaces(cs: &[char]) -> (r: Vec<char>)
    ensures
        r@ == no_spaces(cs@),
{
    let mut r: Vec<char> = Vec::new();
    let mut i: usize = 0;
    while i < cs.len()
        invariant
            i <= cs@.len(),
            r@ == no_spaces(cs@.take(i as int)),
        decreases cs.len() - i,
    {
        assert(cs@.take(i + 1).drop_last() =~= cs@.take(i as int));
        if cs[i] != ' ' {
            r.push(cs[i]);
        }
        i = i + 1;
    }
    assert(cs@.take(cs@.len() as int) =~= cs@);
    r
}

/// `str::parse::<u32>` on digits (with an optional `+`).
fn num_u32(cs: &[char]) -> (r: Option<u32>)
    ensures
        r == parse_u32(cs@),
{
    crate::text::parse_u32_chars(cs)
}

/// `str::parse::<i64>`: an optional sign, then digits.
fn num_i64(cs: &[char]) -> (r: Option<i64>)
    ensures
        r == parse_i64(cs@),
{
    let neg = cs.len() > 0 && cs[0] == '-';
    let start: usize = if cs.len() > 0 && (cs[0] == '-' || cs[0] == '+') { 1 } else { 0 };
    let body = sub_chars(cs, start, cs.len());
    assert(body@ =~= (if cs@.len() > 0 && (cs@[0] == '-' || cs@[0] == '+') { cs@.drop_first() } else { cs@ }));
    if body.len() == 0 || !crate::text::chars_all_digits(body.as_slice()) {
        return None;
    }
    let limit: u128 = if neg { 0x8000_0000_0000_0000 } else { 0x7FFF_FFFF_FFFF_FFFF };
    let mut acc: u128 = 0;
    let mut i: usize = 0;
    while i < body.len()
        invariant
            i <= body@.len(),
            crate::text::all_digits(body@),
            limit == (if neg { 0x8000_0000_0000_0000u128 } else { 0x7FFF_FFFF_FFFF_FFFFu128 }),
            neg == (cs@.len() > 0 && cs@[0] == '-'),
            body@ == (if cs@.len() > 0 && (cs@[0] == '-' || cs@[0] == '+') { cs@.drop_first() } else { cs@ }),
            acc == digits_value(body@.take(i as int)),
            acc <= limit,
        decreases body.len() - i,
    {
        assert(body@.take(i + 1).drop_last() =~= body@.take(i as int));
        assert(is_digit(body@[i as int]));
        let d = (body[i] as u32 - '0' as u32) as u128;
        acc = acc * 10 + d;
        i = i + 1;
        assert(acc == digits_value(body@.take(i as int)));
        if acc > limit {
            proof {
                crate::text::lemma_digits_prefix(body@, i as int);
                assert(digits_value(body@) > limit);
                assert(is_number(body@));
                if neg {
                    assert(digits_value(body@) > 0x8000_0000_0000_0000);
                } else {
                    assert(digits_value(body@) > 0x7FFF_FFFF_FFFF_FFFF);
                }
            }
            return None;
        }
    }
    assert(body@.take(body@.len() as int) =~= body@);
    if neg {
        Some((0i128 - acc as i128) as i64)
    } else {
        Some(acc as i64)
    }
}

fn to_chars(s: String) -> (v: Vec<char>)
    ensures
        v@ == s@,
{
    str_chars(s.as_str())
}

/// Earthdawn steps 1-18, the same in both editions.
pub open spec fn ed_base(step: u32) -> Option<Seq<char>> {
    if step == 1 { Some("1d4 ie - 2"@) }
    else if step == 2 { Some("1d4 ie - 1"@) }
    else if step == 3 { Some("1d4 ie"@) }
    else if step == 4 { Some("1d6 ie"@) }
    else if step == 5 { Some("1d8 ie"@) }
    else if step == 6 { Some("1d10 ie"@) }
    else if step == 7 { Some("1d12 ie"@) }
    else if step == 8 { Some("2d6 ie"@) }
    else if step == 9 { Some("1d8 ie + 1d6 ie"@) }
    else if step == 10 { Some("2d8 ie"@) }
    else if step == 11 { Some("1d10 ie + 1d8 ie"@) }
    else if step == 12 { Some("2d10 ie"@) }
    else if step == 13 { Some("1d12 ie + 1d10 ie"@) }
    else if step == 14 { Some("2d12 ie"@) }
    else if step == 15 { Some("1d12 ie + 2d6 ie"@) }
    else if step == 16 { Some("1d12 ie + 1d8 ie + 1d6 ie"@) }
    else if step == 17 { Some("1d12 ie + 2d8 ie"@) }
    else if step == 18 { Some("1d12 ie + 1d10 ie + 1d8 ie"@) }
    else { None }
}

/// Earthdawn 1st edition steps 19-50.
pub open spec fn ed_first(step: u32) -> Option<Seq<char>> {
    if step == 19 { Some("1d20 ie + 2d6 ie"@) }
    else if step == 20 { Some("1d20 ie + 1d8 ie + 1d6 ie"@) }
    else if step == 21 { Some("1d20 ie + 1d10 ie + 1d6 ie"@) }
    else if step == 22 { Some("1d20 ie + 1d10 ie + 1d8 ie"@) }
    else if step == 23 { Some("1d20 ie + 2d10 ie"@) }
    else if step == 24 { Some("1d20 ie + 1d12 ie + 1d10 ie"@) }
    else if step == 25 { Some("1d20 ie + 1d12 ie + 1d8 ie + 1d4 ie"@) }
    else if step == 26 { Some("1d20 ie + 1d12 ie + 1d8 ie + 1d6 ie"@) }
    else if step == 27 { Some("1d20 ie + 1d12 ie + 2d8 ie"@) }
    else if step == 28 { Some("1d20 ie + 2d10 ie + 1d8 ie"@) }
    else if step == 29 { Some("1d20 ie + 1d12 ie + 1d10 ie + 1d8 ie"@) }
    else if step == 30 { Some("1d20 ie + 1d12 ie + 1d10 ie + 1d8 ie"@) }
    else if step == 31 { Some("1d20 ie + 1d10 ie + 2d8 ie + 1d6 ie"@) }
    else if step == 32 { Some("1d20 ie + 2d10 ie + 1d8 ie + 1d6 ie"@) }
    else if step == 33 { Some("1d20 ie + 2d10 ie + 2d8 ie"@) }
    else if step == 34 { Some("1d20 ie + 3d10 ie + 1d8 ie"@) }
    else if step == 35 { Some("1d20 ie + 1d12 ie + 2d10 ie + 1d8 ie"@) }
    else if step == 36 { Some("2d20 ie + 1d10 ie + 1d8 ie + 1d4 ie"@) }
    else if step == 37 { Some("2d20 ie + 1d10 ie + 1d8 ie + 1d6 ie"@) }
    else if step == 38 { Some("2d20 ie + 1d10 ie + 2d8 ie"@) }
    else if step == 39 { Some("2d20 ie + 2d10 ie + 1d8 ie"@) }
    else if step == 40 { Some("2d20 ie + 1d12 ie + 1d10 ie + 1d8 ie"@) }
    else if step == 41 { Some("2d20 ie + 1d10 ie + 1d8 ie + 2d6 ie"@) }
    else if step == 42 { Some("2d20 ie + 1d10 ie + 2d8 ie + 1d6 ie"@) }
    else if step == 43 { Some("2d20 ie + 2d10 ie + 1d8 ie + 1d6 ie"@) }
    else if step == 44 { Some("2d20 ie + 3d10 ie + 1d8 ie"@) }
    else if step == 45 { Some("2d20 ie + 3d10 ie + 1d8 ie"@) }
    else if step == 46 { Some("2d20 ie + 1d12 ie + 2d10 ie + 1d8 ie"@) }
    else if step == 47 { Some("2d20 ie + 2d10 ie + 2d8 ie + 1d4 ie"@) }
    else if step == 48 { Some("2d20 ie + 2d10 ie + 2d8 ie + 1d6 ie"@) }
    else if step == 49 { Some("2d20 ie + 2d10 ie + 3d8 ie"@) }
    else if step == 50 { Some("2d20 ie + 3d10 ie + 2d8 ie"@) }
    else { None }
}

/// Earthdawn 4th edition steps 19-100.
pub open spec fn ed_fourth(step: u32) -> Option<Seq<char>> {
    if step == 19 { Some("1d20 ie + 2d6 ie"@) }
    else if step == 20 { Some("1d20 ie + 1d8 ie + 1d6 ie"@) }
    else if step == 21 { Some("1d20 ie + 2d8 ie"@) }
    else if step == 22 { Some("1d20 ie + 1d10 ie + 1d8 ie"@) }
    else if step == 23 { Some("1d20 ie + 2d10 ie"@) }
    else if step == 24 { Some("1d20 ie + 1d12 ie + 1d10 ie"@) }
    else if step == 25 { Some("1d20 ie + 2d12 ie"@) }
    else if step == 26 { Some("1d20 ie + 1d12 ie + 2d6 ie"@) }
    else if step == 27 { Some("1d20 ie + 1d12 ie + 1d8 ie + 1d6 ie"@) }
    else if step == 28 { Some("1d20 ie + 1d12 ie + 2d8 ie"@) }
    else if step == 29 { Some("1d20 ie + 1d12 ie + 1d10 ie + 1d8 ie"@) }
    else if step == 30 { Some("2d20 ie + 2d6 ie"@) }
    else if step == 31 { Some("2d20 ie + 1d8 ie + 1d6 ie"@) }
    else if step == 32 { Some("2d20 ie + 2d8 ie"@) }
    else if step == 33 { Some("2d20 ie + 1d10 ie + 1d8 ie"@) }
    else if step == 34 { Some("2d20 ie + 2d10 ie"@) }
    else if step == 35 { Some("2d20 ie + 1d12 ie + 1d10 ie"@) }
    else if step == 36 { Some("2d20 ie + 2d12 ie"@) }
    else if step == 37 { Some("2d20 ie + 1d12 ie + 2d6 ie"@) }
    else if step == 38 { Some("2d20 ie + 1d12 ie + 1d8 ie + 1d6 ie"@) }
    else if step == 39 { Some("2d20 ie + 1d12 ie + 2d8 ie"@) }
    else if step == 40 { Some("2d20 ie + 1d12 ie + 1d10 ie + 1d8 ie"@) }
    else if step == 41 { Some("3d20 ie + 2d6 ie"@) }
    else if step == 42 { Some("3d20 ie + 1d8 ie + 1d6 ie"@) }
    else if step == 43 { Some("3d20 ie + 2d8 ie"@) }
    else if step == 44 { Some("3d20 ie + 1d10 ie + 1d8 ie"@) }
    else if step == 45 { Some("3d20 ie + 2d10 ie"@) }
    else if step == 46 { Some("3d20 ie + 1d12 ie + 1d10 ie"@) }
    else if step == 47 { Some("3d20 ie + 2d12 ie"@) }
    else if step == 48 { Some("3d20 ie + 1d12 ie + 2d6 ie"@) }
    else if step == 49 { Some("3d20 ie + 1d12 ie + 1d8 ie + 1d6 ie"@) }
    else if step == 50 { Some("3d20 ie + 1d12 ie + 2d8 ie"@) }
    else if step == 51 { Some("3d20 ie + 1d12 ie + 1d10 ie + 1d8 ie"@) }
    else if step == 52 { Some("4d20 ie + 2d6 ie"@) }
    else if step == 53 { Some("4d20 ie + 1d8 ie + 1d6 ie"@) }
    else if step == 54 { Some("4d20 ie + 2d8 ie"@) }
    else if step == 55 { Some("4d20 ie + 1d10 ie + 1d8 ie"@) }
    else if step == 56 { Some("4d20 ie + 2d10 ie"@) }
    else if step == 57 { Some("4d20 ie + 1d12 ie + 1d10 ie"@) }
    else if step == 58 { Some("4d20 ie + 2d12 ie"@) }
    else if step == 59 { Some("4d20 ie + 1d12 ie + 2d6 ie"@) }
    else if step == 60 { Some("4d20 ie + 1d12 ie + 1d8 ie + 1d6 ie"@) }
    else if step == 61 { Some("4d20 ie + 1d12 ie + 2d8 ie"@) }
    else if step == 62 { Some("4d20 ie + 1d12 ie + 1d10 ie + 1d8 ie"@) }
    else if step == 63 { Some("5d20 ie + 2d6 ie"@) }
    else if step == 64 { Some("5d20 ie + 1d8 ie + 1d6 ie"@) }
    else if step == 65 { Some("5d20 ie + 2d8 ie"@) }
    else if step == 66 { Some("5d20 ie + 1d10 ie + 1d8 ie"@) }
    else if step == 67 { Some("5d20 ie + 2d10 ie"@) }
    else if step == 68 { Some("5d20 ie + 1d12 ie + 1d10 ie"@) }
    else if step == 69 { Some("5d20 ie + 2d12 ie"@) }
    else if step == 70 { Some("5d20 ie + 1d12 ie + 2d6 ie"@) }
    else if step == 71 { Some("5d20 ie + 1d12 ie + 1d8 ie + 1d6 ie"@) }
    else if step == 72 { Some("5d20 ie + 1d12 ie + 2d8 ie"@) }
    else if step == 73 { Some("5d20 ie + 1d12 ie + 1d10 ie + 1d8 ie"@) }
    else if step == 74 { Some("6d20 ie + 2d6 ie"@) }
    else if step == 75 { Some("6d20 ie + 1d8 ie + 1d6 ie"@) }
    else if step == 76 { Some("6d20 ie + 2d8 ie"@) }
    else if step == 77 { Some("6d20 ie + 1d10 ie + 1d8 ie"@) }
    else if step == 78 { Some("6d20 ie + 2d10 ie"@) }
    else if step == 79 { Some("6d20 ie + 1d12 ie + 1d10 ie"@) }
    else if step == 80 { Some("6d20 ie + 2d12 ie"@) }
    else if step == 81 { Some("6d20 ie + 1d12 ie + 2d6 ie"@) }
    else if step == 82 { Some("6d20 ie + 1d12 ie + 1d8 ie + 1d6 ie"@) }
    else if step == 83 { Some("6d20 ie + 1d12 ie + 2d8 ie"@) }
    else if step == 84 { Some("6d20 ie + 1d12 ie + 1d10 ie + 1d8 ie"@) }
    else if step == 85 { Some("7d20 ie + 2d6 ie"@) }
    else if step == 86 { Some("7d20 ie + 1d8 ie + 1d6 ie"@) }
    else if step == 87 { Some("7d20 ie + 2d8 ie"@) }
    else if step == 88 { Some("7d20 ie + 1d10 ie + 1d8 ie"@) }
    else if step == 89 { Some("7d20 ie + 2d10 ie"@) }
    else if step == 90 { Some("7d20 ie + 1d12 ie + 1d10 ie"@) }
    else if step == 91 { Some("7d20 ie + 2d12 ie"@) }
    else if step == 92 { Some("7d20 ie + 1d12 ie + 2d6 ie"@) }
    else if step == 93 { Some("7d20 ie + 1d12 ie + 1d8 ie + 1d6 ie"@) }
    else if step == 94 { Some("7d20 ie + 1d12 ie + 2d8 ie"@) }
    else if step == 95 { Some("7d20 ie + 1d12 ie + 1d10 ie + 1d8 ie"@) }
    else if step == 96 { Some("8d20 ie + 2d6 ie"@) }
    else if step == 97 { Some("8d20 ie + 1d8 ie + 1d6 ie"@) }
    else if step == 98 { Some("8d20 ie + 2d8 ie"@) }
    else if step == 99 { Some("8d20 ie + 1d10 ie + 1d8 ie"@) }
    else if step == 100 { Some("8d20 ie + 2d10 ie"@) }
    else { None }
}

/// Earthdawn steps 1-18, the same in both editions.
fn earthdawn_base_step(step: u32) -> (r: Option<&'static str>)
    ensures
        match r {
            Some(t) => ed_base(step) == Some(t@),
            None => ed_base(step) is None,
        },
{
    match step {
        1 => Some("1d4 ie - 2"),
        2 => Some("1d4 ie - 1"),
        3 => Some("1d4 ie"),
        4 => Some("1d6 ie"),
        5 => Some("1d8 ie"),
        6 => Some("1d10 ie"),
        7 => Some("1d12 ie"),
        8 => Some("2d6 ie"),
        9 => Some("1d8 ie + 1d6 ie"),
        10 => Some("2d8 ie"),
        11 => Some("1d10 ie + 1d8 ie"),
        12 => Some("2d10 ie"),
        13 => Some("1d12 ie + 1d10 ie"),
        14 => Some("2d12 ie"),
        15 => Some("1d12 ie + 2d6 ie"),
        16 => Some("1d12 ie + 1d8 ie + 1d6 ie"),
        17 => Some("1d12 ie + 2d8 ie"),
        18 => Some("1d12 ie + 1d10 ie + 1d8 ie"),
        _ => None,
    }
}

/// Earthdawn 1st edition steps 19-50.
fn earthdawn_1e_step(step: u32) -> (r: Option<&'static str>)
    ensures
        match r {
            Some(t) => ed_first(step) == Some(t@),
            None => ed_first(step) is None,
        },
{
    match step {
        19 => Some("1d20 ie + 2d6 ie"),
        20 => Some("1d20 ie + 1d8 ie + 1d6 ie"),
        21 => Some("1d20 ie + 1d10 ie + 1d6 ie"),
        22 => Some("1d20 ie + 1d10 ie + 1d8 ie"),
        23 => Some("1d20 ie + 2d10 ie"),
        24 => Some("1d20 ie + 1d12 ie + 1d10 ie"),
        25 => Some("1d20 ie + 1d12 ie + 1d8 ie + 1d4 ie"),
        26 => Some("1d20 ie + 1d12 ie + 1d8 ie + 1d6 ie"),
        27 => Some("1d20 ie + 1d12 ie + 2d8 ie"),
        28 => Some("1d20 ie + 2d10 ie + 1d8 ie"),
        29 => Some("1d20 ie + 1d12 ie + 1d10 ie + 1d8 ie"),
        30 => Some("1d20 ie + 1d12 ie + 1d10 ie + 1d8 ie"),
        31 => Some("1d20 ie + 1d10 ie + 2d8 ie + 1d6 ie"),
        32 => Some("1d20 ie + 2d10 ie + 1d8 ie + 1d6 ie"),
        33 => Some("1d20 ie + 2d10 ie + 2d8 ie"),
        34 => Some("1d20 ie + 3d10 ie + 1d8 ie"),
        35 => Some("1d20 ie + 1d12 ie + 2d10 ie + 1d8 ie"),
        36 => Some("2d20 ie + 1d10 ie + 1d8 ie + 1d4 ie"),
        37 => Some("2d20 ie + 1d10 ie + 1d8 ie + 1d6 ie"),
        38 => Some("2d20 ie + 1d10 ie + 2d8 ie"),
        39 => Some("2d20 ie + 2d10 ie + 1d8 ie"),
        40 => Some("2d20 ie + 1d12 ie + 1d10 ie + 1d8 ie"),
        41 => Some("2d20 ie + 1d10 ie + 1d8 ie + 2d6 ie"),
        42 => Some("2d20 ie + 1d10 ie + 2d8 ie + 1d6 ie"),
        43 => Some("2d20 ie + 2d10 ie + 1d8 ie + 1d6 ie"),
        44 => Some("2d20 ie + 3d10 ie + 1d8 ie"),
        45 => Some("2d20 ie + 3d10 ie + 1d8 ie"),
        46 => Some("2d20 ie + 1d12 ie + 2d10 ie + 1d8 ie"),
        47 => Some("2d20 ie + 2d10 ie + 2d8 ie + 1d4 ie"),
        48 => Some("2d20 ie + 2d10 ie + 2d8 ie + 1d6 ie"),
        49 => Some("2d20 ie + 2d10 ie + 3d8 ie"),
        50 => Some("2d20 ie + 3d10 ie + 2d8 ie"),
        _ => None,
    }
}

/// Earthdawn 4th edition steps 19-100: from step 19 each further eleven
/// steps add a d20, over the same cycle of lesser dice.
fn earthdawn_4e_step(step: u32) -> (r: Option<&'static str>)
    ensures
        match r {
            Some(t) => ed_fourth(step) == Some(t@),
            None => ed_fourth(step) is None,
        },
{
    match step {
        19 => Some("1d20 ie + 2d6 ie"),
        20 => Some("1d20 ie + 1d8 ie + 1d6 ie"),
        21 => Some("1d20 ie + 2d8 ie"),
        22 => Some("1d20 ie + 1d10 ie + 1d8 ie"),
        23 => Some("1d20 ie + 2d10 ie"),
        24 => Some("1d20 ie + 1d12 ie + 1d10 ie"),
        25 => Some("1d20 ie + 2d12 ie"),
        26 => Some("1d20 ie + 1d12 ie + 2d6 ie"),
        27 => Some("1d20 ie + 1d12 ie + 1d8 ie + 1d6 ie"),
        28 => Some("1d20 ie + 1d12 ie + 2d8 ie"),
        29 => Some("1d20 ie + 1d12 ie + 1d10 ie + 1d8 ie"),
        30 => Some("2d20 ie + 2d6 ie"),
        31 => Some("2d20 ie + 1d8 ie + 1d6 ie"),
        32 => Some("2d20 ie + 2d8 ie"),
        33 => Some("2d20 ie + 1d10 ie + 1d8 ie"),
        34 => Some("2d20 ie + 2d10 ie"),
        35 => Some("2d20 ie + 1d12 ie + 1d10 ie"),
        36 => Some("2d20 ie + 2d12 ie"),
        37 => Some("2d20 ie + 1d12 ie + 2d6 ie"),
        38 => Some("2d20 ie + 1d12 ie + 1d8 ie + 1d6 ie"),
        39 => Some("2d20 ie + 1d12 ie + 2d8 ie"),
        40 => Some("2d20 ie + 1d12 ie + 1d10 ie + 1d8 ie"),
        41 => Some("3d20 ie + 2d6 ie"),
        42 => Some("3d20 ie + 1d8 ie + 1d6 ie"),
        43 => Some("3d20 ie + 2d8 ie"),
        44 => Some("3d20 ie + 1d10 ie + 1d8 ie"),
        45 => Some("3d20 ie + 2d10 ie"),
        46 => Some("3d20 ie + 1d12 ie + 1d10 ie"),
        47 => Some("3d20 ie + 2d12 ie"),
        48 => Some("3d20 ie + 1d12 ie + 2d6 ie"),
        49 => Some("3d20 ie + 1d12 ie + 1d8 ie + 1d6 ie"),
        50 => Some("3d20 ie + 1d12 ie + 2d8 ie"),
        51 => Some("3d20 ie + 1d12 ie + 1d10 ie + 1d8 ie"),
        52 => Some("4d20 ie + 2d6 ie"),
        53 => Some("4d20 ie + 1d8 ie + 1d6 ie"),
        54 => Some("4d20 ie + 2d8 ie"),
        55 => Some("4d20 ie + 1d10 ie + 1d8 ie"),
        56 => Some("4d20 ie + 2d10 ie"),
        57 => Some("4d20 ie + 1d12 ie + 1d10 ie"),
        58 => Some("4d20 ie + 2d12 ie"),
        59 => Some("4d20 ie + 1d12 ie + 2d6 ie"),
        60 => Some("4d20 ie + 1d12 ie + 1d8 ie + 1d6 ie"),
        61 => Some("4d20 ie + 1d12 ie + 2d8 ie"),
        62 => Some("4d20 ie + 1d12 ie + 1d10 ie + 1d8 ie"),
        63 => Some("5d20 ie + 2d6 ie"),
        64 => Some("5d20 ie + 1d8 ie + 1d6 ie"),
        65 => Some("5d20 ie + 2d8 ie"),
        66 => Some("5d20 ie + 1d10 ie + 1d8 ie"),
        67 => Some("5d20 ie + 2d10 ie"),
        68 => Some("5d20 ie + 1d12 ie + 1d10 ie"),
        69 => Some("5d20 ie + 2d12 ie"),
        70 => Some("5d20 ie + 1d12 ie + 2d6 ie"),
        71 => Some("5d20 ie + 1d12 ie + 1d8 ie + 1d6 ie"),
        72 => Some("5d20 ie + 1d12 ie + 2d8 ie"),
        73 => Some("5d20 ie + 1d12 ie + 1d10 ie + 1d8 ie"),
        74 => Some("6d20 ie + 2d6 ie"),
        75 => Some("6d20 ie + 1d8 ie + 1d6 ie"),
        76 => Some("6d20 ie + 2d8 ie"),
        77 => Some("6d20 ie + 1d10 ie + 1d8 ie"),
        78 => Some("6d20 ie + 2d10 ie"),
        79 => Some("6d20 ie + 1d12 ie + 1d10 ie"),
        80 => Some("6d20 ie + 2d12 ie"),
        81 => Some("6d20 ie + 1d12 ie + 2d6 ie"),
        82 => Some("6d20 ie + 1d12 ie + 1d8 ie + 1d6 ie"),
        83 => Some("6d20 ie + 1d12 ie + 2d8 ie"),
        84 => Some("6d20 ie + 1d12 ie + 1d10 ie + 1d8 ie"),
        85 => Some("7d20 ie + 2d6 ie"),
        86 => Some("7d20 ie + 1d8 ie + 1d6 ie"),
        87 => Some("7d20 ie + 2d8 ie"),
        88 => Some("7d20 ie + 1d10 ie + 1d8 ie"),
        89 => Some("7d20 ie + 2d10 ie"),
        90 => Some("7d20 ie + 1d12 ie + 1d10 ie"),
        91 => Some("7d20 ie + 2d12 ie"),
        92 => Some("7d20 ie + 1d12 ie + 2d6 ie"),
        93 => Some("7d20 ie + 1d12 ie + 1d8 ie + 1d6 ie"),
        94 => Some("7d20 ie + 1d12 ie + 2d8 ie"),
        95 => Some("7d20 ie + 1d12 ie + 1d10 ie + 1d8 ie"),
        96 => Some("8d20 ie + 2d6 ie"),
        97 => Some("8d20 ie + 1d8 ie + 1d6 ie"),
        98 => Some("8d20 ie + 2d8 ie"),
        99 => Some("8d20 ie + 1d10 ie + 1d8 ie"),
        100 => Some("8d20 ie + 2d10 ie"),
        _ => None,
    }
}

/// The dice of Earthdawn (1st edition) step `step`, `1d6` off the table.
pub fn get_earthdawn_step(step: u32) -> (s: String)
    ensures
        s@ == match ed_base(step) {
            Some(t) => t,
            None => match ed_first(step) {
                Some(t) => t,
                None => "1d6"@,
            },
        },
{
    match earthdawn_base_step(step) {
        Some(t) => String::from_str(t),
        None => match earthdawn_1e_step(step) {
            Some(t) => String::from_str(t),
            None => String::from_str("1d6"),
        },
    }
}

/// The dice of Earthdawn 4th edition step `step`, `1d6` off the table.
pub fn get_earthdawn_4e_step(step: u32) -> (s: String)
    ensures
        s@ == match ed_base(step) {
            Some(t) => t,
            None => match ed_fourth(step) {
                Some(t) => t,
                None => "1d6"@,
            },
        },
{
    match earthdawn_base_step(step) {
        Some(t) => String::from_str(t),
        None => match earthdawn_4e_step(step) {
            Some(t) => String::from_str(t),
            None => String::from_str("1d6"),
        },
    }
}

/// Hero System dice written with a fraction (`2.5hsk`): the whole dice
/// as d6s, a d3 for a nonzero fraction, or a lone d3 under one die.
pub open spec fn has_nonzero(s: Seq<char>) -> bool {
    exists|i: int| 0 <= i < s.len() && s[i] != '0'
}

pub open spec fn hero_dice(whole: Seq<char>, fraction: Seq<char>, dice_type: Seq<char>) -> Seq<char> {
    let w: u32 = match parse_u32(whole) {
        Some(v) => v,
        None => 0xFFFF_FFFF,
    };
    if w == 0 && has_nonzero(fraction) {
        "1d3 "@ + dice_type
    } else {
        nat_str(w as nat) + "d6 "@ + dice_type + if has_nonzero(fraction) { " + 1d3"@ } else { Seq::empty() }
    }
}

fn process_hero_system_dice(whole: &[char], fraction: &[char], dice_type: &str) -> (r: String)
    ensures
        r@ == hero_dice(whole@, fraction@, dice_type@),
{
    let whole_dice: u32 = match crate::text::parse_u32_chars(whole) {
        Some(v) => v,
        None => 0xFFFF_FFFF,
    };
    let mut has_fraction = false;
    let mut i: usize = 0;
    while i < fraction.len()
        invariant
            i <= fraction@.len(),
            has_fraction == exists|j: int| 0 <= j < i && fraction@[j] != '0',
        decreases fraction.len() - i,
    {
        if fraction[i] != '0' {
            has_fraction = true;
        }
        i = i + 1;
    }
    if whole_dice == 0 && has_fraction {
        let mut s = String::from_str("1d3 ");
        s.append(dice_type);
        return s;
    }
    let mut s = String::new();
    push_nat(&mut s, whole_dice as u64);
    s.append("d6 ");
    s.append(dice_type);
    if has_fraction {
        s.append(" + 1d3");
    }
    s
}

/// An Exalted pool: `count`d10 with a target (7 by default) and a double
/// at or above it, both on the die; `None` when a number is out of range.
pub open spec fn exalted_pool(count: Seq<char>, target: Option<Seq<char>>, double: Seq<char>) -> Option<Seq<char>> {
    match parse_u32(count) {
        None => None,
        Some(c) => if c == 0 {
            None
        } else {
            let t: Option<u32> = match target {
                Some(ts) => match parse_u32(ts) {
                    Some(v) => if 0 < v <= 10 { Some(v) } else { None },
                    None => None,
                },
                None => Some(7u32),
            };
            match t {
                None => None,
                Some(tn) => match parse_u32(double) {
                    Some(d) => if 0 < d <= 10 && d >= tn {
                        Some(count + "d10 t"@ + nat_str(tn as nat) + "ds"@ + nat_str(d as nat))
                    } else {
                        None
                    },
                    None => None,
                },
            }
        },
    }
}

pub open spec fn opt_target(t: Option<&Vec<char>>) -> Option<Seq<char>> {
    match t {
        Some(v) => Some(v@),
        None => None,
    }
}

pub open spec fn opt_string(o: Option<String>) -> Option<Seq<char>> {
    match o {
        Some(v) => Some(v@),
        None => None,
    }
}

fn process_exalted_pool(count: &[char], target: Option<&Vec<char>>, double: &[char]) -> (r: Option<String>)
    ensures
        opt_string(r) == exalted_pool(count@, opt_target(target), double@),
{
    match num_u32(count) {
        Some(c) => {
            if c == 0 {
                return None;
            }
        },
        None => {
            return None;
        },
    }
    let target_num: u32 = match target {
        Some(t) => match num_u32(t.as_slice()) {
            Some(n) => {
                if n > 0 && n <= 10 {
                    n
                } else {
                    return None;
                }
            },
            None => {
                return None;
            },
        },
        None => 7,
    };
    let double_num: u32 = match num_u32(double) {
        Some(n) => {
            if n > 0 && n <= 10 && n >= target_num {
                n
            } else {
                return None;
            }
        },
        None => {
            return None;
        },
    };
    let mut s = String::new();
    push_chars(&mut s, count);
    s.append("d10 t");
    push_nat(&mut s, target_num as u64);
    s.append("ds");
    push_nat(&mut s, double_num as u64);
    Some(s)
}

/// Open Legend attribute dice for a score: none for 0.
pub open spec fn ol_dice(score: u32) -> Option<(u32, u32)> {
    if score == 1 { Some((1u32, 4u32)) }
    else if score == 2 { Some((1u32, 6u32)) }
    else if score == 3 { Some((1u32, 8u32)) }
    else if score == 4 { Some((1u32, 10u32)) }
    else if score == 5 { Some((2u32, 6u32)) }
    else if score == 6 { Some((2u32, 8u32)) }
    else if score == 7 { Some((2u32, 10u32)) }
    else if score == 8 { Some((3u32, 8u32)) }
    else if score == 9 { Some((3u32, 10u32)) }
    else if score == 10 { Some((4u32, 8u32)) }
    else { None }
}

pub fn open_legend_attribute_dice(score: u32) -> (r: Option<(u32, u32)>)
    ensures
        r == ol_dice(score),
{
    match score {
        1 => Some((1, 4)),
        2 => Some((1, 6)),
        3 => Some((1, 8)),
        4 => Some((1, 10)),
        5 => Some((2, 6)),
        6 => Some((2, 8)),
        7 => Some((2, 10)),
        8 => Some((3, 8)),
        9 => Some((3, 10)),
        10 => Some((4, 8)),
        _ => None,
    }
}

/// Alien RPG: `alienN`, `alienNsS` (stress dice), `alienNsSp` (a push:
/// one more stress).
pub open spec fn alien_alias(s: Seq<char>) -> Option<Seq<char>> {
    let n = s.len() as int;
    let b = ne(s, 5);
    if !lit_at(s, 0, "alien"@) || b == 5 {
        None
    } else {
        let base = s.subrange(5, b);
        if b < n && s[b] == 's' {
            let e = ne(s, b + 1);
            let stress = s.subrange(b + 1, e);
            if e == b + 1 {
                None
            } else if e + 1 == n && s[e] == 'p' {
                match parse_u32(stress) {
                    Some(cur) => Some("alien"@ + base + "s"@ + nat_str(cur.wrapping_add(1) as nat)),
                    None => None,
                }
            } else if e == n {
                match (parse_u32(base), parse_u32(stress)) {
                    (Some(bc), Some(sl)) => if bc == 0 || bc > 20 || sl == 0 || sl > 10 {
                        None
                    } else {
                        Some(base + "d6 alien + "@ + stress + "d6 aliens"@ + stress)
                    },
                    _ => None,
                }
            } else {
                None
            }
        } else if b == n {
            match parse_u32(base) {
                Some(bc) => if bc == 0 || bc > 20 { None } else { Some(base + "d6 alien"@) },
                None => None,
            }
        } else {
            None
        }
    }
}

fn expand_alien_alias(cs: &[char]) -> (r: Option<Vec<char>>) 
    requires
        cs@.len() < 0x1000_0000,
    ensures
        opt_chars(r) == alien_alias(cs@),
{
    proof {
        reveal_strlit("alien");
    }
    if !at(cs, 0, "alien") {
        return None;
    }
    let b = num_end(cs, 5);
    if b == 5 {
        return None;
    }
    let base = seg(cs, 5, b);
    if b < cs.len() && cs[b] == 's' {
        let e = num_end(cs, b + 1);
        if e == b + 1 {
            return None;
        }
        let stress = seg(cs, b + 1, e);
        if e + 1 == cs.len() && cs[e] == 'p' {
            let current = num_u32(stress.as_slice())?;
            let mut s = String::from_str("alien");
            push_chars(&mut s, base.as_slice());
            s.append("s");
            push_nat(&mut s, current.wrapping_add(1) as u64);
            return Some(to_chars(s));
        }
        if e == cs.len() {
            let base_count = num_u32(base.as_slice())?;
            let stress_level = num_u32(stress.as_slice())?;
            if base_count == 0 || base_count > 20 || stress_level == 0 || stress_level > 10 {
                return None;
            }
            let mut s = String::new();
            push_chars(&mut s, base.as_slice());
            s.append("d6 alien + ");
            push_chars(&mut s, stress.as_slice());
            s.append("d6 aliens");
            push_chars(&mut s, stress.as_slice());
            return Some(to_chars(s));
        }
        return None;
    }
    if b == cs.len() {
        let base_count = num_u32(base.as_slice())?;
        if base_count == 0 || base_count > 20 {
            return None;
        }
        let mut s = String::new();
        push_chars(&mut s, base.as_slice());
        s.append("d6 alien");
        return Some(to_chars(s));
    }
    None
}

/// Mutants & Masterminds: `mnm`, `mnm+5`.
pub open spec fn mnm_alias(s: Seq<char>) -> Option<Seq<char>> {
    if !lit_at(s, 0, "mnm"@) {
        None
    } else {
        match tail_at(s, 3) {
            None => None,
            Some(None) => Some("1d20 mnm"@),
            Some(Some(m)) => Some("1d20"@ + no_spaces(m) + " mnm"@),
        }
    }
}

fn expand_mnm(cs: &[char]) -> (r: Option<Vec<char>>) 
    requires
        cs@.len() < 0x1000_0000,
    ensures
        opt_chars(r) == mnm_alias(cs@),
{
    proof {
        reveal_strlit("mnm");
    }
    if !at(cs, 0, "mnm") {
        return None;
    }
    match mod_tail(cs, 3)? {
        None => Some(str_chars("1d20 mnm")),
        Some(m) => {
            let mut s = String::from_str("1d20");
            push_chars(&mut s, without_spaces(m.as_slice()).as_slice());
            s.append(" mnm");
            Some(to_chars(s))
        },
    }
}

/// The expertise die of an A5E `exN`.
pub open spec fn expertise_die(e: Seq<char>) -> Option<Seq<char>> {
    if e == "1"@ || e == "4"@ { Some("1d4"@) }
    else if e == "2"@ || e == "6"@ { Some("1d6"@) }
    else if e == "3"@ || e == "8"@ { Some("1d8"@) }
    else if e == "10"@ { Some("1d10"@) }
    else if e == "12"@ { Some("1d12"@) }
    else if e == "20"@ { Some("1d20"@) }
    else if e == "100"@ { Some("1d100"@) }
    else { None }
}

fn a5e_expertise_die(cs: &[char]) -> (r: Option<&'static str>)
    ensures
        match r {
            Some(t) => expertise_die(cs@) == Some(t@),
            None => expertise_die(cs@) is None,
        },
{
    if chars_eq_str(cs, "1") || chars_eq_str(cs, "4") {
        Some("1d4")
    } else if chars_eq_str(cs, "2") || chars_eq_str(cs, "6") {
        Some("1d6")
    } else if chars_eq_str(cs, "3") || chars_eq_str(cs, "8") {
        Some("1d8")
    } else if chars_eq_str(cs, "10") {
        Some("1d10")
    } else if chars_eq_str(cs, "12") {
        Some("1d12")
    } else if chars_eq_str(cs, "20") {
        Some("1d20")
    } else if chars_eq_str(cs, "100") {
        Some("1d100")
    } else {
        None
    }
}

/// Level Up (A5E): `a5e +5 ex1`, `+a5e ex2` (advantage), `-a5e ex3`
/// (disadvantage): the d20 roll, its modifier, and the expertise die.
pub open spec fn a5e_alias(cs: Seq<char>) -> Option<Seq<char>> {
    let n = cs.len() as int;
    let start: int = if lit_at(cs, 0, "+a5e"@) || lit_at(cs, 0, "-a5e"@) { 4 } else { 3 };
    let base = if lit_at(cs, 0, "+a5e"@) { "2d20 kh1"@ } else if lit_at(cs, 0, "-a5e"@) { "2d20 kl1"@ } else { "1d20"@ };
    let p = we(cs, start);
    let q = if p < n && (cs[p] == '+' || cs[p] == '-') { p + 1 } else { p };
    let d = ne(cs, q);
    let modifier = if d > q { cs.subrange(p, d) } else { Seq::empty() };
    let after = if d > q { d } else { p };
    let e = we(cs, after);
    if !(lit_at(cs, 0, "+a5e"@) || lit_at(cs, 0, "-a5e"@) || lit_at(cs, 0, "a5e"@)) {
        None
    } else if d <= q && q > p {
        None
    } else if !lit_at(cs, e, "ex"@) {
        None
    } else {
        match expertise_die(cs.subrange(e + 2, n)) {
            Some(die) => Some(base + modifier + " + "@ + die),
            None => None,
        }
    }
}

/// The A5E expansion of a request, compared trimmed and lower-cased (none
/// for text of 2^28 characters or more).
pub open spec fn a5e_request(input: Seq<char>) -> Option<Seq<char>> {
    let cs = lower_seq(trim_seq(input));
    if cs.len() >= 0x1000_0000 { None } else { a5e_alias(cs) }
}

pub fn expand_a5e_alias(input: &str) -> (r: Option<String>)
    ensures
        opt_string(r) == a5e_request(input@),
{
    proof {
        reveal_strlit("+a5e");
        reveal_strlit("-a5e");
        reveal_strlit("a5e");
        reveal_strlit("ex");
    }
    let raw = str_chars(input);
    let t = trim_chars(raw.as_slice());
    let cs = lower_chars(t.as_slice());
    if cs.len() >= 0x1000_0000 {
        return None;
    }
    let (start, base): (usize, &str) = if at(cs.as_slice(), 0, "+a5e") {
        (4, "2d20 kh1")
    } else if at(cs.as_slice(), 0, "-a5e") {
        (4, "2d20 kl1")
    } else if at(cs.as_slice(), 0, "a5e") {
        (3, "1d20")
    } else {
        return None;
    };
    let p = ws_end(cs.as_slice(), start);
    let mut q = p;
    if q < cs.len() && (cs[q] == '+' || cs[q] == '-') {
        q = q + 1;
    }
    let d = num_end(cs.as_slice(), q);
    let modifier = if d > q {
        seg(cs.as_slice(), p, d)
    } else {
        if q > p {
            return None;
        }
        Vec::new()
    };
    let after = if d > q { d } else { p };
    let e = ws_end(cs.as_slice(), after);
    if !at(cs.as_slice(), e, "ex") {
        return None;
    }
    let ed = seg(cs.as_slice(), e + 2, cs.len());
    let die = a5e_expertise_die(ed.as_slice())?;
    let mut s = String::from_str(base);
    push_chars(&mut s, modifier.as_slice());
    s.append(" + ");
    s.append(die);
    Some(s)
}

/// Wild Worlds: `wwN`, `wwNcC` (cutting dice).
pub open spec fn wild_words_alias(s: Seq<char>) -> Option<Seq<char>> {
    let n = s.len() as int;
    let e = ne(s, 2);
    if !lit_at(s, 0, "ww"@) || e == 2 {
        None
    } else {
        let dice = s.subrange(2, e);
        if e < n && s[e] == 'c' {
            let f = ne(s, e + 1);
            let cut = s.subrange(e + 1, f);
            if f == e + 1 || f != n {
                None
            } else {
                match (parse_u32(dice), parse_u32(cut)) {
                    (Some(d), Some(c)) => if d == 0 || d > 20 || c == 0 || c >= d {
                        None
                    } else {
                        Some(dice + "d6 wwc"@ + cut)
                    },
                    _ => None,
                }
            }
        } else if e == n {
            match parse_u32(dice) {
                Some(d) => if d == 0 || d > 20 { None } else { Some(dice + "d6 ww"@) },
                None => None,
            }
        } else {
            None
        }
    }
}

fn expand_wild_words_alias(cs: &[char]) -> (r: Option<Vec<char>>) 
    requires
        cs@.len() < 0x1000_0000,
    ensures
        opt_chars(r) == wild_words_alias(cs@),
{
    proof {
        reveal_strlit("ww");
    }
    if !at(cs, 0, "ww") {
        return None;
    }
    let e = num_end(cs, 2);
    if e == 2 {
        return None;
    }
    let dice = seg(cs, 2, e);
    if e < cs.len() && cs[e] == 'c' {
        let f = num_end(cs, e + 1);
        if f == e + 1 || f != cs.len() {
            return None;
        }
        let cut = seg(cs, e + 1, f);
        let dice_num = num_u32(dice.as_slice())?;
        let cut_num = num_u32(cut.as_slice())?;
        if dice_num == 0 || dice_num > 20 || cut_num == 0 || cut_num >= dice_num {
            return None;
        }
        let mut s = String::new();
        push_chars(&mut s, dice.as_slice());
        s.append("d6 wwc");
        push_chars(&mut s, cut.as_slice());
        return Some(to_chars(s));
    }
    if e == cs.len() {
        let dice_num = num_u32(dice.as_slice())?;
        if dice_num == 0 || dice_num > 20 {
            return None;
        }
        let mut s = String::new();
        push_chars(&mut s, dice.as_slice());
        s.append("d6 ww");
        return Some(to_chars(s));
    }
    None
}

/// Open Legend: `olS` with an attribute score of at most two digits,
/// optionally `aN` (advantage) or `dN` (disadvantage).
pub open spec fn open_legend_alias(s: Seq<char>) -> Option<Seq<char>> {
    let n = s.len() as int;
    let e = ne(s, 2);
    let p = we(s, e);
    let f = ne(s, p + 1);
    let has_level = e != n;
    if !lit_at(s, 0, "ol"@) || e == 2 || e > 4 {
        None
    } else if parse_u32(s.subrange(2, e)) is None {
        None
    } else if has_level && !(p < n && (s[p] == 'a' || s[p] == 'd')) {
        None
    } else if has_level && (f == p + 1 || f != n) {
        None
    } else if has_level && parse_u32(s.subrange(p + 1, f)) is None {
        None
    } else {
        let score = parse_u32(s.subrange(2, e)).unwrap();
        let level: u32 = if has_level { parse_u32(s.subrange(p + 1, f)).unwrap() } else { 0 };
        let name = if !has_level { Seq::empty() } else if s[p] == 'a' { "adv"@ } else { "dis"@ };
        if score > 10 {
            None
        } else {
            match ol_dice(score) {
                None => if level == 0 { Some("1d20 ie20"@) } else { Some("1d20 ie20 "@ + name + "1"@) },
                Some((count, sides)) => Some(
                    "1d20 ie20 + "@ + nat_str(count as nat) + "d"@ + nat_str(sides as nat) + " ie"@ + nat_str(
                        sides as nat,
                    ) + if level != 0 { " "@ + name + nat_str(level as nat) } else { Seq::empty() },
                ),
            }
        }
    }
}

fn expand_open_legend_alias(cs: &[char]) -> (r: Option<Vec<char>>) 
    requires
        cs@.len() < 0x1000_0000,
    ensures
        opt_chars(r) == open_legend_alias(cs@),
{
    proof {
        reveal_strlit("ol");
    }
    if !at(cs, 0, "ol") {
        return None;
    }
    let e = num_end(cs, 2);
    if e == 2 || e > 4 {
        return None;
    }
    let score = num_u32(seg(cs, 2, e).as_slice())?;
    let (kind, level): (Option<char>, u32) = if e == cs.len() {
        (None, 0)
    } else {
        let p = ws_end(cs, e);
        if p < cs.len() && (cs[p] == 'a' || cs[p] == 'd') {
            let f = num_end(cs, p + 1);
            if f == p + 1 || f != cs.len() {
                return None;
            }
            let lvl = num_u32(seg(cs, p + 1, f).as_slice())?;
            (Some(cs[p]), lvl)
        } else {
            return None;
        }
    };
    if score > 10 {
        return None;
    }
    let name: &str = match kind {
        Some(c) => if c == 'a' { "adv" } else { "dis" },
        None => "",
    };
    match open_legend_attribute_dice(score) {
        None => {
            if level == 0 {
                Some(str_chars("1d20 ie20"))
            } else {
                let mut s = String::from_str("1d20 ie20 ");
                s.append(name);
                s.append("1");
                Some(to_chars(s))
            }
        },
        Some((count, sides)) => {
            let mut s = String::from_str("1d20 ie20 + ");
            push_nat(&mut s, count as u64);
            s.append("d");
            push_nat(&mut s, sides as u64);
            s.append(" ie");
            push_nat(&mut s, sides as u64);
            if level != 0 {
                s.append(" ");
                s.append(name);
                push_nat(&mut s, level as u64);
            }
            Some(to_chars(s))
        },
    }
}

/// Essence20: `[+-]essNdS[s] [±M]`: the d20 (two with Edge or Snag), the
/// skill rank of `NdS`, and a specialization.
/// The rank of a skill die, by the Essence20 table.
pub open spec fn e20_rank(count: u32, sides: u32) -> Option<u32> {
    if (count, sides) == (1u32, 2u32) { Some(1u32) }
    else if (count, sides) == (1u32, 4u32) { Some(2u32) }
    else if (count, sides) == (1u32, 6u32) { Some(3u32) }
    else if (count, sides) == (1u32, 8u32) { Some(4u32) }
    else if (count, sides) == (1u32, 10u32) { Some(5u32) }
    else if (count, sides) == (1u32, 12u32) { Some(6u32) }
    else if (count, sides) == (2u32, 8u32) { Some(7u32) }
    else if (count, sides) == (3u32, 6u32) { Some(8u32) }
    else { None }
}

pub open spec fn essence20_alias(s: Seq<char>) -> Option<Seq<char>> {
    let n = s.len() as int;
    let signed = n > 0 && (s[0] == '+' || s[0] == '-');
    let p: int = if signed { 1 } else { 0 };
    let c = ne(s, p + 3);
    let s_end = ne(s, c + 1);
    let spec_die = s_end < n && s[s_end] == 's';
    let q = if spec_die { s_end + 1 } else { s_end };
    let count_digits = s.subrange(p + 3, c);
    let count: Option<u32> = if count_digits.len() == 0 { Some(1u32) } else { parse_u32(count_digits) };
    let sides = parse_u32(s.subrange(c + 1, s_end));
    if !lit_at(s, p, "ess"@) || c >= n || s[c] != 'd' || s_end == c + 1 {
        None
    } else {
        match (tail_at(s, q), count, sides) {
            (Some(tail), Some(cn), Some(sd)) => match e20_rank(cn, sd) {
                Some(rank) => Some(
                    (if !signed { "1d20"@ } else if s[0] == '+' { "2d20 k1"@ } else { "2d20 kl1"@ })
                        + (if spec_die { " esss"@ } else { " ess"@ }) + nat_str(rank as nat) + match tail {
                        Some(m) => " "@ + no_spaces(m),
                        None => Seq::empty(),
                    },
                ),
                None => None,
            },
            _ => None,
        }
    }
}

fn expand_essence20_alias(cs: &[char]) -> (r: Option<Vec<char>>) 
    requires
        cs@.len() < 0x1000_0000,
    ensures
        opt_chars(r) == essence20_alias(cs@),
{
    proof {
        reveal_strlit("ess");
    }
    let sign: Option<char> = if cs.len() > 0 && (cs[0] == '+' || cs[0] == '-') { Some(cs[0]) } else { None };
    let p: usize = if sign.is_some() { 1 } else { 0 };
    if !at(cs, p, "ess") {
        return None;
    }
    let c = num_end(cs, p + 3);
    if c >= cs.len() || cs[c] != 'd' {
        return None;
    }
    let s_end = num_end(cs, c + 1);
    if s_end == c + 1 {
        return None;
    }
    let count_digits = seg(cs, p + 3, c);
    let sides_digits = seg(cs, c + 1, s_end);
    let mut q = s_end;
    let specialization = q < cs.len() && cs[q] == 's';
    if specialization {
        q = q + 1;
    }
    let tail = mod_tail(cs, q)?;
    let count: u32 = if count_digits.len() == 0 { 1 } else { num_u32(count_digits.as_slice())? };
    let sides = num_u32(sides_digits.as_slice())?;
    let rank = crate::dice::essence20_rank_number(count, sides)?;
    let mut s = String::from_str(match sign {
        Some(x) => if x == '+' { "2d20 k1" } else { "2d20 kl1" },
        None => "1d20",
    });
    s.append(if specialization { " esss" } else { " ess" });
    push_nat(&mut s, rank as u64);
    if let Some(m) = tail {
        s.append(" ");
        push_chars(&mut s, without_spaces(m.as_slice()).as_slice());
    }
    Some(to_chars(s))
}

/// The Darkest House: `tdhR[b|n][c] [±M]`: 2d6 (with a Boon or Bane), the
/// House Die (called upon with `c`), and the rating plus modifier.
pub open spec fn darkest_house_alias(s: Seq<char>) -> Option<Seq<char>> {
    let n = s.len() as int;
    let e = ne(s, 3);
    let has_bb = e < n && (s[e] == 'b' || s[e] == 'n');
    let q1 = if has_bb { e + 1 } else { e };
    let called = q1 < n && s[q1] == 'c';
    let q = if called { q1 + 1 } else { q1 };
    if !lit_at(s, 0, "tdh"@) || e == 3 {
        None
    } else {
        match (parse_i64(s.subrange(3, e)), tail_at(s, q)) {
            (Some(rating), Some(tail)) => {
                let flat: Option<i64> = match tail {
                    Some(m) => parse_i64(no_spaces(m)),
                    None => Some(0i64),
                };
                match flat {
                    Some(fl) => {
                        let total = rating.wrapping_add(fl);
                        Some(
                            (if !has_bb { "2d6"@ } else if s[e] == 'b' { "2d6 adv1"@ } else { "2d6 dis1"@ })
                                + (if called { " tdhc"@ } else { " tdh"@ }) + if total > 0 {
                                " + "@ + int_str(total as int)
                            } else if total < 0 {
                                " - "@ + int_str((0i64).wrapping_sub(total) as int)
                            } else {
                                Seq::empty()
                            },
                        )
                    },
                    None => None,
                }
            },
            _ => None,
        }
    }
}

fn expand_darkest_house_alias(cs: &[char]) -> (r: Option<Vec<char>>) 
    requires
        cs@.len() < 0x1000_0000,
    ensures
        opt_chars(r) == darkest_house_alias(cs@),
{
    proof {
        reveal_strlit("tdh");
    }
    if !at(cs, 0, "tdh") {
        return None;
    }
    let e = num_end(cs, 3);
    if e == 3 {
        return None;
    }
    let rating = num_i64(seg(cs, 3, e).as_slice())?;
    let mut q = e;
    let boon_bane: Option<char> = if q < cs.len() && (cs[q] == 'b' || cs[q] == 'n') { Some(cs[q]) } else { None };
    if boon_bane.is_some() {
        q = q + 1;
    }
    let called = q < cs.len() && cs[q] == 'c';
    if called {
        q = q + 1;
    }
    let tail = mod_tail(cs, q)?;
    let flat: i64 = match tail {
        Some(m) => num_i64(without_spaces(m.as_slice()).as_slice())?,
        None => 0,
    };
    let total = rating.wrapping_add(flat);
    let mut s = String::from_str(match boon_bane {
        Some(x) => if x == 'b' { "2d6 adv1" } else { "2d6 dis1" },
        None => "2d6",
    });
    s.append(if called { " tdhc" } else { " tdh" });
    if total > 0 {
        s.append(" + ");
        push_int(&mut s, total);
    } else if total < 0 {
        s.append(" - ");
        push_int(&mut s, (0i64).wrapping_sub(total));
    }
    Some(to_chars(s))
}

/// Marvel Multiverse: `mm`, `mm 2e`, `mm e t`, with edges and troubles
/// cancelling; `mm 2e + 3` keeps the arithmetic.
/// Reads up to two groups `[ws][N]e` or `[ws][N]t` from `pos`: whether
/// the reading ended cleanly, where it stopped, and the edges and troubles
/// counted.
pub open spec fn mm_scan(s: Seq<char>, pos: int, groups: int, e: i32, t: i32) -> (bool, int, i32, i32)
    decreases 2 - groups,
{
    let n = s.len() as int;
    if !(pos < n && groups < 2) {
        (true, pos, e, t)
    } else {
        let p = we(s, pos);
        let d = ne(s, p);
        if p == pos {
            (false, pos, e, t)
        } else if d < n && (s[d] == 'e' || s[d] == 't') {
            let num: i32 = if d == p {
                1
            } else {
                match crate::text::parse_i32(s.subrange(p, d)) {
                    Some(v) => v,
                    None => 1,
                }
            };
            if s[d] == 'e' {
                mm_scan(s, d + 1, groups + 1, e.wrapping_add(num), t)
            } else {
                mm_scan(s, d + 1, groups + 1, e, t.wrapping_add(num))
            }
        } else {
            (false, pos, e, t)
        }
    }
}

pub open spec fn mm_op(k: int) -> Seq<char> {
    if k == 0 { " + "@ } else if k == 1 { " - "@ } else if k == 2 { " * "@ } else { " / "@ }
}

/// The first position from `i` at which `op` stands (the length when none).
pub open spec fn first_at(s: Seq<char>, op: Seq<char>, i: int) -> int
    decreases s.len() - i,
{
    if i >= s.len() {
        s.len() as int
    } else if lit_at(s, i, op) {
        i
    } else {
        first_at(s, op, i + 1)
    }
}

proof fn lemma_first_at_bounds(s: Seq<char>, op: Seq<char>, i: int)
    requires
        0 <= i,
    ensures
        i <= first_at(s, op, i) || i > s.len(),
        first_at(s, op, i) <= s.len(),
        0 <= first_at(s, op, i),
    decreases s.len() - i,
{
    if i < s.len() && !lit_at(s, i, op) {
        lemma_first_at_bounds(s, op, i + 1);
    }
}

/// Marvel Multiverse: `mm`, `mm 2e`, `mm e t`, with edges and troubles
/// cancelling; `mm 2e + 3` keeps the arithmetic.
pub open spec fn marvel_alias(s: Seq<char>) -> Option<Seq<char>>
    decreases s.len(), 5int,
{
    let scan = mm_scan(s, 2, 0, 0, 0);
    let e = scan.2;
    let t = scan.3;
    let net_e: i32 = if e > t { e.wrapping_sub(t) } else { 0 };
    let net_t: i32 = if t > e { t.wrapping_sub(e) } else { 0 };
    if s == "mm"@ {
        Some("3d6 mm"@)
    } else if s.len() >= 2 && lit_at(s, 0, "mm"@) && scan.0 && scan.1 == s.len() {
        Some(
            if net_e > 0 {
                "3d6 mme"@ + int_str(net_e as int)
            } else if net_t > 0 {
                "3d6 mmt"@ + int_str(net_t as int)
            } else {
                "3d6 mm"@
            },
        )
    } else if lit_at(s, 0, "mm "@) {
        mm_ops(s, 0)
    } else {
        None
    }
}

/// The first operator (` + `, then ` - `, ` * `, ` / `) found in `s`
/// splits it: the alias before it, and the rest as written.
pub open spec fn mm_ops(s: Seq<char>, k: int) -> Option<Seq<char>>
    decreases s.len(), 4 - k,
{
    if k >= 4 || k < 0 {
        None
    } else {
        let pos = first_at(s, mm_op(k), 0);
        if 0 <= pos < s.len() {
            match marvel_alias(s.subrange(0, pos)) {
                Some(x) => Some(x + s.subrange(pos, s.len() as int)),
                None => None,
            }
        } else {
            mm_ops(s, k + 1)
        }
    }
}

fn expand_marvel_multiverse_alias(cs: &[char]) -> (r: Option<Vec<char>>)
    requires
        cs@.len() < 0x1000_0000,
    ensures
        opt_chars(r) == marvel_alias(cs@),
    decreases cs@.len(),
{
    proof {
        reveal_strlit("mm");
        reveal_strlit("mm ");
    }
    if chars_eq_str(cs, "mm") {
        return Some(str_chars("3d6 mm"));
    }
    if cs.len() >= 2 && at(cs, 0, "mm") {
        let mut edges: i32 = 0;
        let mut troubles: i32 = 0;
        let mut pos: usize = 2;
        let mut groups: u32 = 0;
        let mut ok = true;
        while pos < cs.len() && groups < 2 && ok
            invariant
                2 <= pos <= cs@.len(),
                groups <= 2,
                cs@.len() < 0x1000_0000,
                mm_scan(cs@, 2, 0, 0, 0) == if ok {
                    mm_scan(cs@, pos as int, groups as int, edges, troubles)
                } else {
                    (false, pos as int, edges, troubles)
                },
            decreases (2 - groups) * 2 + (if ok { 1int } else { 0int }),
        {
            let p = ws_end(cs, pos);
            if p == pos {
                ok = false;
            } else {
                let d = num_end(cs, p);
                if d < cs.len() && (cs[d] == 'e' || cs[d] == 't') {
                    let num: i32 = if d == p {
                        1
                    } else {
                        match crate::text::parse_i32_chars(seg(cs, p, d).as_slice()) {
                            Some(v) => v,
                            None => 1,
                        }
                    };
                    if cs[d] == 'e' {
                        edges = edges.wrapping_add(num);
                    } else {
                        troubles = troubles.wrapping_add(num);
                    }
                    pos = d + 1;
                    groups = groups + 1;
                } else {
                    ok = false;
                }
            }
        }
        if ok && pos == cs.len() {
            let net_edges = if edges > troubles { edges.wrapping_sub(troubles) } else { 0 };
            let net_troubles = if troubles > edges { troubles.wrapping_sub(edges) } else { 0 };
            if net_edges > 0 {
                let mut s = String::from_str("3d6 mme");
                push_int(&mut s, net_edges as i64);
                return Some(to_chars(s));
            } else if net_troubles > 0 {
                let mut s = String::from_str("3d6 mmt");
                push_int(&mut s, net_troubles as i64);
                return Some(to_chars(s));
            } else {
                return Some(str_chars("3d6 mm"));
            }
        }
        assert(!(mm_scan(cs@, 2, 0, 0, 0).0 && mm_scan(cs@, 2, 0, 0, 0).1 == cs@.len()));
    }
    if at(cs, 0, "mm ") {
        assert(cs@ != "mm"@);
        assert(marvel_alias(cs@) == mm_ops(cs@, 0));
        let mut k: usize = 0;
        while k < 4
            invariant
                k <= 4,
                cs@.len() < 0x1000_0000,
                marvel_alias(cs@) == mm_ops(cs@, 0),
                mm_ops(cs@, 0) == mm_ops(cs@, k as int),
            decreases 4 - k,
        {
            let op: &str = if k == 0 { " + " } else if k == 1 { " - " } else if k == 2 { " * " } else { " / " };
            assert(op@ == mm_op(k as int));
            let mut pos: usize = 0;
            while pos < cs.len()
                invariant
                    pos <= cs@.len(),
                    cs@.len() < 0x1000_0000,
                    k < 4,
                    op@ == mm_op(k as int),
                    marvel_alias(cs@) == mm_ops(cs@, 0),
                    mm_ops(cs@, 0) == mm_ops(cs@, k as int),
                    first_at(cs@, op@, 0) == first_at(cs@, op@, pos as int),
                decreases cs.len() - pos,
            {
                if at(cs, pos, op) {
                    if pos < cs.len() {
                        let head = seg(cs, 0, pos);
                        assert(first_at(cs@, op@, pos as int) == pos);
                        assert(first_at(cs@, mm_op(k as int), 0) == pos);
                        assert(head@ == cs@.subrange(0, pos as int));
                        assert(marvel_alias(cs@) == mm_ops(cs@, 0));
                        match expand_marvel_multiverse_alias(head.as_slice()) {
                            Some(mut expanded) => {
                                let mut rest = seg(cs, pos, cs.len());
                                expanded.append(&mut rest);
                                return Some(expanded);
                            },
                            None => {
                                return None;
                            },
                        }
                    }
                }
                pos = pos + 1;
            }
            k = k + 1;
        }
    }
    None
}

/// Mothership: `ms`, `msN` (stat), with `+` for advantage or `-` for
/// disadvantage in front.
pub open spec fn mothership_alias(s: Seq<char>) -> Option<Seq<char>> {
    let signed = s.len() > 0 && (s[0] == '+' || s[0] == '-');
    let p: int = if signed { 1 } else { 0 };
    let e = ne(s, p + 2);
    if !lit_at(s, p, "ms"@) || e != s.len() {
        None
    } else {
        Some(
            (if signed { "2d100 ms"@ } else { "1d100 ms"@ }) + s.subrange(p + 2, e) + if signed {
                if s[0] == '+' { "a"@ } else { "d"@ }
            } else {
                Seq::empty()
            },
        )
    }
}

fn expand_mothership_alias(cs: &[char]) -> (r: Option<Vec<char>>) 
    requires
        cs@.len() < 0x1000_0000,
    ensures
        opt_chars(r) == mothership_alias(cs@),
{
    proof {
        reveal_strlit("ms");
    }
    let sign: Option<char> = if cs.len() > 0 && (cs[0] == '+' || cs[0] == '-') { Some(cs[0]) } else { None };
    let p: usize = if sign.is_some() { 1 } else { 0 };
    if !at(cs, p, "ms") {
        return None;
    }
    let e = num_end(cs, p + 2);
    if e != cs.len() {
        return None;
    }
    let stat = seg(cs, p + 2, e);
    let mut s = String::from_str(match sign {
        Some(_) => "2d100 ms",
        None => "1d100 ms",
    });
    push_chars(&mut s, stat.as_slice());
    match sign {
        Some(x) => {
            s.append(if x == '+' { "a" } else { "d" });
        },
        None => {},
    }
    Some(to_chars(s))
}

pub open spec fn first(a: Option<Seq<char>>, b: Option<Seq<char>>) -> Option<Seq<char>> {
    if a is Some { a } else { b }
}

/// The aliases that are one fixed word among the parameterized ones.
pub open spec fn fixed_word_alias(s: Seq<char>) -> Option<Seq<char>> {
    if s == "dheart"@ { Some("2d12 dheart"@) }
    else if s == "dheartgm"@ { Some("1d20"@) }
    else if s == "+d%"@ { Some("2d10 kl1 * 10 + 1d10 - 10"@) }
    else if s == "-d%"@ { Some("2d10 k1 * 10 + 1d10 - 10"@) }
    else if s == "wng"@ { Some("1d6 wng"@) }
    else if s == "dh"@ { Some("1d10 dh"@) }
    else { None }
}

fn fixed_word_text(cs: &[char]) -> (r: Option<Vec<char>>)
    ensures
        opt_chars(r) == fixed_word_alias(cs@),
{
    if chars_eq_str(cs, "dheart") {
        Some(str_chars("2d12 dheart"))
    } else if chars_eq_str(cs, "dheartgm") {
        Some(str_chars("1d20"))
    } else if chars_eq_str(cs, "+d%") {
        Some(str_chars("2d10 kl1 * 10 + 1d10 - 10"))
    } else if chars_eq_str(cs, "-d%") {
        Some(str_chars("2d10 k1 * 10 + 1d10 - 10"))
    } else if chars_eq_str(cs, "wng") {
        Some(str_chars("1d6 wng"))
    } else if chars_eq_str(cs, "dh") {
        Some(str_chars("1d10 dh"))
    } else {
        None
    }
}

/// Shadowrun: `srN`.
pub open spec fn shadowrun_alias(s: Seq<char>) -> Option<Seq<char>> {
    let e = ne(s, 2);
    if lit_at(s, 0, "sr"@) && e > 2 && e == s.len() {
        Some(s.subrange(2, e) + "d6 t5 shadowrun"@ + s.subrange(2, e))
    } else {
        None
    }
}

fn shadowrun_text(cs: &[char]) -> (r: Option<Vec<char>>)
    ensures
        opt_chars(r) == shadowrun_alias(cs@),
{
    proof {
        reveal_strlit("sr");
    }
    let e = num_end(cs, 2);
    if at(cs, 0, "sr") && e > 2 && e == cs.len() {
        let count = seg(cs, 2, e);
        let mut s = String::new();
        push_chars(&mut s, count.as_slice());
        s.append("d6 t5 shadowrun");
        push_chars(&mut s, count.as_slice());
        return Some(to_chars(s));
    }
    None
}

/// Hero System: `N[.F]hs[nkh]`.
pub open spec fn hero_alias(s: Seq<char>) -> Option<Seq<char>> {
    let n = s.len() as int;
    let e = ne(s, 0);
    let g = ne(s, e + 1);
    let has_f = e < n && s[e] == '.' && g > e + 1;
    let f_start = if has_f { e + 1 } else { e };
    let f_end = if has_f { g } else { e };
    if e > 0 && lit_at(s, f_end, "hs"@) && f_end + 3 == n && (s[f_end + 2] == 'n' || s[f_end + 2] == 'k'
        || s[f_end + 2] == 'h') {
        if s[f_end + 2] == 'h' {
            Some("3d6 hsh"@)
        } else {
            Some(hero_dice(s.subrange(0, e), s.subrange(f_start, f_end), if s[f_end + 2] == 'n' { "hsn"@ } else { "hsk"@ }))
        }
    } else {
        None
    }
}

fn hero_text(cs: &[char]) -> (r: Option<Vec<char>>)
    requires
        cs@.len() < 0x1000_0000,
    ensures
        opt_chars(r) == hero_alias(cs@),
{
    proof {
        reveal_strlit("hs");
    }
    let n = cs.len();
    let e = num_end(cs, 0);
    if e > 0 {
        let mut f_start = e;
        let mut f_end = e;
        if e < n && cs[e] == '.' {
            let g = num_end(cs, e + 1);
            if g > e + 1 {
                f_start = e + 1;
                f_end = g;
            }
        }
        if at(cs, f_end, "hs") && f_end + 3 == n {
            let kind = cs[f_end + 2];
            if kind == 'n' || kind == 'k' || kind == 'h' {
                if kind == 'h' {
                    return Some(str_chars("3d6 hsh"));
                }
                let whole = seg(cs, 0, e);
                let fraction = seg(cs, f_start, f_end);
                let s = process_hero_system_dice(whole.as_slice(), fraction.as_slice(), if kind == 'n' { "hsn" } else { "hsk" });
                return Some(to_chars(s));
            }
        }
    }
    None
}

/// Godbound: `gb[s] NdS [±M]`, `gb[s] [±M]`.
pub open spec fn godbound_alias(s: Seq<char>) -> Option<Seq<char>> {
    let n = s.len() as int;
    let t_end: int = if 2 < n && s[2] == 's' { 3 } else { 2 };
    let gb_type = s.subrange(0, t_end);
    let p = we(s, t_end);
    let c = ne(s, p);
    let sd = ne(s, c + 1);
    if !lit_at(s, 0, "gb"@) {
        None
    } else if p > t_end && c > p && c < n && s[c] == 'd' && sd > c + 1 && tail_at(s, sd) is Some {
        Some(s.subrange(p, c) + "d"@ + s.subrange(c + 1, sd) + " "@ + gb_type + tail_text(tail_at(s, sd).unwrap()))
    } else if tail_at(s, t_end) is Some {
        Some("1d20 "@ + gb_type + tail_text(tail_at(s, t_end).unwrap()))
    } else {
        None
    }
}

fn godbound_text(cs: &[char]) -> (r: Option<Vec<char>>)
    requires
        cs@.len() < 0x1000_0000,
    ensures
        opt_chars(r) == godbound_alias(cs@),
{
    proof {
        reveal_strlit("gb");
    }
    let n = cs.len();
    if at(cs, 0, "gb") {
        let t_end: usize = if 2 < n && cs[2] == 's' { 3 } else { 2 };
        let gb_type = seg(cs, 0, t_end);
        let p = ws_end(cs, t_end);
        if p > t_end {
            let c = num_end(cs, p);
            if c > p && c < n && cs[c] == 'd' {
                let sd = num_end(cs, c + 1);
                if sd > c + 1 {
                    if let Some(tail) = mod_tail(cs, sd) {
                        let mut s = String::new();
                        push_chars(&mut s, seg(cs, p, c).as_slice());
                        s.append("d");
                        push_chars(&mut s, seg(cs, c + 1, sd).as_slice());
                        s.append(" ");
                        push_chars(&mut s, gb_type.as_slice());
                        if let Some(m) = tail {
                            push_chars(&mut s, m.as_slice());
                        }
                        return Some(to_chars(s));
                    }
                }
            }
        }
        if let Some(tail) = mod_tail(cs, t_end) {
            let mut s = String::from_str("1d20 ");
            push_chars(&mut s, gb_type.as_slice());
            if let Some(m) = tail {
                push_chars(&mut s, m.as_slice());
            }
            return Some(to_chars(s));
        }
    }
    None
}

pub open spec fn cod_template(v: char) -> Seq<char> {
    if v == '8' { "d10 t8 ie8"@ } else if v == '9' { "d10 t8 ie9"@ } else if v == 'r' { "d10 t8 ie10 r7"@ } else { "d10 t8 ie10"@ }
}

/// Chronicles and World of Darkness: `Ncod[8|9|r] [±M]`, `NwodD[c] [±M]`.
pub open spec fn darkness_alias(s: Seq<char>) -> Option<Seq<char>> {
    let n = s.len() as int;
    let e = ne(s, 0);
    let count = s.subrange(0, e);
    let q0 = e + 3;
    let variant: char = if q0 < n && (s[q0] == '8' || s[q0] == '9' || s[q0] == 'r') { s[q0] } else { ' ' };
    let q = if variant != ' ' { q0 + 1 } else { q0 };
    let d = ne(s, e + 3);
    let difficulty = s.subrange(e + 3, d);
    let cancel = d < n && s[d] == 'c';
    if e == 0 {
        None
    } else if lit_at(s, e, "cod"@) && tail_at(s, q) is Some {
        Some(count + cod_template(variant) + spaced_tail(tail_at(s, q).unwrap()))
    } else if lit_at(s, e, "wod"@) && d > e + 3 && cancel && tail_at(s, d + 1) is Some {
        Some(count + "d10 f1 t"@ + difficulty + " c"@ + spaced_tail(tail_at(s, d + 1).unwrap()))
    } else if lit_at(s, e, "wod"@) && d > e + 3 && tail_at(s, d) is Some {
        Some(count + "d10 f1 t"@ + difficulty + spaced_tail(tail_at(s, d).unwrap()))
    } else {
        None
    }
}

fn darkness_text(cs: &[char]) -> (r: Option<Vec<char>>)
    requires
        cs@.len() < 0x1000_0000,
    ensures
        opt_chars(r) == darkness_alias(cs@),
{
    proof {
        reveal_strlit("cod");
        reveal_strlit("wod");
    }
    let n = cs.len();
    let e = num_end(cs, 0);
    if e == 0 {
        return None;
    }
    let count = seg(cs, 0, e);
    if at(cs, e, "cod") {
        let mut q = e + 3;
        let variant: char = if q < n && (cs[q] == '8' || cs[q] == '9' || cs[q] == 'r') { cs[q] } else { ' ' };
        if variant != ' ' {
            q = q + 1;
        }
        if let Some(tail) = mod_tail(cs, q) {
            let mut s = String::new();
            push_chars(&mut s, count.as_slice());
            s.append(if variant == '8' {
                "d10 t8 ie8"
            } else if variant == '9' {
                "d10 t8 ie9"
            } else if variant == 'r' {
                "d10 t8 ie10 r7"
            } else {
                "d10 t8 ie10"
            });
            if let Some(m) = tail {
                s.append(" ");
                push_chars(&mut s, m.as_slice());
            }
            return Some(to_chars(s));
        }
    }
    if at(cs, e, "wod") {
        let d = num_end(cs, e + 3);
        if d > e + 3 {
            let difficulty = seg(cs, e + 3, d);
            let cancel = d < n && cs[d] == 'c';
            if cancel {
                if let Some(tail) = mod_tail(cs, d + 1) {
                    let mut s = String::new();
                    push_chars(&mut s, count.as_slice());
                    s.append("d10 f1 t");
                    push_chars(&mut s, difficulty.as_slice());
                    s.append(" c");
                    if let Some(m) = tail {
                        s.append(" ");
                        push_chars(&mut s, m.as_slice());
                    }
                    return Some(to_chars(s));
                }
            }
            if let Some(tail) = mod_tail(cs, d) {
                let mut s = String::new();
                push_chars(&mut s, count.as_slice());
                s.append("d10 f1 t");
                push_chars(&mut s, difficulty.as_slice());
                if let Some(m) = tail {
                    s.append(" ");
                    push_chars(&mut s, m.as_slice());
                }
                return Some(to_chars(s));
            }
        }
    }
    None
}

/// Dark Heresy: `dh NdS`.
pub open spec fn dark_heresy_alias(s: Seq<char>) -> Option<Seq<char>> {
    let n = s.len() as int;
    let p = we(s, 2);
    let c = ne(s, p);
    let sd = ne(s, c + 1);
    if lit_at(s, 0, "dh"@) && p > 2 && c > p && c < n && s[c] == 'd' && sd > c + 1 && sd == n {
        Some(s.subrange(p, c) + "d"@ + s.subrange(c + 1, sd) + " ie"@ + s.subrange(c + 1, sd) + " dh"@)
    } else {
        None
    }
}

fn dark_heresy_text(cs: &[char]) -> (r: Option<Vec<char>>)
    ensures
        opt_chars(r) == dark_heresy_alias(cs@),
{
    proof {
        reveal_strlit("dh");
    }
    let n = cs.len();
    if at(cs, 0, "dh") {
        let p = ws_end(cs, 2);
        if p > 2 {
            let c = num_end(cs, p);
            if c > p && c < n && cs[c] == 'd' {
                let sd = num_end(cs, c + 1);
                if sd > c + 1 && sd == n {
                    let sides = seg(cs, c + 1, sd);
                    let mut s = String::new();
                    push_chars(&mut s, seg(cs, p, c).as_slice());
                    s.append("d");
                    push_chars(&mut s, sides.as_slice());
                    s.append(" ie");
                    push_chars(&mut s, sides.as_slice());
                    s.append(" dh");
                    return Some(to_chars(s));
                }
            }
        }
    }
    None
}

/// The parameterized aliases, tried in order; the first that recognises
/// the text decides.
pub open spec fn param_alias(s: Seq<char>) -> Option<Seq<char>> {
    first(alien_alias(s), first(fixed_word_alias(s), first(mnm_alias(s), first(a5e_request(s),
    first(wild_words_alias(s), first(open_legend_alias(s), first(essence20_alias(s), first(darkest_house_alias(s),
    first(shadowrun_alias(s), first(hero_alias(s), first(godbound_alias(s), first(
        if lit_at(s, 0, "wng"@) { wrath_glory_alias(s) } else { None },
    first(darkness_alias(s), first(dark_heresy_alias(s), first(counted_suffix_alias(s),
        match prefixed_alias(s) {
            Some(v) => v,
            None => None,
        },
    )))))))))))))))
}

fn expand_parameterized_alias(cs: &[char]) -> (r: Option<Vec<char>>)
    requires
        cs@.len() < 0x1000_0000,
    ensures
        opt_chars(r) == param_alias(cs@),
{
    if let Some(v) = expand_alien_alias(cs) {
        return Some(v);
    }
    if let Some(v) = fixed_word_text(cs) {
        return Some(v);
    }
    if let Some(v) = expand_mnm(cs) {
        return Some(v);
    }
    let joined = crate::text::chars_to_string(cs);
    if let Some(v) = expand_a5e_alias(joined.as_str()) {
        return Some(to_chars(v));
    }
    if let Some(v) = expand_wild_words_alias(cs) {
        return Some(v);
    }
    if let Some(v) = expand_open_legend_alias(cs) {
        return Some(v);
    }
    if let Some(v) = expand_essence20_alias(cs) {
        return Some(v);
    }
    if let Some(v) = expand_darkest_house_alias(cs) {
        return Some(v);
    }
    if let Some(v) = shadowrun_text(cs) {
        return Some(v);
    }
    if let Some(v) = hero_text(cs) {
        return Some(v);
    }
    if let Some(v) = godbound_text(cs) {
        return Some(v);
    }
    if at(cs, 0, "wng") {
        if let Some(v) = expand_wrath_glory(cs) {
            return Some(v);
        }
    }
    if let Some(v) = darkness_text(cs) {
        return Some(v);
    }
    if let Some(v) = dark_heresy_text(cs) {
        return Some(v);
    }
    if let Some(v) = expand_counted_suffix(cs) {
        return Some(v);
    }
    if let Some(v) = expand_prefixed_count(cs) {
        return v;
    }
    None
}

pub open spec fn is_word_char(c: char) -> bool {
    crate::text::is_ascii_alpha(c) || is_digit(c) || c == '_'
}

/// Number of word characters (letters, digits, `_`) from `i` on.
pub open spec fn word_run(s: Seq<char>, i: int) -> nat
    decreases s.len() - i,
{
    if 0 <= i < s.len() && is_word_char(s[i]) {
        1 + word_run(s, i + 1)
    } else {
        0
    }
}

/// The text after the dice of a Wrath & Glory roll: nothing, or `! word`;
/// `Some(true)` for the words that count the total (`soak`, `exempt`, `dmg`).
pub open spec fn wng_special(s: Seq<char>, sd: int) -> Option<bool> {
    let n = s.len() as int;
    let q = we(s, sd);
    let w = we(s, q + 1);
    let k = w + word_run(s, w);
    if sd >= n {
        Some(false)
    } else if q >= n || s[q] != '!' || w >= n || k == w || k != n {
        None
    } else {
        let word = s.subrange(w, n);
        Some(word == "soak"@ || word == "exempt"@ || word == "dmg"@)
    }
}

proof fn lemma_word_run_bounded(s: Seq<char>, i: int)
    requires
        0 <= i <= s.len(),
    ensures
        i + word_run(s, i) <= s.len(),
    decreases s.len() - i,
{
    if i < s.len() {
        lemma_word_run_bounded(s, i + 1);
    }
}

/// Wrath & Glory: `wng [wN] [dnN] NdS [!special]`.
pub open spec fn wrath_glory_alias(s: Seq<char>) -> Option<Seq<char>> {
    let n = s.len() as int;
    let p1 = we(s, 3);
    let e1 = ne(s, p1 + 1);
    let has_w = p1 > 3 && p1 < n && s[p1] == 'w' && e1 > p1 + 1;
    let wrath = if has_w { s.subrange(p1 + 1, e1) } else { "1"@ };
    let pos1 = if has_w { e1 } else { 3 };
    let p2 = we(s, pos1);
    let e2 = ne(s, p2 + 2);
    let has_dn = p2 > pos1 && lit_at(s, p2, "dn"@) && e2 > p2 + 2;
    let pos2 = if has_dn { e2 } else { pos1 };
    let p = we(s, pos2);
    let c = ne(s, p);
    let sd = ne(s, c + 1);
    if p == pos2 || c == p || c >= n || s[c] != 'd' || sd == c + 1 {
        None
    } else {
        match wng_special(s, sd) {
            None => None,
            Some(special) => Some(
                s.subrange(p, c) + "d"@ + s.subrange(c + 1, sd) + " wngw"@ + wrath + (if has_dn {
                    "dn"@ + s.subrange(p2 + 2, e2)
                } else {
                    Seq::empty()
                }) + if special { "t"@ } else { Seq::empty() },
            ),
        }
    }
}

/// Whether the text after the dice is nothing or `! word`, and then
/// whether the word counts the total.
fn wng_special_text(cs: &[char], sd: usize) -> (r: Option<bool>)
    requires
        sd <= cs@.len(),
        cs@.len() < 0x1000_0000,
    ensures
        r == wng_special(cs@, sd as int),
{
    let n = cs.len();
    if sd >= n {
        return Some(false);
    }
    let q = ws_end(cs, sd);
    if q >= n || cs[q] != '!' {
        return None;
    }
    let w = ws_end(cs, q + 1);
    if w >= n {
        return None;
    }
    let mut k = w;
    proof {
        lemma_word_run_bounded(cs@, w as int);
    }
    while k < n && (crate::text::char_is_alpha(cs[k]) || char_is_digit(cs[k]) || cs[k] == '_')
        invariant
            w <= k <= n,
            n == cs@.len(),
            k + word_run(cs@, k as int) == w + word_run(cs@, w as int),
        decreases n - k,
    {
        k = k + 1;
    }
    if k == w || k != n {
        return None;
    }
    let word = seg(cs, w, n);
    Some(chars_eq_str(word.as_slice(), "soak") || chars_eq_str(word.as_slice(), "exempt")
        || chars_eq_str(word.as_slice(), "dmg"))
}

fn expand_wrath_glory(cs: &[char]) -> (r: Option<Vec<char>>) 
    requires
        cs@.len() < 0x1000_0000,
        lit_at(cs@, 0, "wng"@),
    ensures
        opt_chars(r) == wrath_glory_alias(cs@),
{
    proof {
        reveal_strlit("wng");
        reveal_strlit("dn");
        reveal_strlit("1");
    }
    let n = cs.len();
    let mut pos: usize = 3;
    let mut wrath: Vec<char> = str_chars("1");
    let mut difficulty: Option<Vec<char>> = None;
    let p = ws_end(cs, pos);
    if p > pos && p < n && cs[p] == 'w' {
        let e = num_end(cs, p + 1);
        if e > p + 1 {
            wrath = seg(cs, p + 1, e);
            pos = e;
        }
    }
    let p = ws_end(cs, pos);
    if p > pos && at(cs, p, "dn") {
        let e = num_end(cs, p + 2);
        if e > p + 2 {
            difficulty = Some(seg(cs, p + 2, e));
            pos = e;
        }
    }
    let p = ws_end(cs, pos);
    if p == pos {
        return None;
    }
    let c = num_end(cs, p);
    if c == p || c >= n || cs[c] != 'd' {
        return None;
    }
    let sd = num_end(cs, c + 1);
    if sd == c + 1 {
        return None;
    }
    let special = match wng_special_text(cs, sd) {
        Some(b) => b,
        None => {
            return None;
        },
    };
    let mut s = String::new();
    push_chars(&mut s, seg(cs, p, c).as_slice());
    s.append("d");
    push_chars(&mut s, seg(cs, c + 1, sd).as_slice());
    s.append(" wngw");
    push_chars(&mut s, wrath.as_slice());
    if let Some(dn) = difficulty {
        s.append("dn");
        push_chars(&mut s, dn.as_slice());
    }
    if special {
        s.append("t");
    }
    Some(to_chars(s))
}

/// The aliases written as a count and a suffix: `Ndf`, `NwhT+`, `Nd%`,
/// `Nyz`, `Ndp`, `NhsKF`, `Nd6l`, `NlfT[l|f]`.
pub open spec fn counted_suffix_alias(s: Seq<char>) -> Option<Seq<char>> {
    let n = s.len() as int;
    let e = ne(s, 0);
    let t = ne(s, e + 2);
    if e == 0 {
        None
    } else if lit_at(s, e, "df"@) && e + 2 == n {
        Some(s.subrange(0, e) + "d3 fudge"@)
    } else if lit_at(s, e, "wh"@) && t > e + 2 && t + 1 == n && s[t] == '+' {
        Some(s.subrange(0, e) + "d6 t"@ + s.subrange(e + 2, t))
    } else {
        None
    }
}

fn expand_counted_suffix(cs: &[char]) -> (r: Option<Vec<char>>) 
    requires
        cs@.len() < 0x1000_0000,
    ensures
        opt_chars(r) == counted_suffix_alias(cs@),
{
    proof {
        reveal_strlit("df");
        reveal_strlit("wh");
    }
    let n = cs.len();
    let e = num_end(cs, 0);
    if e == 0 {
        return None;
    }
    let count = seg(cs, 0, e);
    if at(cs, e, "df") && e + 2 == n {
        let mut s = String::new();
        push_chars(&mut s, count.as_slice());
        s.append("d3 fudge");
        return Some(to_chars(s));
    }
    if at(cs, e, "wh") {
        let t = num_end(cs, e + 2);
        if t > e + 2 && t + 1 == n && cs[t] == '+' {
            let mut s = String::new();
            push_chars(&mut s, count.as_slice());
            s.append("d6 t");
            push_chars(&mut s, seg(cs, e + 2, t).as_slice());
            return Some(to_chars(s));
        }
    }
    None
}

pub open spec fn or_else(a: Option<Option<Seq<char>>>, b: Option<Option<Seq<char>>>) -> Option<Option<Seq<char>>> {
    if a is Some { a } else { b }
}

pub open spec fn found(v: Option<Seq<char>>) -> Option<Option<Seq<char>>> {
    match v {
        Some(x) => Some(Some(x)),
        None => None,
    }
}

/// Percentile and short-count aliases: `ddTO`, `+dS`/`-dS`, `Nd%`,
/// `spN[tT]`, `Nyz`, `snmN`, `d6sN [+ P]`.
pub open spec fn short_count_alias(s: Seq<char>) -> Option<Option<Seq<char>>> {
    let n = s.len() as int;
    let e2 = ne(s, 2);
    let e0 = ne(s, 0);
    let e3 = ne(s, 3);
    let t = ne(s, e2 + 1);
    let has_t = e2 < n && s[e2] == 't' && t > e2 + 1 && t == n;
    let p = we(s, e3);
    let q = we(s, p + 1);
    let d = ne(s, q);
    let pips_ok = e3 == n || (e3 < n && p < n && s[p] == '+' && d > q && d == n);
    if lit_at(s, 0, "dd"@) && n == 4 && is_digit(s[2]) && is_digit(s[3]) {
        Some(Some("1d"@ + s.subrange(2, 3) + " * 10 + 1d"@ + s.subrange(3, 4)))
    } else if n >= 3 && (s[0] == '+' || s[0] == '-') && s[1] == 'd' && e2 > 2 && e2 == n {
        Some(Some("2d"@ + s.subrange(2, e2) + if s[0] == '+' { " k1"@ } else { " kl1"@ }))
    } else if e0 > 0 && e0 + 2 == n && s[e0] == 'd' && s[e0 + 1] == '%' {
        Some(Some(s.subrange(0, e0) + "d100"@))
    } else if lit_at(s, 0, "sp"@) && e2 > 2 && (e2 == n || has_t) {
        Some(Some(s.subrange(2, e2) + "d10 t"@ + (if has_t { s.subrange(e2 + 1, t) } else { "8"@ }) + " ie10"@))
    } else if e0 > 0 && lit_at(s, e0, "yz"@) && e0 + 2 == n {
        Some(Some(s.subrange(0, e0) + "d6 t6"@))
    } else if lit_at(s, 0, "snm"@) && e3 > 3 && e3 == n {
        Some(Some(s.subrange(3, e3) + "d6 ie6 t4"@))
    } else if lit_at(s, 0, "d6s"@) && e3 > 3 && pips_ok {
        Some(Some("1d1 d6s"@ + s.subrange(3, n)))
    } else {
        None
    }
}

fn short_count_text(cs: &[char]) -> (r: Option<Option<Vec<char>>>)
    requires
        cs@.len() < 0x1000_0000,
    ensures
        opt_opt_chars(r) == short_count_alias(cs@),
{
    proof {
        reveal_strlit("dd");
        reveal_strlit("sp");
        reveal_strlit("yz");
        reveal_strlit("snm");
        reveal_strlit("d6s");
        reveal_strlit("8");
    }
    let n = cs.len();
    if at(cs, 0, "dd") && n == 4 && char_is_digit(cs[2]) && char_is_digit(cs[3]) {
        let mut s = String::from_str("1d");
        push_chars(&mut s, seg(cs, 2, 3).as_slice());
        s.append(" * 10 + 1d");
        push_chars(&mut s, seg(cs, 3, 4).as_slice());
        return Some(Some(to_chars(s)));
    }
    let e2 = num_end(cs, 2);
    if n >= 3 && (cs[0] == '+' || cs[0] == '-') && cs[1] == 'd' && e2 > 2 && e2 == n {
        let mut s = String::from_str("2d");
        push_chars(&mut s, seg(cs, 2, e2).as_slice());
        s.append(if cs[0] == '+' { " k1" } else { " kl1" });
        return Some(Some(to_chars(s)));
    }
    let e0 = num_end(cs, 0);
    if e0 > 0 && e0 + 2 == n && cs[e0] == 'd' && cs[e0 + 1] == '%' {
        let mut s = String::new();
        push_chars(&mut s, seg(cs, 0, e0).as_slice());
        s.append("d100");
        return Some(Some(to_chars(s)));
    }
    if at(cs, 0, "sp") && e2 > 2 {
        let mut target: Vec<char> = str_chars("8");
        let mut ok = e2 == n;
        if e2 < n && cs[e2] == 't' {
            let t = num_end(cs, e2 + 1);
            if t > e2 + 1 && t == n {
                target = seg(cs, e2 + 1, t);
                ok = true;
            }
        }
        if ok {
            let mut s = String::new();
            push_chars(&mut s, seg(cs, 2, e2).as_slice());
            s.append("d10 t");
            push_chars(&mut s, target.as_slice());
            s.append(" ie10");
            return Some(Some(to_chars(s)));
        }
    }
    if e0 > 0 && at(cs, e0, "yz") && e0 + 2 == n {
        let mut s = String::new();
        push_chars(&mut s, seg(cs, 0, e0).as_slice());
        s.append("d6 t6");
        return Some(Some(to_chars(s)));
    }
    let e3 = num_end(cs, 3);
    if at(cs, 0, "snm") && e3 > 3 && e3 == n {
        let mut s = String::new();
        push_chars(&mut s, seg(cs, 3, e3).as_slice());
        s.append("d6 ie6 t4");
        return Some(Some(to_chars(s)));
    }
    if at(cs, 0, "d6s") && e3 > 3 {
        let mut pips_ok = e3 == n;
        if e3 < n {
            let p = ws_end(cs, e3);
            if p < n && cs[p] == '+' {
                let q = ws_end(cs, p + 1);
                let d = num_end(cs, q);
                pips_ok = d > q && d == n;
            }
        }
        if pips_ok {
            let mut s = String::from_str("1d1 d6s");
            push_chars(&mut s, seg(cs, 3, n).as_slice());
            return Some(Some(to_chars(s)));
        }
    }
    None
}

/// Hero System with a half die (`NhsKF`) and plot dice (`Ndp`).
pub open spec fn half_die_alias(s: Seq<char>) -> Option<Option<Seq<char>>> {
    let n = s.len() as int;
    let e = ne(s, 0);
    let f = ne(s, e + 3);
    let count = s.subrange(0, e);
    if e > 0 && lit_at(s, e, "hs"@) && e + 3 < n && f > e + 3 && f == n && (s[e + 2] == 'n' || s[e + 2] == 'k'
        || s[e + 2] == 'h') {
        let fraction = s.subrange(e + 3, f);
        if s[e + 2] == 'k' {
            if fraction == "1"@ { Some(Some(count + "d6 + 1d3 hsk"@)) } else { Some(None) }
        } else if s[e + 2] == 'n' {
            Some(Some(count + "d6 hsn"@))
        } else {
            Some(Some(match parse_u32(count) {
                Some(c) => nat_str(c as nat) + "d6 + "@ + nat_str(c as nat),
                None => count + "d6 + "@ + count,
            }))
        }
    } else if e > 0 && lit_at(s, e, "dp"@) && e + 2 == n {
        Some(Some(count + "d6 plot"@))
    } else {
        None
    }
}

fn half_die_text(cs: &[char]) -> (r: Option<Option<Vec<char>>>)
    requires
        cs@.len() < 0x1000_0000,
    ensures
        opt_opt_chars(r) == half_die_alias(cs@),
{
    proof {
        reveal_strlit("hs");
        reveal_strlit("dp");
    }
    let n = cs.len();
    let e = num_end(cs, 0);
    if e > 0 && at(cs, e, "hs") && e + 3 < n {
        let kind = cs[e + 2];
        let f = num_end(cs, e + 3);
        if f > e + 3 && f == n && (kind == 'n' || kind == 'k' || kind == 'h') {
            let count = seg(cs, 0, e);
            let fraction = seg(cs, e + 3, f);
            if kind == 'k' {
                if chars_eq_str(fraction.as_slice(), "1") {
                    let mut s = String::new();
                    push_chars(&mut s, count.as_slice());
                    s.append("d6 + 1d3 hsk");
                    return Some(Some(to_chars(s)));
                }
                return Some(None);
            }
            if kind == 'n' {
                let mut s = String::new();
                push_chars(&mut s, count.as_slice());
                s.append("d6 hsn");
                return Some(Some(to_chars(s)));
            }
            let mut s = String::new();
            match num_u32(count.as_slice()) {
                Some(c) => {
                    push_nat(&mut s, c as u64);
                    s.append("d6 + ");
                    push_nat(&mut s, c as u64);
                },
                None => {
                    push_chars(&mut s, count.as_slice());
                    s.append("d6 + ");
                    push_chars(&mut s, count.as_slice());
                },
            }
            return Some(Some(to_chars(s)));
        }
    }
    if e > 0 && at(cs, e, "dp") && e + 2 == n {
        let mut s = String::new();
        push_chars(&mut s, seg(cs, 0, e).as_slice());
        s.append("d6 plot");
        return Some(Some(to_chars(s)));
    }
    None
}

pub open spec fn ed_text(step: u32) -> Seq<char> {
    match ed_base(step) {
        Some(t) => t,
        None => match ed_first(step) {
            Some(t) => t,
            None => "1d6"@,
        },
    }
}

pub open spec fn ed4_text(step: u32) -> Seq<char> {
    match ed_base(step) {
        Some(t) => t,
        None => match ed_fourth(step) {
            Some(t) => t,
            None => "1d6"@,
        },
    }
}

/// Earthdawn (`edN`, steps 1-50; `ed4eN`, steps 1-100), the D&D rolls
/// with a modifier (`attack`, `skill`, `save`) and Savage Worlds (`swS`).
pub open spec fn step_alias(s: Seq<char>) -> Option<Option<Seq<char>>> {
    let n = s.len() as int;
    let e = ne(s, 2);
    let f = ne(s, 4);
    let word: int = if lit_at(s, 0, "attack"@) { 6 } else if lit_at(s, 0, "skill"@) { 5 } else if lit_at(s, 0, "save"@) { 4 } else { 0 };
    if lit_at(s, 0, "ed"@) && e > 2 && e == n && parse_u32(s.subrange(2, e)) is None {
        Some(None)
    } else if lit_at(s, 0, "ed"@) && e > 2 && e == n && 1 <= parse_u32(s.subrange(2, e)).unwrap() <= 50 {
        Some(Some(ed_text(parse_u32(s.subrange(2, e)).unwrap())))
    } else if lit_at(s, 0, "ed4e"@) && f > 4 && f == n && parse_u32(s.subrange(4, f)) is None {
        Some(None)
    } else if lit_at(s, 0, "ed4e"@) && f > 4 && f == n && 1 <= parse_u32(s.subrange(4, f)).unwrap() <= 100 {
        Some(Some(ed4_text(parse_u32(s.subrange(4, f)).unwrap())))
    } else if word > 0 && tail_at(s, word) is Some {
        Some(Some("1d20"@ + tail_text(tail_at(s, word).unwrap())))
    } else if lit_at(s, 0, "sw"@) && e > 2 && e == n {
        match parse_u32(s.subrange(2, e)) {
            None => Some(None),
            Some(sides) => if 4 <= sides <= 12 && sides % 2 == 0 {
                Some(Some("2d1 sw"@ + nat_str(sides as nat)))
            } else {
                None
            },
        }
    } else {
        None
    }
}

fn step_text(cs: &[char]) -> (r: Option<Option<Vec<char>>>)
    requires
        cs@.len() < 0x1000_0000,
    ensures
        opt_opt_chars(r) == step_alias(cs@),
{
    proof {
        reveal_strlit("ed");
        reveal_strlit("ed4e");
        reveal_strlit("attack");
        reveal_strlit("skill");
        reveal_strlit("save");
        reveal_strlit("sw");
    }
    let n = cs.len();
    let e = num_end(cs, 2);
    if at(cs, 0, "ed") && e > 2 && e == n {
        match num_u32(seg(cs, 2, e).as_slice()) {
            None => {
                return Some(None);
            },
            Some(step) => {
                if step >= 1 && step <= 50 {
                    return Some(Some(to_chars(get_earthdawn_step(step))));
                }
            },
        }
    }
    let f = num_end(cs, 4);
    if at(cs, 0, "ed4e") && f > 4 && f == n {
        match num_u32(seg(cs, 4, f).as_slice()) {
            None => {
                return Some(None);
            },
            Some(step) => {
                if step >= 1 && step <= 100 {
                    return Some(Some(to_chars(get_earthdawn_4e_step(step))));
                }
            },
        }
    }
    let word: usize = if at(cs, 0, "attack") { 6 } else if at(cs, 0, "skill") { 5 } else if at(cs, 0, "save") { 4 } else { 0 };
    if word > 0 {
        if let Some(tail) = mod_tail(cs, word) {
            let mut s = String::from_str("1d20");
            if let Some(m) = tail {
                push_chars(&mut s, m.as_slice());
            }
            return Some(Some(to_chars(s)));
        }
    }
    if at(cs, 0, "sw") && e > 2 && e == n {
        match num_u32(seg(cs, 2, e).as_slice()) {
            None => {
                return Some(None);
            },
            Some(sides) => {
                if sides >= 4 && sides <= 12 && sides % 2 == 0 {
                    let mut s = String::from_str("2d1 sw");
                    push_nat(&mut s, sides as u64);
                    return Some(Some(to_chars(s)));
                }
            },
        }
    }
    None
}

/// Cyberpunk Red damage: `cpdN [±M]`.
pub open spec fn cpd_alias(s: Seq<char>) -> Option<Option<Seq<char>>> {
    let e3 = ne(s, 3);
    if lit_at(s, 0, "cpd"@) && e3 > 3 && tail_at(s, e3) is Some {
        Some(Some(s.subrange(3, e3) + "d6 cpd"@ + spaced_tail(tail_at(s, e3).unwrap())))
    } else {
        None
    }
}

fn cpd_text(cs: &[char]) -> (r: Option<Option<Vec<char>>>)
    requires
        cs@.len() < 0x1000_0000,
    ensures
        opt_opt_chars(r) == cpd_alias(cs@),
{
    proof {
        reveal_strlit("cpd");
    }
    let e3 = num_end(cs, 3);
    if at(cs, 0, "cpd") && e3 > 3 {
        if let Some(tail) = mod_tail(cs, e3) {
            let mut s = String::new();
            push_chars(&mut s, seg(cs, 3, e3).as_slice());
            s.append("d6 cpd");
            if let Some(m) = tail {
                s.append(" ");
                push_chars(&mut s, m.as_slice());
            }
            return Some(Some(to_chars(s)));
        }
    }
    None
}

pub open spec fn clamp_target(t: i64) -> i64 {
    if t < 0 { 0 } else if t > crate::dice::WFRP_MAX_TARGET as i64 { crate::dice::WFRP_MAX_TARGET as i64 } else { t }
}

/// WFRP (`wfrpT [±D]`, the difficulty folded into the target), the Cypher
/// System (`cs L [±M]`) and Brave New World (`bnwN`).
pub open spec fn system_alias(s: Seq<char>) -> Option<Option<Seq<char>>> {
    let n = s.len() as int;
    let e3 = ne(s, 3);
    let e4 = ne(s, 4);
    let p = we(s, e4);
    let q = we(s, p + 1);
    let d = ne(s, q);
    let has_amt = e4 < n && p < n && (s[p] == '+' || s[p] == '-') && d > q && d == n;
    let cp = we(s, 2);
    let ce = ne(s, cp);
    if lit_at(s, 0, "wfrp"@) && e4 > 4 && (e4 == n || has_amt) {
        match parse_i64(s.subrange(4, e4)) {
            None => Some(None),
            Some(base) => if base < 1 || base > 100 {
                Some(None)
            } else if !has_amt {
                Some(Some("1d100 wfrp"@ + int_str(clamp_target(base) as int)))
            } else {
                match parse_i64(s.subrange(q, d)) {
                    None => Some(None),
                    Some(a) => Some(Some("1d100 wfrp"@ + int_str(
                        clamp_target(if s[p] == '+' { base.wrapping_add(a) } else { base.wrapping_sub(a) }) as int,
                    ))),
                }
            },
        }
    } else if lit_at(s, 0, "cs"@) && cp > 2 && ce > cp && tail_at(s, ce) is Some {
        Some(Some("1d20 cs"@ + s.subrange(cp, ce) + spaced_tail(tail_at(s, ce).unwrap())))
    } else if lit_at(s, 0, "bnw"@) && e3 > 3 && e3 == n {
        Some(Some(s.subrange(3, e3) + "d6 bnw"@))
    } else {
        None
    }
}

fn system_text(cs: &[char]) -> (r: Option<Option<Vec<char>>>)
    requires
        cs@.len() < 0x1000_0000,
    ensures
        opt_opt_chars(r) == system_alias(cs@),
{
    proof {
        reveal_strlit("wfrp");
        reveal_strlit("cs");
        reveal_strlit("bnw");
    }
    let n = cs.len();
    let e3 = num_end(cs, 3);
    let e4 = num_end(cs, 4);
    if at(cs, 0, "wfrp") && e4 > 4 {
        let p = ws_end(cs, e4);
        let q = ws_end(cs, p + 1);
        let d = num_end(cs, q);
        let has_amt = e4 < n && p < n && (cs[p] == '+' || cs[p] == '-') && d > q && d == n;
        if e4 == n || has_amt {
            let base = match num_i64(seg(cs, 4, e4).as_slice()) {
                Some(b) => b,
                None => {
                    return Some(None);
                },
            };
            if base < 1 || base > 100 {
                return Some(None);
            }
            let target: i64 = if has_amt {
                match num_i64(seg(cs, q, d).as_slice()) {
                    Some(a) => if cs[p] == '+' { base.wrapping_add(a) } else { base.wrapping_sub(a) },
                    None => {
                        return Some(None);
                    },
                }
            } else {
                base
            };
            let clamped: i64 = if target < 0 {
                0
            } else if target > crate::dice::WFRP_MAX_TARGET as i64 {
                crate::dice::WFRP_MAX_TARGET as i64
            } else {
                target
            };
            let mut s = String::from_str("1d100 wfrp");
            push_int(&mut s, clamped);
            return Some(Some(to_chars(s)));
        }
    }
    let cp = ws_end(cs, 2);
    let ce = num_end(cs, cp);
    if at(cs, 0, "cs") && cp > 2 && ce > cp {
        if let Some(tail) = mod_tail(cs, ce) {
            let mut s = String::from_str("1d20 cs");
            push_chars(&mut s, seg(cs, cp, ce).as_slice());
            if let Some(m) = tail {
                s.append(" ");
                push_chars(&mut s, m.as_slice());
            }
            return Some(Some(to_chars(s)));
        }
    }
    if at(cs, 0, "bnw") && e3 > 3 && e3 == n {
        let mut s = String::new();
        push_chars(&mut s, seg(cs, 3, e3).as_slice());
        s.append("d6 bnw");
        return Some(Some(to_chars(s)));
    }
    None
}

/// The remaining aliases, in order; `Some(None)` where an alias recognises
/// the text but rejects its numbers, which ends the search.
pub open spec fn prefixed_alias(s: Seq<char>) -> Option<Option<Seq<char>>> {
    or_else(short_count_alias(s), or_else(half_die_alias(s), or_else(exalted_alias(s), or_else(step_alias(s),
    or_else(found(marvel_alias(s)), or_else(found(word_alias(s, "cpr"@, "1d10 cpr"@)), or_else(cpd_alias(s),
    or_else(found(word_alias(s, "wit"@, "1d10 wit"@)), or_else(system_alias(s), or_else(found(conan_alias(s)),
    small_pool_alias(s)))))))))))
}

fn expand_prefixed_count(cs: &[char]) -> (r: Option<Option<Vec<char>>>)
    requires
        cs@.len() < 0x1000_0000,
    ensures
        opt_opt_chars(r) == prefixed_alias(cs@),
{
    if let Some(v) = short_count_text(cs) {
        return Some(v);
    }
    if let Some(v) = half_die_text(cs) {
        return Some(v);
    }
    if let Some(v) = expand_exalted(cs) {
        return Some(v);
    }
    if let Some(v) = step_text(cs) {
        return Some(v);
    }
    if let Some(v) = expand_marvel_multiverse_alias(cs) {
        return Some(Some(v));
    }
    if let Some(v) = for_word_with_modifier(cs, "cpr", "1d10 cpr") {
        return Some(Some(v));
    }
    if let Some(v) = cpd_text(cs) {
        return Some(v);
    }
    if let Some(v) = for_word_with_modifier(cs, "wit", "1d10 wit") {
        return Some(Some(v));
    }
    if let Some(v) = system_text(cs) {
        return Some(v);
    }
    if let Some(v) = expand_conan(cs) {
        return Some(Some(v));
    }
    expand_small_pools(cs)
}

/// `word` alone or with a modifier: `base`, then ` ±M`.
pub open spec fn word_alias(s: Seq<char>, word: Seq<char>, base: Seq<char>) -> Option<Seq<char>> {
    if !lit_at(s, 0, word) {
        None
    } else {
        match tail_at(s, word.len() as int) {
            Some(tail) => Some(base + spaced_tail(tail)),
            None => None,
        }
    }
}

fn for_word_with_modifier(cs: &[char], word: &str, base: &str) -> (r: Option<Vec<char>>) 
    requires
        cs@.len() < 0x1000_0000,
    ensures
        opt_chars(r) == word_alias(cs@, word@, base@),
{
    if !at(cs, 0, word) {
        return None;
    }
    let w = word.unicode_len();
    if w > cs.len() {
        return None;
    }
    let tail = mod_tail(cs, w)?;
    let mut s = String::from_str(base);
    if let Some(m) = tail {
        s.append(" ");
        push_chars(&mut s, m.as_slice());
    }
    Some(to_chars(s))
}

/// Exalted pools: `exNtTdsD`, `exNtTdD`, `exNdD`, `exNdDtT`, `exNdsD`, `exN[tT]`.
pub open spec fn exalted_alias(s: Seq<char>) -> Option<Option<Seq<char>>> {
    let n = s.len() as int;
    let a = ne(s, 2);
    let count = s.subrange(2, a);
    if !lit_at(s, 0, "ex"@) || a == 2 {
        None
    } else if a == n {
        Some(exalted_plain(count, None))
    } else if s[a] == 't' {
        let b = ne(s, a + 1);
        let target = s.subrange(a + 1, b);
        if b <= a + 1 {
            None
        } else if b == n {
            Some(exalted_plain(count, Some(target)))
        } else if lit_at(s, b, "ds"@) && ne(s, b + 2) > b + 2 && ne(s, b + 2) == n {
            Some(exalted_pool(count, Some(target), s.subrange(b + 2, n)))
        } else if s[b] == 'd' && ne(s, b + 1) > b + 1 && ne(s, b + 1) == n {
            Some(exalted_pool(count, Some(target), s.subrange(b + 1, n)))
        } else {
            None
        }
    } else if s[a] == 'd' {
        let b = ne(s, a + 1);
        let double = s.subrange(a + 1, b);
        if b > a + 1 && b == n {
            Some(exalted_pool(count, None, double))
        } else if b > a + 1 && s[b] == 't' && ne(s, b + 1) > b + 1 && ne(s, b + 1) == n {
            Some(exalted_pool(count, Some(s.subrange(b + 1, n)), double))
        } else if lit_at(s, a, "ds"@) && ne(s, a + 2) > a + 2 && ne(s, a + 2) == n {
            Some(exalted_pool(count, None, s.subrange(a + 2, n)))
        } else {
            None
        }
    } else {
        None
    }
}

fn opt_to_chars(o: Option<String>) -> (r: Option<Vec<char>>)
    ensures
        opt_chars(r) == opt_string(o),
{
    match o {
        Some(v) => Some(to_chars(v)),
        None => None,
    }
}

fn expand_exalted(cs: &[char]) -> (r: Option<Option<Vec<char>>>) 
    requires
        cs@.len() < 0x1000_0000,
    ensures
        opt_opt_chars(r) == exalted_alias(cs@),
{
    proof {
        reveal_strlit("ex");
        reveal_strlit("ds");
    }
    let n = cs.len();
    if !at(cs, 0, "ex") {
        return None;
    }
    let a = num_end(cs, 2);
    if a == 2 {
        return None;
    }
    let count = seg(cs, 2, a);
    if a == n {
        return Some(exalted_old(count.as_slice(), None));
    }
    if cs[a] == 't' {
        let b = num_end(cs, a + 1);
        if b > a + 1 {
            let target = seg(cs, a + 1, b);
            if b == n {
                return Some(exalted_old(count.as_slice(), Some(&target)));
            }
            if at(cs, b, "ds") {
                let c = num_end(cs, b + 2);
                if c > b + 2 && c == n {
                    return Some(opt_to_chars(process_exalted_pool(count.as_slice(), Some(&target), seg(cs, b + 2, c).as_slice())));
                }
            }
            if cs[b] == 'd' {
                let c = num_end(cs, b + 1);
                if c > b + 1 && c == n {
                    return Some(opt_to_chars(process_exalted_pool(count.as_slice(), Some(&target), seg(cs, b + 1, c).as_slice())));
                }
            }
        }
        return None;
    }
    if cs[a] == 'd' {
        let b = num_end(cs, a + 1);
        if b > a + 1 {
            let double = seg(cs, a + 1, b);
            if b == n {
                return Some(opt_to_chars(process_exalted_pool(count.as_slice(), None, double.as_slice())));
            }
            if cs[b] == 't' {
                let c = num_end(cs, b + 1);
                if c > b + 1 && c == n {
                    let target = seg(cs, b + 1, c);
                    return Some(opt_to_chars(process_exalted_pool(count.as_slice(), Some(&target), double.as_slice())));
                }
            }
        }
        if at(cs, a, "ds") {
            let c = num_end(cs, a + 2);
            if c > a + 2 && c == n {
                return Some(opt_to_chars(process_exalted_pool(count.as_slice(), None, seg(cs, a + 2, c).as_slice())));
            }
        }
    }
    None
}

/// The plain Exalted pool `exN[tT]`: N d10s counting T (7 by default) and 10s twice.
pub open spec fn exalted_plain(count: Seq<char>, target: Option<Seq<char>>) -> Option<Seq<char>> {
    let t = match target {
        Some(ts) => ts,
        None => "7"@,
    };
    match (parse_u32(count), parse_u32(t)) {
        (Some(c), Some(v)) => if c == 0 || v == 0 || v > 10 {
            None
        } else {
            Some(count + "d10 t"@ + t + " t10"@)
        },
        _ => None,
    }
}

fn exalted_old(count: &[char], target: Option<&Vec<char>>) -> (r: Option<Vec<char>>)
    ensures
        opt_chars(r) == exalted_plain(count@, opt_target(target)),
{
    match num_u32(count) {
        Some(c) => {
            if c == 0 {
                return None;
            }
        },
        None => {
            return None;
        },
    }
    let t: Vec<char> = match target {
        Some(t) => seg(t.as_slice(), 0, t.len()),
        None => str_chars("7"),
    };
    assert(target matches Some(tv) ==> t@ =~= tv@);
    match num_u32(t.as_slice()) {
        Some(v) => {
            if v == 0 || v > 10 {
                return None;
            }
        },
        None => {
            return None;
        },
    }
    let mut s = String::new();
    push_chars(&mut s, count);
    s.append("d10 t");
    push_chars(&mut s, t.as_slice());
    s.append(" t10");
    Some(to_chars(s))
}

/// Conan: `conan[N]tn...`, `conanNcdM`, `conanN`, `cdN`.
pub open spec fn conan_alias(s: Seq<char>) -> Option<Seq<char>> {
    let n = s.len() as int;
    let has_digit = n > 5 && '1' <= s[5] <= '9';
    let p: int = if has_digit { 6 } else { 5 };
    let a = ne(s, p + 2);
    let q1 = if a < n && s[a] == 'f' && ne(s, a + 1) > a + 1 { ne(s, a + 1) } else { a };
    let q2 = if q1 < n && s[q1] == 'c' && ne(s, q1 + 1) > q1 + 1 { ne(s, q1 + 1) } else { q1 };
    let dice = if has_digit { s.subrange(5, 6) } else { "2"@ };
    let b = ne(s, 8);
    let c = ne(s, 2);
    if lit_at(s, 0, "conan"@) && lit_at(s, p, "tn"@) && a > p + 2 && q2 == n {
        Some(dice + "d20 conan"@ + dice + " "@ + s.subrange(p, n))
    } else if lit_at(s, 0, "conan"@) && has_digit && lit_at(s, 6, "cd"@) && b > 8 && b == n {
        Some(dice + "d20 conan"@ + dice + " "@ + s.subrange(8, b) + "d6 cd"@ + s.subrange(8, b))
    } else if lit_at(s, 0, "conan"@) && has_digit && n == 6 {
        Some(dice + "d20 conan"@ + dice)
    } else if lit_at(s, 0, "cd"@) && c > 2 && c == n {
        Some(s.subrange(2, c) + "d6 cd"@ + s.subrange(2, c))
    } else {
        None
    }
}

/// The bare `conan` alias is the Conan 2d20 skill test with its default of
/// two skill dice: it expands as `conan2` does, only without the skill count
/// written after `conan`; and for every count from 1 to 9, `conanN` rolls N
/// d20s.
pub proof fn law_conan_default_dice(d: char)
    requires
        '1' <= d <= '9',
    ensures
        static_alias("conan"@) is Some,
        conan_alias("conan2"@) == Some(static_alias("conan"@)->0 + "2"@),
        conan_alias("conan"@.push(d)) == Some(seq![d] + "d20 conan"@ + seq![d]),
{
    reveal_strlit("conan");
    reveal_strlit("conan2");
    reveal_strlit("2d20 conan");
    reveal_strlit("d20 conan");
    reveal_strlit("2");
    reveal_strlit("tn");
    reveal_strlit("cd");
    reveal_strlit("age");
    reveal_strlit("dndstats");
    reveal_strlit("attack");
    reveal_strlit("skill");
    reveal_strlit("save");
    reveal_strlit("gb");
    reveal_strlit("gbs");
    reveal_strlit("hsn");
    reveal_strlit("hsk");
    reveal_strlit("hsh");
    reveal_strlit("3df");
    reveal_strlit("4df");
    reveal_strlit("dh");
    reveal_strlit("wng");
    assert("conan"@ != "skill"@) by {
        assert("conan"@[0] != "skill"@[0]);
    }
    assert(static_alias("conan"@) == Some("2d20 conan"@));
    let s2 = "conan2"@;
    assert(s2.subrange(5, 6) =~= "2"@);
    assert(s2.subrange(0, 5) =~= "conan"@);
    assert(lit_at(s2, 0, "conan"@));
    assert(!lit_at(s2, 6, "tn"@));
    assert(!lit_at(s2, 6, "cd"@));
    assert(!lit_at(s2, 0, "cd"@)) by {
        assert(s2.subrange(0, 2)[1] != "cd"@[1]);
    }
    assert("2"@ + "d20 conan"@ + "2"@ =~= "2d20 conan"@ + "2"@);
    let sd = "conan"@.push(d);
    assert(sd.subrange(5, 6) =~= seq![d]);
    assert(sd.subrange(0, 5) =~= "conan"@);
    assert(lit_at(sd, 0, "conan"@));
    assert(!lit_at(sd, 6, "tn"@));
    assert(!lit_at(sd, 6, "cd"@));
    assert(!lit_at(sd, 0, "cd"@)) by {
        assert(sd.subrange(0, 2)[1] != "cd"@[1]);
    }
}

fn expand_conan(cs: &[char]) -> (r: Option<Vec<char>>) 
    requires
        cs@.len() < 0x1000_0000,
    ensures
        opt_chars(r) == conan_alias(cs@),
{
    proof {
        reveal_strlit("conan");
        reveal_strlit("tn");
        reveal_strlit("cd");
        reveal_strlit("2");
    }
    let n = cs.len();
    if at(cs, 0, "conan") {
        let has_digit = n > 5 && cs[5] >= '1' && cs[5] <= '9';
        let p: usize = if has_digit { 6 } else { 5 };
        if at(cs, p, "tn") {
            let a = num_end(cs, p + 2);
            if a > p + 2 {
                let mut q = a;
                if q < n && cs[q] == 'f' {
                    let b = num_end(cs, q + 1);
                    if b > q + 1 {
                        q = b;
                    }
                }
                if q < n && cs[q] == 'c' {
                    let b = num_end(cs, q + 1);
                    if b > q + 1 {
                        q = b;
                    }
                }
                if q == n {
                    let dice: Vec<char> = if has_digit { seg(cs, 5, 6) } else { str_chars("2") };
                    let mut s = String::new();
                    push_chars(&mut s, dice.as_slice());
                    s.append("d20 conan");
                    push_chars(&mut s, dice.as_slice());
                    s.append(" ");
                    push_chars(&mut s, seg(cs, p, n).as_slice());
                    return Some(to_chars(s));
                }
            }
        }
        if has_digit {
            let skill = seg(cs, 5, 6);
            if at(cs, 6, "cd") {
                let b = num_end(cs, 8);
                if b > 8 && b == n {
                    let combat = seg(cs, 8, b);
                    let mut s = String::new();
                    push_chars(&mut s, skill.as_slice());
                    s.append("d20 conan");
                    push_chars(&mut s, skill.as_slice());
                    s.append(" ");
                    push_chars(&mut s, combat.as_slice());
                    s.append("d6 cd");
                    push_chars(&mut s, combat.as_slice());
                    return Some(to_chars(s));
                }
            }
            if n == 6 {
                let mut s = String::new();
                push_chars(&mut s, skill.as_slice());
                s.append("d20 conan");
                push_chars(&mut s, skill.as_slice());
                return Some(to_chars(s));
            }
        }
    }
    if at(cs, 0, "cd") {
        let b = num_end(cs, 2);
        if b > 2 && b == n {
            let combat = seg(cs, 2, b);
            let mut s = String::new();
            push_chars(&mut s, combat.as_slice());
            s.append("d6 cd");
            push_chars(&mut s, combat.as_slice());
            return Some(to_chars(s));
        }
    }
    None
}

/// The small-pool systems: `silN`, `Nd6l`, `vtmPhH`, `NlfT[l|f]`, `fitdN`.
pub open spec fn small_pool_alias(s: Seq<char>) -> Option<Option<Seq<char>>> {
    let n = s.len() as int;
    let e3 = ne(s, 3);
    let e0 = ne(s, 0);
    let f = ne(s, e3 + 1);
    let t = ne(s, e0 + 2);
    let kind_ok = t == n || (t + 1 == n && (s[t] == 'l' || s[t] == 'f'));
    let e4 = ne(s, 4);
    if lit_at(s, 0, "sil"@) && e3 > 3 && e3 == n {
        let raw = s.subrange(3, e3);
        let count: u32 = match parse_u32(raw) {
            Some(c) => c,
            None => 0,
        };
        if count == 0 || count > 10 { Some(None) } else { Some(Some("1d6 sil"@ + raw)) }
    } else if e0 > 0 && lit_at(s, e0, "d6l"@) && e0 + 3 == n {
        match parse_u32(s.subrange(0, e0)) {
            Some(c) => if c == 0 {
                Some(None)
            } else if c == 1 {
                Some(Some("1d6 t4f1ie6"@))
            } else {
                Some(Some(nat_str((c - 1) as nat) + "d6 t4 + 1d6 t4f1ie6"@))
            },
            None => Some(None),
        }
    } else if lit_at(s, 0, "vtm"@) && e3 > 3 && e3 < n && s[e3] == 'h' && f > e3 + 1 && f == n
        && parse_u32(s.subrange(3, e3)) is Some && parse_u32(s.subrange(e3 + 1, f)) is Some
        && 0 < parse_u32(s.subrange(3, e3)).unwrap() <= 30
        && parse_u32(s.subrange(e3 + 1, f)).unwrap() <= parse_u32(s.subrange(3, e3)).unwrap() {
        Some(Some(s.subrange(3, e3) + "d10 vtm5p"@ + s.subrange(3, e3) + "h"@ + s.subrange(e3 + 1, f)))
    } else if e0 > 0 && lit_at(s, e0, "lf"@) && t > e0 + 2 && kind_ok && parse_u32(s.subrange(0, e0)) is Some
        && parse_u32(s.subrange(e0 + 2, t)) is Some {
        let count = parse_u32(s.subrange(0, e0)).unwrap();
        let target = parse_u32(s.subrange(e0 + 2, t)).unwrap();
        if count == 0 || count > 20 || target < 2 || target > 5 {
            Some(None)
        } else {
            Some(Some(nat_str(count as nat) + "d6 lf"@ + nat_str(target as nat) + if t + 1 == n {
                if s[t] == 'l' { "l"@ } else { "f"@ }
            } else {
                Seq::empty()
            }))
        }
    } else if lit_at(s, 0, "fitd"@) && e4 > 4 && e4 == n {
        match parse_u32(s.subrange(4, e4)) {
            Some(c) => if c == 0 {
                Some(Some("2d6 fitd0"@))
            } else if c <= 10 {
                Some(Some(nat_str(c as nat) + "d6 fitd"@))
            } else {
                Some(None)
            },
            None => Some(None),
        }
    } else {
        None
    }
}

fn expand_small_pools(cs: &[char]) -> (r: Option<Option<Vec<char>>>) 
    requires
        cs@.len() < 0x1000_0000,
    ensures
        opt_opt_chars(r) == small_pool_alias(cs@),
{
    proof {
        reveal_strlit("sil");
        reveal_strlit("d6l");
        reveal_strlit("vtm");
        reveal_strlit("lf");
        reveal_strlit("fitd");
    }
    let n = cs.len();
    if at(cs, 0, "sil") {
        let e = num_end(cs, 3);
        if e > 3 && e == n {
            let raw = seg(cs, 3, e);
            let count: u32 = match num_u32(raw.as_slice()) {
                Some(c) => c,
                None => 0,
            };
            if count == 0 || count > 10 {
                return Some(None);
            }
            let mut s = String::from_str("1d6 sil");
            push_chars(&mut s, raw.as_slice());
            return Some(Some(to_chars(s)));
        }
    }
    {
        let e = num_end(cs, 0);
        if e > 0 && at(cs, e, "d6l") && e + 3 == n {
            match num_u32(seg(cs, 0, e).as_slice()) {
                Some(c) => {
                    if c == 0 {
                        return Some(None);
                    }
                    if c == 1 {
                        return Some(Some(str_chars("1d6 t4f1ie6")));
                    }
                    let mut s = String::new();
                    push_nat(&mut s, (c - 1) as u64);
                    s.append("d6 t4 + 1d6 t4f1ie6");
                    return Some(Some(to_chars(s)));
                },
                None => {
                    return Some(None);
                },
            }
        }
    }
    if at(cs, 0, "vtm") {
        let e = num_end(cs, 3);
        if e > 3 && e < n && cs[e] == 'h' {
            let f = num_end(cs, e + 1);
            if f > e + 1 && f == n {
                let pool_raw = seg(cs, 3, e);
                let hunger_raw = seg(cs, e + 1, f);
                if let (Some(pool), Some(hunger)) = (num_u32(pool_raw.as_slice()), num_u32(hunger_raw.as_slice())) {
                    if pool > 0 && pool <= 30 && hunger <= pool {
                        let mut s = String::new();
                        push_chars(&mut s, pool_raw.as_slice());
                        s.append("d10 vtm5p");
                        push_chars(&mut s, pool_raw.as_slice());
                        s.append("h");
                        push_chars(&mut s, hunger_raw.as_slice());
                        return Some(Some(to_chars(s)));
                    }
                }
            }
        }
    }
    {
        let e = num_end(cs, 0);
        if e > 0 && at(cs, e, "lf") {
            let t = num_end(cs, e + 2);
            let kind_ok = t == n || (t + 1 == n && (cs[t] == 'l' || cs[t] == 'f'));
            if t > e + 2 && kind_ok {
                if let (Some(count), Some(target)) = (num_u32(seg(cs, 0, e).as_slice()), num_u32(seg(cs, e + 2, t).as_slice())) {
                    if count == 0 || count > 20 {
                        return Some(None);
                    }
                    if target < 2 || target > 5 {
                        return Some(None);
                    }
                    let mut s = String::new();
                    push_nat(&mut s, count as u64);
                    s.append("d6 lf");
                    push_nat(&mut s, target as u64);
                    if t + 1 == n {
                        s.append(if cs[t] == 'l' { "l" } else { "f" });
                    }
                    return Some(Some(to_chars(s)));
                }
            }
        }
    }
    if at(cs, 0, "fitd") {
        let e = num_end(cs, 4);
        if e > 4 && e == n {
            match num_u32(seg(cs, 4, e).as_slice()) {
                Some(c) => {
                    if c == 0 {
                        return Some(Some(str_chars("2d6 fitd0")));
                    }
                    if c <= 10 {
                        let mut s = String::new();
                        push_nat(&mut s, c as u64);
                        s.append("d6 fitd");
                        return Some(Some(to_chars(s)));
                    }
                    return Some(None);
                },
                None => {
                    return Some(None);
                },
            }
        }
    }
    None
}

/// The alias expansion of text already trimmed and lower-cased: Mothership
/// first, then the parameterized aliases, then the fixed ones (none for
/// text of 2^28 characters or more).
#[verifier::opaque]
pub open spec fn normalized_alias(s: Seq<char>) -> Option<Seq<char>> {
    if s.len() >= 0x1000_0000 {
        None
    } else {
        first(mothership_alias(s), first(param_alias(s), static_alias(s)))
    }
}

/// The alias expansion of a request, compared trimmed and lower-cased.
pub open spec fn alias_expansion(input: Seq<char>) -> Option<Seq<char>> {
    normalized_alias(crate::text::unicode_lowercase(trim_seq(input)))
}

pub fn expand_alias_normalized(input: &[char]) -> (r: Option<Vec<char>>)
    ensures
        opt_chars(r) == normalized_alias(input@),
{
    reveal(normalized_alias);
    if input.len() >= 0x1000_0000 {
        return None;
    }
    if let Some(v) = expand_mothership_alias(input) {
        return Some(v);
    }
    if let Some(v) = expand_parameterized_alias(input) {
        return Some(v);
    }
    match lookup_static_alias(input) {
        Some(t) => Some(str_chars(t)),
        None => None,
    }
}

/// The alias expansion of `cs`, compared trimmed and lower-cased.
pub fn expand_alias_chars(cs: &[char]) -> (r: Option<Vec<char>>)
    ensures
        opt_chars(r) == alias_expansion(cs@),
        crate::text::all_ascii(trim_seq(cs@)) ==> opt_chars(r) == normalized_alias(lower_seq(trim_seq(cs@))),
{
    let t = trim_chars(cs);
    let l = crate::text::to_lowercase_chars(t.as_slice());
    expand_alias_normalized(l.as_slice())
}

/// Expanding an alias trims and lower-cases the text first, so for text
/// whose trimmed form is ASCII, the text and its trimmed, lower-cased form
/// expand alike: that form is ASCII and is its own trimmed, lower-cased form.
pub proof fn law_alias_normal_form(s: Seq<char>)
    requires
        crate::text::all_ascii(trim_seq(s)),
    ensures
        crate::text::all_ascii(trim_seq(lower_seq(trim_seq(s)))),
        lower_seq(trim_seq(lower_seq(trim_seq(s)))) == lower_seq(trim_seq(s)),
{
    let t = trim_seq(s);
    let l = lower_seq(t);
    crate::text::lemma_trim_ends(s);
    assert forall|i: int| 0 <= i < l.len() implies (#[trigger] l[i] as int) < 128 by {
        assert((t[i] as int) < 128);
    }
    if l.len() > 0 {
        assert(l[0] == crate::text::lower_char(t[0]));
        assert(l.last() == crate::text::lower_char(t.last()));
    }
    crate::text::lemma_trim_fixed(l);
    assert(lower_seq(l) =~= l);
}

/// The expansion of an alias, or `None` when `input` is not one.
pub fn expand_alias(input: &str) -> (r: Option<String>)
    ensures
        opt_string(r) == alias_expansion(input@),
        crate::text::all_ascii(trim_seq(input@)) ==> opt_string(r) == normalized_alias(lower_seq(trim_seq(input@))),
{
    let cs = str_chars(input);
    match expand_alias_chars(cs.as_slice()) {
        Some(v) => Some(crate::text::chars_to_string(v.as_slice())),
        None => None,
    }
}

} // verus!
