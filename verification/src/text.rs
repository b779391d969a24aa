//! Character-level text helpers shared by the parser, the alias expander and
//! the result formatter: decimal rendering of integers, character classes,
//! literal comparisons and string building.

use vstd::prelude::*;
use vstd::string::*;

verus! {

/// The character of a decimal digit.
pub open spec fn digit_char(d: nat) -> char {
    if d == 0 {
        '0'
    } else if d == 1 {
        '1'
    } else if d == 2 {
        '2'
    } else if d == 3 {
        '3'
    } else if d == 4 {
        '4'
    } else if d == 5 {
        '5'
    } else if d == 6 {
        '6'
    } else if d == 7 {
        '7'
    } else if d == 8 {
        '8'
    } else {
        '9'
    }
}

/// Decimal rendering of a natural number, most significant digit first.
pub open spec fn nat_str(n: nat) -> Seq<char>
    decreases n,
{
    if n < 10 {
        seq![digit_char(n)]
    } else {
        nat_str(n / 10).push(digit_char(n % 10))
    }
}

/// A number's decimal text starts with a digit.
pub proof fn lemma_nat_str_starts_with_digit(n: nat)
    ensures
        nat_str(n).len() >= 1,
        is_digit(nat_str(n)[0]),
    decreases n,
{
    if n >= 10 {
        lemma_nat_str_starts_with_digit(n / 10);
    }
}

proof fn lemma_digit_char_value(d: nat)
    requires
        d < 10,
    ensures
        is_digit(digit_char(d)),
        digit_value(digit_char(d)) == d,
{
}

/// A number's decimal text is a run of digits that reads back as the number.
pub proof fn lemma_nat_str_reads_back(n: nat)
    ensures
        is_number(nat_str(n)),
        digits_value(nat_str(n)) == n,
    decreases n,
{
    lemma_digit_char_value(n % 10);
    if n < 10 {
        let s = nat_str(n);
        assert(n % 10 == n);
        assert(s.drop_last() =~= Seq::<char>::empty());
        assert(digits_value(s.drop_last()) == 0);
        assert(digits_value(s) == digits_value(s.drop_last()) * 10 + digit_value(s.last()));
        assert(is_digit(s[0]));
    } else {
        lemma_nat_str_reads_back(n / 10);
        assert((n / 10) * 10 + n % 10 == n) by (nonlinear_arith);
        let s = nat_str(n);
        assert(s.last() == digit_char(n % 10));
        assert(digits_value(s) == digits_value(s.drop_last()) * 10 + digit_value(s.last()));
        assert(s.drop_last() =~= nat_str(n / 10));
        assert(digits_value(s.drop_last()) == n / 10);
        assert(digits_value(s) == (n / 10) * 10 + n % 10);
        assert forall|i: int| 0 <= i < s.len() implies is_digit(#[trigger] s[i]) by {
            if i < s.len() - 1 {
                assert(s[i] == nat_str(n / 10)[i]);
            }
        }
    }
}

/// Decimal rendering of an integer, with a leading `-` when negative.
pub open spec fn int_str(i: int) -> Seq<char> {
    if i < 0 {
        seq!['-'] + nat_str((-i) as nat)
    } else {
        nat_str(i as nat)
    }
}

pub open spec fn is_digit(c: char) -> bool {
    '0' <= c && c <= '9'
}

pub open spec fn digit_value(c: char) -> nat {
    (c as int - '0' as int) as nat
}

/// Every character is an ASCII digit (the empty sequence qualifies).
pub open spec fn all_digits(s: Seq<char>) -> bool {
    forall|i: int| 0 <= i < s.len() ==> is_digit(#[trigger] s[i])
}

/// A non-empty run of ASCII digits.
pub open spec fn is_number(s: Seq<char>) -> bool {
    s.len() > 0 && all_digits(s)
}

/// The value of a run of digits, read most significant digit first.
pub open spec fn digits_value(s: Seq<char>) -> nat
    decreases s.len(),
{
    if s.len() == 0 {
        0
    } else {
        digits_value(s.drop_last()) * 10 + digit_value(s.last())
    }
}

/// What `str::parse::<u32>` accepts: an optional `+`, then a non-empty run of
/// digits whose value fits in 32 bits.
pub open spec fn parse_u32(s: Seq<char>) -> Option<u32> {
    let body = if s.len() > 0 && s[0] == '+' { s.drop_first() } else { s };
    if is_number(body) && digits_value(body) <= u32::MAX {
        Some(digits_value(body) as u32)
    } else {
        None
    }
}

/// What `str::parse::<i32>` accepts: an optional sign, then a non-empty run of
/// digits whose signed value fits in 32 bits.
pub open spec fn parse_i32(s: Seq<char>) -> Option<i32> {
    if s.len() > 0 && s[0] == '-' {
        let body = s.drop_first();
        if is_number(body) && digits_value(body) <= 0x8000_0000 {
            Some((-(digits_value(body) as int)) as i32)
        } else {
            None
        }
    } else {
        let body = if s.len() > 0 && s[0] == '+' { s.drop_first() } else { s };
        if is_number(body) && digits_value(body) <= i32::MAX {
            Some(digits_value(body) as i32)
        } else {
            None
        }
    }
}

/// Unicode's `White_Space` property, which `char::is_whitespace` tests and
/// at which `str::trim` and `str::split_whitespace` cut.
pub open spec fn is_whitespace(c: char) -> bool {
    ('\t' <= c && c <= '\r') || c == ' ' || c == '\u{85}' || c == '\u{a0}' || c == '\u{1680}'
        || ('\u{2000}' <= c && c <= '\u{200a}') || c == '\u{2028}' || c == '\u{2029}' || c == '\u{202f}'
        || c == '\u{205f}' || c == '\u{3000}'
}

/// Every character is ASCII.
pub open spec fn all_ascii(s: Seq<char>) -> bool {
    forall|i: int| 0 <= i < s.len() ==> (#[trigger] s[i] as int) < 128
}

/// What `str::to_lowercase` returns for a text: Unicode's lowercase mapping of
/// each character, where a capital sigma at the end of a word becomes a final
/// sigma.
pub uninterp spec fn unicode_lowercase(s: Seq<char>) -> Seq<char>;

pub open spec fn is_ascii_upper(c: char) -> bool {
    'A' <= c && c <= 'Z'
}

pub open spec fn is_ascii_lower(c: char) -> bool {
    'a' <= c && c <= 'z'
}

pub open spec fn is_ascii_alpha(c: char) -> bool {
    is_ascii_upper(c) || is_ascii_lower(c)
}

/// ASCII lower-casing of one character; other characters are unchanged.
pub open spec fn lower_char(c: char) -> char {
    if is_ascii_upper(c) {
        ((c as int) + 32) as char
    } else {
        c
    }
}

pub open spec fn lower_seq(s: Seq<char>) -> Seq<char> {
    Seq::new(s.len(), |i: int| lower_char(s[i]))
}

/// Number of leading whitespace characters.
pub open spec fn leading_ws(s: Seq<char>) -> nat
    decreases s.len(),
{
    if s.len() > 0 && is_whitespace(s[0]) {
        1 + leading_ws(s.drop_first())
    } else {
        0
    }
}

/// Number of trailing whitespace characters.
pub open spec fn trailing_ws(s: Seq<char>) -> nat
    decreases s.len(),
{
    if s.len() > 0 && is_whitespace(s.last()) {
        1 + trailing_ws(s.drop_last())
    } else {
        0
    }
}

/// The sequence with surrounding whitespace removed.
pub open spec fn trim_seq(s: Seq<char>) -> Seq<char> {
    let front = s.skip(leading_ws(s) as int);
    front.take(front.len() - trailing_ws(front))
}

proof fn lemma_leading_ws(s: Seq<char>)
    ensures
        leading_ws(s) <= s.len(),
        leading_ws(s) < s.len() ==> !is_whitespace(s[leading_ws(s) as int]),
    decreases s.len(),
{
    if s.len() > 0 && is_whitespace(s[0]) {
        lemma_leading_ws(s.drop_first());
        if leading_ws(s) < s.len() {
            assert(s[leading_ws(s) as int] == s.drop_first()[leading_ws(s.drop_first()) as int]);
        }
    }
}

proof fn lemma_trailing_ws(s: Seq<char>)
    ensures
        trailing_ws(s) <= s.len(),
        trailing_ws(s) < s.len() ==> !is_whitespace(s[s.len() - 1 - trailing_ws(s)]),
    decreases s.len(),
{
    if s.len() > 0 && is_whitespace(s.last()) {
        lemma_trailing_ws(s.drop_last());
        if trailing_ws(s) < s.len() {
            assert(s[s.len() - 1 - trailing_ws(s)] == s.drop_last()[s.drop_last().len() - 1 - trailing_ws(s.drop_last())]);
        }
    }
}

/// Trimmed text is a stretch of the text, and begins and ends with no
/// whitespace.
pub proof fn lemma_trim_ends(s: Seq<char>)
    ensures
        exists|a: int, b: int| 0 <= a <= b <= s.len() && trim_seq(s) == s.subrange(a, b),
        trim_seq(s).len() > 0 ==> !is_whitespace(trim_seq(s)[0]) && !is_whitespace(trim_seq(s).last()),
{
    lemma_leading_ws(s);
    let a = leading_ws(s) as int;
    let front = s.skip(a);
    lemma_trailing_ws(front);
    let b = a + front.len() - trailing_ws(front);
    assert(trim_seq(s) =~= s.subrange(a, b));
    if trim_seq(s).len() > 0 {
        assert(trim_seq(s)[0] == s[a]);
        assert(trim_seq(s).last() == front[front.len() - 1 - trailing_ws(front)]);
    }
}

/// Text that begins and ends with no whitespace is its own trimmed form.
pub proof fn lemma_trim_fixed(s: Seq<char>)
    requires
        s.len() > 0 ==> !is_whitespace(s[0]) && !is_whitespace(s.last()),
    ensures
        trim_seq(s) == s,
{
    assert(s.skip(0) =~= s);
    assert(s.take(s.len() as int) =~= s);
}

pub open spec fn starts_with(s: Seq<char>, p: Seq<char>) -> bool {
    p.len() <= s.len() && s.take(p.len() as int) == p
}

pub open spec fn ends_with(s: Seq<char>, p: Seq<char>) -> bool {
    p.len() <= s.len() && s.skip(s.len() - p.len()) == p
}

/// `items` joined with `sep` between consecutive items.
pub open spec fn join_seqs(items: Seq<Seq<char>>, sep: Seq<char>) -> Seq<char>
    decreases items.len(),
{
    if items.len() == 0 {
        Seq::empty()
    } else if items.len() == 1 {
        items[0]
    } else {
        join_seqs(items.drop_last(), sep) + sep + items.last()
    }
}

/// Integers rendered in decimal and joined with `, `.
pub open spec fn join_ints(v: Seq<i32>) -> Seq<char> {
    join_seqs(v.map_values(|x: i32| int_str(x as int)), ", "@)
}

/// Appends one character; `String::push` has no specification in vstd.
#[verifier::external_body]
pub fn push_char(s: &mut String, c: char)
    ensures
        final(s)@ == old(s)@.push(c),
{
    s.push(c)
}

pub fn digit_to_char(d: u64) -> (c: char)
    requires
        d < 10,
    ensures
        c == digit_char(d as nat),
{
    match d {
        0 => '0',
        1 => '1',
        2 => '2',
        3 => '3',
        4 => '4',
        5 => '5',
        6 => '6',
        7 => '7',
        8 => '8',
        _ => '9',
    }
}

/// Appends the decimal digits of `n`.
pub fn push_nat(s: &mut String, n: u64)
    ensures
        final(s)@ == old(s)@ + nat_str(n as nat),
    decreases n,
{
    if n >= 10 {
        push_nat(s, n / 10);
        push_char(s, digit_to_char(n % 10));
        assert(nat_str(n as nat) == nat_str((n / 10) as nat).push(digit_char((n % 10) as nat)));
    } else {
        push_char(s, digit_to_char(n));
    }
}

/// Appends the decimal rendering of a signed integer.
pub fn push_int(s: &mut String, i: i64)
    ensures
        final(s)@ == old(s)@ + int_str(i as int),
{
    if i < 0 {
        push_char(s, '-');
        let m: u64 = (-(i as i128)) as u64;
        push_nat(s, m);
    } else {
        push_nat(s, i as u64);
    }
}

pub fn int_to_string(i: i64) -> (res: String)
    ensures
        res@ == int_str(i as int),
{
    let mut s = String::new();
    push_int(&mut s, i);
    res_from(s)
}

fn res_from(s: String) -> (r: String)
    ensures
        r == s,
{
    s
}

pub fn nat_to_string(n: u64) -> (res: String)
    ensures
        res@ == nat_str(n as nat),
{
    let mut s = String::new();
    push_nat(&mut s, n);
    s
}

/// The characters of `s`, in order.
pub fn str_chars(s: &str) -> (v: Vec<char>)
    ensures
        v@ == s@,
{
    let n = s.unicode_len();
    let mut v: Vec<char> = Vec::new();
    let mut i: usize = 0;
    while i < n
        invariant
            n == s@.len(),
            i <= n,
            v@ == s@.take(i as int),
        decreases n - i,
    {
        v.push(s.get_char(i));
        i = i + 1;
        assert(v@ =~= s@.take(i as int));
    }
    assert(v@ =~= s@);
    v
}

/// Appends every character of `cs`.
pub fn push_chars(s: &mut String, cs: &[char])
    ensures
        final(s)@ == old(s)@ + cs@,
{
    let mut i: usize = 0;
    while i < cs.len()
        invariant
            i <= cs@.len(),
            s@ == old(s)@ + cs@.take(i as int),
        decreases cs.len() - i,
    {
        push_char(s, cs[i]);
        i = i + 1;
        assert(s@ =~= old(s)@ + cs@.take(i as int));
    }
    assert(cs@.take(cs@.len() as int) =~= cs@);
}

pub fn chars_to_string(cs: &[char]) -> (res: String)
    ensures
        res@ == cs@,
{
    let mut s = String::new();
    push_chars(&mut s, cs);
    assert(s@ =~= cs@);
    s
}

/// A new string holding `lit`.
pub fn lit(l: &str) -> (res: String)
    ensures
        res@ == l@,
{
    String::from_str(l)
}

/// The characters of `cs` from `start` up to `end`.
pub fn sub_chars(cs: &[char], start: usize, end: usize) -> (v: Vec<char>)
    requires
        start <= end <= cs@.len(),
    ensures
        v@ == cs@.subrange(start as int, end as int),
{
    let mut v: Vec<char> = Vec::new();
    let mut i = start;
    while i < end
        invariant
            start <= i <= end,
            end <= cs@.len(),
            v@ == cs@.subrange(start as int, i as int),
        decreases end - i,
    {
        v.push(cs[i]);
        i = i + 1;
        assert(v@ =~= cs@.subrange(start as int, i as int));
    }
    v
}

pub fn char_is_digit(c: char) -> (b: bool)
    ensures
        b == is_digit(c),
{
    '0' <= c && c <= '9'
}

pub fn char_is_ws(c: char) -> (b: bool)
    ensures
        b == is_whitespace(c),
{
    ('\t' <= c && c <= '\r') || c == ' ' || c == '\u{85}' || c == '\u{a0}' || c == '\u{1680}'
        || ('\u{2000}' <= c && c <= '\u{200a}') || c == '\u{2028}' || c == '\u{2029}' || c == '\u{202f}'
        || c == '\u{205f}' || c == '\u{3000}'
}

/// `str::to_lowercase` on the text made of `cs`. Its result rests on
/// Unicode's case tables, so it is named (`unicode_lowercase`): the same
/// text always gives the same result. The one fact stated beside the name is
/// the ASCII part of those tables: on ASCII text, `A` to `Z` become `a` to
/// `z` and every other character stays.
#[verifier::external_body]
pub(crate) fn to_lowercase_chars(cs: &[char]) -> (r: Vec<char>)
    ensures
        r@ == unicode_lowercase(cs@),
        all_ascii(cs@) ==> r@ == lower_seq(cs@),
{
    let s: String = cs.iter().collect();
    s.to_lowercase().chars().collect()
}

pub fn char_is_alpha(c: char) -> (b: bool)
    ensures
        b == is_ascii_alpha(c),
{
    ('A' <= c && c <= 'Z') || ('a' <= c && c <= 'z')
}

pub fn lower(c: char) -> (r: char)
    ensures
        r == lower_char(c),
{
    if 'A' <= c && c <= 'Z' {
        ((c as u8) + 32) as char
    } else {
        c
    }
}

/// Whether every character of `cs` is a digit.
pub fn chars_all_digits(cs: &[char]) -> (b: bool)
    ensures
        b == all_digits(cs@),
{
    let mut i: usize = 0;
    while i < cs.len()
        invariant
            i <= cs@.len(),
            all_digits(cs@.take(i as int)),
        decreases cs.len() - i,
    {
        if !char_is_digit(cs[i]) {
            assert(!is_digit(cs@[i as int]));
            return false;
        }
        i = i + 1;
        assert forall|j: int| 0 <= j < i implies is_digit(#[trigger] cs@.take(i as int)[j]) by {
            if j < i - 1 {
                assert(cs@.take(i as int)[j] == cs@.take(i - 1)[j]);
            }
        }
    }
    assert(cs@.take(cs@.len() as int) =~= cs@);
    true
}

/// Whether `cs` equals the literal `l`.
pub fn chars_eq_str(cs: &[char], l: &str) -> (b: bool)
    ensures
        b == (cs@ == l@),
{
    let n = l.unicode_len();
    if n != cs.len() {
        return false;
    }
    let mut i: usize = 0;
    while i < n
        invariant
            n == l@.len(),
            n == cs@.len(),
            i <= n,
            cs@.take(i as int) == l@.take(i as int),
        decreases n - i,
    {
        if cs[i] != l.get_char(i) {
            assert(cs@[i as int] != l@[i as int]);
            return false;
        }
        i = i + 1;
        assert(cs@.take(i as int) =~= l@.take(i as int));
    }
    assert(cs@ =~= cs@.take(n as int));
    assert(l@ =~= l@.take(n as int));
    true
}

/// Whether `cs` begins with the literal `l`.
pub fn chars_starts_with(cs: &[char], l: &str) -> (b: bool)
    ensures
        b == starts_with(cs@, l@),
{
    let n = l.unicode_len();
    if n > cs.len() {
        return false;
    }
    let mut i: usize = 0;
    while i < n
        invariant
            n == l@.len(),
            n <= cs@.len(),
            i <= n,
            cs@.take(i as int) == l@.take(i as int),
        decreases n - i,
    {
        if cs[i] != l.get_char(i) {
            assert(cs@.take(n as int)[i as int] != l@[i as int]);
            return false;
        }
        i = i + 1;
        assert(cs@.take(i as int) =~= l@.take(i as int));
    }
    assert(l@ =~= l@.take(n as int));
    true
}

/// Whether `cs` ends with the literal `l`.
pub fn chars_ends_with(cs: &[char], l: &str) -> (b: bool)
    ensures
        b == ends_with(cs@, l@),
{
    let n = l.unicode_len();
    if n > cs.len() {
        return false;
    }
    let off = cs.len() - n;
    let mut i: usize = 0;
    while i < n
        invariant
            n == l@.len(),
            off + n == cs@.len(),
            cs@.len() == cs.len(),
            i <= n,
            cs@.skip(off as int).take(i as int) == l@.take(i as int),
        decreases n - i,
    {
        if cs[off + i] != l.get_char(i) {
            assert(cs@.skip(off as int)[i as int] != l@[i as int]);
            return false;
        }
        i = i + 1;
        assert(cs@.skip(off as int).take(i as int) =~= l@.take(i as int));
    }
    assert(l@ =~= l@.take(n as int));
    assert(cs@.skip(off as int) =~= cs@.skip(off as int).take(n as int));
    true
}

/// `a`, the decimal `n`, then `b`.
pub fn cat_int(a: &str, n: i64, b: &str) -> (res: String)
    ensures
        res@ == a@ + int_str(n as int) + b@,
{
    let mut s = String::from_str(a);
    push_int(&mut s, n);
    s.append(b);
    s
}

/// `a`, the decimal `n`, `b`, the decimal `m`, then `c`.
pub fn cat_int2(a: &str, n: i64, b: &str, m: i64, c: &str) -> (res: String)
    ensures
        res@ == a@ + int_str(n as int) + b@ + int_str(m as int) + c@,
{
    let mut s = String::from_str(a);
    push_int(&mut s, n);
    s.append(b);
    push_int(&mut s, m);
    s.append(c);
    s
}

/// `a`, `n`, `b`, `m`, `c`, `k`, then `d`.
pub fn cat_int3(a: &str, n: i64, b: &str, m: i64, c: &str, k: i64, d: &str) -> (res: String)
    ensures
        res@ == a@ + int_str(n as int) + b@ + int_str(m as int) + c@ + int_str(k as int) + d@,
{
    let mut s = String::from_str(a);
    push_int(&mut s, n);
    s.append(b);
    push_int(&mut s, m);
    s.append(c);
    push_int(&mut s, k);
    s.append(d);
    s
}

/// Appends `items` joined with `sep`.
pub fn push_joined(s: &mut String, items: &Vec<String>, sep: &str)
    ensures
        final(s)@ == old(s)@ + join_seqs(items@.map_values(|x: String| x@), sep@),
{
    let ghost views = items@.map_values(|x: String| x@);
    let mut i: usize = 0;
    while i < items.len()
        invariant
            i <= items@.len(),
            views == items@.map_values(|x: String| x@),
            s@ == old(s)@ + join_seqs(views.take(i as int), sep@),
        decreases items.len() - i,
    {
        assert(views.take(i + 1).drop_last() =~= views.take(i as int));
        assert(views.take(i + 1).last() == items@[i as int]@);
        if i > 0 {
            s.append(sep);
        }
        s.append(items[i].as_str());
        proof {
            if i == 0 {
                assert(views.take(1).len() == 1);
                assert(join_seqs(views.take(0), sep@) == Seq::<char>::empty()) by {
                    assert(views.take(0).len() == 0);
                }
            }
        }
        i = i + 1;
    }
    assert(views.take(items@.len() as int) =~= views);
}

/// Appends the integers of `v`, in decimal, joined with `, `.
pub fn push_joined_ints(s: &mut String, v: &Vec<i32>)
    ensures
        final(s)@ == old(s)@ + join_ints(v@),
{
    let ghost views = v@.map_values(|x: i32| int_str(x as int));
    let mut i: usize = 0;
    while i < v.len()
        invariant
            i <= v@.len(),
            views == v@.map_values(|x: i32| int_str(x as int)),
            s@ == old(s)@ + join_seqs(views.take(i as int), ", "@),
        decreases v.len() - i,
    {
        assert(views.take(i + 1).drop_last() =~= views.take(i as int));
        assert(views.take(i + 1).last() == int_str(v@[i as int] as int));
        if i > 0 {
            s.append(", ");
        }
        push_int(s, v[i] as i64);
        proof {
            if i == 0 {
                assert(views.take(0).len() == 0);
            }
        }
        i = i + 1;
    }
    assert(views.take(v@.len() as int) =~= views);
}

/// The decimal `n`, then `b`.
pub fn int_then(n: i64, b: &str) -> (res: String)
    ensures
        res@ == int_str(n as int) + b@,
{
    let mut s = String::new();
    push_int(&mut s, n);
    s.append(b);
    s
}

/// The decimal `n`, `b`, the decimal `m`, then `c`.
pub fn int_then2(n: i64, b: &str, m: i64, c: &str) -> (res: String)
    ensures
        res@ == int_str(n as int) + b@ + int_str(m as int) + c@,
{
    let mut s = String::new();
    push_int(&mut s, n);
    s.append(b);
    push_int(&mut s, m);
    s.append(c);
    s
}

/// `a`, the decimal `n`, `b`, then the decimal `m`.
pub fn cat_int_int(a: &str, n: i64, b: &str, m: i64) -> (res: String)
    ensures
        res@ == a@ + int_str(n as int) + b@ + int_str(m as int),
{
    let mut s = String::from_str(a);
    push_int(&mut s, n);
    s.append(b);
    push_int(&mut s, m);
    s
}

/// `a` then the decimal `n`.
pub fn lit_int(a: &str, n: i64) -> (res: String)
    ensures
        res@ == a@ + int_str(n as int),
{
    let mut s = String::from_str(a);
    push_int(&mut s, n);
    s
}

/// `a`, the decimal `n`, then `b`.
pub fn cat_nat(a: &str, n: u64, b: &str) -> (res: String)
    ensures
        res@ == a@ + int_str(n as int) + b@,
{
    let mut s = String::from_str(a);
    push_nat(&mut s, n);
    s.append(b);
    s
}

/// The decimal `n`, then `b`.
pub fn nat_then(n: u64, b: &str) -> (res: String)
    ensures
        res@ == int_str(n as int) + b@,
{
    let mut s = String::new();
    push_nat(&mut s, n);
    s.append(b);
    s
}

/// `a`, the decimal `n`, `b`, the decimal `m`, then `c`.
pub fn cat_int_int_then(a: &str, n: u64, b: &str, m: u64, c: &str) -> (res: String)
    ensures
        res@ == a@ + int_str(n as int) + b@ + int_str(m as int) + c@,
{
    let mut s = String::from_str(a);
    push_nat(&mut s, n);
    s.append(b);
    push_nat(&mut s, m);
    s.append(c);
    s
}


/// Appends the decimal rendering of a wide natural number.
pub fn push_wide(s: &mut String, n: u128)
    ensures
        final(s)@ == old(s)@ + nat_str(n as nat),
    decreases n,
{
    if n >= 10 {
        push_wide(s, n / 10);
        push_char(s, digit_to_char((n % 10) as u64));
        assert(nat_str(n as nat) == nat_str((n / 10) as nat).push(digit_char((n % 10) as nat)));
    } else {
        push_char(s, digit_to_char(n as u64));
    }
}

/// A longer run of digits never reads as a smaller number.
pub proof fn lemma_digits_prefix(s: Seq<char>, i: int)
    requires
        0 <= i <= s.len(),
    ensures
        digits_value(s.take(i)) <= digits_value(s),
    decreases s.len() - i,
{
    if i < s.len() {
        lemma_digits_prefix(s, i + 1);
        assert(s.take(i + 1).drop_last() =~= s.take(i));
    } else {
        assert(s.take(i) =~= s);
    }
}

/// The value of a run of digits, or `None` once it exceeds `limit`.
pub fn digits_upto(cs: &[char], limit: u64) -> (r: Option<u64>)
    requires
        all_digits(cs@),
        limit < 0x0CCC_CCCC_CCCC_CCCCu64,
    ensures
        r matches Some(v) ==> v == digits_value(cs@) && v <= limit,
        r is None ==> digits_value(cs@) > limit,
{
    let mut acc: u64 = 0;
    let mut i: usize = 0;
    while i < cs.len()
        invariant
            i <= cs@.len(),
            all_digits(cs@),
            limit < 0x0CCC_CCCC_CCCC_CCCCu64,
            acc == digits_value(cs@.take(i as int)),
            acc <= limit,
        decreases cs.len() - i,
    {
        assert(cs@.take(i + 1).drop_last() =~= cs@.take(i as int));
        assert(is_digit(cs@[i as int]));
        let d = (cs[i] as u32 - '0' as u32) as u64;
        acc = acc * 10 + d;
        i = i + 1;
        if acc > limit {
            proof {
                lemma_digits_prefix(cs@, i as int);
            }
            return None;
        }
    }
    assert(cs@.take(cs@.len() as int) =~= cs@);
    Some(acc)
}

/// `str::parse::<u32>` on the characters `cs`.
pub fn parse_u32_chars(cs: &[char]) -> (r: Option<u32>)
    ensures
        r == parse_u32(cs@),
{
    let start: usize = if cs.len() > 0 && cs[0] == '+' { 1 } else { 0 };
    let body = sub_chars(cs, start, cs.len());
    assert(body@ =~= (if cs@.len() > 0 && cs@[0] == '+' { cs@.drop_first() } else { cs@ }));
    if body.len() == 0 || !chars_all_digits(body.as_slice()) {
        return None;
    }
    match digits_upto(body.as_slice(), 0xFFFF_FFFF) {
        Some(v) => Some(v as u32),
        None => None,
    }
}

/// `str::parse::<i32>` on the characters `cs`.
pub fn parse_i32_chars(cs: &[char]) -> (r: Option<i32>)
    ensures
        r == parse_i32(cs@),
{
    if cs.len() > 0 && cs[0] == '-' {
        let body = sub_chars(cs, 1, cs.len());
        assert(body@ =~= cs@.drop_first());
        if body.len() == 0 || !chars_all_digits(body.as_slice()) {
            return None;
        }
        match digits_upto(body.as_slice(), 0x8000_0000) {
            Some(v) => Some((0i64 - v as i64) as i32),
            None => None,
        }
    } else {
        let start: usize = if cs.len() > 0 && cs[0] == '+' { 1 } else { 0 };
        let body = sub_chars(cs, start, cs.len());
        assert(body@ =~= (if cs@.len() > 0 && cs@[0] == '+' { cs@.drop_first() } else { cs@ }));
        if body.len() == 0 || !chars_all_digits(body.as_slice()) {
            return None;
        }
        match digits_upto(body.as_slice(), 0x7FFF_FFFF) {
            Some(v) => Some(v as i32),
            None => None,
        }
    }
}

/// Whether `l` occurs somewhere in `cs`.
pub open spec fn contains_seq(s: Seq<char>, p: Seq<char>) -> bool {
    exists|i: int| 0 <= i && i + p.len() <= s.len() && #[trigger] s.subrange(i, i + p.len()) == p
}

pub fn chars_contains(cs: &[char], l: &str) -> (b: bool)
    ensures
        b == contains_seq(cs@, l@),
{
    let p = str_chars(l);
    let n = p.len();
    if n > cs.len() {
        return false;
    }
    let mut i: usize = 0;
    while i <= cs.len() - n
        invariant
            n == l@.len(),
            p@ == l@,
            n <= cs@.len(),
            i <= cs@.len() - n + 1,
            forall|j: int| 0 <= j < i ==> #[trigger] cs@.subrange(j, j + n) != l@,
        decreases cs.len() - n + 1 - i,
    {
        let mut k: usize = 0;
        let mut same = true;
        while k < n
            invariant
                k <= n,
                n == p@.len(),
                i + n <= cs@.len(),
                cs@.len() == cs.len(),
                same == (forall|j: int| 0 <= j < k ==> cs@[i + j] == p@[j]),
            decreases n - k,
        {
            if cs[i + k] != p[k] {
                same = false;
            }
            k = k + 1;
        }
        if same {
            assert(cs@.subrange(i as int, i + n) =~= l@);
            return true;
        }
        proof {
            let j = choose|j: int| 0 <= j < n && cs@[i + j] != p@[j];
            assert(cs@.subrange(i as int, i + n)[j] != l@[j]);
        }
        i = i + 1;
    }
    false
}


/// The words of `s`: the maximal runs of non-whitespace characters, in order.
pub open spec fn words_from(s: Seq<char>, i: int, cur: Seq<char>, acc: Seq<Seq<char>>) -> Seq<Seq<char>>
    decreases s.len() - i,
{
    if i >= s.len() {
        if cur.len() > 0 { acc.push(cur) } else { acc }
    } else if is_whitespace(s[i]) {
        words_from(s, i + 1, Seq::empty(), if cur.len() > 0 { acc.push(cur) } else { acc })
    } else {
        words_from(s, i + 1, cur.push(s[i]), acc)
    }
}

pub open spec fn words(s: Seq<char>) -> Seq<Seq<char>> {
    words_from(s, 0, Seq::empty(), Seq::empty())
}

/// `str::split_whitespace` on the characters `cs`.
pub fn split_words(cs: &[char]) -> (w: Vec<Vec<char>>)
    ensures
        w@.map_values(|x: Vec<char>| x@) == words(cs@),
{
    let mut acc: Vec<Vec<char>> = Vec::new();
    let mut cur: Vec<char> = Vec::new();
    let mut i: usize = 0;
    assert(acc@.map_values(|x: Vec<char>| x@) =~= Seq::<Seq<char>>::empty());
    assert(cur@ =~= Seq::<char>::empty());
    while i < cs.len()
        invariant
            i <= cs@.len(),
            words(cs@) == words_from(cs@, i as int, cur@, acc@.map_values(|x: Vec<char>| x@)),
        decreases cs.len() - i,
    {
        let ghost gc = cur@;
        let ghost ga = acc@.map_values(|x: Vec<char>| x@);
        assert(words_from(cs@, i as int, gc, ga) == if is_whitespace(cs@[i as int]) {
            words_from(cs@, i + 1, Seq::empty(), if gc.len() > 0 { ga.push(gc) } else { ga })
        } else {
            words_from(cs@, i + 1, gc.push(cs@[i as int]), ga)
        });
        if char_is_ws(cs[i]) {
            if cur.len() > 0 {
                let ghost a0 = acc@.map_values(|x: Vec<char>| x@);
                let ghost c0 = cur@;
                let mut done: Vec<char> = Vec::new();
                std::mem::swap(&mut done, &mut cur);
                acc.push(done);
                assert(acc@.map_values(|x: Vec<char>| x@) =~= a0.push(c0));
                assert(cur@ =~= Seq::<char>::empty());
            } else {
                assert(cur@ =~= Seq::<char>::empty());
            }
        } else {
            cur.push(cs[i]);
        }
        i = i + 1;
    }
    if cur.len() > 0 {
        let ghost a0 = acc@.map_values(|x: Vec<char>| x@);
        let ghost c0 = cur@;
        acc.push(cur);
        assert(acc@.map_values(|x: Vec<char>| x@) =~= a0.push(c0));
    }
    acc
}

/// `items` joined with single spaces.
pub fn join_words(items: &Vec<Vec<char>>) -> (r: Vec<char>)
    ensures
        r@ == join_seqs(items@.map_values(|x: Vec<char>| x@), seq![' ']),
{
    let ghost views = items@.map_values(|x: Vec<char>| x@);
    let mut r: Vec<char> = Vec::new();
    let mut i: usize = 0;
    while i < items.len()
        invariant
            i <= items@.len(),
            views == items@.map_values(|x: Vec<char>| x@),
            r@ == join_seqs(views.take(i as int), seq![' ']),
        decreases items.len() - i,
    {
        let ghost before = r@;
        if i > 0 {
            r.push(' ');
        }
        let mut k: usize = 0;
        while k < items[i].len()
            invariant
                i < items@.len(),
                k <= items@[i as int]@.len(),
                r@ == (if i > 0 { before.push(' ') } else { before }) + items@[i as int]@.take(k as int),
            decreases items@[i as int]@.len() - k,
        {
            r.push(items[i][k]);
            k = k + 1;
            assert(r@ =~= (if i > 0 { before.push(' ') } else { before }) + items@[i as int]@.take(k as int));
        }
        assert(items@[i as int]@.take(k as int) =~= items@[i as int]@);
        assert(views.take(i + 1).drop_last() =~= views.take(i as int));
        assert(views.take(i + 1).last() == views[i as int]);
        proof {
            if i == 0 {
                assert(views.take(1).len() == 1);
                assert(r@ =~= views.take(1)[0]);
            } else {
                assert(r@ =~= join_seqs(views.take(i as int), seq![' ']) + seq![' '] + views[i as int]);
            }
        }
        i = i + 1;
    }
    assert(views.take(items@.len() as int) =~= views);
    r
}

/// `s` with its surrounding whitespace removed.
pub fn trim_chars(cs: &[char]) -> (r: Vec<char>)
    ensures
        r@ == trim_seq(cs@),
{
    let mut lo: usize = 0;
    assert(cs@.skip(0) =~= cs@);
    while lo < cs.len() && char_is_ws(cs[lo])
        invariant
            lo <= cs@.len(),
            leading_ws(cs@) == lo + leading_ws(cs@.skip(lo as int)),
        decreases cs.len() - lo,
    {
        assert(cs@.skip(lo as int).drop_first() =~= cs@.skip(lo + 1));
        lo = lo + 1;
    }
    assert(leading_ws(cs@.skip(lo as int)) == 0);
    let front = sub_chars(cs, lo, cs.len());
    assert(front@ =~= cs@.skip(leading_ws(cs@) as int));
    let mut hi: usize = front.len();
    assert(front@.take(hi as int) =~= front@);
    while hi > 0 && char_is_ws(front[hi - 1])
        invariant
            hi <= front@.len(),
            trailing_ws(front@) == (front@.len() - hi) + trailing_ws(front@.take(hi as int)),
        decreases hi,
    {
        assert(front@.take(hi as int).drop_last() =~= front@.take(hi - 1));
        hi = hi - 1;
    }
    assert(trailing_ws(front@.take(hi as int)) == 0);
    let r = sub_chars(front.as_slice(), 0, hi);
    assert(r@ =~= front@.take(hi as int));
    r
}

/// Bytes of a character in UTF-8.
pub open spec fn utf8_width(c: char) -> nat {
    if (c as u32) < 0x80 {
        1
    } else if (c as u32) < 0x800 {
        2
    } else if (c as u32) < 0x10000 {
        3
    } else {
        4
    }
}

/// Bytes of a text in UTF-8, which is what `str::len` counts.
pub open spec fn utf8_len(s: Seq<char>) -> nat
    decreases s.len(),
{
    if s.len() == 0 {
        0
    } else {
        utf8_len(s.drop_last()) + utf8_width(s.last())
    }
}

/// A text takes at least one byte per character.
pub proof fn lemma_utf8_len_ge(s: Seq<char>)
    ensures
        utf8_len(s) >= s.len(),
    decreases s.len(),
{
    if s.len() > 0 {
        lemma_utf8_len_ge(s.drop_last());
    }
}

pub fn byte_len(cs: &[char]) -> (n: usize)
    requires
        cs@.len() < 0x1000_0000,
    ensures
        n == utf8_len(cs@),
{
    let mut n: usize = 0;
    let mut i: usize = 0;
    while i < cs.len()
        invariant
            i <= cs@.len(),
            cs@.len() < 0x1000_0000,
            n == utf8_len(cs@.take(i as int)),
            n <= 4 * i,
        decreases cs.len() - i,
    {
        assert(cs@.take(i + 1).drop_last() =~= cs@.take(i as int));
        let c = cs[i] as u32;
        n = n + if c < 0x80 { 1 } else if c < 0x800 { 2 } else if c < 0x10000 { 3 } else { 4 };
        i = i + 1;
    }
    assert(cs@.take(cs@.len() as int) =~= cs@);
    n
}

/// Whether `c` occurs in `cs`.
pub fn chars_has(cs: &[char], c: char) -> (b: bool)
    ensures
        b == cs@.contains(c),
{
    let mut i: usize = 0;
    while i < cs.len()
        invariant
            i <= cs@.len(),
            forall|j: int| 0 <= j < i ==> cs@[j] != c,
        decreases cs.len() - i,
    {
        if cs[i] == c {
            assert(cs@[i as int] == c);
            return true;
        }
        i = i + 1;
    }
    false
}

} // verus!
