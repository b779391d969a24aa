//! Arithmetic on totals and success counts: the `+n`, `-n`, `*n`, `/n`
//! modifiers and the strictly left-to-right expression evaluator.
//!
//! Totals use two's-complement wrapping arithmetic, which is what the
//! released program computes; a quotient that does not fit (`MIN / -1`)
//! wraps to `MIN` as well.

use vstd::prelude::*;
use crate::dice::{DiceError, Modifier};

verus! {

/// Truncating division, wrapping on the single overflowing case.
pub open spec fn wdiv(a: i32, b: i32) -> i32 {
    match a.checked_div(b) {
        Some(q) => q,
        None => i32::MIN,
    }
}

pub fn div_wrapping(a: i32, b: i32) -> (r: i32)
    requires
        b != 0,
    ensures
        r == wdiv(a, b),
{
    match a.checked_div(b) {
        Some(q) => q,
        None => i32::MIN,
    }
}

/// The arithmetic modifiers (`+n`, `-n`, `*n`, `/n`), lifted out of
/// `Modifier` so they can be folded into any running value.
pub enum ArithmeticOp {
    Add(i32),
    Subtract(i32),
    Multiply(i32),
    Divide(i32),
}

pub open spec fn apply_op(op: ArithmeticOp, v: i32) -> i32 {
    match op {
        ArithmeticOp::Add(o) => v.wrapping_add(o),
        ArithmeticOp::Subtract(o) => v.wrapping_sub(o),
        ArithmeticOp::Multiply(o) => v.wrapping_mul(o),
        ArithmeticOp::Divide(o) => wdiv(v, o),
    }
}

/// The arithmetic operation a modifier stands for, if any.
pub open spec fn arith_of(m: Modifier) -> Option<ArithmeticOp> {
    match m {
        Modifier::Add(v) => Some(ArithmeticOp::Add(v)),
        Modifier::Subtract(v) => Some(ArithmeticOp::Subtract(v)),
        Modifier::Multiply(v) => Some(ArithmeticOp::Multiply(v)),
        Modifier::Divide(v) => Some(ArithmeticOp::Divide(v)),
        _ => None,
    }
}

pub open spec fn is_zero_divide(m: Modifier) -> bool {
    match m {
        Modifier::Divide(v) => v == 0,
        _ => false,
    }
}

/// Some modifier is `/0`.
pub open spec fn has_zero_divisor(mods: Seq<Modifier>) -> bool {
    exists|i: int| 0 <= i < mods.len() && is_zero_divide(#[trigger] mods[i])
}

/// `v` with every arithmetic modifier of `mods` applied, in order.
pub open spec fn fold_arith(mods: Seq<Modifier>, v: i32) -> i32
    decreases mods.len(),
{
    if mods.len() == 0 {
        v
    } else {
        let w = fold_arith(mods.drop_last(), v);
        match arith_of(mods.last()) {
            Some(op) => apply_op(op, w),
            None => w,
        }
    }
}

pub open spec fn divide_by_zero_msg() -> Seq<char> {
    "Cannot divide by zero"@
}

impl ArithmeticOp {
    /// `Ok(None)` for a modifier that is not arithmetic; `/0` is an error.
    pub fn from_modifier(modifier: &Modifier) -> (r: Result<Option<ArithmeticOp>, DiceError>)
        ensures
            is_zero_divide(*modifier) ==> err_is_divide_by_zero(r),
            !is_zero_divide(*modifier) ==> r == Ok::<Option<ArithmeticOp>, DiceError>(
                arith_of(*modifier),
            ),
    {
        let op = match modifier {
            Modifier::Add(value) => ArithmeticOp::Add(*value),
            Modifier::Subtract(value) => ArithmeticOp::Subtract(*value),
            Modifier::Multiply(value) => ArithmeticOp::Multiply(*value),
            Modifier::Divide(value) => {
                if *value == 0 {
                    return Err(DiceError::from_str("Cannot divide by zero"));
                }
                ArithmeticOp::Divide(*value)
            },
            _ => return Ok(None),
        };
        Ok(Some(op))
    }

    /// Operator symbol, for rebuilding the operation as text.
    pub fn symbol(&self) -> (s: &'static str)
        ensures
            s@ == match *self {
                ArithmeticOp::Add(_) => "+"@,
                ArithmeticOp::Subtract(_) => "-"@,
                ArithmeticOp::Multiply(_) => "*"@,
                ArithmeticOp::Divide(_) => "/"@,
            },
    {
        match self {
            ArithmeticOp::Add(_) => "+",
            ArithmeticOp::Subtract(_) => "-",
            ArithmeticOp::Multiply(_) => "*",
            ArithmeticOp::Divide(_) => "/",
        }
    }

    /// The right-hand side of the operation.
    pub fn operand(&self) -> (o: i32)
        ensures
            o == match *self {
                ArithmeticOp::Add(x) => x,
                ArithmeticOp::Subtract(x) => x,
                ArithmeticOp::Multiply(x) => x,
                ArithmeticOp::Divide(x) => x,
            },
    {
        match self {
            ArithmeticOp::Add(operand) => *operand,
            ArithmeticOp::Subtract(operand) => *operand,
            ArithmeticOp::Multiply(operand) => *operand,
            ArithmeticOp::Divide(operand) => *operand,
        }
    }

    pub fn apply(&self, value: &mut i32)
        requires
            *self matches ArithmeticOp::Divide(d) ==> d != 0,
        ensures
            *final(value) == apply_op(*self, *old(value)),
    {
        match self {
            ArithmeticOp::Add(operand) => *value = value.wrapping_add(*operand),
            ArithmeticOp::Subtract(operand) => *value = value.wrapping_sub(*operand),
            ArithmeticOp::Multiply(operand) => *value = value.wrapping_mul(*operand),
            ArithmeticOp::Divide(operand) => *value = div_wrapping(*value, *operand),
        }
    }
}

/// True for the arithmetic modifiers (`+n`, `-n`, `*n`, `/n`).
pub fn is_arithmetic_modifier(modifier: &Modifier) -> (b: bool)
    ensures
        b == arith_of(*modifier).is_some(),
{
    match modifier {
        Modifier::Add(_) | Modifier::Subtract(_) | Modifier::Multiply(_) | Modifier::Divide(_) => true,
        _ => false,
    }
}

proof fn lemma_zero_divisor_take(mods: Seq<Modifier>, i: int)
    requires
        0 <= i < mods.len(),
        !has_zero_divisor(mods.take(i)),
        !is_zero_divide(mods[i]),
    ensures
        !has_zero_divisor(mods.take(i + 1)),
{
    assert forall|j: int| 0 <= j < i + 1 implies !is_zero_divide(#[trigger] mods.take(i + 1)[j]) by {
        if j < i {
            assert(mods.take(i + 1)[j] == mods.take(i)[j]);
        }
    }
}

/// Fold every arithmetic modifier into `total`, in the order written.
/// Non-arithmetic modifiers are skipped; any `/0` is an error.
pub fn apply_arithmetic_modifiers(modifiers: &Vec<Modifier>, total: &mut i32) -> (r: Result<(), DiceError>)
    ensures
        has_zero_divisor(modifiers@) <==> r is Err,
        r is Err ==> err_is_divide_by_zero(r),
        r is Ok ==> *final(total) == fold_arith(modifiers@, *old(total)),
{
    let mut i: usize = 0;
    while i < modifiers.len()
        invariant
            i <= modifiers@.len(),
            !has_zero_divisor(modifiers@.take(i as int)),
            *total == fold_arith(modifiers@.take(i as int), *old(total)),
        decreases modifiers.len() - i,
    {
        assert(modifiers@.take(i + 1).drop_last() =~= modifiers@.take(i as int));
        match ArithmeticOp::from_modifier(&modifiers[i]) {
            Err(e) => {
                assert(is_zero_divide(modifiers@[i as int]));
                return Err(e);
            },
            Ok(Some(op)) => {
                op.apply(total);
            },
            Ok(None) => {},
        }
        proof {
            lemma_zero_divisor_take(modifiers@, i as int);
        }
        i = i + 1;
    }
    assert(modifiers@.take(modifiers@.len() as int) =~= modifiers@);
    Ok(())
}

pub open spec fn err_is_divide_by_zero<T>(r: Result<T, DiceError>) -> bool {
    r matches Err(e) && e.message@ == divide_by_zero_msg()
}

/// A token of the expression a roll's modifiers build.
pub enum Token {
    Number(i32),
    Plus,
    Minus,
    Multiply,
    Divide,
}

pub open spec fn is_number_token(t: Token) -> bool {
    t is Number
}

/// Numbers at even positions, operators at odd positions, odd length.
pub open spec fn well_formed_tokens(t: Seq<Token>) -> bool {
    &&& t.len() % 2 == 1
    &&& forall|i: int| 0 <= i < t.len() ==> (is_number_token(#[trigger] t[i]) <==> i % 2 == 0)
}

pub open spec fn token_value(t: Token) -> i32 {
    match t {
        Token::Number(n) => n,
        _ => 0,
    }
}

/// `left op right`, or `None` when dividing by zero.
pub open spec fn combine(left: i32, op: Token, right: i32) -> Option<i32> {
    match op {
        Token::Plus => Some(left.wrapping_add(right)),
        Token::Minus => Some(left.wrapping_sub(right)),
        Token::Multiply => Some(left.wrapping_mul(right)),
        Token::Divide => if right == 0 {
            None
        } else {
            Some(wdiv(left, right))
        },
        _ => Some(left),
    }
}

/// Strict left-to-right evaluation, with no operator precedence:
/// `None` when some division is by zero.
pub open spec fn eval_left_to_right(t: Seq<Token>) -> Option<i32>
    decreases t.len(),
{
    if t.len() < 3 {
        Some(token_value(t[0]))
    } else {
        match combine(token_value(t[0]), t[1], token_value(t[2])) {
            None => None,
            Some(v) => eval_left_to_right(seq![Token::Number(v)] + t.skip(3)),
        }
    }
}

/// Reduce the tokens strictly left to right until one number remains.
pub fn apply_left_to_right_operations(tokens: &mut Vec<Token>) -> (r: Result<(), DiceError>)
    requires
        well_formed_tokens(old(tokens)@),
    ensures
        eval_left_to_right(old(tokens)@) is None <==> r is Err,
        r is Err ==> err_is_divide_by_zero(r),
        r is Ok ==> final(tokens)@ =~= seq![
            Token::Number(eval_left_to_right(old(tokens)@).unwrap()),
        ],
{
    while tokens.len() > 1
        invariant
            well_formed_tokens(tokens@),
            eval_left_to_right(tokens@) == eval_left_to_right(old(tokens)@),
        decreases tokens.len(),
    {
        let left = match tokens[0] {
            Token::Number(n) => n,
            _ => 0,
        };
        let right = match tokens[2] {
            Token::Number(n) => n,
            _ => 0,
        };
        let ghost before = tokens@;
        let value = match tokens[1] {
            Token::Plus => left.wrapping_add(right),
            Token::Minus => left.wrapping_sub(right),
            Token::Multiply => left.wrapping_mul(right),
            Token::Divide => {
                if right == 0 {
                    return Err(DiceError::from_str("Cannot divide by zero"));
                }
                div_wrapping(left, right)
            },
            Token::Number(_) => left,
        };
        tokens.set(0, Token::Number(value));
        tokens.remove(2);
        tokens.remove(1);
        proof {
            assert(tokens@ =~= seq![Token::Number(value)] + before.skip(3));
            assert forall|i: int| 0 <= i < tokens@.len() implies (is_number_token(#[trigger] tokens@[i]) <==> i % 2 == 0) by {
                if i > 0 {
                    assert(tokens@[i] == before[i + 2]);
                }
            }
        }
    }
    Ok(())
}

/// Evaluate a well-formed token sequence strictly left to right
/// (`2 + 3 * 4` is 20, not 14).
pub fn evaluate_expression(parts: &Vec<Token>) -> (r: Result<i32, DiceError>)
    requires
        well_formed_tokens(parts@),
    ensures
        match eval_left_to_right(parts@) {
            Some(v) => r == Ok::<i32, DiceError>(v),
            None => err_is_divide_by_zero(r),
        },
{
    let mut tokens: Vec<Token> = Vec::new();
    let mut i: usize = 0;
    while i < parts.len()
        invariant
            i <= parts@.len(),
            tokens@ =~= parts@.take(i as int),
        decreases parts.len() - i,
    {
        let t = match parts[i] {
            Token::Number(n) => Token::Number(n),
            Token::Plus => Token::Plus,
            Token::Minus => Token::Minus,
            Token::Multiply => Token::Multiply,
            Token::Divide => Token::Divide,
        };
        tokens.push(t);
        i = i + 1;
    }
    assert(tokens@ =~= parts@);
    apply_left_to_right_operations(&mut tokens)?;
    match tokens[0] {
        Token::Number(n) => Ok(n),
        _ => Ok(0),
    }
}

/// Net advantage level: advantage and disadvantage cancel out. Positive is
/// advantage, negative is disadvantage.
pub open spec fn advantage_level(mods: Seq<Modifier>) -> int
    decreases mods.len(),
{
    if mods.len() == 0 {
        0
    } else {
        advantage_level(mods.drop_last()) + match mods.last() {
            Modifier::Advantage(c) => c as int,
            Modifier::Disadvantage(c) => -(c as int),
            _ => 0,
        }
    }
}

pub fn net_advantage_level(modifiers: &Vec<Modifier>) -> (l: i128)
    ensures
        l == advantage_level(modifiers@),
        -0x1_0000_0000_0000_0000_0000_0000 <= l <= 0x1_0000_0000_0000_0000_0000_0000,
{
    let mut level: i128 = 0;
    let mut i: usize = 0;
    while i < modifiers.len()
        invariant
            i <= modifiers@.len(),
            modifiers@.len() == modifiers.len(),
            level == advantage_level(modifiers@.take(i as int)),
            -(i as int) * 0x1_0000_0000 <= level <= (i as int) * 0x1_0000_0000,
        decreases modifiers.len() - i,
    {
        assert(modifiers@.take(i + 1).drop_last() =~= modifiers@.take(i as int));
        match &modifiers[i] {
            Modifier::Advantage(c) => level = level + *c as i128,
            Modifier::Disadvantage(c) => level = level - *c as i128,
            _ => {},
        }
        i = i + 1;
    }
    assert(modifiers@.take(modifiers@.len() as int) =~= modifiers@);
    level
}

pub open spec fn is_target_modifier(m: Modifier) -> bool {
    match m {
        Modifier::Target(_) | Modifier::TargetLower(_) | Modifier::TargetWithDoubleSuccess(_, _)
        | Modifier::TargetLowerWithDoubleSuccess(_, _) | Modifier::Failure(_) | Modifier::Botch(_) => true,
        _ => false,
    }
}

pub fn is_target(m: &Modifier) -> (b: bool)
    ensures
        b == is_target_modifier(*m),
{
    match m {
        Modifier::Target(_) | Modifier::TargetLower(_) | Modifier::TargetWithDoubleSuccess(_, _)
        | Modifier::TargetLowerWithDoubleSuccess(_, _) | Modifier::Failure(_) | Modifier::Botch(_) => true,
        _ => false,
    }
}

/// Positions of the success-counting modifiers, in increasing order.
pub fn find_target_modifier_positions(modifiers: &Vec<Modifier>) -> (p: Vec<usize>)
    ensures
        forall|k: int| 0 <= k < p@.len() ==> #[trigger] p@[k] < modifiers@.len() && is_target_modifier(modifiers@[p@[k] as int]),
        forall|k: int, l: int| 0 <= k < l < p@.len() ==> p@[k] < p@[l],
        forall|i: int| 0 <= i < modifiers@.len() && is_target_modifier(#[trigger] modifiers@[i]) ==> p@.contains(i as usize),
{
    let mut p: Vec<usize> = Vec::new();
    let mut i: usize = 0;
    while i < modifiers.len()
        invariant
            i <= modifiers@.len(),
            forall|k: int| 0 <= k < p@.len() ==> #[trigger] p@[k] < i && is_target_modifier(modifiers@[p@[k] as int]),
            forall|k: int, l: int| 0 <= k < l < p@.len() ==> p@[k] < p@[l],
            forall|j: int| 0 <= j < i && is_target_modifier(#[trigger] modifiers@[j]) ==> p@.contains(j as usize),
        decreases modifiers.len() - i,
    {
        if is_target(&modifiers[i]) {
            let ghost oldp = p@;
            p.push(i);
            assert(p@[p@.len() - 1] == i);
            assert forall|x: usize| oldp.contains(x) implies p@.contains(x) by {
                let k = choose|k: int| 0 <= k < oldp.len() && oldp[k] == x;
                assert(p@[k] == x);
            }
        }
        i = i + 1;
    }
    p
}

} // verus!
