//! What the operators of the source language do to static values.
//!
//! No operator converts a value of one kind into another kind to make
//! itself applicable: where the operands are not of the kinds it works
//! on, it has no result.
use vstd::prelude::*;
use crate::ast::{BinaryOp, UnaryOp};
use crate::number::{
    difference, negated, power, product, quotient, remainder, same_value, sum, whole, whole_i32,
    Number,
};
use crate::text::{append_str, from_chars, to_chars};
use crate::value::{Value, ValueView};

verus! {

/// Whether a value counts as true where a truth value is asked for.
pub open spec fn truthy(v: ValueView) -> bool {
    match v {
        ValueView::Str(s) => s.len() > 0,
        ValueView::Num(n) => n.num != 0,
        ValueView::Bool(b) => b,
        ValueView::Null => false,
        _ => true,
    }
}

/// The name of a value's kind, as `typeof` gives it.
pub open spec fn kind_name(v: ValueView) -> Seq<char> {
    match v {
        ValueView::Str(_) => "string"@,
        ValueView::Num(_) => "number"@,
        ValueView::Bool(_) => "boolean"@,
        ValueView::Callable(_) => "function"@,
        _ => "object"@,
    }
}

/// The value is a string, a number, a truth value or null.
pub open spec fn is_scalar(v: ValueView) -> bool {
    v is Str || v is Num || v is Bool || v is Null
}

/// Whether two scalars of one kind are equal; nothing for other pairs.
pub open spec fn same_kind_eq(l: ValueView, r: ValueView) -> Option<bool> {
    match (l, r) {
        (ValueView::Str(a), ValueView::Str(b)) => Some(a == b),
        (ValueView::Num(a), ValueView::Num(b)) => Some(same_value(a, b)),
        (ValueView::Bool(a), ValueView::Bool(b)) => Some(a == b),
        (ValueView::Null, ValueView::Null) => Some(true),
        _ => None,
    }
}

/// Strict equality: scalars of different kinds are unequal.
pub open spec fn strict_eq(l: ValueView, r: ValueView) -> Option<bool> {
    match same_kind_eq(l, r) {
        Some(b) => Some(b),
        None => if is_scalar(l) && is_scalar(r) {
            Some(false)
        } else {
            None
        },
    }
}

/// A number as a value, where there is one.
pub open spec fn num_value(n: Option<Number>) -> Option<ValueView> {
    match n {
        Some(n) => Some(ValueView::Num(n)),
        None => None,
    }
}

/// What a prefix operator makes of a value.
pub open spec fn unary_value(op: UnaryOp, v: ValueView) -> Option<ValueView> {
    match op {
        UnaryOp::Minus => match v {
            ValueView::Num(n) => num_value(negated(n)),
            _ => None,
        },
        UnaryOp::Plus => match v {
            ValueView::Num(n) => Some(v),
            _ => None,
        },
        UnaryOp::Bang => Some(ValueView::Bool(!truthy(v))),
        UnaryOp::Tilde => match v {
            ValueView::Num(n) => Some(ValueView::Num(whole(-whole_i32(n) - 1))),
            _ => None,
        },
        UnaryOp::TypeOf => Some(ValueView::Str(kind_name(v))),
        UnaryOp::Void => Some(ValueView::Null),
        UnaryOp::Delete => None,
    }
}

/// What an arithmetic operator makes of two numbers. It is exact: there
/// is a number unless the result would be none (a division by zero, a
/// power with a fractional exponent) or cannot be held.
pub open spec fn arithmetic(op: BinaryOp, a: Number, b: Number) -> Option<Number> {
    match op {
        BinaryOp::Add => sum(a, b),
        BinaryOp::Sub => difference(a, b),
        BinaryOp::Mul => product(a, b),
        BinaryOp::Div => quotient(a, b),
        BinaryOp::Mod => remainder(a, b),
        BinaryOp::Exp => power(a, b),
        _ => None,
    }
}

/// What a host has computed for an arithmetic operator on two numbers of
/// which the library has no exact result.
#[derive(Clone, Copy, Debug, PartialEq, Eq, Structural)]
pub struct Computation {
    pub op: BinaryOp,
    pub left: Number,
    pub right: Number,
    pub result: Number,
}

/// What the host has computed for the operator on the two numbers: the
/// result of the first computation of them in the table.
pub open spec fn looked_up(table: Seq<Computation>, op: BinaryOp, a: Number, b: Number) -> Option<Number>
    decreases table.len(),
{
    if table.len() == 0 {
        None
    } else if table[0].op == op && table[0].left == a && table[0].right == b {
        Some(table[0].result)
    } else {
        looked_up(table.drop_first(), op, a, b)
    }
}

/// What an arithmetic operator makes of two numbers, with the host's
/// help: the exact result, and where there is none (a power with a
/// fractional exponent, a result that cannot be held), what the host has
/// computed for it.
pub open spec fn arithmetic_in(table: Seq<Computation>, op: BinaryOp, a: Number, b: Number) -> Option<
    Number,
> {
    match arithmetic(op, a, b) {
        Some(n) => Some(n),
        None => match op {
            BinaryOp::Add | BinaryOp::Sub | BinaryOp::Mul | BinaryOp::Div | BinaryOp::Mod | BinaryOp::Exp => looked_up(
                table,
                op,
                a,
                b,
            ),
            _ => None,
        },
    }
}

/// What a comparison makes of two numbers that were brought to one
/// positive denominator: of their numerators.
pub open spec fn comparison(op: BinaryOp, a: int, b: int) -> Option<bool> {
    match op {
        BinaryOp::Lt => Some(a < b),
        BinaryOp::LtEq => Some(a <= b),
        BinaryOp::Gt => Some(a > b),
        BinaryOp::GtEq => Some(a >= b),
        _ => None,
    }
}

/// The 32 bits of a whole number read as a number that is not negative.
pub open spec fn unsigned_of(a: i32) -> u32 {
    if a < 0 {
        (a + 0x1_0000_0000) as u32
    } else {
        a as u32
    }
}

/// What a bitwise operator or a shift makes of two whole numbers of 32
/// signed bits. A shift goes by the low five bits of its count. `>>`
/// keeps the sign; `>>>` reads the bits as a number that is not negative
/// and fills with zeros, so its result is never negative and may exceed
/// 32 signed bits.
pub open spec fn bitwise_i32(op: BinaryOp, a: i32, b: i32) -> Option<i64> {
    match op {
        BinaryOp::BitAnd => Some((a & b) as i64),
        BinaryOp::BitOr => Some((a | b) as i64),
        BinaryOp::BitXor => Some((a ^ b) as i64),
        BinaryOp::LShift => Some((a << (b & 31)) as i64),
        BinaryOp::RShift => Some((a >> (b & 31)) as i64),
        BinaryOp::ZeroFillRShift => Some((unsigned_of(a) >> ((b & 31) as u32)) as i64),
        _ => None,
    }
}

/// What an infix operator other than `&&`, `||` and `??` makes of two
/// values, with what the host has computed.
pub open spec fn binary_value(op: BinaryOp, l: ValueView, r: ValueView, table: Seq<Computation>) -> Option<
    ValueView,
> {
    match op {
        BinaryOp::Add | BinaryOp::Sub | BinaryOp::Mul | BinaryOp::Div | BinaryOp::Mod | BinaryOp::Exp => {
            match (l, r) {
                (ValueView::Num(a), ValueView::Num(b)) => num_value(arithmetic_in(table, op, a, b)),
                (ValueView::Str(a), ValueView::Str(b)) => if op == BinaryOp::Add {
                    Some(ValueView::Str(a + b))
                } else {
                    None
                },
                _ => None,
            }
        },
        BinaryOp::Lt | BinaryOp::LtEq | BinaryOp::Gt | BinaryOp::GtEq => match (l, r) {
            (ValueView::Num(a), ValueView::Num(b)) => match comparison(op, a.num * b.den, b.num * a.den) {
                Some(t) => Some(ValueView::Bool(t)),
                None => None,
            },
            _ => None,
        },
        BinaryOp::BitAnd | BinaryOp::BitOr | BinaryOp::BitXor | BinaryOp::LShift | BinaryOp::RShift | BinaryOp::ZeroFillRShift => match (l, r) {
            (ValueView::Num(a), ValueView::Num(b)) => match bitwise_i32(
                op,
                whole_i32(a) as i32,
                whole_i32(b) as i32,
            ) {
                Some(w) => Some(ValueView::Num(whole(w as int))),
                None => None,
            },
            _ => None,
        },
        BinaryOp::EqEqEq => match strict_eq(l, r) {
            Some(t) => Some(ValueView::Bool(t)),
            None => None,
        },
        BinaryOp::NotEqEq => match strict_eq(l, r) {
            Some(t) => Some(ValueView::Bool(!t)),
            None => None,
        },
        BinaryOp::EqEq => match same_kind_eq(l, r) {
            Some(t) => Some(ValueView::Bool(t)),
            None => None,
        },
        BinaryOp::NotEq => match same_kind_eq(l, r) {
            Some(t) => Some(ValueView::Bool(!t)),
            None => None,
        },
        _ => None,
    }
}

/// Whether a value counts as true.
pub fn is_truthy(v: &Value) -> (t: bool)
    ensures
        t == truthy(v@),
{
    match v {
        Value::Str(s) => !s.as_str().is_empty(),
        Value::Num(n) => n.num != 0,
        Value::Bool(b) => *b,
        Value::Null => false,
        _ => true,
    }
}

/// The name of a value's kind.
pub fn type_of_value(v: &Value) -> (name: String)
    ensures
        name@ == kind_name(v@),
{
    match v {
        Value::Str(_) => "string".to_string(),
        Value::Num(_) => "number".to_string(),
        Value::Bool(_) => "boolean".to_string(),
        Value::Callable(_) => "function".to_string(),
        _ => "object".to_string(),
    }
}

/// Applies a prefix operator.
pub fn apply_unary(op: UnaryOp, v: &Value) -> (r: Option<Value>)
    ensures
        match unary_value(op, v@) {
            Some(w) => r is Some && r->0@ == w,
            None => r is None,
        },
{
    match op {
        UnaryOp::Minus => match v {
            Value::Num(n) => match n.checked_neg() {
                Some(m) => Some(Value::Num(m)),
                None => None,
            },
            _ => None,
        },
        UnaryOp::Plus => match v {
            Value::Num(n) => Some(Value::Num(*n)),
            _ => None,
        },
        UnaryOp::Bang => Some(Value::Bool(!is_truthy(v))),
        UnaryOp::Tilde => match v {
            Value::Num(n) => {
                let w: i64 = n.to_i32() as i64;
                Some(Value::Num(Number::from_whole(-w - 1)))
            },
            _ => None,
        },
        UnaryOp::TypeOf => Some(Value::Str(type_of_value(v))),
        UnaryOp::Void => Some(Value::Null),
        UnaryOp::Delete => None,
    }
}

/// Applies an arithmetic operator to two numbers.
pub fn apply_arithmetic(op: BinaryOp, a: Number, b: Number) -> (r: Option<Number>)
    ensures
        r == match arithmetic(op, a, b) {
            Some(u) => Some(u),
            None => None,
        },
{
    match op {
        BinaryOp::Add => a.checked_add(b),
        BinaryOp::Sub => a.checked_sub(b),
        BinaryOp::Mul => a.checked_mul(b),
        BinaryOp::Div => a.checked_div(b),
        BinaryOp::Mod => a.checked_rem(b),
        BinaryOp::Exp => a.checked_pow(b),
        _ => None,
    }
}

/// The same operator.
fn same_op(a: BinaryOp, b: BinaryOp) -> (same: bool)
    ensures
        same == (a == b),
{
    a == b
}

/// Looks up what the host has computed.
pub fn look_up(table: &Vec<Computation>, op: BinaryOp, a: Number, b: Number) -> (r: Option<Number>)
    ensures
        r == looked_up(table@, op, a, b),
{
    let mut i: usize = 0;
    assert(table@.skip(0) =~= table@);
    while i < table.len()
        invariant
            i <= table.len(),
            looked_up(table@, op, a, b) == looked_up(table@.skip(i as int), op, a, b),
        decreases table.len() - i,
    {
        assert(table@.skip(i as int)[0] == table[i as int]);
        let c = table[i];
        if same_op(c.op, op) && c.left == a && c.right == b {
            return Some(c.result);
        }
        assert(table@.skip(i as int).drop_first() =~= table@.skip(i + 1));
        i += 1;
    }
    None
}

/// Applies an arithmetic operator to two numbers, with the host's help.
pub fn apply_arithmetic_in(table: &Vec<Computation>, op: BinaryOp, a: Number, b: Number) -> (r: Option<
    Number,
>)
    ensures
        r == arithmetic_in(table@, op, a, b),
{
    match apply_arithmetic(op, a, b) {
        Some(n) => Some(n),
        None => match op {
            BinaryOp::Add | BinaryOp::Sub | BinaryOp::Mul | BinaryOp::Div | BinaryOp::Mod | BinaryOp::Exp => look_up(
                table,
                op,
                a,
                b,
            ),
            _ => None,
        },
    }
}

/// Applies a bitwise operator or a shift.
pub fn apply_bitwise(op: BinaryOp, a: i32, b: i32) -> (r: Option<i64>)
    ensures
        r == bitwise_i32(op, a, b),
        r matches Some(w) ==> i32::MIN <= w <= u32::MAX,
{
    assert(0 <= (b & 31) < 32) by (bit_vector);
    match op {
        BinaryOp::BitAnd => Some((a & b) as i64),
        BinaryOp::BitOr => Some((a | b) as i64),
        BinaryOp::BitXor => Some((a ^ b) as i64),
        BinaryOp::LShift => Some((a << (b & 31)) as i64),
        BinaryOp::RShift => Some((a >> (b & 31)) as i64),
        BinaryOp::ZeroFillRShift => {
            let bits: u32 = if a < 0 {
                (a as i64 + 0x1_0000_0000) as u32
            } else {
                a as u32
            };
            let count: u32 = (b & 31) as u32;
            Some((bits >> count) as i64)
        },
        _ => None,
    }
}

/// Whether two scalars of one kind are equal.
pub fn apply_same_kind_eq(l: &Value, r: &Value) -> (t: Option<bool>)
    ensures
        t == same_kind_eq(l@, r@),
{
    match (l, r) {
        (Value::Str(a), Value::Str(b)) => Some(*a == *b),
        (Value::Num(a), Value::Num(b)) => Some(a.same(b)),
        (Value::Bool(a), Value::Bool(b)) => Some(*a == *b),
        (Value::Null, Value::Null) => Some(true),
        _ => None,
    }
}

/// Whether a value is a scalar.
pub fn value_is_scalar(v: &Value) -> (t: bool)
    ensures
        t == is_scalar(v@),
{
    match v {
        Value::Str(_) | Value::Num(_) | Value::Bool(_) | Value::Null => true,
        _ => false,
    }
}

/// Applies strict equality.
pub fn apply_strict_eq(l: &Value, r: &Value) -> (t: Option<bool>)
    ensures
        t == strict_eq(l@, r@),
{
    match apply_same_kind_eq(l, r) {
        Some(b) => Some(b),
        None => if value_is_scalar(l) && value_is_scalar(r) {
            Some(false)
        } else {
            None
        },
    }
}

/// Applies an infix operator other than `&&`, `||` and `??`.
pub fn apply_binary(op: BinaryOp, l: &Value, r: &Value, table: &Vec<Computation>) -> (out: Option<Value>)
    ensures
        match binary_value(op, l@, r@, table@) {
            Some(w) => out is Some && out->0@ == w,
            None => out is None,
        },
{
    match op {
        BinaryOp::Add | BinaryOp::Sub | BinaryOp::Mul | BinaryOp::Div | BinaryOp::Mod | BinaryOp::Exp => {
            match (l, r) {
                (Value::Num(a), Value::Num(b)) => match apply_arithmetic_in(table, op, *a, *b) {
                    Some(n) => Some(Value::Num(n)),
                    None => None,
                },
                (Value::Str(a), Value::Str(b)) => match op {
                    BinaryOp::Add => {
                        let mut chars = to_chars(a.as_str());
                        append_str(&mut chars, b.as_str());
                        Some(Value::Str(from_chars(&chars)))
                    },
                    _ => None,
                },
                _ => None,
            }
        },
        BinaryOp::Lt => match (l, r) {
            (Value::Num(a), Value::Num(b)) => {
                let p = a.cross(b);
                Some(Value::Bool(p.0 < p.1))
            },
            _ => None,
        },
        BinaryOp::LtEq => match (l, r) {
            (Value::Num(a), Value::Num(b)) => {
                let p = a.cross(b);
                Some(Value::Bool(p.0 <= p.1))
            },
            _ => None,
        },
        BinaryOp::Gt => match (l, r) {
            (Value::Num(a), Value::Num(b)) => {
                let p = a.cross(b);
                Some(Value::Bool(p.0 > p.1))
            },
            _ => None,
        },
        BinaryOp::GtEq => match (l, r) {
            (Value::Num(a), Value::Num(b)) => {
                let p = a.cross(b);
                Some(Value::Bool(p.0 >= p.1))
            },
            _ => None,
        },
        BinaryOp::BitAnd | BinaryOp::BitOr | BinaryOp::BitXor | BinaryOp::LShift | BinaryOp::RShift | BinaryOp::ZeroFillRShift => match (l, r) {
            (Value::Num(a), Value::Num(b)) => match apply_bitwise(op, a.to_i32(), b.to_i32()) {
                Some(w) => Some(Value::Num(Number::from_whole(w))),
                None => None,
            },
            _ => None,
        },
        BinaryOp::EqEqEq => match apply_strict_eq(l, r) {
            Some(t) => Some(Value::Bool(t)),
            None => None,
        },
        BinaryOp::NotEqEq => match apply_strict_eq(l, r) {
            Some(t) => Some(Value::Bool(!t)),
            None => None,
        },
        BinaryOp::EqEq => match apply_same_kind_eq(l, r) {
            Some(t) => Some(Value::Bool(t)),
            None => None,
        },
        BinaryOp::NotEq => match apply_same_kind_eq(l, r) {
            Some(t) => Some(Value::Bool(!t)),
            None => None,
        },
        _ => None,
    }
}

} // verus!
