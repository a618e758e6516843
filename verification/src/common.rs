//! Conversions that the transforms share: expressions to numbers and to
//! text.
use vstd::prelude::*;
use crate::ast::{BinaryOp, Expr, ExprView, Id, Lit, LitView, UnaryOp};
use crate::decimal::{format_number, numeral_number, parse_number, shown};
use crate::evaluate::{
    decides, eval, eval_expr, evaluated, find_decl, find_declarator, idle, idle_flags, is_logical,
    with_flag, Scope, ScopeView,
};
use crate::functions::function_of;
use crate::value::Function;
use crate::number::{negated, same_value, whole, whole_i32, Number};
use crate::operators::{
    apply_arithmetic_in, apply_bitwise, arithmetic_in, bitwise_i32, comparison, is_truthy,
    Computation,
};
use crate::text::{append_chars, append_str, from_chars, to_chars};
use crate::value::{FunctionView, Value, ValueView};

verus! {

/// One for true, zero for false.
pub open spec fn truth_number(t: bool) -> Number {
    whole(if t { 1int } else { 0int })
}

/// The number that a text writes, where it writes one that can be held.
pub open spec fn text_number(s: Seq<char>) -> Option<Number> {
    numeral_number(s)
}

/// The number that a literal stands for: a number itself, one or zero for
/// a truth value, and what a string writes.
pub open spec fn lit_num(l: LitView) -> Option<Number> {
    match l {
        LitView::Bool(b) => Some(truth_number(b)),
        LitView::Num(n) => Some(n),
        LitView::Str(s) => text_number(s),
        _ => None,
    }
}

/// The number that a value stands for, as a literal of its kind would.
pub open spec fn value_num(v: ValueView) -> Option<Number> {
    match v {
        ValueView::Bool(b) => Some(truth_number(b)),
        ValueView::Num(n) => Some(n),
        ValueView::Str(s) => text_number(s),
        _ => None,
    }
}

/// The text that a literal stands for.
pub open spec fn lit_text(l: LitView) -> Option<Seq<char>> {
    match l {
        LitView::Str(s) => Some(s),
        LitView::Num(n) => Some(shown(n)),
        LitView::BigInt(digits) => Some(digits),
        _ => None,
    }
}

/// What an operator other than `&&`, `||` and `??` makes of two numbers:
/// arithmetic and bitwise results, and one or zero for a comparison. `in`
/// and `instanceof` make no number.
pub open spec fn num_binary(op: BinaryOp, a: Number, b: Number, table: Seq<Computation>) -> Option<Number> {
    match op {
        BinaryOp::Add | BinaryOp::Sub | BinaryOp::Mul | BinaryOp::Div | BinaryOp::Mod | BinaryOp::Exp => {
            arithmetic_in(table, op, a, b)
        },
        BinaryOp::BitAnd | BinaryOp::BitOr | BinaryOp::BitXor | BinaryOp::LShift | BinaryOp::RShift | BinaryOp::ZeroFillRShift => {
            match bitwise_i32(op, whole_i32(a) as i32, whole_i32(b) as i32) {
                Some(w) => Some(whole(w as int)),
                None => None,
            }
        },
        BinaryOp::EqEq | BinaryOp::EqEqEq => Some(truth_number(same_value(a, b))),
        BinaryOp::NotEq | BinaryOp::NotEqEq => Some(truth_number(!same_value(a, b))),
        BinaryOp::Lt | BinaryOp::LtEq | BinaryOp::Gt | BinaryOp::GtEq => match comparison(
            op,
            a.num * b.den,
            b.num * a.den,
        ) {
            Some(t) => Some(truth_number(t)),
            None => None,
        },
        _ => None,
    }
}

/// The number of a binary expression, from what its operands evaluate to.
///
/// For `&&`, `||` and `??` the left operand alone gives the number where
/// it decides; otherwise the right one gives it. The result is there
/// exactly where the left operand has a value and either decides or the
/// right one has a value too, and the chosen value stands for a number.
/// For every other operator both operands must have values that stand for
/// numbers.
pub open spec fn bin_num(
    op: BinaryOp,
    left: Result<ValueView, ExprView>,
    right: Result<ValueView, ExprView>,
    table: Seq<Computation>,
) -> Option<Number> {
    match left {
        Ok(l) => if is_logical(op) {
            if decides(op, l) {
                value_num(l)
            } else {
                match right {
                    Ok(r) => value_num(r),
                    Err(_) => None,
                }
            }
        } else {
            match right {
                Ok(r) => match (value_num(l), value_num(r)) {
                    (Some(a), Some(b)) => num_binary(op, a, b, table),
                    _ => None,
                },
                Err(_) => None,
            }
        },
        Err(_) => None,
    }
}

/// The expression is one whose number `num_of` takes from its own shape:
/// a binary or unary expression or a literal.
pub open spec fn is_numeric_shape(e: ExprView) -> bool {
    e is Bin || e is Unary || e is Lit
}

/// The number of an expression.
pub open spec fn num_of(e: ExprView, scope: ScopeView, fuel: nat, busy: Seq<bool>) -> Option<Number>
    decreases fuel, 1int, e,
{
    match e {
        ExprView::Ident(id) => num_of_ident(id, scope, fuel, busy),
        ExprView::Lit(l) => lit_num(l),
        ExprView::Unary { op, arg } => match op {
            UnaryOp::Minus => match num_of(*arg, scope, fuel, busy) {
                Some(n) => negated(n),
                None => None,
            },
            UnaryOp::Plus => num_of(*arg, scope, fuel, busy),
            _ => None,
        },
        ExprView::Bin { op, left, right } => bin_num(
            op,
            eval(*left, scope, fuel, busy),
            eval(*right, scope, fuel, busy),
            scope.computed,
        ),
        _ => None,
    }
}

/// What a variable is initialised with: the initialiser of the first
/// declarator of its symbol, or, where nothing declares it, the expression
/// of the mapper it is bound to.
pub open spec fn initialiser_of(id: (Seq<char>, u32), scope: ScopeView) -> Option<ExprView> {
    let i = find_decl(scope.decls, id.0);
    if 0 <= i < scope.decls.len() {
        scope.decls[i].init
    } else {
        match function_of(scope.functions, id) {
            Some(FunctionView::Mapper(e)) => Some(e),
            _ => None,
        }
    }
}

/// The number of a variable: that of its initialiser, where that is a
/// binary or unary expression or a literal, and the variable is not being
/// evaluated already.
pub open spec fn num_of_ident(id: (Seq<char>, u32), scope: ScopeView, fuel: nat, busy: Seq<bool>) -> Option<
    Number,
>
    decreases fuel, 0int,
{
    let i = find_decl(scope.decls, id.0);
    let marked = 0 <= i < scope.decls.len() && i < busy.len();
    match initialiser_of(id, scope) {
        Some(init) => if fuel > 0 && is_numeric_shape(init) && !(marked && busy[i]) {
            num_of(
                init,
                scope,
                (fuel - 1) as nat,
                if marked {
                    busy.update(i, true)
                } else {
                    busy
                },
            )
        } else {
            None
        },
        None => None,
    }
}

/// The number that a literal stands for.
pub fn lit_to_num(lit: &Lit) -> (r: Option<Number>)
    ensures
        r == lit_num(lit@),
{
    match lit {
        Lit::Bool(b) => Some(Number::from_bool(*b)),
        Lit::Num(n) => Some(*n),
        Lit::Str(s) => {
            let chars = to_chars(s.as_str());
            parse_number(&chars)
        },
        _ => None,
    }
}

/// The number that a value stands for.
pub fn value_to_num(v: &Value) -> (r: Option<Number>)
    ensures
        r == value_num(v@),
{
    match v {
        Value::Bool(b) => Some(Number::from_bool(*b)),
        Value::Num(n) => Some(*n),
        Value::Str(s) => {
            let chars = to_chars(s.as_str());
            parse_number(&chars)
        },
        _ => None,
    }
}

/// The text that a literal stands for.
pub fn get_string_val_from_lit(value: &Lit) -> (r: Option<String>)
    ensures
        match lit_text(value@) {
            Some(text) => r is Some && r->0@ == text,
            None => r is None,
        },
{
    match value {
        Lit::Str(s) => Some(s.clone()),
        Lit::Num(n) => {
            let chars = format_number(*n);
            Some(from_chars(&chars))
        },
        Lit::BigInt(digits) => Some(digits.clone()),
        _ => None,
    }
}

/// Applies an operator other than `&&`, `||` and `??` to two numbers.
pub fn apply_to_numbers(op: BinaryOp, a: Number, b: Number, table: &Vec<Computation>) -> (r: Option<
    Number,
>)
    ensures
        r == num_binary(op, a, b, table@),
{
    match op {
        BinaryOp::Add | BinaryOp::Sub | BinaryOp::Mul | BinaryOp::Div | BinaryOp::Mod | BinaryOp::Exp => apply_arithmetic_in(
            table,
            op,
            a,
            b,
        ),
        BinaryOp::BitAnd | BinaryOp::BitOr | BinaryOp::BitXor | BinaryOp::LShift | BinaryOp::RShift | BinaryOp::ZeroFillRShift => {
            match apply_bitwise(op, a.to_i32(), b.to_i32()) {
                Some(w) => Some(Number::from_whole(w)),
                None => None,
            }
        },
        BinaryOp::EqEq | BinaryOp::EqEqEq => Some(Number::from_bool(a.same(&b))),
        BinaryOp::NotEq | BinaryOp::NotEqEq => Some(Number::from_bool(!a.same(&b))),
        BinaryOp::Lt => {
            let p = a.cross(&b);
            Some(Number::from_bool(p.0 < p.1))
        },
        BinaryOp::LtEq => {
            let p = a.cross(&b);
            Some(Number::from_bool(p.0 <= p.1))
        },
        BinaryOp::Gt => {
            let p = a.cross(&b);
            Some(Number::from_bool(p.0 > p.1))
        },
        BinaryOp::GtEq => {
            let p = a.cross(&b);
            Some(Number::from_bool(p.0 >= p.1))
        },
        _ => None,
    }
}

/// The sum, difference, product or quotient of two numbers: exact, and
/// there unless the divisor is zero or the result cannot be held.
pub fn evaluate_bin_expr(op: BinaryOp, left: Number, right: Number) -> (r: Option<Number>)
    requires
        op == BinaryOp::Add || op == BinaryOp::Sub || op == BinaryOp::Mul || op == BinaryOp::Div,
    ensures
        r == num_binary(op, left, right, Seq::empty()),
{
    let table: Vec<Computation> = Vec::new();
    apply_to_numbers(op, left, right, &table)
}

/// The number of the binary expression `left op right`, with the given
/// fuel and busy declarators.
pub fn binary_to_num(
    op: BinaryOp,
    left: &Expr,
    right: &Expr,
    scope: &Scope,
    fuel: usize,
    busy: &Vec<bool>,
) -> (r: Option<Number>)
    ensures
        r == bin_num(
            op,
            eval(left@, scope@, fuel as nat, busy@),
            eval(right@, scope@, fuel as nat, busy@),
            scope@.computed,
        ),
{
    match eval_expr(left, scope, fuel, busy) {
        Ok(l) => {
            let logical = match op {
                BinaryOp::LogicalAnd | BinaryOp::LogicalOr | BinaryOp::NullishCoalescing => true,
                _ => false,
            };
            if logical {
                let left_decides = match op {
                    BinaryOp::LogicalAnd => !is_truthy(&l),
                    BinaryOp::LogicalOr => is_truthy(&l),
                    _ => match &l {
                        Value::Null => false,
                        _ => true,
                    },
                };
                if left_decides {
                    value_to_num(&l)
                } else {
                    match eval_expr(right, scope, fuel, busy) {
                        Ok(r) => value_to_num(&r),
                        Err(_) => None,
                    }
                }
            } else {
                match eval_expr(right, scope, fuel, busy) {
                    Ok(r) => match (value_to_num(&l), value_to_num(&r)) {
                        (Some(a), Some(b)) => apply_to_numbers(op, a, b, scope.computed),
                        _ => None,
                    },
                    Err(_) => None,
                }
            }
        },
        Err(_) => None,
    }
}

/// The number of the binary expression `left op right`.
///
/// Both operands are evaluated as expressions; what they evaluate to is
/// then read as numbers. There is no number where an operand that is
/// needed has no value, where a value does not stand for a number, or
/// where the result is not exact or cannot be held.
pub fn binary_expr_to_num(op: BinaryOp, left: &Expr, right: &Expr, scope: &Scope) -> (r: Option<
    Number,
>)
    ensures
        r == bin_num(op, evaluated(left@, scope@), evaluated(right@, scope@), scope@.computed),
{
    let busy = idle_flags(scope.decls.len());
    binary_to_num(op, left, right, scope, scope.decls.len(), &busy)
}

/// The number of `left op right` for the four operators of plain
/// arithmetic; no number for any other operator.
pub fn transform_bin_expr_to_number(op: BinaryOp, left: &Expr, right: &Expr, scope: &Scope) -> (r:
    Option<Number>)
    ensures
        r == if op == BinaryOp::Add || op == BinaryOp::Sub || op == BinaryOp::Mul || op
            == BinaryOp::Div {
            bin_num(op, evaluated(left@, scope@), evaluated(right@, scope@), scope@.computed)
        } else {
            None
        },
{
    match op {
        BinaryOp::Add | BinaryOp::Sub | BinaryOp::Mul | BinaryOp::Div => binary_expr_to_num(
            op,
            left,
            right,
            scope,
        ),
        _ => None,
    }
}

/// The text of a variable: that of its initialiser, where that is a
/// literal, or of the variable that the initialiser names.
pub open spec fn text_of_ident(id: (Seq<char>, u32), scope: ScopeView, fuel: nat) -> Option<Seq<char>>
    decreases fuel,
{
    match initialiser_of(id, scope) {
        Some(ExprView::Lit(l)) => lit_text(l),
        Some(ExprView::Ident(next)) => if fuel > 0 {
            text_of_ident(next, scope, (fuel - 1) as nat)
        } else {
            None
        },
        _ => None,
    }
}

/// The text of an expression: of a literal, or of a variable.
pub open spec fn text_of(e: ExprView, scope: ScopeView) -> Option<Seq<char>> {
    match e {
        ExprView::Ident(id) => text_of_ident(id, scope, scope.decls.len()),
        ExprView::Lit(l) => lit_text(l),
        _ => None,
    }
}

/// The text that a hole of a template literal leaves: that of a literal,
/// of a variable initialised with a literal, or of the number of a sum,
/// difference, product or quotient.
pub open spec fn hole_string(e: ExprView, scope: ScopeView) -> Option<Seq<char>> {
    match e {
        ExprView::Ident(id) => match initialiser_of(id, scope) {
            Some(ExprView::Lit(l)) => lit_text(l),
            _ => None,
        },
        ExprView::Bin { op, left, right } => if op == BinaryOp::Add || op == BinaryOp::Sub || op
            == BinaryOp::Mul || op == BinaryOp::Div {
            match bin_num(op, evaluated(*left, scope), evaluated(*right, scope), scope.computed) {
                Some(n) => Some(shown(n)),
                None => None,
            }
        } else {
            None
        },
        ExprView::Lit(l) => lit_text(l),
        _ => None,
    }
}

/// The text of the first `n` pieces of a template literal, each followed
/// by the text of the hole after it, where there is one.
pub open spec fn tpl_string(quasis: Seq<Seq<char>>, exprs: Seq<ExprView>, n: nat, scope: ScopeView) -> Option<
    Seq<char>,
>
    decreases n,
{
    if n == 0 || n > quasis.len() {
        Some(Seq::empty())
    } else {
        match tpl_string(quasis, exprs, (n - 1) as nat, scope) {
            Some(before) => if n - 1 < exprs.len() {
                match hole_string(exprs[n - 1], scope) {
                    Some(hole) => Some(before + quasis[n - 1] + hole),
                    None => None,
                }
            } else {
                Some(before + quasis[n - 1])
            },
            None => None,
        }
    }
}

/// What a variable is initialised with.
pub fn initialiser<'a>(id: &Id, scope: &'a Scope) -> (r: Option<&'a Expr>)
    ensures
        match initialiser_of(id@, scope@) {
            Some(e) => r is Some && r->0@ == e,
            None => r is None,
        },
{
    match find_declarator(scope.decls, id.sym.as_str()) {
        Some(i) => match &scope.decls[i].init {
            Some(init) => Some(&**init),
            None => None,
        },
        None => match scope.functions.function(id) {
            Some(Function::Mapper(e)) => Some(&**e),
            _ => None,
        },
    }
}

/// The number of an expression, with the given fuel and busy declarators.
pub fn to_num(e: &Expr, scope: &Scope, fuel: usize, busy: &Vec<bool>) -> (r: Option<Number>)
    ensures
        r == num_of(e@, scope@, fuel as nat, busy@),
    decreases fuel, 1int, e,
{
    match e {
        Expr::Ident(id) => ident_num(id, scope, fuel, busy),
        Expr::Lit(l) => lit_to_num(l),
        Expr::Unary { op, arg } => match op {
            UnaryOp::Minus => match to_num(arg, scope, fuel, busy) {
                Some(n) => n.checked_neg(),
                None => None,
            },
            UnaryOp::Plus => to_num(arg, scope, fuel, busy),
            _ => None,
        },
        Expr::Bin { op, left, right } => binary_to_num(*op, left, right, scope, fuel, busy),
        _ => None,
    }
}

/// The number of a variable, with the given fuel and busy declarators.
pub fn ident_num(id: &Id, scope: &Scope, fuel: usize, busy: &Vec<bool>) -> (r: Option<Number>)
    ensures
        r == num_of_ident(id@, scope@, fuel as nat, busy@),
    decreases fuel, 0int,
{
    let found = find_declarator(scope.decls, id.sym.as_str());
    match initialiser(id, scope) {
        Some(init) => {
            let shaped = match init {
                Expr::Bin { .. } | Expr::Unary { .. } | Expr::Lit(_) => true,
                _ => false,
            };
            if fuel == 0 || !shaped {
                return None;
            }
            match found {
                Some(i) => if i < busy.len() {
                    if busy[i] {
                        None
                    } else {
                        let marked = with_flag(busy, i);
                        to_num(init, scope, fuel - 1, &marked)
                    }
                } else {
                    to_num(init, scope, fuel - 1, busy)
                },
                None => to_num(init, scope, fuel - 1, busy),
            }
        },
        None => None,
    }
}

/// The number of an expression: of a literal, of a variable, of a signed
/// expression or of a binary expression.
pub fn expr_to_num(expr_num: &Expr, scope: &Scope) -> (r: Option<Number>)
    ensures
        r == num_of(expr_num@, scope@, scope@.decls.len(), idle(scope@.decls.len())),
{
    let busy = idle_flags(scope.decls.len());
    to_num(expr_num, scope, scope.decls.len(), &busy)
}

/// The number of a variable.
pub fn ident_to_number(ident: &Id, scope: &Scope) -> (r: Option<Number>)
    ensures
        r == num_of_ident(ident@, scope@, scope@.decls.len(), idle(scope@.decls.len())),
{
    let busy = idle_flags(scope.decls.len());
    ident_num(ident, scope, scope.decls.len(), &busy)
}

/// The number of `-arg` or `+arg`; no number under another operator.
pub fn unari_to_num(op: UnaryOp, arg: &Expr, scope: &Scope) -> (r: Option<Number>)
    ensures
        r == match op {
            UnaryOp::Minus => match num_of(arg@, scope@, scope@.decls.len(), idle(scope@.decls.len())) {
                Some(n) => negated(n),
                None => None,
            },
            UnaryOp::Plus => num_of(arg@, scope@, scope@.decls.len(), idle(scope@.decls.len())),
            _ => None,
        },
{
    match op {
        UnaryOp::Minus => match expr_to_num(arg, scope) {
            Some(n) => n.checked_neg(),
            None => None,
        },
        UnaryOp::Plus => expr_to_num(arg, scope),
        _ => None,
    }
}

/// The text of a variable, following at most `fuel` variables that name
/// variables.
pub fn ident_to_string(id: &Id, scope: &Scope, fuel: usize) -> (r: Option<String>)
    ensures
        match text_of_ident(id@, scope@, fuel as nat) {
            Some(text) => r is Some && r->0@ == text,
            None => r is None,
        },
    decreases fuel,
{
    match initialiser(id, scope) {
        Some(Expr::Lit(l)) => get_string_val_from_lit(l),
        Some(Expr::Ident(next)) => if fuel > 0 {
            ident_to_string(next, scope, fuel - 1)
        } else {
            None
        },
        _ => None,
    }
}

/// The text of an expression: of a literal, or of a variable.
pub fn expr_to_str(expr_string: &Expr, scope: &Scope) -> (r: Option<String>)
    ensures
        match text_of(expr_string@, scope@) {
            Some(text) => r is Some && r->0@ == text,
            None => r is None,
        },
{
    match expr_string {
        Expr::Ident(id) => ident_to_string(id, scope, scope.decls.len()),
        Expr::Lit(l) => get_string_val_from_lit(l),
        _ => None,
    }
}

/// The text that a hole of a template literal leaves.
pub fn hole_to_string(e: &Expr, scope: &Scope) -> (r: Option<String>)
    ensures
        match hole_string(e@, scope@) {
            Some(text) => r is Some && r->0@ == text,
            None => r is None,
        },
{
    match e {
        Expr::Ident(id) => match initialiser(id, scope) {
            Some(Expr::Lit(l)) => get_string_val_from_lit(l),
            _ => None,
        },
        Expr::Bin { op, left, right } => match transform_bin_expr_to_number(*op, left, right, scope) {
            Some(n) => {
                let chars = format_number(n);
                Some(from_chars(&chars))
            },
            None => None,
        },
        Expr::Lit(l) => get_string_val_from_lit(l),
        _ => None,
    }
}

/// The text of a template literal: its pieces with the text of each hole
/// after the piece before it.
pub fn expr_tpl_to_string(quasis: &Vec<String>, exprs: &Vec<Expr>, scope: &Scope) -> (r: Option<
    String,
>)
    ensures
        match tpl_string(
            Seq::new(quasis.len() as nat, |i: int| quasis[i]@),
            Seq::new(exprs.len() as nat, |i: int| exprs[i]@),
            quasis.len() as nat,
            scope@,
        ) {
            Some(text) => r is Some && r->0@ == text,
            None => r is None,
        },
{
    let ghost pieces = Seq::new(quasis.len() as nat, |i: int| quasis[i]@);
    let ghost holes = Seq::new(exprs.len() as nat, |i: int| exprs[i]@);
    let mut text: Vec<char> = Vec::new();
    let mut i: usize = 0;
    while i < quasis.len()
        invariant
            i <= quasis.len(),
            pieces == Seq::new(quasis.len() as nat, |i: int| quasis[i]@),
            holes == Seq::new(exprs.len() as nat, |i: int| exprs[i]@),
            tpl_string(pieces, holes, i as nat, scope@) == Some(text@),
        decreases quasis.len() - i,
    {
        append_str(&mut text, quasis[i].as_str());
        if i < exprs.len() {
            match hole_to_string(&exprs[i], scope) {
                Some(hole) => {
                    append_str(&mut text, hole.as_str());
                },
                None => {
                    proof {
                        lemma_tpl_string_fails(pieces, holes, (i + 1) as nat, quasis.len() as nat, scope@);
                    }
                    return None;
                },
            }
        }
        i += 1;
    }
    Some(from_chars(&text))
}

/// Once a template literal has no text up to some piece, it has none at
/// all.
proof fn lemma_tpl_string_fails(quasis: Seq<Seq<char>>, exprs: Seq<ExprView>, i: nat, n: nat, scope: ScopeView)
    requires
        i <= n <= quasis.len(),
        tpl_string(quasis, exprs, i, scope) is None,
    ensures
        tpl_string(quasis, exprs, n, scope) is None,
    decreases n,
{
    if i < n {
        lemma_tpl_string_fails(quasis, exprs, i, (n - 1) as nat, scope);
    }
}

} // verus!
