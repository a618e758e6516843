//! The partial evaluator: reduces an expression to a static value, or
//! says at which node it could not.
use vstd::prelude::*;
use crate::ast::{
    clone_expr, ArrayElem, ArrayElemView, BinaryOp, Expr, ExprOrSpread, ExprOrSpreadView,
    ExprView, Id, Lit, LitView, MemberProp, MemberPropView, Pat, PatView, PropName, PropNameView,
    PropOrSpread, PropOrSpreadView, VarDeclarator, VarDeclaratorView,
};
use crate::decimal::format_number;
use crate::functions::FunctionMap;
use crate::operators::{apply_binary, apply_unary, is_truthy};
use crate::text::{append_chars, append_str, from_chars, str_eq, to_chars};
use crate::value::{
    clone_value, entries_view, lemma_list_view, lemma_map_view, values_view, Function, Key,
    MapEntry, Value,
};
use crate::decimal::shown;
use crate::functions::{function_of, member_function_of, FunctionBindingView};
use crate::operators::{binary_value, truthy, unary_value};
use crate::number::Number;
use crate::value::{FunctionView, KeyView, MapEntryView, ValueView};

verus! {

/// What an expression is evaluated in: the declarations of the module and
/// the functions of the styling library in scope.
pub ghost struct ScopeView {
    pub decls: Seq<VarDeclaratorView>,
    pub functions: Seq<FunctionBindingView>,
    /// What the host has computed where the library has no exact result.
    pub computed: Seq<crate::operators::Computation>,
}

/// The declarator declares the variable `sym`.
pub open spec fn declares(d: VarDeclaratorView, sym: Seq<char>) -> bool {
    d.name matches PatView::Ident(id) && id.0 == sym
}

/// The position of the first declarator of `sym`; the length where there
/// is none.
pub open spec fn find_decl(decls: Seq<VarDeclaratorView>, sym: Seq<char>) -> int
    decreases decls.len(),
{
    if decls.len() == 0 {
        0
    } else if declares(decls[0], sym) {
        0
    } else {
        1 + find_decl(decls.drop_first(), sym)
    }
}

/// The position of the first entry under `key`; the length where there is
/// none.
pub open spec fn find_key(entries: Seq<MapEntryView>, key: KeyView) -> int
    decreases entries.len(),
{
    if entries.len() == 0 {
        0
    } else if entries[0].key == key {
        0
    } else {
        1 + find_key(entries.drop_first(), key)
    }
}

/// The entries with `value` under `key`: in the place of the entry that
/// was under `key`, or at the end where there was none.
pub open spec fn insert_entry(entries: Seq<MapEntryView>, key: KeyView, value: ValueView) -> Seq<
    MapEntryView,
> {
    let i = find_key(entries, key);
    if 0 <= i < entries.len() {
        entries.update(i, MapEntryView { key, value })
    } else {
        entries.push(MapEntryView { key, value })
    }
}

/// The entries after each entry of `more` was inserted, in order.
pub open spec fn insert_all(entries: Seq<MapEntryView>, more: Seq<MapEntryView>) -> Seq<
    MapEntryView,
>
    decreases more.len(),
{
    if more.len() == 0 {
        entries
    } else {
        insert_entry(insert_all(entries, more.drop_last()), more.last().key, more.last().value)
    }
}

/// The key that a value can serve as.
pub open spec fn key_of(v: ValueView) -> Option<KeyView> {
    match v {
        ValueView::Str(s) => Some(KeyView::Str(s)),
        ValueView::Num(n) => Some(KeyView::Num(n)),
        _ => None,
    }
}

/// The text that a value leaves in a template literal.
pub open spec fn hole_text(v: ValueView) -> Option<Seq<char>> {
    match v {
        ValueView::Str(s) => Some(s),
        ValueView::Num(n) => Some(shown(n)),
        _ => None,
    }
}

/// What a function of the library returns for the given arguments.
pub open spec fn invoke(f: FunctionView, args: Seq<ValueView>) -> Option<ValueView> {
    match f {
        FunctionView::FirstThatWorks => Some(ValueView::List(args)),
        FunctionView::Include => if args.len() == 1 && args[0] is Object {
            Some(ValueView::IncludedStyles(Box::new(args[0])))
        } else {
            None
        },
        FunctionView::Mapper(e) => Some(ValueView::Expr(e)),
        FunctionView::Types(syntax) => if args.len() == 1 {
            Some(ValueView::TypedCss { value: Box::new(args[0]), syntax })
        } else {
            None
        },
    }
}

/// The operator is `&&`, `||` or `??`.
pub open spec fn is_logical(op: BinaryOp) -> bool {
    op == BinaryOp::LogicalAnd || op == BinaryOp::LogicalOr || op == BinaryOp::NullishCoalescing
}

/// The left operand alone gives the result of the logical operator: `&&`
/// where it is not true, `||` where it is, `??` where it is not null.
pub open spec fn decides(op: BinaryOp, left: ValueView) -> bool {
    match op {
        BinaryOp::LogicalAnd => !truthy(left),
        BinaryOp::LogicalOr => truthy(left),
        _ => !(left is Null),
    }
}

/// The function that a callee stands for: an identifier bound to a
/// function, or a member of an identifier bound to the library.
pub open spec fn callee_function(callee: ExprView, functions: Seq<FunctionBindingView>) -> Option<
    FunctionView,
> {
    match callee {
        ExprView::Ident(id) => function_of(functions, id),
        ExprView::Member { obj, prop } => match (*obj, prop) {
            (ExprView::Ident(id), MemberPropView::Ident(name)) => member_function_of(
                functions,
                id,
                name,
            ),
            _ => None,
        },
        _ => None,
    }
}

/// The value of the expression `e`, or the node at which the evaluation
/// had to stop.
///
/// `busy` marks the declarators whose initialisers are being evaluated:
/// a variable that is reached again while it is busy has no value. `fuel`
/// bounds how deep variables may refer to variables.
pub open spec fn eval(e: ExprView, scope: ScopeView, fuel: nat, busy: Seq<bool>) -> Result<
    ValueView,
    ExprView,
>
    decreases fuel, 1int, e,
{
    match e {
        ExprView::Lit(l) => match l {
            LitView::Str(s) => Ok(ValueView::Str(s)),
            LitView::Num(n) => Ok(ValueView::Num(n)),
            LitView::Bool(b) => Ok(ValueView::Bool(b)),
            LitView::Null => Ok(ValueView::Null),
            _ => Err(e),
        },
        ExprView::Ident(id) => eval_ident(id, scope, fuel, busy),
        ExprView::Paren(inner) => eval(*inner, scope, fuel, busy),
        ExprView::Unary { op, arg } => match eval(*arg, scope, fuel, busy) {
            Ok(v) => match unary_value(op, v) {
                Some(w) => Ok(w),
                None => Err(e),
            },
            Err(d) => Err(d),
        },
        ExprView::Bin { op, left, right } => match eval(*left, scope, fuel, busy) {
            Ok(l) => if is_logical(op) {
                if decides(op, l) {
                    Ok(l)
                } else {
                    eval(*right, scope, fuel, busy)
                }
            } else {
                match eval(*right, scope, fuel, busy) {
                    Ok(r) => match binary_value(op, l, r, scope.computed) {
                        Some(w) => Ok(w),
                        None => Err(e),
                    },
                    Err(d) => Err(d),
                }
            },
            Err(d) => Err(d),
        },
        ExprView::Cond { test, cons, alt } => match eval(*test, scope, fuel, busy) {
            Ok(t) => if truthy(t) {
                eval(*cons, scope, fuel, busy)
            } else {
                eval(*alt, scope, fuel, busy)
            },
            Err(d) => Err(d),
        },
        ExprView::Member { obj, prop } => match eval(*obj, scope, fuel, busy) {
            Ok(o) => {
                let key = match prop {
                    MemberPropView::Ident(name) => Ok(KeyView::Str(name)),
                    MemberPropView::Computed(k) => match eval(*k, scope, fuel, busy) {
                        Ok(v) => match key_of(v) {
                            Some(key) => Ok(key),
                            None => Err(*k),
                        },
                        Err(d) => Err(d),
                    },
                };
                match key {
                    Ok(key) => match o {
                        ValueView::Object(entries) => {
                            let i = find_key(entries, key);
                            if 0 <= i < entries.len() {
                                Ok(entries[i].value)
                            } else {
                                Err(e)
                            }
                        },
                        _ => Err(e),
                    },
                    Err(d) => Err(d),
                }
            },
            Err(d) => Err(d),
        },
        ExprView::Call(call) => match callee_function(*call.callee, scope.functions) {
            Some(f) => match eval_args(call.args, call.args.len(), scope, fuel, busy) {
                Ok(args) => match invoke(f, args) {
                    Some(v) => Ok(v),
                    None => Err(e),
                },
                Err(d) => Err(d),
            },
            None => Err(e),
        },
        ExprView::Array(elems) => match eval_elems(elems, elems.len(), scope, fuel, busy) {
            Ok(items) => Ok(ValueView::List(items)),
            Err(d) => Err(d),
        },
        ExprView::Object(props) => match eval_props(props, props.len(), e, scope, fuel, busy) {
            Ok(entries) => Ok(ValueView::Object(entries)),
            Err(d) => Err(d),
        },
        ExprView::Tpl { quasis, exprs } => if quasis.len() == exprs.len() + 1 {
            match eval_tpl(quasis, exprs, exprs.len(), scope, fuel, busy) {
                Ok(text) => Ok(ValueView::Str(text)),
                Err(d) => Err(d),
            }
        } else {
            Err(e)
        },
        _ => Err(e),
    }
}

/// The value of the identifier `id`: that of the initialiser of the first
/// declarator of its symbol, or, where nothing declares it, the function
/// that it is bound to.
pub open spec fn eval_ident(id: (Seq<char>, u32), scope: ScopeView, fuel: nat, busy: Seq<bool>) -> Result<
    ValueView,
    ExprView,
>
    decreases fuel, 0int,
{
    let i = find_decl(scope.decls, id.0);
    if 0 <= i < scope.decls.len() {
        match scope.decls[i].init {
            Some(init) => if fuel > 0 && i < busy.len() && !busy[i] {
                eval(init, scope, (fuel - 1) as nat, busy.update(i, true))
            } else {
                Err(ExprView::Ident(id))
            },
            None => Err(ExprView::Ident(id)),
        }
    } else {
        match function_of(scope.functions, id) {
            Some(f) => Ok(ValueView::Callable(f)),
            None => Err(ExprView::Ident(id)),
        }
    }
}

/// The values that one element or argument contributes: its value, or,
/// for a spread, the items of the list that it evaluates to.
pub open spec fn eval_item(x: ExprOrSpreadView, scope: ScopeView, fuel: nat, busy: Seq<bool>) -> Result<
    Seq<ValueView>,
    ExprView,
>
    decreases fuel, 1int, x,
{
    match eval(*x.expr, scope, fuel, busy) {
        Ok(v) => if x.spread {
            match v {
                ValueView::List(items) => Ok(items),
                _ => Err(*x.expr),
            }
        } else {
            Ok(seq![v])
        },
        Err(d) => Err(d),
    }
}

/// The values of the first `n` arguments of a call.
pub open spec fn eval_args(
    args: Seq<ExprOrSpreadView>,
    n: nat,
    scope: ScopeView,
    fuel: nat,
    busy: Seq<bool>,
) -> Result<Seq<ValueView>, ExprView>
    decreases fuel, 1int, args, n,
{
    if n == 0 || n > args.len() {
        Ok(Seq::empty())
    } else {
        match eval_args(args, (n - 1) as nat, scope, fuel, busy) {
            Ok(before) => match eval_item(args[n - 1], scope, fuel, busy) {
                Ok(more) => Ok(before + more),
                Err(d) => Err(d),
            },
            Err(d) => Err(d),
        }
    }
}

/// The values of the first `n` places of an array literal; a hole is null.
pub open spec fn eval_elems(
    elems: Seq<ArrayElemView>,
    n: nat,
    scope: ScopeView,
    fuel: nat,
    busy: Seq<bool>,
) -> Result<Seq<ValueView>, ExprView>
    decreases fuel, 1int, elems, n,
{
    if n == 0 || n > elems.len() {
        Ok(Seq::empty())
    } else {
        match eval_elems(elems, (n - 1) as nat, scope, fuel, busy) {
            Ok(before) => match elems[n - 1] {
                ArrayElemView::Hole => Ok(before.push(ValueView::Null)),
                ArrayElemView::Elem(x) => match eval_item(x, scope, fuel, busy) {
                    Ok(more) => Ok(before + more),
                    Err(d) => Err(d),
                },
            },
            Err(d) => Err(d),
        }
    }
}

/// The key that a property name stands for.
pub open spec fn eval_key(name: PropNameView, at: ExprView, scope: ScopeView, fuel: nat, busy: Seq<bool>) -> Result<
    KeyView,
    ExprView,
>
    decreases fuel, 1int, name,
{
    match name {
        PropNameView::Ident(s) => Ok(KeyView::Str(s)),
        PropNameView::Str(s) => Ok(KeyView::Str(s)),
        PropNameView::Num(n) => Ok(KeyView::Num(n)),
        PropNameView::BigInt(_) => Err(at),
        PropNameView::Computed(k) => match eval(*k, scope, fuel, busy) {
            Ok(v) => match key_of(v) {
                Some(key) => Ok(key),
                None => Err(*k),
            },
            Err(d) => Err(d),
        },
    }
}

/// The entries that the first `n` members of an object literal make. `at`
/// is the literal itself, the node to report where a member is no
/// expression.
pub open spec fn eval_props(
    props: Seq<PropOrSpreadView>,
    n: nat,
    at: ExprView,
    scope: ScopeView,
    fuel: nat,
    busy: Seq<bool>,
) -> Result<Seq<MapEntryView>, ExprView>
    decreases fuel, 1int, props, n,
{
    if n == 0 || n > props.len() {
        Ok(Seq::empty())
    } else {
        match eval_props(props, (n - 1) as nat, at, scope, fuel, busy) {
            Ok(before) => eval_prop(props[n - 1], before, at, scope, fuel, busy),
            Err(d) => Err(d),
        }
    }
}

/// The entries `before` after one member of the object literal `at` was
/// added to them.
pub open spec fn eval_prop(
    prop: PropOrSpreadView,
    before: Seq<MapEntryView>,
    at: ExprView,
    scope: ScopeView,
    fuel: nat,
    busy: Seq<bool>,
) -> Result<Seq<MapEntryView>, ExprView>
    decreases fuel, 1int, prop,
{
    match prop {
        PropOrSpreadView::KeyValue(kv) => match eval_key(kv.key, at, scope, fuel, busy) {
            Ok(key) => match eval(*kv.value, scope, fuel, busy) {
                Ok(v) => Ok(insert_entry(before, key, v)),
                Err(d) => Err(d),
            },
            Err(d) => Err(d),
        },
        PropOrSpreadView::Shorthand(id) => match eval_ident(id, scope, fuel, busy) {
            Ok(v) => Ok(insert_entry(before, KeyView::Str(id.0), v)),
            Err(d) => Err(d),
        },
        PropOrSpreadView::Spread(x) => match eval(*x, scope, fuel, busy) {
            Ok(v) => match v {
                ValueView::Object(more) => Ok(insert_all(before, more)),
                _ => Err(*x),
            },
            Err(d) => Err(d),
        },
        PropOrSpreadView::Other => Err(at),
    }
}

/// The text of a template literal up to and with the piece after its
/// `n`th hole.
pub open spec fn eval_tpl(
    quasis: Seq<Seq<char>>,
    exprs: Seq<ExprView>,
    n: nat,
    scope: ScopeView,
    fuel: nat,
    busy: Seq<bool>,
) -> Result<Seq<char>, ExprView>
    decreases fuel, 1int, exprs, n,
{
    if n == 0 || n > exprs.len() || quasis.len() != exprs.len() + 1 {
        Ok(if quasis.len() > 0 { quasis[0] } else { Seq::empty() })
    } else {
        match eval_tpl(quasis, exprs, (n - 1) as nat, scope, fuel, busy) {
            Ok(before) => match eval(exprs[n - 1], scope, fuel, busy) {
                Ok(v) => match hole_text(v) {
                    Some(text) => Ok(before + text + quasis[n as int]),
                    None => Err(exprs[n - 1]),
                },
                Err(d) => Err(d),
            },
            Err(d) => Err(d),
        }
    }
}

/// What an expression is evaluated in.
pub struct Scope<'a> {
    /// The declarators of the module, in source order.
    pub decls: &'a Vec<VarDeclarator>,
    /// The functions of the styling library in scope.
    pub functions: &'a FunctionMap,
    /// What the host has computed where the library has no exact result.
    pub computed: &'a Vec<crate::operators::Computation>,
}

impl<'a> View for Scope<'a> {
    type V = ScopeView;

    open spec fn view(&self) -> ScopeView {
        ScopeView {
            decls: Seq::new(self.decls.len() as nat, |i: int| self.decls[i]@),
            functions: self.functions@,
            computed: self.computed@,
        }
    }
}

/// The view of what an evaluation gave.
pub open spec fn outcome_view(r: Result<Value, Expr>) -> Result<ValueView, ExprView> {
    match r {
        Ok(v) => Ok(v@),
        Err(d) => Err(d@),
    }
}

/// The view of the values that a list evaluation gave.
pub open spec fn list_outcome_view(r: Result<Vec<Value>, Expr>) -> Result<Seq<ValueView>, ExprView> {
    match r {
        Ok(items) => Ok(values_view(items@)),
        Err(d) => Err(d@),
    }
}

/// The first declarator of `sym`, by its position.
pub fn find_declarator(decls: &Vec<VarDeclarator>, sym: &str) -> (found: Option<usize>)
    ensures
        0 <= find_decl(Seq::new(decls.len() as nat, |i: int| decls[i]@), sym@),
        match found {
            Some(i) => i < decls.len() && i == find_decl(
                Seq::new(decls.len() as nat, |i: int| decls[i]@),
                sym@,
            ),
            None => find_decl(Seq::new(decls.len() as nat, |i: int| decls[i]@), sym@)
                == decls.len(),
        },
{
    let ghost views = Seq::new(decls.len() as nat, |i: int| decls[i]@);
    let mut i: usize = 0;
    assert(views.skip(0) =~= views);
    while i < decls.len()
        invariant
            i <= decls.len(),
            views == Seq::new(decls.len() as nat, |i: int| decls[i]@),
            find_decl(views, sym@) == i + find_decl(views.skip(i as int), sym@),
        decreases decls.len() - i,
    {
        assert(views.skip(i as int)[0] == decls[i as int]@);
        let hit = match &decls[i].name {
            Pat::Ident(id) => str_eq(id.sym.as_str(), sym),
            Pat::Other => false,
        };
        if hit {
            return Some(i);
        }
        assert(views.skip(i as int).drop_first() =~= views.skip(i + 1));
        i += 1;
    }
    None
}

/// The first entry under `key`, by its position.
fn find_entry(entries: &Vec<MapEntry>, key: &Key) -> (found: Option<usize>)
    ensures
        0 <= find_key(entries_view(entries@), key@),
        match found {
            Some(i) => i < entries.len() && i == find_key(entries_view(entries@), key@),
            None => find_key(entries_view(entries@), key@) == entries.len(),
        },
{
    let ghost views = entries_view(entries@);
    let mut i: usize = 0;
    assert(views.skip(0) =~= views);
    while i < entries.len()
        invariant
            i <= entries.len(),
            views == entries_view(entries@),
            find_key(views, key@) == i + find_key(views.skip(i as int), key@),
        decreases entries.len() - i,
    {
        assert(views.skip(i as int)[0] == entries[i as int]@);
        if entries[i].key.same(key) {
            return Some(i);
        }
        assert(views.skip(i as int).drop_first() =~= views.skip(i + 1));
        i += 1;
    }
    None
}

/// Puts `value` under `key`: in the place of the entry that was under the
/// key, or at the end.
pub fn insert_value(entries: &mut Vec<MapEntry>, key: Key, value: Value)
    ensures
        entries_view(final(entries)@) == insert_entry(entries_view(old(entries)@), key@, value@),
{
    match find_entry(entries, &key) {
        Some(i) => {
            entries.set(i, MapEntry { key, value });
        },
        None => {
            entries.push(MapEntry { key, value });
        },
    }
    assert(entries_view(entries@) =~= insert_entry(entries_view(old(entries)@), key@, value@));
}

/// Inserts copies of the entries of `more`, in order.
pub fn insert_values(entries: &mut Vec<MapEntry>, more: &Vec<MapEntry>)
    ensures
        entries_view(final(entries)@) == insert_all(
            entries_view(old(entries)@),
            entries_view(more@),
        ),
{
    let ghost all = entries_view(more@);
    let mut i: usize = 0;
    while i < more.len()
        invariant
            i <= more.len(),
            all == entries_view(more@),
            entries_view(entries@) == insert_all(entries_view(old(entries)@), all.take(i as int)),
        decreases more.len() - i,
    {
        assert(all.take(i + 1).drop_last() =~= all.take(i as int));
        assert(all.take(i + 1).last() == more[i as int]@);
        insert_value(entries, more[i].key.clone(), clone_value(&more[i].value));
        i += 1;
    }
    assert(all.take(i as int) =~= all);
}

/// The flags with the one at `i` set.
pub fn with_flag(busy: &Vec<bool>, i: usize) -> (out: Vec<bool>)
    requires
        i < busy.len(),
    ensures
        out@ == busy@.update(i as int, true),
{
    let mut out: Vec<bool> = Vec::new();
    let mut j: usize = 0;
    while j < busy.len()
        invariant
            j <= busy.len(),
            i < busy.len(),
            out.len() == j,
            forall|k: int| 0 <= k < j ==> out[k] == (if k == i { true } else { busy[k] }),
        decreases busy.len() - j,
    {
        out.push(j == i || busy[j]);
        j += 1;
    }
    assert(out@ =~= busy@.update(i as int, true));
    out
}

/// Calls a function of the library.
pub fn call_function(f: &Function, args: Vec<Value>) -> (r: Option<Value>)
    ensures
        match invoke(f@, values_view(args@)) {
            Some(v) => r is Some && r->0@ == v,
            None => r is None,
        },
{
    match f {
        Function::FirstThatWorks => {
            proof {
                lemma_list_view(args);
            }
            Some(Value::List(args))
        },
        Function::Include => {
            if args.len() == 1 {
                match &args[0] {
                    Value::Object(_) => Some(Value::IncludedStyles(Box::new(clone_value(&args[0])))),
                    _ => None,
                }
            } else {
                None
            }
        },
        Function::Mapper(e) => Some(Value::Expr(Box::new(clone_expr(e)))),
        Function::Types(syntax) => {
            if args.len() == 1 {
                Some(Value::TypedCss { value: Box::new(clone_value(&args[0])), syntax: syntax.clone() })
            } else {
                None
            }
        },
    }
}

/// The key that a value can serve as.
fn value_key(v: &Value) -> (key: Option<Key>)
    ensures
        match key_of(v@) {
            Some(k) => key is Some && key->0@ == k,
            None => key is None,
        },
{
    match v {
        Value::Str(s) => Some(Key::Str(s.clone())),
        Value::Num(n) => Some(Key::Num(*n)),
        _ => None,
    }
}

/// Evaluates an expression.
pub fn eval_expr(e: &Expr, scope: &Scope, fuel: usize, busy: &Vec<bool>) -> (r: Result<Value, Expr>)
    ensures
        outcome_view(r) == eval(e@, scope@, fuel as nat, busy@),
    decreases fuel, 1int, e,
{
    match e {
        Expr::Lit(l) => match l {
            Lit::Str(s) => Ok(Value::Str(s.clone())),
            Lit::Num(n) => Ok(Value::Num(*n)),
            Lit::Bool(b) => Ok(Value::Bool(*b)),
            Lit::Null => Ok(Value::Null),
            _ => Err(clone_expr(e)),
        },
        Expr::Ident(id) => eval_identifier(id, scope, fuel, busy),
        Expr::Paren(inner) => eval_expr(inner, scope, fuel, busy),
        Expr::Unary { op, arg } => match eval_expr(arg, scope, fuel, busy) {
            Ok(v) => match apply_unary(*op, &v) {
                Some(w) => Ok(w),
                None => Err(clone_expr(e)),
            },
            Err(d) => Err(d),
        },
        Expr::Bin { op, left, right } => match eval_expr(left, scope, fuel, busy) {
            Ok(l) => match op {
                BinaryOp::LogicalAnd => if !is_truthy(&l) {
                    Ok(l)
                } else {
                    eval_expr(right, scope, fuel, busy)
                },
                BinaryOp::LogicalOr => if is_truthy(&l) {
                    Ok(l)
                } else {
                    eval_expr(right, scope, fuel, busy)
                },
                BinaryOp::NullishCoalescing => match l {
                    Value::Null => eval_expr(right, scope, fuel, busy),
                    _ => Ok(l),
                },
                _ => match eval_expr(right, scope, fuel, busy) {
                    Ok(r) => match apply_binary(*op, &l, &r, scope.computed) {
                        Some(w) => Ok(w),
                        None => Err(clone_expr(e)),
                    },
                    Err(d) => Err(d),
                },
            },
            Err(d) => Err(d),
        },
        Expr::Cond { test, cons, alt } => match eval_expr(test, scope, fuel, busy) {
            Ok(t) => if is_truthy(&t) {
                eval_expr(cons, scope, fuel, busy)
            } else {
                eval_expr(alt, scope, fuel, busy)
            },
            Err(d) => Err(d),
        },
        Expr::Member { obj, prop } => match eval_expr(obj, scope, fuel, busy) {
            Ok(o) => {
                assert(e@ == ExprView::Member { obj: Box::new(obj@), prop: prop@ });
                let key = match prop {
                    MemberProp::Ident(name) => Ok(Key::Str(name.clone())),
                    MemberProp::Computed(k) => match eval_expr(k, scope, fuel, busy) {
                        Ok(v) => match value_key(&v) {
                            Some(key) => Ok(key),
                            None => Err(clone_expr(k)),
                        },
                        Err(d) => Err(d),
                    },
                };
                match key {
                    Ok(key) => match &o {
                        Value::Object(entries) => {
                            proof {
                                lemma_map_view(*entries);
                            }
                            match find_entry(entries, &key) {
                                Some(i) => Ok(clone_value(&entries[i].value)),
                                None => Err(clone_expr(e)),
                            }
                        },
                        _ => Err(clone_expr(e)),
                    },
                    Err(d) => Err(d),
                }
            },
            Err(d) => Err(d),
        },
        Expr::Call(call) => {
            assert(call@.args =~= Seq::new(call.args.len() as nat, |i: int| call.args[i]@));
            assert(e@ == ExprView::Call(call@));
            let f = match &*call.callee {
                Expr::Ident(id) => scope.functions.function(id),
                Expr::Member { obj, prop } => {
                    assert(call.callee@ == ExprView::Member {
                        obj: Box::new(obj@),
                        prop: prop@,
                    });
                    match (&**obj, prop) {
                        (Expr::Ident(id), MemberProp::Ident(name)) => {
                            assert(obj@ == ExprView::Ident(id@));
                            assert(prop@ == MemberPropView::Ident(name@));
                            scope.functions.member_function(id, name.as_str())
                        },
                        _ => None,
                    }
                },
                _ => None,
            };
            assert(match callee_function(call.callee@, scope@.functions) {
                Some(g) => f is Some && f->0@ == g,
                None => f is None,
            });
            match f {
                Some(f) => match eval_arguments(&call.args, scope, fuel, busy) {
                    Ok(args) => match call_function(f, args) {
                        Some(v) => Ok(v),
                        None => Err(clone_expr(e)),
                    },
                    Err(d) => Err(d),
                },
                None => Err(clone_expr(e)),
            }
        },
        Expr::Array(elems) => match eval_elements(elems, scope, fuel, busy) {
            Ok(items) => {
                assert(e@->Array_0 =~= Seq::new(elems.len() as nat, |i: int| elems[i]@));
                proof {
                    lemma_list_view(items);
                }
                Ok(Value::List(items))
            },
            Err(d) => {
                assert(e@->Array_0 =~= Seq::new(elems.len() as nat, |i: int| elems[i]@));
                Err(d)
            },
        },
        Expr::Object(props) => match eval_properties(props, e, scope, fuel, busy) {
            Ok(entries) => {
                assert(e@->Object_0 =~= Seq::new(props.len() as nat, |i: int| props[i]@));
                proof {
                    lemma_map_view(entries);
                }
                Ok(Value::Object(entries))
            },
            Err(d) => {
                assert(e@->Object_0 =~= Seq::new(props.len() as nat, |i: int| props[i]@));
                Err(d)
            },
        },
        Expr::Tpl { quasis, exprs } => {
            assert(e@->Tpl_quasis =~= Seq::new(quasis.len() as nat, |i: int| quasis[i]@));
            assert(e@->Tpl_exprs =~= Seq::new(exprs.len() as nat, |i: int| exprs[i]@));
            if quasis.len() == 0 || quasis.len() - 1 != exprs.len() {
                return Err(clone_expr(e));
            }
            match eval_template(quasis, exprs, scope, fuel, busy) {
                Ok(text) => Ok(Value::Str(text)),
                Err(d) => Err(d),
            }
        },
        _ => Err(clone_expr(e)),
    }
}

/// Evaluates an identifier.
pub fn eval_identifier(id: &Id, scope: &Scope, fuel: usize, busy: &Vec<bool>) -> (r: Result<
    Value,
    Expr,
>)
    ensures
        outcome_view(r) == eval_ident(id@, scope@, fuel as nat, busy@),
    decreases fuel, 0int,
{
    match find_declarator(scope.decls, id.sym.as_str()) {
        Some(i) => match &scope.decls[i].init {
            Some(init) => if fuel > 0 && i < busy.len() && !busy[i] {
                let marked = with_flag(busy, i);
                eval_expr(init, scope, fuel - 1, &marked)
            } else {
                Err(Expr::Ident(id.clone()))
            },
            None => Err(Expr::Ident(id.clone())),
        },
        None => match scope.functions.function(id) {
            Some(f) => Ok(Value::Callable(f.clone())),
            None => Err(Expr::Ident(id.clone())),
        },
    }
}

/// Appends to `items` what one element or argument contributes.
fn eval_one(x: &ExprOrSpread, items: &mut Vec<Value>, scope: &Scope, fuel: usize, busy: &Vec<bool>) -> (r:
    Result<(), Expr>)
    ensures
        match eval_item(x@, scope@, fuel as nat, busy@) {
            Ok(more) => r is Ok && values_view(final(items)@) == values_view(old(items)@) + more,
            Err(d) => r is Err && r->Err_0@ == d,
        },
    decreases fuel, 1int, x,
{
    match eval_expr(&x.expr, scope, fuel, busy) {
        Ok(v) => if x.spread {
            match v {
                Value::List(more) => {
                    proof {
                        lemma_list_view(more);
                    }
                    let mut i: usize = 0;
                    while i < more.len()
                        invariant
                            i <= more.len(),
                            values_view(items@) == values_view(old(items)@) + values_view(
                                more@,
                            ).take(i as int),
                        decreases more.len() - i,
                    {
                        let ghost before = values_view(items@);
                        items.push(clone_value(&more[i]));
                        assert(values_view(items@) =~= before.push(more[i as int]@));
                        assert(values_view(more@).take(i + 1) =~= values_view(more@).take(
                            i as int,
                        ).push(more[i as int]@));
                        i += 1;
                    }
                    assert(values_view(more@).take(i as int) =~= values_view(more@));
                    Ok(())
                },
                _ => Err(clone_expr(&x.expr)),
            }
        } else {
            let ghost before = values_view(items@);
            items.push(v);
            assert(values_view(items@) =~= before.push(v@));
            assert(before.push(v@) =~= before + seq![v@]);
            Ok(())
        },
        Err(d) => Err(d),
    }
}

/// Evaluates the arguments of a call.
pub fn eval_arguments(args: &Vec<ExprOrSpread>, scope: &Scope, fuel: usize, busy: &Vec<bool>) -> (r:
    Result<Vec<Value>, Expr>)
    ensures
        list_outcome_view(r) == eval_args(
            Seq::new(args.len() as nat, |i: int| args[i]@),
            args.len() as nat,
            scope@,
            fuel as nat,
            busy@,
        ),
    decreases fuel, 1int, args,
{
    let ghost views = Seq::new(args.len() as nat, |i: int| args[i]@);
    let mut items: Vec<Value> = Vec::new();
    let mut i: usize = 0;
    assert(values_view(items@) =~= Seq::<ValueView>::empty());
    while i < args.len()
        invariant
            i <= args.len(),
            views == Seq::new(args.len() as nat, |i: int| args[i]@),
            eval_args(views, i as nat, scope@, fuel as nat, busy@) == Ok::<
                Seq<ValueView>,
                ExprView,
            >(values_view(items@)),
        decreases args.len() - i,
    {
        assert(views[i as int] == args[i as int]@);
        match eval_one(&args[i], &mut items, scope, fuel, busy) {
            Ok(()) => {},
            Err(d) => {
                proof {
                    lemma_args_fail(views, (i + 1) as nat, args.len() as nat, scope@, fuel as nat, busy@);
                }
                return Err(d);
            },
        }
        i += 1;
    }
    Ok(items)
}

/// Evaluates the places of an array literal.
pub fn eval_elements(elems: &Vec<ArrayElem>, scope: &Scope, fuel: usize, busy: &Vec<bool>) -> (r:
    Result<Vec<Value>, Expr>)
    ensures
        list_outcome_view(r) == eval_elems(
            Seq::new(elems.len() as nat, |i: int| elems[i]@),
            elems.len() as nat,
            scope@,
            fuel as nat,
            busy@,
        ),
    decreases fuel, 1int, elems,
{
    let ghost views = Seq::new(elems.len() as nat, |i: int| elems[i]@);
    let mut items: Vec<Value> = Vec::new();
    let mut i: usize = 0;
    assert(values_view(items@) =~= Seq::<ValueView>::empty());
    while i < elems.len()
        invariant
            i <= elems.len(),
            views == Seq::new(elems.len() as nat, |i: int| elems[i]@),
            eval_elems(views, i as nat, scope@, fuel as nat, busy@) == Ok::<
                Seq<ValueView>,
                ExprView,
            >(values_view(items@)),
        decreases elems.len() - i,
    {
        assert(views[i as int] == elems[i as int]@);
        match &elems[i] {
            ArrayElem::Hole => {
                let ghost before = values_view(items@);
                items.push(Value::Null);
                assert(values_view(items@) =~= before.push(ValueView::Null));
            },
            ArrayElem::Elem(x) => match eval_one(x, &mut items, scope, fuel, busy) {
                Ok(()) => {},
                Err(d) => {
                    proof {
                        lemma_elems_fail(views, (i + 1) as nat, elems.len() as nat, scope@, fuel as nat, busy@);
                    }
                    return Err(d);
                },
            },
        }
        i += 1;
    }
    Ok(items)
}

/// Evaluates the key of a member of the object literal `at`.
pub fn eval_property_key(name: &PropName, at: &Expr, scope: &Scope, fuel: usize, busy: &Vec<bool>) -> (r:
    Result<Key, Expr>)
    ensures
        match eval_key(name@, at@, scope@, fuel as nat, busy@) {
            Ok(key) => r is Ok && r->Ok_0@ == key,
            Err(d) => r is Err && r->Err_0@ == d,
        },
    decreases fuel, 1int, name,
{
    match name {
        PropName::Ident(s) => Ok(Key::Str(s.clone())),
        PropName::Str(s) => Ok(Key::Str(s.clone())),
        PropName::Num(n) => Ok(Key::Num(*n)),
        PropName::BigInt(_) => Err(clone_expr(at)),
        PropName::Computed(k) => match eval_expr(k, scope, fuel, busy) {
            Ok(v) => match value_key(&v) {
                Some(key) => Ok(key),
                None => Err(clone_expr(k)),
            },
            Err(d) => Err(d),
        },
    }
}

/// Adds to `entries` what one member of the object literal `at` makes.
pub fn eval_property(
    prop: &PropOrSpread,
    entries: &mut Vec<MapEntry>,
    at: &Expr,
    scope: &Scope,
    fuel: usize,
    busy: &Vec<bool>,
) -> (r: Result<(), Expr>)
    ensures
        match eval_prop(prop@, entries_view(old(entries)@), at@, scope@, fuel as nat, busy@) {
            Ok(after) => r is Ok && entries_view(final(entries)@) == after,
            Err(d) => r is Err && r->Err_0@ == d,
        },
    decreases fuel, 1int, prop,
{
    match prop {
        PropOrSpread::KeyValue(kv) => match eval_property_key(&kv.key, at, scope, fuel, busy) {
            Ok(key) => match eval_expr(&kv.value, scope, fuel, busy) {
                Ok(v) => {
                    insert_value(entries, key, v);
                    Ok(())
                },
                Err(d) => Err(d),
            },
            Err(d) => Err(d),
        },
        PropOrSpread::Shorthand(id) => match eval_identifier(id, scope, fuel, busy) {
            Ok(v) => {
                insert_value(entries, Key::Str(id.sym.clone()), v);
                Ok(())
            },
            Err(d) => Err(d),
        },
        PropOrSpread::Spread(x) => match eval_expr(x, scope, fuel, busy) {
            Ok(v) => match v {
                Value::Object(more) => {
                    proof {
                        lemma_map_view(more);
                    }
                    insert_values(entries, &more);
                    Ok(())
                },
                _ => Err(clone_expr(x)),
            },
            Err(d) => Err(d),
        },
        PropOrSpread::Other => Err(clone_expr(at)),
    }
}

/// Evaluates the members of the object literal `at`.
pub fn eval_properties(
    props: &Vec<PropOrSpread>,
    at: &Expr,
    scope: &Scope,
    fuel: usize,
    busy: &Vec<bool>,
) -> (r: Result<Vec<MapEntry>, Expr>)
    ensures
        match eval_props(
            Seq::new(props.len() as nat, |i: int| props[i]@),
            props.len() as nat,
            at@,
            scope@,
            fuel as nat,
            busy@,
        ) {
            Ok(entries) => r is Ok && entries_view(r->Ok_0@) == entries,
            Err(d) => r is Err && r->Err_0@ == d,
        },
    decreases fuel, 1int, props,
{
    let ghost views = Seq::new(props.len() as nat, |i: int| props[i]@);
    let mut entries: Vec<MapEntry> = Vec::new();
    let mut i: usize = 0;
    assert(entries_view(entries@) =~= Seq::<MapEntryView>::empty());
    while i < props.len()
        invariant
            i <= props.len(),
            views == Seq::new(props.len() as nat, |i: int| props[i]@),
            eval_props(views, i as nat, at@, scope@, fuel as nat, busy@) == Ok::<
                Seq<MapEntryView>,
                ExprView,
            >(entries_view(entries@)),
        decreases props.len() - i,
    {
        assert(views[i as int] == props[i as int]@);
        let step = eval_property(&props[i], &mut entries, at, scope, fuel, busy);
        match step {
            Ok(()) => {},
            Err(d) => {
                proof {
                    lemma_props_fail(views, (i + 1) as nat, props.len() as nat, at@, scope@, fuel as nat, busy@);
                }
                return Err(d);
            },
        }
        i += 1;
    }
    Ok(entries)
}

/// Evaluates a template literal with one piece more than it has holes.
pub fn eval_template(
    quasis: &Vec<String>,
    exprs: &Vec<Expr>,
    scope: &Scope,
    fuel: usize,
    busy: &Vec<bool>,
) -> (r: Result<String, Expr>)
    requires
        quasis.len() == exprs.len() + 1,
    ensures
        match eval_tpl(
            Seq::new(quasis.len() as nat, |i: int| quasis[i]@),
            Seq::new(exprs.len() as nat, |i: int| exprs[i]@),
            exprs.len() as nat,
            scope@,
            fuel as nat,
            busy@,
        ) {
            Ok(text) => r is Ok && r->Ok_0@ == text,
            Err(d) => r is Err && r->Err_0@ == d,
        },
    decreases fuel, 1int, exprs,
{
    let ghost pieces = Seq::new(quasis.len() as nat, |i: int| quasis[i]@);
    let ghost holes = Seq::new(exprs.len() as nat, |i: int| exprs[i]@);
    let mut text = to_chars(quasis[0].as_str());
    let mut i: usize = 0;
    while i < exprs.len()
        invariant
            i <= exprs.len(),
            quasis.len() == exprs.len() + 1,
            pieces == Seq::new(quasis.len() as nat, |i: int| quasis[i]@),
            holes == Seq::new(exprs.len() as nat, |i: int| exprs[i]@),
            eval_tpl(pieces, holes, i as nat, scope@, fuel as nat, busy@) == Ok::<
                Seq<char>,
                ExprView,
            >(text@),
        decreases exprs.len() - i,
    {
        assert(holes[i as int] == exprs[i as int]@);
        let step: Result<(), Expr> = match eval_expr(&exprs[i], scope, fuel, busy) {
            Ok(v) => match &v {
                Value::Str(s) => {
                    append_str(&mut text, s.as_str());
                    Ok(())
                },
                Value::Num(n) => {
                    let digits = format_number(*n);
                    append_chars(&mut text, &digits);
                    Ok(())
                },
                _ => Err(clone_expr(&exprs[i])),
            },
            Err(d) => Err(d),
        };
        match step {
            Ok(()) => {},
            Err(d) => {
                proof {
                    lemma_tpl_fail(pieces, holes, (i + 1) as nat, exprs.len() as nat, scope@, fuel as nat, busy@);
                }
                return Err(d);
            },
        }
        append_str(&mut text, quasis[i + 1].as_str());
        i += 1;
    }
    Ok(from_chars(&text))
}

/// Once the arguments up to some place have no values, all of them have
/// none, and the node to blame is the same.
proof fn lemma_args_fail(args: Seq<ExprOrSpreadView>, i: nat, n: nat, scope: ScopeView, fuel: nat, busy: Seq<bool>)
    requires
        i <= n <= args.len(),
        eval_args(args, i, scope, fuel, busy) is Err,
    ensures
        eval_args(args, n, scope, fuel, busy) == eval_args(args, i, scope, fuel, busy),
    decreases n,
{
    if i < n {
        lemma_args_fail(args, i, (n - 1) as nat, scope, fuel, busy);
    }
}

/// Once the places up to some place have no values, all of them have none,
/// and the node to blame is the same.
proof fn lemma_elems_fail(elems: Seq<ArrayElemView>, i: nat, n: nat, scope: ScopeView, fuel: nat, busy: Seq<bool>)
    requires
        i <= n <= elems.len(),
        eval_elems(elems, i, scope, fuel, busy) is Err,
    ensures
        eval_elems(elems, n, scope, fuel, busy) == eval_elems(elems, i, scope, fuel, busy),
    decreases n,
{
    if i < n {
        lemma_elems_fail(elems, i, (n - 1) as nat, scope, fuel, busy);
    }
}

/// Once the members up to some place make no entries, all of them make
/// none, and the node to blame is the same.
proof fn lemma_props_fail(
    props: Seq<PropOrSpreadView>,
    i: nat,
    n: nat,
    at: ExprView,
    scope: ScopeView,
    fuel: nat,
    busy: Seq<bool>,
)
    requires
        i <= n <= props.len(),
        eval_props(props, i, at, scope, fuel, busy) is Err,
    ensures
        eval_props(props, n, at, scope, fuel, busy) == eval_props(props, i, at, scope, fuel, busy),
    decreases n,
{
    if i < n {
        lemma_props_fail(props, i, (n - 1) as nat, at, scope, fuel, busy);
    }
}

/// Once a template literal has no text up to some hole, it has none at
/// all, and the node to blame is the same.
proof fn lemma_tpl_fail(
    quasis: Seq<Seq<char>>,
    exprs: Seq<ExprView>,
    i: nat,
    n: nat,
    scope: ScopeView,
    fuel: nat,
    busy: Seq<bool>,
)
    requires
        i <= n <= exprs.len(),
        quasis.len() == exprs.len() + 1,
        eval_tpl(quasis, exprs, i, scope, fuel, busy) is Err,
    ensures
        eval_tpl(quasis, exprs, n, scope, fuel, busy) == eval_tpl(quasis, exprs, i, scope, fuel, busy),
    decreases n,
{
    if i < n {
        lemma_tpl_fail(quasis, exprs, i, (n - 1) as nat, scope, fuel, busy);
    }
}

/// What the evaluator reports of an expression.
#[derive(Debug)]
pub struct EvaluateResult {
    /// Whether the expression was reduced to a value.
    pub confident: bool,
    /// The value, where the evaluator is confident.
    pub value: Option<Value>,
    /// The node at which the evaluation stopped, where it is not.
    pub deopt: Option<Expr>,
}

impl EvaluateResult {
    /// What the report says: the value, or the node to blame. A report
    /// holds the one or the other, and is confident exactly where it holds
    /// a value.
    pub open spec fn outcome(&self) -> Result<ValueView, ExprView> {
        match (self.value, self.deopt) {
            (Some(v), _) => Ok(v@),
            (None, Some(d)) => Err(d@),
            (None, None) => Err(ExprView::Other),
        }
    }

    /// The report is confident exactly where it holds a value, and names
    /// a node exactly where it holds none.
    pub open spec fn wf(&self) -> bool {
        self.confident == (self.value is Some) && (self.deopt is Some) == (self.value is None)
    }
}

/// No declarator is busy.
pub open spec fn idle(n: nat) -> Seq<bool> {
    Seq::new(n, |i: int| false)
}

/// The value of `e` in `scope`, or the node at which the evaluation has
/// to stop, when no variable is being evaluated yet.
pub open spec fn evaluated(e: ExprView, scope: ScopeView) -> Result<ValueView, ExprView> {
    eval(e, scope, scope.decls.len(), idle(scope.decls.len()))
}

/// As many flags as asked for, none set.
pub fn idle_flags(n: usize) -> (flags: Vec<bool>)
    ensures
        flags@ == idle(n as nat),
{
    let mut flags: Vec<bool> = Vec::new();
    let mut i: usize = 0;
    while i < n
        invariant
            i <= n,
            flags.len() == i,
            forall|j: int| 0 <= j < i ==> !flags[j],
        decreases n - i,
    {
        flags.push(false);
        i += 1;
    }
    assert(flags@ =~= idle(n as nat));
    flags
}

/// Reduces an expression to a static value. The report is confident, and
/// holds the value, exactly where the expression has one; otherwise it
/// names the node at which the evaluation stopped.
pub fn evaluate(expr: &Expr, scope: &Scope) -> (report: EvaluateResult)
    ensures
        report.wf(),
        report.outcome() == evaluated(expr@, scope@),
{
    let busy = idle_flags(scope.decls.len());
    match eval_expr(expr, scope, scope.decls.len(), &busy) {
        Ok(v) => EvaluateResult { confident: true, value: Some(v), deopt: None },
        Err(d) => EvaluateResult { confident: false, value: None, deopt: Some(d) },
    }
}

/// The operator is one of arithmetic.
pub open spec fn is_arithmetic(op: BinaryOp) -> bool {
    op == BinaryOp::Add || op == BinaryOp::Sub || op == BinaryOp::Mul || op == BinaryOp::Div || op
        == BinaryOp::Mod || op == BinaryOp::Exp
}

/// The computation for which the evaluation of `e` waits: the
/// evaluation stops at an arithmetic operator on two expressions that
/// have numbers as values, and there is no result of the operator on
/// these numbers, neither an exact one nor one that the host has
/// computed. A host computes the result as it can, adds it to what it has
/// computed, and evaluates again.
pub open spec fn wanted(e: ExprView, scope: ScopeView) -> Option<(BinaryOp, Number, Number)> {
    match evaluated(e, scope) {
        Err(ExprView::Bin { op, left, right }) => if is_arithmetic(op) {
            match (evaluated(*left, scope), evaluated(*right, scope)) {
                (Ok(ValueView::Num(a)), Ok(ValueView::Num(b))) => if crate::operators::arithmetic_in(
                    scope.computed,
                    op,
                    a,
                    b,
                ) is None {
                    Some((op, a, b))
                } else {
                    None
                },
                _ => None,
            }
        } else {
            None
        },
        _ => None,
    }
}

/// The computation for which the evaluation of an expression waits.
pub fn wanted_computation(expr: &Expr, scope: &Scope) -> (r: Option<(BinaryOp, Number, Number)>)
    ensures
        r == wanted(expr@, scope@),
{
    let report = evaluate(expr, scope);
    match &report.deopt {
        Some(Expr::Bin { op, left, right }) => {
            assert(report.deopt->0@ == ExprView::Bin {
                op: *op,
                left: Box::new(left@),
                right: Box::new(right@),
            });
            let arithmetic = match op {
                BinaryOp::Add | BinaryOp::Sub | BinaryOp::Mul | BinaryOp::Div | BinaryOp::Mod | BinaryOp::Exp => true,
                _ => false,
            };
            if !arithmetic {
                return None;
            }
            let l = evaluate(left, scope);
            let r = evaluate(right, scope);
            match (&l.value, &r.value) {
                (Some(Value::Num(a)), Some(Value::Num(b))) => {
                    if crate::operators::apply_arithmetic_in(scope.computed, *op, *a, *b).is_none() {
                        Some((*op, *a, *b))
                    } else {
                        None
                    }
                },
                _ => None,
            }
        },
        _ => None,
    }
}

/// `sub` is an operand of `e` from whose value the value of `e` is made:
/// one that is evaluated and not short-circuited away.
pub open spec fn depends_on(e: ExprView, sub: ExprView, scope: ScopeView, fuel: nat, busy: Seq<bool>) -> bool {
    match e {
        ExprView::Paren(inner) => sub == *inner,
        ExprView::Unary { op, arg } => sub == *arg,
        ExprView::Bin { op, left, right } => sub == *left || (sub == *right && match eval(
            *left,
            scope,
            fuel,
            busy,
        ) {
            Ok(l) => !(is_logical(op) && decides(op, l)),
            Err(_) => true,
        }),
        ExprView::Cond { test, cons, alt } => sub == *test || match eval(*test, scope, fuel, busy) {
            Ok(t) => if truthy(t) {
                sub == *cons
            } else {
                sub == *alt
            },
            Err(_) => false,
        },
        ExprView::Member { obj, prop } => sub == *obj || match prop {
            MemberPropView::Computed(k) => sub == *k,
            _ => false,
        },
        ExprView::Call(call) => callee_function(*call.callee, scope.functions) is Some && exists|
            i: int,
        |
            0 <= i < call.args.len() && sub == *(#[trigger] call.args[i]).expr,
        ExprView::Array(elems) => exists|i: int|
            0 <= i < elems.len() && elem_depends_on(#[trigger] elems[i], sub),
        ExprView::Object(props) => exists|i: int|
            0 <= i < props.len() && prop_depends_on(#[trigger] props[i], sub),
        ExprView::Tpl { quasis, exprs } => quasis.len() == exprs.len() + 1 && exists|i: int|
            0 <= i < exprs.len() && sub == #[trigger] exprs[i],
        _ => false,
    }
}

/// `sub` is what stands at the place of the array literal.
pub open spec fn elem_depends_on(elem: ArrayElemView, sub: ExprView) -> bool {
    match elem {
        ArrayElemView::Elem(x) => sub == *x.expr,
        ArrayElemView::Hole => false,
    }
}

/// `sub` is the value of the member, the expression of its computed key,
/// or what it spreads.
pub open spec fn prop_depends_on(prop: PropOrSpreadView, sub: ExprView) -> bool {
    match prop {
        PropOrSpreadView::KeyValue(kv) => sub == *kv.value || match kv.key {
            PropNameView::Computed(k) => sub == *k,
            _ => false,
        },
        PropOrSpreadView::Spread(x) => sub == *x,
        _ => false,
    }
}

/// Confidence is monotone: where an operand on which an expression
/// depends has no value, the expression has none either.
pub proof fn lemma_confidence_monotone(e: ExprView, sub: ExprView, scope: ScopeView, fuel: nat, busy: Seq<bool>)
    requires
        depends_on(e, sub, scope, fuel, busy),
        eval(sub, scope, fuel, busy) is Err,
    ensures
        eval(e, scope, fuel, busy) is Err,
{
    match e {
        ExprView::Call(call) => {
            let i = choose|i: int| 0 <= i < call.args.len() && sub == *(#[trigger] call.args[i]).expr;
            assert(eval_item(call.args[i], scope, fuel, busy) is Err);
            assert(eval_args(call.args, (i + 1) as nat, scope, fuel, busy) is Err);
            lemma_args_fail(call.args, (i + 1) as nat, call.args.len(), scope, fuel, busy);
        },
        ExprView::Array(elems) => {
            let i = choose|i: int| 0 <= i < elems.len() && elem_depends_on(#[trigger] elems[i], sub);
            assert(eval_item(elems[i]->Elem_0, scope, fuel, busy) is Err);
            assert(eval_elems(elems, (i + 1) as nat, scope, fuel, busy) is Err);
            lemma_elems_fail(elems, (i + 1) as nat, elems.len(), scope, fuel, busy);
        },
        ExprView::Object(props) => {
            let i = choose|i: int| 0 <= i < props.len() && prop_depends_on(#[trigger] props[i], sub);
            match eval_props(props, i as nat, e, scope, fuel, busy) {
                Ok(before) => {
                    assert(eval_prop(props[i], before, e, scope, fuel, busy) is Err);
                },
                Err(_) => {},
            }
            assert(eval_props(props, (i + 1) as nat, e, scope, fuel, busy) is Err);
            lemma_props_fail(props, (i + 1) as nat, props.len(), e, scope, fuel, busy);
        },
        ExprView::Tpl { quasis, exprs } => {
            let i = choose|i: int| 0 <= i < exprs.len() && sub == #[trigger] exprs[i];
            assert(eval_tpl(quasis, exprs, (i + 1) as nat, scope, fuel, busy) is Err);
            lemma_tpl_fail(quasis, exprs, (i + 1) as nat, exprs.len(), scope, fuel, busy);
        },
        _ => {},
    }
}

/// A variable whose initialiser has no value has none either.
pub proof fn lemma_variable_confidence(id: (Seq<char>, u32), scope: ScopeView, fuel: nat, busy: Seq<bool>)
    requires
        0 <= find_decl(scope.decls, id.0) < scope.decls.len(),
        scope.decls[find_decl(scope.decls, id.0)].init matches Some(init) && eval(
            init,
            scope,
            (fuel - 1) as nat,
            busy.update(find_decl(scope.decls, id.0), true),
        ) is Err,
    ensures
        eval(ExprView::Ident(id), scope, fuel, busy) is Err,
{
    assert(eval(ExprView::Ident(id), scope, fuel, busy) == eval_ident(id, scope, fuel, busy));
}

} // verus!
