//! Structural equality of syntax trees.
use vstd::prelude::*;
use crate::ast::{
    array_view, clone_strings, elems_view, exprs_view, lemma_array_view, lemma_call_view,
    lemma_object_view, props_view, ArrayElem, ArrayElemView, CallExpr, CallExprView, Expr,
    ExprOrSpread, ExprOrSpreadView, ExprView, Id, KeyValueProp, KeyValuePropView, Lit, MemberProp,
    MemberPropView, Pat, PropName, PropNameView, PropOrSpread, PropOrSpreadView, Span,
    VarDeclarator,
};
use crate::collections::Member;
use crate::text::views;

verus! {

/// Whether two literals are the same.
pub fn same_lit(a: &Lit, b: &Lit) -> (same: bool)
    ensures
        same == (a@ == b@),
{
    match (a, b) {
        (Lit::Str(x), Lit::Str(y)) => *x == *y,
        (Lit::Num(x), Lit::Num(y)) => x.num == y.num && x.den == y.den,
        (Lit::Bool(x), Lit::Bool(y)) => *x == *y,
        (Lit::Null, Lit::Null) => true,
        (Lit::BigInt(x), Lit::BigInt(y)) => *x == *y,
        (Lit::Regex(x), Lit::Regex(y)) => *x == *y,
        _ => false,
    }
}

/// Whether two parameters are the same.
pub fn same_pat(a: &Pat, b: &Pat) -> (same: bool)
    ensures
        same == (a@ == b@),
{
    match (a, b) {
        (Pat::Ident(x), Pat::Ident(y)) => x.same(y),
        (Pat::Other, Pat::Other) => true,
        _ => false,
    }
}

/// Whether two lists of strings are the same.
pub fn same_strings(a: &Vec<String>, b: &Vec<String>) -> (same: bool)
    ensures
        same == (views(a@) == views(b@)),
{
    if a.len() != b.len() {
        assert(views(a@).len() != views(b@).len());
        return false;
    }
    let mut i: usize = 0;
    while i < a.len()
        invariant
            i <= a.len(),
            a.len() == b.len(),
            forall|j: int| 0 <= j < i ==> a[j]@ == b[j]@,
        decreases a.len() - i,
    {
        if a[i] != b[i] {
            assert(views(a@)[i as int] != views(b@)[i as int]);
            return false;
        }
        i += 1;
    }
    assert(views(a@) =~= views(b@));
    true
}

/// Whether two lists of parameters are the same.
pub fn same_pats(a: &Vec<Pat>, b: &Vec<Pat>) -> (same: bool)
    ensures
        same == (Seq::new(a.len() as nat, |i: int| a[i]@) == Seq::new(
            b.len() as nat,
            |i: int| b[i]@,
        )),
{
    let ghost x = Seq::new(a.len() as nat, |i: int| a[i]@);
    let ghost y = Seq::new(b.len() as nat, |i: int| b[i]@);
    if a.len() != b.len() {
        assert(x.len() != y.len());
        return false;
    }
    let mut i: usize = 0;
    while i < a.len()
        invariant
            i <= a.len(),
            a.len() == b.len(),
            x == Seq::new(a.len() as nat, |i: int| a[i]@),
            y == Seq::new(b.len() as nat, |i: int| b[i]@),
            forall|j: int| 0 <= j < i ==> a[j]@ == b[j]@,
        decreases a.len() - i,
    {
        if !same_pat(&a[i], &b[i]) {
            assert(x[i as int] != y[i as int]);
            return false;
        }
        i += 1;
    }
    assert(x =~= y);
    true
}

/// Whether two expressions are the same.
pub fn same_expr(a: &Expr, b: &Expr) -> (same: bool)
    ensures
        same == (a@ == b@),
    decreases a,
{
    match (a, b) {
        (Expr::Lit(x), Expr::Lit(y)) => same_lit(x, y),
        (Expr::Ident(x), Expr::Ident(y)) => x.same(y),
        (Expr::Unary { op: o1, arg: x }, Expr::Unary { op: o2, arg: y }) => *o1 == *o2 && same_expr(
            x,
            y,
        ),
        (Expr::Bin { op: o1, left: l1, right: r1 }, Expr::Bin { op: o2, left: l2, right: r2 }) => {
            *o1 == *o2 && same_expr(l1, l2) && same_expr(r1, r2)
        },
        (Expr::Cond { test: t1, cons: c1, alt: a1 }, Expr::Cond { test: t2, cons: c2, alt: a2 }) => {
            same_expr(t1, t2) && same_expr(c1, c2) && same_expr(a1, a2)
        },
        (Expr::Member { obj: o1, prop: pa }, Expr::Member { obj: o2, prop: pb }) => same_expr(o1, o2)
            && same_member_prop(pa, pb),
        (Expr::Call(x), Expr::Call(y)) => {
            proof {
                lemma_call_view(*x);
                lemma_call_view(*y);
            }
            same_call(x, y)
        },
        (Expr::Array(x), Expr::Array(y)) => {
            proof {
                lemma_array_view(*x);
                lemma_array_view(*y);
            }
            same_array_elems(x, y)
        },
        (Expr::Object(x), Expr::Object(y)) => {
            proof {
                lemma_object_view(*x);
                lemma_object_view(*y);
            }
            same_props(x, y)
        },
        (Expr::Tpl { quasis: q1, exprs: e1 }, Expr::Tpl { quasis: q2, exprs: e2 }) => {
            assert(a@->Tpl_quasis =~= views(q1@));
            assert(b@->Tpl_quasis =~= views(q2@));
            assert(a@->Tpl_exprs =~= exprs_view(e1@));
            assert(b@->Tpl_exprs =~= exprs_view(e2@));
            same_strings(q1, q2) && same_exprs(e1, e2)
        },
        (Expr::Paren(x), Expr::Paren(y)) => same_expr(x, y),
        (Expr::Arrow { params: pa, body: b1 }, Expr::Arrow { params: pb, body: b2 }) => {
            assert(a@->Arrow_params =~= Seq::new(pa.len() as nat, |i: int| pa[i]@));
            assert(b@->Arrow_params =~= Seq::new(pb.len() as nat, |i: int| pb[i]@));
            same_pats(pa, pb) && same_expr(b1, b2)
        },
        (Expr::Other, Expr::Other) => true,
        _ => false,
    }
}

/// Whether two lists of expressions are the same.
pub fn same_exprs(a: &Vec<Expr>, b: &Vec<Expr>) -> (same: bool)
    ensures
        same == (exprs_view(a@) == exprs_view(b@)),
    decreases a,
{
    if a.len() != b.len() {
        assert(exprs_view(a@).len() != exprs_view(b@).len());
        return false;
    }
    let mut i: usize = 0;
    while i < a.len()
        invariant
            i <= a.len(),
            a.len() == b.len(),
            forall|j: int| 0 <= j < i ==> a[j]@ == b[j]@,
        decreases a.len() - i,
    {
        if !same_expr(&a[i], &b[i]) {
            assert(exprs_view(a@)[i as int] != exprs_view(b@)[i as int]);
            return false;
        }
        i += 1;
    }
    assert(exprs_view(a@) =~= exprs_view(b@));
    true
}

/// Whether two calls are the same, their places in the source included.
pub fn same_call(a: &CallExpr, b: &CallExpr) -> (same: bool)
    ensures
        same == (a@ == b@),
    decreases a,
{
    proof {
        lemma_call_view(*a);
        lemma_call_view(*b);
    }
    a.span.lo == b.span.lo && a.span.hi == b.span.hi && same_expr(&a.callee, &b.callee)
        && same_elems(&a.args, &b.args)
}

/// Whether two elements or arguments are the same.
pub fn same_elem(a: &ExprOrSpread, b: &ExprOrSpread) -> (same: bool)
    ensures
        same == (a@ == b@),
    decreases a,
{
    a.spread == b.spread && same_expr(&a.expr, &b.expr)
}

/// Whether two lists of elements or arguments are the same.
pub fn same_elems(a: &Vec<ExprOrSpread>, b: &Vec<ExprOrSpread>) -> (same: bool)
    ensures
        same == (elems_view(a@) == elems_view(b@)),
    decreases a,
{
    if a.len() != b.len() {
        assert(elems_view(a@).len() != elems_view(b@).len());
        return false;
    }
    let mut i: usize = 0;
    while i < a.len()
        invariant
            i <= a.len(),
            a.len() == b.len(),
            forall|j: int| 0 <= j < i ==> a[j]@ == b[j]@,
        decreases a.len() - i,
    {
        if !same_elem(&a[i], &b[i]) {
            assert(elems_view(a@)[i as int] != elems_view(b@)[i as int]);
            return false;
        }
        i += 1;
    }
    assert(elems_view(a@) =~= elems_view(b@));
    true
}

/// Whether two places of array literals are the same.
pub fn same_array_elem(a: &ArrayElem, b: &ArrayElem) -> (same: bool)
    ensures
        same == (a@ == b@),
    decreases a,
{
    match (a, b) {
        (ArrayElem::Hole, ArrayElem::Hole) => true,
        (ArrayElem::Elem(x), ArrayElem::Elem(y)) => same_elem(x, y),
        _ => false,
    }
}

/// Whether two lists of places are the same.
pub fn same_array_elems(a: &Vec<ArrayElem>, b: &Vec<ArrayElem>) -> (same: bool)
    ensures
        same == (array_view(a@) == array_view(b@)),
    decreases a,
{
    if a.len() != b.len() {
        assert(array_view(a@).len() != array_view(b@).len());
        return false;
    }
    let mut i: usize = 0;
    while i < a.len()
        invariant
            i <= a.len(),
            a.len() == b.len(),
            forall|j: int| 0 <= j < i ==> a[j]@ == b[j]@,
        decreases a.len() - i,
    {
        if !same_array_elem(&a[i], &b[i]) {
            assert(array_view(a@)[i as int] != array_view(b@)[i as int]);
            return false;
        }
        i += 1;
    }
    assert(array_view(a@) =~= array_view(b@));
    true
}

/// Whether two member names are the same.
pub fn same_member_prop(a: &MemberProp, b: &MemberProp) -> (same: bool)
    ensures
        same == (a@ == b@),
    decreases a,
{
    match (a, b) {
        (MemberProp::Ident(x), MemberProp::Ident(y)) => *x == *y,
        (MemberProp::Computed(x), MemberProp::Computed(y)) => same_expr(x, y),
        _ => false,
    }
}

/// Whether two keys are the same.
pub fn same_prop_name(a: &PropName, b: &PropName) -> (same: bool)
    ensures
        same == (a@ == b@),
    decreases a,
{
    match (a, b) {
        (PropName::Ident(x), PropName::Ident(y)) => *x == *y,
        (PropName::Str(x), PropName::Str(y)) => *x == *y,
        (PropName::Num(x), PropName::Num(y)) => x.num == y.num && x.den == y.den,
        (PropName::BigInt(x), PropName::BigInt(y)) => *x == *y,
        (PropName::Computed(x), PropName::Computed(y)) => same_expr(x, y),
        _ => false,
    }
}

/// Whether two `key: value` members are the same.
pub fn same_key_value(a: &KeyValueProp, b: &KeyValueProp) -> (same: bool)
    ensures
        same == (a@ == b@),
    decreases a,
{
    same_prop_name(&a.key, &b.key) && same_expr(&a.value, &b.value)
}

/// Whether two object members are the same.
pub fn same_prop(a: &PropOrSpread, b: &PropOrSpread) -> (same: bool)
    ensures
        same == (a@ == b@),
    decreases a,
{
    match (a, b) {
        (PropOrSpread::KeyValue(x), PropOrSpread::KeyValue(y)) => same_key_value(x, y),
        (PropOrSpread::Shorthand(x), PropOrSpread::Shorthand(y)) => x.same(y),
        (PropOrSpread::Spread(x), PropOrSpread::Spread(y)) => same_expr(x, y),
        (PropOrSpread::Other, PropOrSpread::Other) => true,
        _ => false,
    }
}

/// Whether two lists of object members are the same.
pub fn same_props(a: &Vec<PropOrSpread>, b: &Vec<PropOrSpread>) -> (same: bool)
    ensures
        same == (props_view(a@) == props_view(b@)),
    decreases a,
{
    if a.len() != b.len() {
        assert(props_view(a@).len() != props_view(b@).len());
        return false;
    }
    let mut i: usize = 0;
    while i < a.len()
        invariant
            i <= a.len(),
            a.len() == b.len(),
            forall|j: int| 0 <= j < i ==> a[j]@ == b[j]@,
        decreases a.len() - i,
    {
        if !same_prop(&a[i], &b[i]) {
            assert(props_view(a@)[i as int] != props_view(b@)[i as int]);
            return false;
        }
        i += 1;
    }
    assert(props_view(a@) =~= props_view(b@));
    true
}

impl Member for Expr {
    fn same(&self, other: &Self) -> (same: bool) {
        same_expr(self, other)
    }

    fn copy(&self) -> (copy: Self) {
        self.clone()
    }
}

/// The expression with every place in the source forgotten.
pub open spec fn spanless(e: ExprView) -> ExprView
    decreases e,
{
    match e {
        ExprView::Unary { op, arg } => ExprView::Unary { op, arg: Box::new(spanless(*arg)) },
        ExprView::Bin { op, left, right } => ExprView::Bin {
            op,
            left: Box::new(spanless(*left)),
            right: Box::new(spanless(*right)),
        },
        ExprView::Cond { test, cons, alt } => ExprView::Cond {
            test: Box::new(spanless(*test)),
            cons: Box::new(spanless(*cons)),
            alt: Box::new(spanless(*alt)),
        },
        ExprView::Member { obj, prop } => ExprView::Member {
            obj: Box::new(spanless(*obj)),
            prop: match prop {
                MemberPropView::Ident(name) => MemberPropView::Ident(name),
                MemberPropView::Computed(k) => MemberPropView::Computed(Box::new(spanless(*k))),
            },
        },
        ExprView::Call(call) => ExprView::Call(spanless_call(call)),
        ExprView::Array(elems) => ExprView::Array(
            Seq::new(
                elems.len(),
                |i: int|
                    if 0 <= i < elems.len() {
                        match elems[i] {
                            ArrayElemView::Hole => ArrayElemView::Hole,
                            ArrayElemView::Elem(x) => ArrayElemView::Elem(spanless_elem(x)),
                        }
                    } else {
                        ArrayElemView::Hole
                    },
            ),
        ),
        ExprView::Object(props) => ExprView::Object(
            Seq::new(
                props.len(),
                |i: int|
                    if 0 <= i < props.len() {
                        spanless_prop(props[i])
                    } else {
                        PropOrSpreadView::Other
                    },
            ),
        ),
        ExprView::Tpl { quasis, exprs } => ExprView::Tpl {
            quasis,
            exprs: Seq::new(
                exprs.len(),
                |i: int|
                    if 0 <= i < exprs.len() {
                        spanless(exprs[i])
                    } else {
                        ExprView::Other
                    },
            ),
        },
        ExprView::Paren(inner) => ExprView::Paren(Box::new(spanless(*inner))),
        ExprView::Arrow { params, body } => ExprView::Arrow {
            params,
            body: Box::new(spanless(*body)),
        },
        _ => e,
    }
}

/// The call with every place in the source forgotten.
pub open spec fn spanless_call(call: CallExprView) -> CallExprView
    decreases call,
{
    CallExprView {
        span: Span { lo: 0, hi: 0 },
        callee: Box::new(spanless(*call.callee)),
        args: Seq::new(
            call.args.len(),
            |i: int|
                if 0 <= i < call.args.len() {
                    spanless_elem(call.args[i])
                } else {
                    ExprOrSpreadView { spread: false, expr: Box::new(ExprView::Other) }
                },
        ),
    }
}

/// The element or argument with every place in the source forgotten.
pub open spec fn spanless_elem(elem: ExprOrSpreadView) -> ExprOrSpreadView
    decreases elem,
{
    ExprOrSpreadView { spread: elem.spread, expr: Box::new(spanless(*elem.expr)) }
}

/// The object member with every place in the source forgotten.
pub open spec fn spanless_prop(prop: PropOrSpreadView) -> PropOrSpreadView
    decreases prop,
{
    match prop {
        PropOrSpreadView::KeyValue(kv) => PropOrSpreadView::KeyValue(
            KeyValuePropView {
                key: match kv.key {
                    PropNameView::Computed(k) => PropNameView::Computed(Box::new(spanless(*k))),
                    other => other,
                },
                value: Box::new(spanless(*kv.value)),
            },
        ),
        PropOrSpreadView::Spread(x) => PropOrSpreadView::Spread(Box::new(spanless(*x))),
        other => other,
    }
}

/// A copy of the expression with every place in the source forgotten.
pub fn erase_spans(e: &Expr) -> (out: Expr)
    ensures
        out@ == spanless(e@),
    decreases e,
{
    match e {
        Expr::Unary { op, arg } => Expr::Unary { op: *op, arg: Box::new(erase_spans(arg)) },
        Expr::Bin { op, left, right } => Expr::Bin {
            op: *op,
            left: Box::new(erase_spans(left)),
            right: Box::new(erase_spans(right)),
        },
        Expr::Cond { test, cons, alt } => Expr::Cond {
            test: Box::new(erase_spans(test)),
            cons: Box::new(erase_spans(cons)),
            alt: Box::new(erase_spans(alt)),
        },
        Expr::Member { obj, prop } => {
            assert(e@ == ExprView::Member { obj: Box::new(obj@), prop: prop@ });
            let erased = match prop {
                MemberProp::Ident(name) => {
                    assert(prop@ == MemberPropView::Ident(name@));
                    MemberProp::Ident(name.clone())
                },
                MemberProp::Computed(k) => {
                    assert(prop@ == MemberPropView::Computed(Box::new(k@)));
                    MemberProp::Computed(Box::new(erase_spans(k)))
                },
            };
            assert(erased@ == match prop@ {
                MemberPropView::Ident(name) => MemberPropView::Ident(name),
                MemberPropView::Computed(k) => MemberPropView::Computed(Box::new(spanless(*k))),
            }) by {
                match erased {
                    MemberProp::Ident(name) => {
                        assert(erased@ == MemberPropView::Ident(name@));
                    },
                    MemberProp::Computed(k) => {
                        assert(erased@ == MemberPropView::Computed(Box::new(k@)));
                    },
                }
            }
            let out = Expr::Member { obj: Box::new(erase_spans(obj)), prop: erased };
            assert(out@ == ExprView::Member { obj: Box::new(out->Member_obj@), prop: erased@ });
            assert(out@ == spanless(e@));
            out
        },
        Expr::Call(call) => {
            proof {
                lemma_call_view(*call);
            }
            let out = erase_call_spans(call);
            proof {
                lemma_call_view(out);
            }
            let done = Expr::Call(out);
            assert(done@ == spanless(e@));
            done
        },
        Expr::Array(elems) => {
            proof {
                lemma_array_view(*elems);
            }
            let out = erase_array_spans(elems);
            proof {
                lemma_array_view(out);
                assert(array_view(out@) =~= spanless(e@)->Array_0);
            }
            let done = Expr::Array(out);
            assert(done@ == spanless(e@));
            done
        },
        Expr::Object(props) => {
            proof {
                lemma_object_view(*props);
            }
            let out = erase_props_spans(props);
            proof {
                lemma_object_view(out);
                assert(props_view(out@) =~= spanless(e@)->Object_0);
            }
            let done = Expr::Object(out);
            assert(done@ == spanless(e@));
            done
        },
        Expr::Tpl { quasis, exprs } => {
            let q = clone_strings(quasis);
            let x = erase_exprs_spans(exprs);
            let out = Expr::Tpl { quasis: q, exprs: x };
            assert(out@->Tpl_quasis =~= e@->Tpl_quasis);
            assert(out@->Tpl_exprs =~= spanless(e@)->Tpl_exprs);
            assert(out@ == spanless(e@));
            out
        },
        Expr::Paren(inner) => Expr::Paren(Box::new(erase_spans(inner))),
        Expr::Arrow { params, body } => {
            let mut p: Vec<Pat> = Vec::new();
            let mut i: usize = 0;
            while i < params.len()
                invariant
                    i <= params.len(),
                    p.len() == i,
                    forall|j: int| 0 <= j < i ==> (#[trigger] p[j])@ == params[j]@,
                decreases params.len() - i,
            {
                p.push(params[i].clone());
                i += 1;
            }
            let out = Expr::Arrow { params: p, body: Box::new(erase_spans(body)) };
            assert(out@->Arrow_params =~= e@->Arrow_params);
            assert(out@ == spanless(e@));
            out
        },
        Expr::Lit(l) => Expr::Lit(l.clone()),
        Expr::Ident(id) => Expr::Ident(id.clone()),
        Expr::Other => Expr::Other,
    }
}

/// A copy of the call with every place in the source forgotten.
pub fn erase_call_spans(call: &CallExpr) -> (out: CallExpr)
    ensures
        out@ == spanless_call(call@),
    decreases call,
{
    let args = erase_elems_spans(&call.args);
    let out = CallExpr {
        span: Span { lo: 0, hi: 0 },
        callee: Box::new(erase_spans(&call.callee)),
        args,
    };
    proof {
        lemma_call_view(out);
        lemma_call_view(*call);
        assert(out@.args =~= spanless_call(call@).args);
    }
    out
}

/// Copies of the elements or arguments with every place forgotten.
pub fn erase_elems_spans(elems: &Vec<ExprOrSpread>) -> (out: Vec<ExprOrSpread>)
    ensures
        out.len() == elems.len(),
        forall|j: int| 0 <= j < elems.len() ==> (#[trigger] out[j])@ == spanless_elem(elems[j]@),
    decreases elems,
{
    let mut out: Vec<ExprOrSpread> = Vec::new();
    let mut i: usize = 0;
    while i < elems.len()
        invariant
            i <= elems.len(),
            out.len() == i,
            forall|j: int| 0 <= j < i ==> (#[trigger] out[j])@ == spanless_elem(elems[j]@),
        decreases elems.len() - i,
    {
        out.push(
            ExprOrSpread { spread: elems[i].spread, expr: Box::new(erase_spans(&elems[i].expr)) },
        );
        i += 1;
    }
    out
}

/// Copies of the places of an array literal with every place in the
/// source forgotten.
pub fn erase_array_spans(elems: &Vec<ArrayElem>) -> (out: Vec<ArrayElem>)
    ensures
        out.len() == elems.len(),
        forall|j: int|
            0 <= j < elems.len() ==> (#[trigger] out[j])@ == match elems[j]@ {
                ArrayElemView::Hole => ArrayElemView::Hole,
                ArrayElemView::Elem(x) => ArrayElemView::Elem(spanless_elem(x)),
            },
    decreases elems,
{
    let mut out: Vec<ArrayElem> = Vec::new();
    let mut i: usize = 0;
    while i < elems.len()
        invariant
            i <= elems.len(),
            out.len() == i,
            forall|j: int|
                0 <= j < i ==> (#[trigger] out[j])@ == match elems[j]@ {
                    ArrayElemView::Hole => ArrayElemView::Hole,
                    ArrayElemView::Elem(x) => ArrayElemView::Elem(spanless_elem(x)),
                },
        decreases elems.len() - i,
    {
        let item = match &elems[i] {
            ArrayElem::Hole => ArrayElem::Hole,
            ArrayElem::Elem(x) => ArrayElem::Elem(
                ExprOrSpread { spread: x.spread, expr: Box::new(erase_spans(&x.expr)) },
            ),
        };
        out.push(item);
        i += 1;
    }
    out
}

/// Copies of the expressions with every place in the source forgotten.
pub fn erase_exprs_spans(exprs: &Vec<Expr>) -> (out: Vec<Expr>)
    ensures
        out.len() == exprs.len(),
        forall|j: int| 0 <= j < exprs.len() ==> (#[trigger] out[j])@ == spanless(exprs[j]@),
    decreases exprs,
{
    let mut out: Vec<Expr> = Vec::new();
    let mut i: usize = 0;
    while i < exprs.len()
        invariant
            i <= exprs.len(),
            out.len() == i,
            forall|j: int| 0 <= j < i ==> (#[trigger] out[j])@ == spanless(exprs[j]@),
        decreases exprs.len() - i,
    {
        out.push(erase_spans(&exprs[i]));
        i += 1;
    }
    out
}

/// A copy of the object member with every place in the source forgotten.
pub fn erase_prop_spans(prop: &PropOrSpread) -> (out: PropOrSpread)
    ensures
        out@ == spanless_prop(prop@),
    decreases prop,
{
    match prop {
        PropOrSpread::KeyValue(kv) => {
            assert(prop@ == PropOrSpreadView::KeyValue(kv@));
            assert(kv@ == KeyValuePropView { key: kv.key@, value: Box::new(kv.value@) });
            let key = match &kv.key {
                PropName::Computed(k) => {
                    assert(kv.key@ == PropNameView::Computed(Box::new(k@)));
                    PropName::Computed(Box::new(erase_spans(k)))
                },
                PropName::Ident(s) => PropName::Ident(s.clone()),
                PropName::Str(s) => PropName::Str(s.clone()),
                PropName::Num(n) => PropName::Num(*n),
                PropName::BigInt(s) => PropName::BigInt(s.clone()),
            };
            let out = KeyValueProp { key, value: Box::new(erase_spans(&kv.value)) };
            assert(out@ == KeyValuePropView { key: out.key@, value: Box::new(out.value@) });
            PropOrSpread::KeyValue(out)
        },
        PropOrSpread::Spread(x) => PropOrSpread::Spread(Box::new(erase_spans(x))),
        PropOrSpread::Shorthand(id) => PropOrSpread::Shorthand(id.clone()),
        PropOrSpread::Other => PropOrSpread::Other,
    }
}

/// Copies of the object members with every place in the source
/// forgotten.
pub fn erase_props_spans(props: &Vec<PropOrSpread>) -> (out: Vec<PropOrSpread>)
    ensures
        out.len() == props.len(),
        forall|j: int| 0 <= j < props.len() ==> (#[trigger] out[j])@ == spanless_prop(props[j]@),
    decreases props,
{
    let mut out: Vec<PropOrSpread> = Vec::new();
    let mut i: usize = 0;
    while i < props.len()
        invariant
            i <= props.len(),
            out.len() == i,
            forall|j: int| 0 <= j < i ==> (#[trigger] out[j])@ == spanless_prop(props[j]@),
        decreases props.len() - i,
    {
        let item = erase_prop_spans(&props[i]);
        out.push(item);
        i += 1;
    }
    out
}

/// Whether two calls are the same but for their places in the source.
pub fn same_call_ignoring_spans(a: &CallExpr, b: &CallExpr) -> (same: bool)
    ensures
        same == (spanless_call(a@) == spanless_call(b@)),
{
    let x = erase_call_spans(a);
    let y = erase_call_spans(b);
    same_call(&x, &y)
}

} // verus!
