//! The syntax tree as the library reads it: the shapes of expressions,
//! object literals, declarations and imports, held as plain data.
use vstd::prelude::*;
use crate::number::Number;

verus! {

/// A place in the source text.
#[derive(Clone, Copy, Debug, PartialEq, Eq, Hash, Structural)]
pub struct Span {
    pub lo: u32,
    pub hi: u32,
}

/// The identity of a binding: its symbol and the syntactic context in
/// which the symbol was written.
#[derive(Debug, PartialEq, Eq, Hash)]
pub struct Id {
    pub sym: String,
    pub ctxt: u32,
}

impl View for Id {
    type V = (Seq<char>, u32);

    open spec fn view(&self) -> (Seq<char>, u32) {
        (self.sym@, self.ctxt)
    }
}

/// A literal.
#[derive(Debug, PartialEq, Eq, Hash)]
pub enum Lit {
    Str(String),
    Num(Number),
    Bool(bool),
    Null,
    /// A big integer, by its decimal digits.
    BigInt(String),
    /// A regular expression, by its source.
    Regex(String),
}

pub ghost enum LitView {
    Str(Seq<char>),
    Num(Number),
    Bool(bool),
    Null,
    BigInt(Seq<char>),
    Regex(Seq<char>),
}

impl View for Lit {
    type V = LitView;

    open spec fn view(&self) -> LitView {
        match self {
            Lit::Str(s) => LitView::Str(s@),
            Lit::Num(n) => LitView::Num(*n),
            Lit::Bool(b) => LitView::Bool(*b),
            Lit::Null => LitView::Null,
            Lit::BigInt(s) => LitView::BigInt(s@),
            Lit::Regex(s) => LitView::Regex(s@),
        }
    }
}

/// A prefix operator.
#[derive(Clone, Copy, Debug, PartialEq, Eq, Hash, Structural)]
pub enum UnaryOp {
    Minus,
    Plus,
    Bang,
    Tilde,
    TypeOf,
    Void,
    Delete,
}

/// An infix operator.
#[derive(Clone, Copy, Debug, PartialEq, Eq, Hash, Structural)]
pub enum BinaryOp {
    EqEq,
    NotEq,
    EqEqEq,
    NotEqEq,
    Lt,
    LtEq,
    Gt,
    GtEq,
    LShift,
    RShift,
    ZeroFillRShift,
    Add,
    Sub,
    Mul,
    Div,
    Mod,
    BitOr,
    BitXor,
    BitAnd,
    LogicalOr,
    LogicalAnd,
    In,
    InstanceOf,
    Exp,
    NullishCoalescing,
}

/// The key of an object member.
#[derive(Debug, PartialEq, Eq, Hash)]
pub enum PropName {
    Ident(String),
    Str(String),
    Num(Number),
    BigInt(String),
    Computed(Box<Expr>),
}

/// A member of an object literal written as `key: value`.
#[derive(Debug, PartialEq, Eq, Hash)]
pub struct KeyValueProp {
    pub key: PropName,
    pub value: Box<Expr>,
}

/// A member of an object literal.
#[derive(Debug, PartialEq, Eq, Hash)]
pub enum PropOrSpread {
    KeyValue(KeyValueProp),
    /// `{ name }`, short for `{ name: name }`.
    Shorthand(Id),
    /// `{ ...expr }`.
    Spread(Box<Expr>),
    /// A getter, a setter or a method.
    Other,
}

/// An element of an array literal or an argument of a call.
#[derive(Debug, PartialEq, Eq, Hash)]
pub struct ExprOrSpread {
    pub spread: bool,
    pub expr: Box<Expr>,
}

/// A place in an array literal.
#[derive(Debug, PartialEq, Eq, Hash)]
pub enum ArrayElem {
    /// Nothing is written between two commas.
    Hole,
    Elem(ExprOrSpread),
}

/// A parameter of a function.
#[derive(Debug, PartialEq, Eq, Hash)]
pub enum Pat {
    Ident(Id),
    Other,
}

/// One variable of a declaration, with what it is initialised to.
#[derive(Debug)]
pub struct VarDeclarator {
    pub name: Pat,
    pub init: Option<Box<Expr>>,
}

pub ghost struct VarDeclaratorView {
    pub name: PatView,
    pub init: Option<ExprView>,
}

/// The member that a member access names.
#[derive(Debug, PartialEq, Eq, Hash)]
pub enum MemberProp {
    Ident(String),
    Computed(Box<Expr>),
}

/// A call.
#[derive(Debug, PartialEq, Eq, Hash)]
pub struct CallExpr {
    pub span: Span,
    pub callee: Box<Expr>,
    pub args: Vec<ExprOrSpread>,
}

/// An expression.
#[derive(Debug, PartialEq, Eq, Hash)]
#[allow(inconsistent_fields)]
pub enum Expr {
    Lit(Lit),
    Ident(Id),
    Unary { op: UnaryOp, arg: Box<Expr> },
    Bin { op: BinaryOp, left: Box<Expr>, right: Box<Expr> },
    Cond { test: Box<Expr>, cons: Box<Expr>, alt: Box<Expr> },
    Member { obj: Box<Expr>, prop: MemberProp },
    Call(CallExpr),
    Array(Vec<ArrayElem>),
    Object(Vec<PropOrSpread>),
    /// A template literal: `quasis` has one piece more than `exprs`.
    Tpl { quasis: Vec<String>, exprs: Vec<Expr> },
    Paren(Box<Expr>),
    Arrow { params: Vec<Pat>, body: Box<Expr> },
    /// Any expression of another shape.
    Other,
}

pub ghost enum PropNameView {
    Ident(Seq<char>),
    Str(Seq<char>),
    Num(Number),
    BigInt(Seq<char>),
    Computed(Box<ExprView>),
}

pub ghost struct KeyValuePropView {
    pub key: PropNameView,
    pub value: Box<ExprView>,
}

pub ghost enum PropOrSpreadView {
    KeyValue(KeyValuePropView),
    Shorthand((Seq<char>, u32)),
    Spread(Box<ExprView>),
    Other,
}

pub ghost struct ExprOrSpreadView {
    pub spread: bool,
    pub expr: Box<ExprView>,
}

pub ghost enum ArrayElemView {
    Hole,
    Elem(ExprOrSpreadView),
}

pub ghost enum PatView {
    Ident((Seq<char>, u32)),
    Other,
}

pub ghost enum MemberPropView {
    Ident(Seq<char>),
    Computed(Box<ExprView>),
}

pub ghost struct CallExprView {
    pub span: Span,
    pub callee: Box<ExprView>,
    pub args: Seq<ExprOrSpreadView>,
}

#[allow(inconsistent_fields)]
pub ghost enum ExprView {
    Lit(LitView),
    Ident((Seq<char>, u32)),
    Unary { op: UnaryOp, arg: Box<ExprView> },
    Bin { op: BinaryOp, left: Box<ExprView>, right: Box<ExprView> },
    Cond { test: Box<ExprView>, cons: Box<ExprView>, alt: Box<ExprView> },
    Member { obj: Box<ExprView>, prop: MemberPropView },
    Call(CallExprView),
    Array(Seq<ArrayElemView>),
    Object(Seq<PropOrSpreadView>),
    Tpl { quasis: Seq<Seq<char>>, exprs: Seq<ExprView> },
    Paren(Box<ExprView>),
    Arrow { params: Seq<PatView>, body: Box<ExprView> },
    Other,
}

impl View for Pat {
    type V = PatView;

    open spec fn view(&self) -> PatView {
        match self {
            Pat::Ident(id) => PatView::Ident(id@),
            Pat::Other => PatView::Other,
        }
    }
}

/// The view of an expression.
pub open spec fn expr_view(e: Expr) -> ExprView
    decreases e,
{
    match e {
        Expr::Lit(l) => ExprView::Lit(l@),
        Expr::Ident(id) => ExprView::Ident(id@),
        Expr::Unary { op, arg } => ExprView::Unary { op, arg: Box::new(expr_view(*arg)) },
        Expr::Bin { op, left, right } => ExprView::Bin {
            op,
            left: Box::new(expr_view(*left)),
            right: Box::new(expr_view(*right)),
        },
        Expr::Cond { test, cons, alt } => ExprView::Cond {
            test: Box::new(expr_view(*test)),
            cons: Box::new(expr_view(*cons)),
            alt: Box::new(expr_view(*alt)),
        },
        Expr::Member { obj, prop } => ExprView::Member {
            obj: Box::new(expr_view(*obj)),
            prop: member_prop_view(prop),
        },
        Expr::Call(call) => ExprView::Call(call_view(call)),
        Expr::Array(elems) => ExprView::Array(
            Seq::new(
                elems.len() as nat,
                |i: int|
                    if 0 <= i < elems.len() {
                        array_elem_view(elems[i])
                    } else {
                        ArrayElemView::Hole
                    },
            ),
        ),
        Expr::Object(props) => ExprView::Object(
            Seq::new(
                props.len() as nat,
                |i: int|
                    if 0 <= i < props.len() {
                        prop_view(props[i])
                    } else {
                        PropOrSpreadView::Other
                    },
            ),
        ),
        Expr::Tpl { quasis, exprs } => ExprView::Tpl {
            quasis: Seq::new(quasis.len() as nat, |i: int| quasis[i]@),
            exprs: Seq::new(
                exprs.len() as nat,
                |i: int|
                    if 0 <= i < exprs.len() {
                        expr_view(exprs[i])
                    } else {
                        ExprView::Other
                    },
            ),
        },
        Expr::Paren(inner) => ExprView::Paren(Box::new(expr_view(*inner))),
        Expr::Arrow { params, body } => ExprView::Arrow {
            params: Seq::new(params.len() as nat, |i: int| params[i]@),
            body: Box::new(expr_view(*body)),
        },
        Expr::Other => ExprView::Other,
    }
}

/// The view of a call.
pub open spec fn call_view(call: CallExpr) -> CallExprView
    decreases call,
{
    CallExprView {
        span: call.span,
        callee: Box::new(expr_view(*call.callee)),
        args: Seq::new(
            call.args.len() as nat,
            |i: int|
                if 0 <= i < call.args.len() {
                    elem_view(call.args[i])
                } else {
                    ExprOrSpreadView { spread: false, expr: Box::new(ExprView::Other) }
                },
        ),
    }
}

/// The view of an element or argument.
pub open spec fn elem_view(elem: ExprOrSpread) -> ExprOrSpreadView
    decreases elem,
{
    ExprOrSpreadView { spread: elem.spread, expr: Box::new(expr_view(*elem.expr)) }
}

/// The view of a place in an array literal.
pub open spec fn array_elem_view(elem: ArrayElem) -> ArrayElemView
    decreases elem,
{
    match elem {
        ArrayElem::Hole => ArrayElemView::Hole,
        ArrayElem::Elem(e) => ArrayElemView::Elem(elem_view(e)),
    }
}

/// The view of the member that a member access names.
pub open spec fn member_prop_view(prop: MemberProp) -> MemberPropView
    decreases prop,
{
    match prop {
        MemberProp::Ident(name) => MemberPropView::Ident(name@),
        MemberProp::Computed(e) => MemberPropView::Computed(Box::new(expr_view(*e))),
    }
}

/// The view of a key.
pub open spec fn prop_name_view(key: PropName) -> PropNameView
    decreases key,
{
    match key {
        PropName::Ident(s) => PropNameView::Ident(s@),
        PropName::Str(s) => PropNameView::Str(s@),
        PropName::Num(n) => PropNameView::Num(n),
        PropName::BigInt(s) => PropNameView::BigInt(s@),
        PropName::Computed(e) => PropNameView::Computed(Box::new(expr_view(*e))),
    }
}

/// The view of a `key: value` member.
pub open spec fn key_value_view(kv: KeyValueProp) -> KeyValuePropView
    decreases kv,
{
    KeyValuePropView { key: prop_name_view(kv.key), value: Box::new(expr_view(*kv.value)) }
}

/// The view of an object member.
pub open spec fn prop_view(prop: PropOrSpread) -> PropOrSpreadView
    decreases prop,
{
    match prop {
        PropOrSpread::KeyValue(kv) => PropOrSpreadView::KeyValue(key_value_view(kv)),
        PropOrSpread::Shorthand(id) => PropOrSpreadView::Shorthand(id@),
        PropOrSpread::Spread(e) => PropOrSpreadView::Spread(Box::new(expr_view(*e))),
        PropOrSpread::Other => PropOrSpreadView::Other,
    }
}

impl View for Expr {
    type V = ExprView;

    open spec fn view(&self) -> ExprView {
        expr_view(*self)
    }
}

impl View for CallExpr {
    type V = CallExprView;

    open spec fn view(&self) -> CallExprView {
        call_view(*self)
    }
}

impl View for ExprOrSpread {
    type V = ExprOrSpreadView;

    open spec fn view(&self) -> ExprOrSpreadView {
        elem_view(*self)
    }
}

impl View for VarDeclarator {
    type V = VarDeclaratorView;

    open spec fn view(&self) -> VarDeclaratorView {
        VarDeclaratorView {
            name: self.name@,
            init: match self.init {
                Some(e) => Some(e@),
                None => None,
            },
        }
    }
}

impl Clone for VarDeclarator {
    fn clone(&self) -> (copy: VarDeclarator)
        ensures
            copy@ == self@,
    {
        VarDeclarator {
            name: self.name.clone(),
            init: match &self.init {
                Some(e) => Some(Box::new(clone_expr(e))),
                None => None,
            },
        }
    }
}

impl View for ArrayElem {
    type V = ArrayElemView;

    open spec fn view(&self) -> ArrayElemView {
        array_elem_view(*self)
    }
}

impl View for MemberProp {
    type V = MemberPropView;

    open spec fn view(&self) -> MemberPropView {
        member_prop_view(*self)
    }
}

impl View for PropName {
    type V = PropNameView;

    open spec fn view(&self) -> PropNameView {
        prop_name_view(*self)
    }
}

impl View for KeyValueProp {
    type V = KeyValuePropView;

    open spec fn view(&self) -> KeyValuePropView {
        key_value_view(*self)
    }
}

impl View for PropOrSpread {
    type V = PropOrSpreadView;

    open spec fn view(&self) -> PropOrSpreadView {
        prop_view(*self)
    }
}

/// The views of the members of an object literal.
pub open spec fn props_view(props: Seq<PropOrSpread>) -> Seq<PropOrSpreadView> {
    Seq::new(props.len(), |i: int| props[i]@)
}

/// The views of the places of an array literal.
pub open spec fn array_view(elems: Seq<ArrayElem>) -> Seq<ArrayElemView> {
    Seq::new(elems.len(), |i: int| elems[i]@)
}

/// The views of a list of elements or arguments.
pub open spec fn elems_view(elems: Seq<ExprOrSpread>) -> Seq<ExprOrSpreadView> {
    Seq::new(elems.len(), |i: int| elems[i]@)
}

/// The views of a list of expressions.
pub open spec fn exprs_view(exprs: Seq<Expr>) -> Seq<ExprView> {
    Seq::new(exprs.len(), |i: int| exprs[i]@)
}

/// The views of a list of `key: value` members.
pub open spec fn key_values_view(kvs: Seq<KeyValueProp>) -> Seq<KeyValuePropView> {
    Seq::new(kvs.len(), |i: int| kvs[i]@)
}

/// An object literal views as the object of its members' views.
pub proof fn lemma_object_view(props: Vec<PropOrSpread>)
    ensures
        Expr::Object(props)@ == ExprView::Object(props_view(props@)),
{
    assert(Expr::Object(props)@->Object_0 =~= props_view(props@));
}

/// An array literal views as the array of its places' views.
pub proof fn lemma_array_view(elems: Vec<ArrayElem>)
    ensures
        Expr::Array(elems)@ == ExprView::Array(array_view(elems@)),
{
    assert(Expr::Array(elems)@->Array_0 =~= array_view(elems@));
}

/// A call views with the views of its arguments.
pub proof fn lemma_call_view(call: CallExpr)
    ensures
        call@.args == elems_view(call.args@),
        call@.callee == Box::new(call.callee@),
        call@.span == call.span,
        Expr::Call(call)@ == ExprView::Call(call@),
{
    assert(call@.args =~= elems_view(call.args@));
}

impl Clone for Id {
    fn clone(&self) -> (copy: Id)
        ensures
            copy@ == self@,
    {
        Id { sym: self.sym.clone(), ctxt: self.ctxt }
    }
}

impl Clone for Lit {
    fn clone(&self) -> (copy: Lit)
        ensures
            copy@ == self@,
    {
        match self {
            Lit::Str(s) => Lit::Str(s.clone()),
            Lit::Num(n) => Lit::Num(*n),
            Lit::Bool(b) => Lit::Bool(*b),
            Lit::Null => Lit::Null,
            Lit::BigInt(s) => Lit::BigInt(s.clone()),
            Lit::Regex(s) => Lit::Regex(s.clone()),
        }
    }
}

impl Clone for Pat {
    fn clone(&self) -> (copy: Pat)
        ensures
            copy@ == self@,
    {
        match self {
            Pat::Ident(id) => Pat::Ident(id.clone()),
            Pat::Other => Pat::Other,
        }
    }
}

/// A copy of an expression.
pub fn clone_expr(e: &Expr) -> (copy: Expr)
    ensures
        copy@ == e@,
    decreases e,
{
    match e {
        Expr::Lit(l) => Expr::Lit(l.clone()),
        Expr::Ident(id) => Expr::Ident(id.clone()),
        Expr::Unary { op, arg } => Expr::Unary { op: *op, arg: Box::new(clone_expr(arg)) },
        Expr::Bin { op, left, right } => Expr::Bin {
            op: *op,
            left: Box::new(clone_expr(left)),
            right: Box::new(clone_expr(right)),
        },
        Expr::Cond { test, cons, alt } => Expr::Cond {
            test: Box::new(clone_expr(test)),
            cons: Box::new(clone_expr(cons)),
            alt: Box::new(clone_expr(alt)),
        },
        Expr::Member { obj, prop } => Expr::Member {
            obj: Box::new(clone_expr(obj)),
            prop: clone_member_prop(prop),
        },
        Expr::Call(call) => Expr::Call(clone_call(call)),
        Expr::Array(elems) => {
            let out = clone_array_elems(elems);
            let copy = Expr::Array(out);
            assert(copy@->Array_0 =~= e@->Array_0);
            copy
        },
        Expr::Object(props) => {
            let out = clone_props(props);
            let copy = Expr::Object(out);
            assert(copy@->Object_0 =~= e@->Object_0);
            copy
        },
        Expr::Tpl { quasis, exprs } => {
            let q = clone_strings(quasis);
            let x = clone_exprs(exprs);
            let copy = Expr::Tpl { quasis: q, exprs: x };
            assert(copy@->Tpl_quasis =~= e@->Tpl_quasis);
            assert(copy@->Tpl_exprs =~= e@->Tpl_exprs);
            copy
        },
        Expr::Paren(inner) => Expr::Paren(Box::new(clone_expr(inner))),
        Expr::Arrow { params, body } => {
            let mut out: Vec<Pat> = Vec::new();
            let mut i: usize = 0;
            while i < params.len()
                invariant
                    i <= params.len(),
                    out.len() == i,
                    forall|j: int| 0 <= j < i ==> (#[trigger] out[j])@ == params[j]@,
                decreases params.len() - i,
            {
                out.push(params[i].clone());
                i += 1;
            }
            let copy = Expr::Arrow { params: out, body: Box::new(clone_expr(body)) };
            assert(copy@->Arrow_params =~= e@->Arrow_params);
            copy
        },
        Expr::Other => Expr::Other,
    }
}

/// A copy of a list of strings.
pub fn clone_strings(v: &Vec<String>) -> (copy: Vec<String>)
    ensures
        copy.len() == v.len(),
        forall|j: int| 0 <= j < v.len() ==> (#[trigger] copy[j])@ == v[j]@,
{
    let mut out: Vec<String> = Vec::new();
    let mut i: usize = 0;
    while i < v.len()
        invariant
            i <= v.len(),
            out.len() == i,
            forall|j: int| 0 <= j < i ==> (#[trigger] out[j])@ == v[j]@,
        decreases v.len() - i,
    {
        out.push(v[i].clone());
        i += 1;
    }
    out
}

/// A copy of a list of expressions.
pub fn clone_exprs(v: &Vec<Expr>) -> (copy: Vec<Expr>)
    ensures
        copy.len() == v.len(),
        forall|j: int| 0 <= j < v.len() ==> (#[trigger] copy[j])@ == v[j]@,
    decreases v,
{
    let mut out: Vec<Expr> = Vec::new();
    let mut i: usize = 0;
    while i < v.len()
        invariant
            i <= v.len(),
            out.len() == i,
            forall|j: int| 0 <= j < i ==> (#[trigger] out[j])@ == v[j]@,
        decreases v.len() - i,
    {
        out.push(clone_expr(&v[i]));
        i += 1;
    }
    out
}

/// A copy of the members of an object literal.
pub fn clone_props(v: &Vec<PropOrSpread>) -> (copy: Vec<PropOrSpread>)
    ensures
        copy.len() == v.len(),
        forall|j: int| 0 <= j < v.len() ==> (#[trigger] copy[j])@ == v[j]@,
    decreases v,
{
    let mut out: Vec<PropOrSpread> = Vec::new();
    let mut i: usize = 0;
    while i < v.len()
        invariant
            i <= v.len(),
            out.len() == i,
            forall|j: int| 0 <= j < i ==> (#[trigger] out[j])@ == v[j]@,
        decreases v.len() - i,
    {
        out.push(clone_prop(&v[i]));
        i += 1;
    }
    out
}

/// A copy of a list of elements or arguments.
pub fn clone_elems(v: &Vec<ExprOrSpread>) -> (copy: Vec<ExprOrSpread>)
    ensures
        copy.len() == v.len(),
        forall|j: int| 0 <= j < v.len() ==> (#[trigger] copy[j])@ == v[j]@,
    decreases v,
{
    let mut out: Vec<ExprOrSpread> = Vec::new();
    let mut i: usize = 0;
    while i < v.len()
        invariant
            i <= v.len(),
            out.len() == i,
            forall|j: int| 0 <= j < i ==> (#[trigger] out[j])@ == v[j]@,
        decreases v.len() - i,
    {
        out.push(clone_elem(&v[i]));
        i += 1;
    }
    out
}

/// A copy of the places of an array literal.
pub fn clone_array_elems(v: &Vec<ArrayElem>) -> (copy: Vec<ArrayElem>)
    ensures
        copy.len() == v.len(),
        forall|j: int| 0 <= j < v.len() ==> (#[trigger] copy[j])@ == v[j]@,
    decreases v,
{
    let mut out: Vec<ArrayElem> = Vec::new();
    let mut i: usize = 0;
    while i < v.len()
        invariant
            i <= v.len(),
            out.len() == i,
            forall|j: int| 0 <= j < i ==> (#[trigger] out[j])@ == v[j]@,
        decreases v.len() - i,
    {
        let item = match &v[i] {
            ArrayElem::Hole => ArrayElem::Hole,
            ArrayElem::Elem(elem) => ArrayElem::Elem(clone_elem(elem)),
        };
        out.push(item);
        i += 1;
    }
    out
}

/// A copy of a call.
pub fn clone_call(call: &CallExpr) -> (copy: CallExpr)
    ensures
        copy@ == call@,
    decreases call,
{
    let args = clone_elems(&call.args);
    let copy = CallExpr { span: call.span, callee: Box::new(clone_expr(&call.callee)), args };
    assert(copy@.args =~= call@.args);
    copy
}

/// A copy of an element or argument.
pub fn clone_elem(elem: &ExprOrSpread) -> (copy: ExprOrSpread)
    ensures
        copy@ == elem@,
    decreases elem,
{
    ExprOrSpread { spread: elem.spread, expr: Box::new(clone_expr(&elem.expr)) }
}

/// A copy of the member that a member access names.
pub fn clone_member_prop(prop: &MemberProp) -> (copy: MemberProp)
    ensures
        copy@ == prop@,
    decreases prop,
{
    match prop {
        MemberProp::Ident(name) => MemberProp::Ident(name.clone()),
        MemberProp::Computed(e) => MemberProp::Computed(Box::new(clone_expr(e))),
    }
}

/// A copy of a key.
pub fn clone_prop_name(key: &PropName) -> (copy: PropName)
    ensures
        copy@ == key@,
    decreases key,
{
    match key {
        PropName::Ident(s) => PropName::Ident(s.clone()),
        PropName::Str(s) => PropName::Str(s.clone()),
        PropName::Num(n) => PropName::Num(*n),
        PropName::BigInt(s) => PropName::BigInt(s.clone()),
        PropName::Computed(e) => PropName::Computed(Box::new(clone_expr(e))),
    }
}

/// A copy of a `key: value` member.
pub fn clone_key_value(kv: &KeyValueProp) -> (copy: KeyValueProp)
    ensures
        copy@ == kv@,
    decreases kv,
{
    KeyValueProp { key: clone_prop_name(&kv.key), value: Box::new(clone_expr(&kv.value)) }
}

/// A copy of an object member.
pub fn clone_prop(prop: &PropOrSpread) -> (copy: PropOrSpread)
    ensures
        copy@ == prop@,
    decreases prop,
{
    match prop {
        PropOrSpread::KeyValue(kv) => PropOrSpread::KeyValue(clone_key_value(kv)),
        PropOrSpread::Shorthand(id) => PropOrSpread::Shorthand(id.clone()),
        PropOrSpread::Spread(e) => PropOrSpread::Spread(Box::new(clone_expr(e))),
        PropOrSpread::Other => PropOrSpread::Other,
    }
}

impl Clone for Expr {
    fn clone(&self) -> (copy: Expr)
        ensures
            copy@ == self@,
    {
        clone_expr(self)
    }
}

impl Clone for CallExpr {
    fn clone(&self) -> (copy: CallExpr)
        ensures
            copy@ == self@,
    {
        clone_call(self)
    }
}

impl Clone for ExprOrSpread {
    fn clone(&self) -> (copy: ExprOrSpread)
        ensures
            copy@ == self@,
    {
        clone_elem(self)
    }
}

impl Clone for PropName {
    fn clone(&self) -> (copy: PropName)
        ensures
            copy@ == self@,
    {
        clone_prop_name(self)
    }
}

impl Clone for KeyValueProp {
    fn clone(&self) -> (copy: KeyValueProp)
        ensures
            copy@ == self@,
    {
        clone_key_value(self)
    }
}

impl Clone for PropOrSpread {
    fn clone(&self) -> (copy: PropOrSpread)
        ensures
            copy@ == self@,
    {
        clone_prop(self)
    }
}

impl Clone for MemberProp {
    fn clone(&self) -> (copy: MemberProp)
        ensures
            copy@ == self@,
    {
        clone_member_prop(self)
    }
}

/// What an import declaration binds.
#[derive(Debug)]
pub enum ImportSpecifier {
    /// `{ imported as local }`, or `{ local }` where no other name is
    /// given.
    Named { local: Id, imported: Option<String> },
    Default(Id),
    Namespace(Id),
}

pub ghost enum ImportSpecifierView {
    Named { local: (Seq<char>, u32), imported: Option<Seq<char>> },
    Default((Seq<char>, u32)),
    Namespace((Seq<char>, u32)),
}

impl View for ImportSpecifier {
    type V = ImportSpecifierView;

    open spec fn view(&self) -> ImportSpecifierView {
        match self {
            ImportSpecifier::Named { local, imported } => ImportSpecifierView::Named {
                local: local@,
                imported: match imported {
                    Some(name) => Some(name@),
                    None => None,
                },
            },
            ImportSpecifier::Default(id) => ImportSpecifierView::Default(id@),
            ImportSpecifier::Namespace(id) => ImportSpecifierView::Namespace(id@),
        }
    }
}

impl Clone for ImportSpecifier {
    fn clone(&self) -> (copy: ImportSpecifier)
        ensures
            copy@ == self@,
    {
        match self {
            ImportSpecifier::Named { local, imported } => ImportSpecifier::Named {
                local: local.clone(),
                imported: match imported {
                    Some(name) => Some(name.clone()),
                    None => None,
                },
            },
            ImportSpecifier::Default(id) => ImportSpecifier::Default(id.clone()),
            ImportSpecifier::Namespace(id) => ImportSpecifier::Namespace(id.clone()),
        }
    }
}

/// An import declaration.
#[derive(Debug)]
pub struct ImportDecl {
    /// The module that is imported from.
    pub src: String,
    pub specifiers: Vec<ImportSpecifier>,
    /// The declaration imports types only.
    pub type_only: bool,
}

pub ghost struct ImportDeclView {
    pub src: Seq<char>,
    pub specifiers: Seq<ImportSpecifierView>,
    pub type_only: bool,
}

impl View for ImportDecl {
    type V = ImportDeclView;

    open spec fn view(&self) -> ImportDeclView {
        ImportDeclView {
            src: self.src@,
            specifiers: Seq::new(self.specifiers.len() as nat, |i: int| self.specifiers[i]@),
            type_only: self.type_only,
        }
    }
}

impl Clone for ImportDecl {
    fn clone(&self) -> (copy: ImportDecl)
        ensures
            copy@ == self@,
    {
        let mut specifiers: Vec<ImportSpecifier> = Vec::new();
        let mut i: usize = 0;
        while i < self.specifiers.len()
            invariant
                i <= self.specifiers.len(),
                specifiers.len() == i,
                forall|j: int| 0 <= j < i ==> (#[trigger] specifiers[j])@ == self.specifiers[j]@,
            decreases self.specifiers.len() - i,
        {
            specifiers.push(self.specifiers[i].clone());
            i += 1;
        }
        let copy = ImportDecl { src: self.src.clone(), specifiers, type_only: self.type_only };
        assert(copy@.specifiers =~= self@.specifiers);
        copy
    }
}

/// The views of a list of declarators.
pub open spec fn decls_view(decls: Seq<VarDeclarator>) -> Seq<VarDeclaratorView> {
    Seq::new(decls.len(), |i: int| decls[i]@)
}

/// A copy of a list of declarators.
pub fn clone_decls(decls: &Vec<VarDeclarator>) -> (copy: Vec<VarDeclarator>)
    ensures
        decls_view(copy@) == decls_view(decls@),
{
    let mut out: Vec<VarDeclarator> = Vec::new();
    let mut i: usize = 0;
    while i < decls.len()
        invariant
            i <= decls.len(),
            out.len() == i,
            forall|j: int| 0 <= j < i ==> (#[trigger] out[j])@ == decls[j]@,
        decreases decls.len() - i,
    {
        out.push(decls[i].clone());
        i += 1;
    }
    assert(decls_view(out@) =~= decls_view(decls@));
    out
}

/// An item of a module's body.
#[derive(Debug)]
pub enum ModuleItem {
    Import(ImportDecl),
    /// `export const a = ..., b = ...;`
    ExportVar(Vec<VarDeclarator>),
    /// `export default expr;`
    ExportDefaultExpr(Box<Expr>),
    /// `const a = ..., b = ...;`
    Var(Vec<VarDeclarator>),
    /// An expression as a statement.
    Stmt(Box<Expr>),
    /// Any other item.
    Other,
}

pub ghost enum ModuleItemView {
    Import(ImportDeclView),
    ExportVar(Seq<VarDeclaratorView>),
    ExportDefaultExpr(ExprView),
    Var(Seq<VarDeclaratorView>),
    Stmt(ExprView),
    Other,
}

impl View for ModuleItem {
    type V = ModuleItemView;

    open spec fn view(&self) -> ModuleItemView {
        match self {
            ModuleItem::Import(decl) => ModuleItemView::Import(decl@),
            ModuleItem::ExportVar(decls) => ModuleItemView::ExportVar(decls_view(decls@)),
            ModuleItem::ExportDefaultExpr(e) => ModuleItemView::ExportDefaultExpr(e@),
            ModuleItem::Var(decls) => ModuleItemView::Var(decls_view(decls@)),
            ModuleItem::Stmt(e) => ModuleItemView::Stmt(e@),
            ModuleItem::Other => ModuleItemView::Other,
        }
    }
}

impl Clone for ModuleItem {
    fn clone(&self) -> (copy: ModuleItem)
        ensures
            copy@ == self@,
    {
        match self {
            ModuleItem::Import(decl) => ModuleItem::Import(decl.clone()),
            ModuleItem::ExportVar(decls) => ModuleItem::ExportVar(clone_decls(decls)),
            ModuleItem::ExportDefaultExpr(e) => ModuleItem::ExportDefaultExpr(Box::new(clone_expr(e))),
            ModuleItem::Var(decls) => ModuleItem::Var(clone_decls(decls)),
            ModuleItem::Stmt(e) => ModuleItem::Stmt(Box::new(clone_expr(e))),
            ModuleItem::Other => ModuleItem::Other,
        }
    }
}

/// The views of a list of module items.
pub open spec fn items_view(items: Seq<ModuleItem>) -> Seq<ModuleItemView> {
    Seq::new(items.len(), |i: int| items[i]@)
}

/// A module: the items of its body, in source order.
#[derive(Debug)]
pub struct Module {
    pub body: Vec<ModuleItem>,
}

/// How an expression stands at the top level of a module.
#[derive(Clone, Copy, Debug, PartialEq, Eq, Structural)]
pub enum TopLevelExpressionKind {
    NamedExport,
    DefaultExport,
    Stmt,
}

/// An expression at the top level of a module: how it stands there, the
/// expression, and the variable it initialises, where it does.
#[derive(Debug)]
pub struct TopLevelExpression(pub TopLevelExpressionKind, pub Expr, pub Option<Id>);

pub ghost struct TopLevelExpressionView {
    pub kind: TopLevelExpressionKind,
    pub expr: ExprView,
    pub id: Option<(Seq<char>, u32)>,
}

impl View for TopLevelExpression {
    type V = TopLevelExpressionView;

    open spec fn view(&self) -> TopLevelExpressionView {
        TopLevelExpressionView {
            kind: self.0,
            expr: self.1@,
            id: match self.2 {
                Some(id) => Some(id@),
                None => None,
            },
        }
    }
}

impl Clone for TopLevelExpression {
    fn clone(&self) -> (copy: TopLevelExpression)
        ensures
            copy@ == self@,
    {
        TopLevelExpression(
            self.0,
            clone_expr(&self.1),
            match &self.2 {
                Some(id) => Some(id.clone()),
                None => None,
            },
        )
    }
}

/// The views of a list of top-level expressions.
pub open spec fn top_level_view(exprs: Seq<TopLevelExpression>) -> Seq<TopLevelExpressionView> {
    Seq::new(exprs.len(), |i: int| exprs[i]@)
}

} // verus!
