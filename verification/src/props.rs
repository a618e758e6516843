//! The calls that consume styles: from references to compiled namespaces
//! to the class names that they amount to.
use vstd::prelude::*;
use crate::ast::{
    clone_expr, elems_view, lemma_call_view, lemma_object_view, props_view, BinaryOp, CallExpr,
    CallExprView, Expr, ExprOrSpread, ExprOrSpreadView, ExprView, Lit, LitView, MemberProp,
    MemberPropView, PropName, PropNameView, PropOrSpreadView,
};
use crate::collections::{key_index, lemma_key_index, OrderedMap, OrderedSet};
use crate::options::{ImportSources, ImportSourcesView};
use crate::convert::{make_member, member};
use crate::create::{
    namespace_index, namespace_views, FlatCompiledStyles, FlatCompiledStylesValue, FlatValueView,
    Namespace, Slot,
};
use crate::errors::Diagnostic;
use crate::register::lemma_key_index_by_keys;
use crate::state::{StateManager, StylesObjectMap};
use crate::text::{append_chars, append_str, from_chars, str_eq, to_chars};
use crate::value::{clone_value, Value};
use crate::visitor::{
    call_is_of, calls_library, is_library_name, library_name_in_use, style_map_view,
    ModuleTransformVisitor,
};

verus! {

/// An argument of a call that consumes styles.
pub ghost enum StyleArgView {
    /// A value that is never true: it contributes nothing.
    Skip,
    /// A compiled namespace.
    Always(Seq<Slot>),
    /// One of two namespaces, or none, by a test that is made when the
    /// module runs.
    When { test: ExprView, then: Option<Seq<Slot>>, otherwise: Option<Seq<Slot>> },
}

/// An argument of a call that consumes styles.
pub enum StyleArg {
    Skip,
    Always(FlatCompiledStyles),
    When { test: Expr, then: Option<FlatCompiledStyles>, otherwise: Option<FlatCompiledStyles> },
}

/// The view of a namespace that may be absent.
pub open spec fn slots_of(styles: Option<FlatCompiledStyles>) -> Option<Seq<Slot>> {
    match styles {
        Some(s) => Some(s@),
        None => None,
    }
}

impl View for StyleArg {
    type V = StyleArgView;

    open spec fn view(&self) -> StyleArgView {
        match self {
            StyleArg::Skip => StyleArgView::Skip,
            StyleArg::Always(s) => StyleArgView::Always(s@),
            StyleArg::When { test, then, otherwise } => StyleArgView::When {
                test: test@,
                then: slots_of(*then),
                otherwise: slots_of(*otherwise),
            },
        }
    }
}

/// The expression is a literal that is never true, or the name
/// `undefined`.
pub open spec fn is_falsy(e: ExprView) -> bool {
    match e {
        ExprView::Lit(LitView::Bool(b)) => !b,
        ExprView::Lit(LitView::Null) => true,
        ExprView::Lit(LitView::Num(n)) => n.num == 0,
        ExprView::Lit(LitView::Str(s)) => s.len() == 0,
        ExprView::Ident(id) => id.0 == "undefined"@,
        _ => false,
    }
}

/// The compiled namespace that the expression refers to: `variable.name`,
/// where the state remembers the compiled namespaces of the variable and
/// one of them has the name.
pub open spec fn referred(map: Seq<(Seq<char>, Seq<Namespace>)>, e: ExprView) -> Option<Seq<Slot>> {
    match e {
        ExprView::Member { obj, prop } => match (*obj, prop) {
            (ExprView::Ident(variable), MemberPropView::Ident(name)) => {
                let i = key_index(map, variable.0);
                if 0 <= i < map.len() {
                    let j = namespace_index(map[i].1, name);
                    if 0 <= j < map[i].1.len() {
                        Some(map[i].1[j].1)
                    } else {
                        None
                    }
                } else {
                    None
                }
            },
            _ => None,
        },
        _ => None,
    }
}

/// What a branch of a guarded argument contributes: nothing for a value
/// that is never true, the namespace for a reference. Any other branch
/// cannot be told.
pub open spec fn branch(map: Seq<(Seq<char>, Seq<Namespace>)>, e: ExprView) -> Option<Option<Seq<Slot>>> {
    if is_falsy(e) {
        Some(None)
    } else {
        match referred(map, e) {
            Some(s) => Some(Some(s)),
            None => None,
        }
    }
}

/// What an argument is: a value that is never true, a reference to a
/// compiled namespace, a reference behind a guard `test && reference`, or
/// a choice `test ? a : b` between branches that can be told. Any other
/// argument, and any spread, cannot be told.
pub open spec fn style_arg(map: Seq<(Seq<char>, Seq<Namespace>)>, arg: ExprOrSpreadView) -> Option<StyleArgView> {
    if arg.spread {
        None
    } else if is_falsy(*arg.expr) {
        Some(StyleArgView::Skip)
    } else {
        match referred(map, *arg.expr) {
            Some(s) => Some(StyleArgView::Always(s)),
            None => match *arg.expr {
                ExprView::Bin { op, left, right } => if op == BinaryOp::LogicalAnd {
                    match referred(map, *right) {
                        Some(s) => Some(
                            StyleArgView::When { test: *left, then: Some(s), otherwise: None },
                        ),
                        None => None,
                    }
                } else {
                    None
                },
                ExprView::Cond { test, cons, alt } => match (branch(map, *cons), branch(map, *alt)) {
                    (Some(then), Some(otherwise)) => Some(
                        StyleArgView::When { test: *test, then, otherwise },
                    ),
                    _ => None,
                },
                _ => None,
            },
        }
    }
}

/// The first `n` arguments, where each of them can be told.
pub open spec fn style_args(map: Seq<(Seq<char>, Seq<Namespace>)>, args: Seq<ExprOrSpreadView>, n: nat) -> Option<
    Seq<StyleArgView>,
>
    decreases n,
{
    if n == 0 || n > args.len() {
        Some(Seq::empty())
    } else {
        match (style_args(map, args, (n - 1) as nat), style_arg(map, args[n - 1])) {
            (Some(before), Some(arg)) => Some(before.push(arg)),
            _ => None,
        }
    }
}

/// The namespace gives the property a value: class names, or nothing.
pub open spec fn defines(slots: Seq<Slot>, key: Seq<char>) -> bool {
    exists|i: int|
        0 <= i < slots.len() && (#[trigger] slots[i]).0 == key && (slots[i].1 is Text
            || slots[i].1 is Null)
}

/// One of the namespaces from position `from` on gives the property a
/// value.
pub open spec fn defined_later(chosen: Seq<Seq<Slot>>, from: int, key: Seq<char>) -> bool {
    exists|j: int| from <= j < chosen.len() && defines(#[trigger] chosen[j], key)
}

/// The class names that the first `n` slots of a namespace contribute:
/// those of the properties that no namespace in `later` gives a value,
/// with a space between each two.
pub open spec fn chunk(slots: Seq<Slot>, n: nat, later: Seq<Seq<Slot>>) -> Seq<char>
    decreases n,
{
    if n == 0 || n > slots.len() {
        Seq::empty()
    } else {
        let head = chunk(slots, (n - 1) as nat, later);
        match slots[n - 1].1 {
            FlatValueView::Text(classes) => if slots[n - 1].0 != "$$css"@ && !defined_later(
                later,
                0,
                slots[n - 1].0,
            ) && classes.len() > 0 {
                if head.len() > 0 {
                    head + " "@ + classes
                } else {
                    classes
                }
            } else {
                head
            },
            _ => head,
        }
    }
}

/// The class names that the namespaces from position `from` on amount to:
/// for each property the classes of the last namespace that gives it a
/// value, the namespaces in their order.
pub open spec fn class_names_from(chosen: Seq<Seq<Slot>>, from: int) -> Seq<char>
    decreases chosen.len() - from,
{
    if from < 0 || from >= chosen.len() {
        Seq::empty()
    } else {
        let first = chunk(chosen[from], chosen[from].len(), chosen.skip(from + 1));
        let rest = class_names_from(chosen, from + 1);
        if first.len() > 0 && rest.len() > 0 {
            first + " "@ + rest
        } else {
            first + rest
        }
    }
}

/// The namespaces with one more, where there is one.
pub open spec fn with_choice(chosen: Seq<Seq<Slot>>, more: Option<Seq<Slot>>) -> Seq<Seq<Slot>> {
    match more {
        Some(s) => chosen.push(s),
        None => chosen,
    }
}

/// The expression for the class names: the class names as a string where
/// no argument is guarded; for a guarded argument a choice, by its test,
/// between the expressions with and without what it guards.
pub open spec fn class_expr(args: Seq<StyleArgView>, from: int, chosen: Seq<Seq<Slot>>) -> ExprView
    decreases args.len() - from,
{
    if from < 0 || from >= args.len() {
        ExprView::Lit(LitView::Str(class_names_from(chosen, 0)))
    } else {
        match args[from] {
            StyleArgView::Skip => class_expr(args, from + 1, chosen),
            StyleArgView::Always(s) => class_expr(args, from + 1, chosen.push(s)),
            StyleArgView::When { test, then, otherwise } => ExprView::Cond {
                test: Box::new(test),
                cons: Box::new(class_expr(args, from + 1, with_choice(chosen, then))),
                alt: Box::new(class_expr(args, from + 1, with_choice(chosen, otherwise))),
            },
        }
    }
}

/// How many of the arguments are guarded.
pub open spec fn guards(args: Seq<StyleArgView>, n: nat) -> nat
    decreases n,
{
    if n == 0 || n > args.len() {
        0
    } else {
        guards(args, (n - 1) as nat) + if args[n - 1] is When {
            1nat
        } else {
            0nat
        }
    }
}

/// The most guarded arguments for which a call is rewritten.
pub const MAX_GUARDS: usize = 4;

/// What a call that consumes styles is rewritten to: an object literal
/// that holds the expression for the class names under `key`. The call is
/// rewritten only where every argument can be told and no more than
/// `MAX_GUARDS` of them are guarded.
pub open spec fn consumed(map: Seq<(Seq<char>, Seq<Namespace>)>, call: CallExprView, key: Seq<char>) -> Option<ExprView> {
    match style_args(map, call.args, call.args.len()) {
        Some(args) => if guards(args, args.len()) <= MAX_GUARDS {
            Some(
                ExprView::Object(
                    seq![member(PropNameView::Ident(key), class_expr(args, 0, Seq::empty()))],
                ),
            )
        } else {
            None
        },
        None => None,
    }
}

/// The views of a list of namespaces.
pub open spec fn chosen_view(chosen: Seq<FlatCompiledStyles>) -> Seq<Seq<Slot>> {
    Seq::new(chosen.len(), |i: int| chosen[i]@)
}

/// A copy of a compiled namespace.
pub fn clone_styles(styles: &FlatCompiledStyles) -> (copy: FlatCompiledStyles)
    ensures
        copy@ == styles@,
{
    let ghost all = styles@;
    let mut copy = FlatCompiledStyles::new();
    let n = styles.len();
    let mut i: usize = 0;
    assert(all.take(0) =~= Seq::<Slot>::empty());
    while i < n
        invariant
            i <= n,
            n == all.len(),
            all == styles@,
            copy@ == all.take(i as int),
        decreases n - i,
    {
        match styles.get_index(i) {
            Some((key, given)) => {
                let value = match given {
                    FlatCompiledStylesValue::String(s) => FlatCompiledStylesValue::String(s.clone()),
                    FlatCompiledStylesValue::Null => FlatCompiledStylesValue::Null,
                    FlatCompiledStylesValue::Bool(b) => FlatCompiledStylesValue::Bool(*b),
                    FlatCompiledStylesValue::IncludedStyle(v) => FlatCompiledStylesValue::IncludedStyle(
                        clone_value(v),
                    ),
                };
                proof {
                    crate::create::lemma_slot_index_take(all, key@, i as int);
                }
                crate::create::set_slot(&mut copy, key.clone(), value);
                assert(copy@ =~= all.take(i + 1));
            },
            None => {},
        }
        i += 1;
    }
    assert(all.take(i as int) =~= all);
    copy
}

/// Copies of a list of namespaces.
pub fn clone_chosen(chosen: &Vec<FlatCompiledStyles>) -> (copy: Vec<FlatCompiledStyles>)
    ensures
        chosen_view(copy@) == chosen_view(chosen@),
{
    let mut copy: Vec<FlatCompiledStyles> = Vec::new();
    let mut i: usize = 0;
    while i < chosen.len()
        invariant
            i <= chosen.len(),
            copy.len() == i,
            forall|j: int| 0 <= j < i ==> (#[trigger] copy[j])@ == chosen[j]@,
        decreases chosen.len() - i,
    {
        copy.push(clone_styles(&chosen[i]));
        i += 1;
    }
    assert(chosen_view(copy@) =~= chosen_view(chosen@));
    copy
}

/// Whether the expression is a literal that is never true, or the name
/// `undefined`.
pub fn is_falsy_expr(e: &Expr) -> (yes: bool)
    ensures
        yes == is_falsy(e@),
{
    match e {
        Expr::Lit(Lit::Bool(b)) => !*b,
        Expr::Lit(Lit::Null) => true,
        Expr::Lit(Lit::Num(n)) => n.num == 0,
        Expr::Lit(Lit::Str(s)) => s.as_str().is_empty(),
        Expr::Ident(id) => str_eq(id.sym.as_str(), "undefined"),
        _ => false,
    }
}

/// The place of the namespace called `name`.
fn find_namespace(namespaces: &StylesObjectMap, name: &str) -> (found: Option<usize>)
    ensures
        match found {
            Some(j) => j < namespace_views(*namespaces).len() && j == namespace_index(
                namespace_views(*namespaces),
                name@,
            ),
            None => namespace_index(namespace_views(*namespaces), name@) == namespace_views(
                *namespaces,
            ).len(),
        },
{
    crate::create::namespaces_index_of(namespaces, name)
}

/// The compiled namespace that the expression refers to.
pub fn refer(map: &OrderedMap<String, StylesObjectMap>, e: &Expr) -> (found: Option<FlatCompiledStyles>)
    ensures
        match referred(style_map_view(*map), e@) {
            Some(s) => found is Some && found->0@ == s,
            None => found is None,
        },
{
    match e {
        Expr::Member { obj, prop } => {
            assert(e@ == ExprView::Member { obj: Box::new(obj@), prop: prop@ });
            match (&**obj, prop) {
                (Expr::Ident(variable), MemberProp::Ident(name)) => {
                    assert(prop@ == MemberPropView::Ident(name@));
                    proof {
                        lemma_key_index_by_keys(map.pairs(), style_map_view(*map), variable.sym@);
                    }
                    match map.position(&variable.sym) {
                        Some(i) => {
                            assert(style_map_view(*map)[i as int].1 == namespace_views(
                                map.entries[i as int].1,
                            ));
                            match find_namespace(&map.entries[i].1, name.as_str()) {
                                Some(j) => match crate::create::namespaces_get_index(
                                    &map.entries[i].1,
                                    j,
                                ) {
                                    Some((_, styles)) => Some(clone_styles(styles)),
                                    None => None,
                                },
                                None => None,
                            }
                        },
                        None => None,
                    }
                },
                (Expr::Ident(variable), MemberProp::Computed(k)) => {
                    assert(prop@ == MemberPropView::Computed(Box::new(k@)));
                    None
                },
                _ => None,
            }
        },
        _ => None,
    }
}

/// What a branch of a guarded argument contributes.
pub fn classify_branch(map: &OrderedMap<String, StylesObjectMap>, e: &Expr) -> (r: Option<
    Option<FlatCompiledStyles>,
>)
    ensures
        match branch(style_map_view(*map), e@) {
            Some(b) => r is Some && slots_of(r->0) == b,
            None => r is None,
        },
{
    if is_falsy_expr(e) {
        Some(None)
    } else {
        match refer(map, e) {
            Some(s) => Some(Some(s)),
            None => None,
        }
    }
}

/// What an argument is, where it can be told.
pub fn classify_arg(map: &OrderedMap<String, StylesObjectMap>, arg: &ExprOrSpread) -> (r: Option<StyleArg>)
    ensures
        match style_arg(style_map_view(*map), arg@) {
            Some(a) => r is Some && r->0@ == a,
            None => r is None,
        },
{
    if arg.spread {
        return None;
    }
    if is_falsy_expr(&arg.expr) {
        return Some(StyleArg::Skip);
    }
    match refer(map, &arg.expr) {
        Some(s) => Some(StyleArg::Always(s)),
        None => match &*arg.expr {
            Expr::Bin { op, left, right } => match op {
                BinaryOp::LogicalAnd => match refer(map, right) {
                    Some(s) => Some(
                        StyleArg::When { test: clone_expr(left), then: Some(s), otherwise: None },
                    ),
                    None => None,
                },
                _ => None,
            },
            Expr::Cond { test, cons, alt } => match (classify_branch(map, cons), classify_branch(
                map,
                alt,
            )) {
                (Some(then), Some(otherwise)) => Some(
                    StyleArg::When { test: clone_expr(test), then, otherwise },
                ),
                _ => None,
            },
            _ => None,
        },
    }
}

/// The views of a list of arguments.
pub open spec fn style_args_view(args: Seq<StyleArg>) -> Seq<StyleArgView> {
    Seq::new(args.len(), |i: int| args[i]@)
}

/// What the arguments are, where each can be told; and how many of them
/// are guarded.
pub fn classify_args(map: &OrderedMap<String, StylesObjectMap>, args: &Vec<ExprOrSpread>) -> (r: Option<
    (Vec<StyleArg>, usize),
>)
    ensures
        match style_args(style_map_view(*map), elems_view(args@), args.len() as nat) {
            Some(a) => r matches Some(pair) && style_args_view(pair.0@) == a && pair.1 == guards(
                a,
                a.len(),
            ),
            None => r is None,
        },
{
    let ghost all = elems_view(args@);
    let ghost m = style_map_view(*map);
    let mut out: Vec<StyleArg> = Vec::new();
    let mut guarded: usize = 0;
    let mut i: usize = 0;
    assert(style_args_view(out@) =~= Seq::<StyleArgView>::empty());
    while i < args.len()
        invariant
            i <= args.len(),
            all == elems_view(args@),
            m == style_map_view(*map),
            out.len() == i,
            style_args(m, all, i as nat) == Some(style_args_view(out@)),
            guarded == guards(style_args_view(out@), i as nat),
            guarded <= i,
        decreases args.len() - i,
    {
        assert(all[i as int] == args[i as int]@);
        match classify_arg(map, &args[i]) {
            Some(arg) => {
                let ghost before = style_args_view(out@);
                let is_guard = match &arg {
                    StyleArg::When { .. } => true,
                    _ => false,
                };
                out.push(arg);
                assert(style_args_view(out@) =~= before.push(arg@));
                proof {
                    lemma_guards_prefix(style_args_view(out@), before, i as nat);
                }
                if is_guard {
                    guarded += 1;
                }
            },
            None => {
                proof {
                    lemma_style_args_fail(m, all, (i + 1) as nat, args.len() as nat);
                }
                return None;
            },
        }
        i += 1;
    }
    Some((out, guarded))
}

/// The count of guards among the first `n` arguments depends on those
/// arguments alone.
proof fn lemma_guards_prefix(a: Seq<StyleArgView>, b: Seq<StyleArgView>, n: nat)
    requires
        n <= a.len(),
        n <= b.len(),
        forall|i: int| 0 <= i < n ==> a[i] == b[i],
    ensures
        guards(a, n) == guards(b, n),
    decreases n,
{
    if n > 0 {
        lemma_guards_prefix(a, b, (n - 1) as nat);
    }
}

/// Once an argument cannot be told, the arguments cannot.
proof fn lemma_style_args_fail(map: Seq<(Seq<char>, Seq<Namespace>)>, args: Seq<ExprOrSpreadView>, i: nat, n: nat)
    requires
        i <= n <= args.len(),
        style_args(map, args, i) is None,
    ensures
        style_args(map, args, n) is None,
    decreases n,
{
    if i < n {
        lemma_style_args_fail(map, args, i, (n - 1) as nat);
    }
}

/// Whether the namespace gives the property a value.
pub fn gives_value(styles: &FlatCompiledStyles, key: &str) -> (yes: bool)
    ensures
        yes == defines(styles@, key@),
{
    let n = styles.len();
    let mut i: usize = 0;
    while i < n
        invariant
            i <= n,
            n == styles@.len(),
            forall|j: int|
                0 <= j < i ==> !((#[trigger] styles@[j]).0 == key@ && (styles@[j].1 is Text
                    || styles@[j].1 is Null)),
        decreases n - i,
    {
        match styles.get_index(i) {
            Some((name, value)) => {
                let valued = match value {
                    FlatCompiledStylesValue::String(_) | FlatCompiledStylesValue::Null => true,
                    _ => false,
                };
                if valued && str_eq(name.as_str(), key) {
                    assert(styles@[i as int].0 == key@);
                    return true;
                }
            },
            None => {},
        }
        i += 1;
    }
    false
}

/// Whether one of the namespaces from `from` on gives the property a
/// value.
pub fn given_later(chosen: &Vec<FlatCompiledStyles>, from: usize, key: &str) -> (yes: bool)
    requires
        from <= chosen.len(),
    ensures
        yes == defined_later(chosen_view(chosen@).skip(from as int), 0, key@),
{
    let ghost later = chosen_view(chosen@).skip(from as int);
    let mut j: usize = from;
    while j < chosen.len()
        invariant
            from <= j <= chosen.len(),
            later == chosen_view(chosen@).skip(from as int),
            forall|k: int| 0 <= k < j - from ==> !defines(#[trigger] later[k], key@),
        decreases chosen.len() - j,
    {
        assert(later[j - from] == chosen[j as int]@);
        if gives_value(&chosen[j], key) {
            return true;
        }
        j += 1;
    }
    false
}

/// The class names that the namespace at `at` contributes.
pub fn chunk_of(chosen: &Vec<FlatCompiledStyles>, at: usize) -> (text: Vec<char>)
    requires
        at < chosen.len(),
    ensures
        text@ == chunk(
            chosen[at as int]@,
            chosen[at as int]@.len(),
            chosen_view(chosen@).skip(at + 1),
        ),
{
    let styles = &chosen[at];
    let ghost slots = styles@;
    let ghost later = chosen_view(chosen@).skip(at + 1);
    let mut out: Vec<char> = Vec::new();
    let n = styles.len();
    let mut i: usize = 0;
    while i < n
        invariant
            i <= n,
            n == slots.len(),
            at < chosen.len(),
            styles == &chosen[at as int],
            slots == styles@,
            later == chosen_view(chosen@).skip(at + 1),
            out@ == chunk(slots, i as nat, later),
        decreases n - i,
    {
        match styles.get_index(i) {
            Some((name, FlatCompiledStylesValue::String(classes))) => {
                assert(slots[i as int] == (name@, FlatValueView::Text(classes@)));
                let key = name.as_str();
                if !str_eq(key, "$$css") && !given_later(chosen, at + 1, key)
                    && !classes.as_str().is_empty() {
                    let ghost before = out@;
                    if out.len() > 0 {
                        append_str(&mut out, " ");
                    }
                    append_str(&mut out, classes.as_str());
                    assert(out@ =~= if before.len() > 0 {
                        before + " "@ + classes@
                    } else {
                        classes@
                    });
                }
            },
            _ => {},
        }
        i += 1;
    }
    out
}

/// The class names that the namespaces amount to.
pub fn class_names(chosen: &Vec<FlatCompiledStyles>) -> (names: String)
    ensures
        names@ == class_names_from(chosen_view(chosen@), 0),
{
    let ghost all = chosen_view(chosen@);
    let mut acc: Vec<char> = Vec::new();
    let mut i: usize = chosen.len();
    while i > 0
        invariant
            i <= chosen.len(),
            all == chosen_view(chosen@),
            acc@ == class_names_from(all, i as int),
        decreases i,
    {
        assert(all[i - 1] == chosen[i - 1]@);
        let first = chunk_of(chosen, i - 1);
        let mut next: Vec<char> = Vec::new();
        append_chars(&mut next, &first);
        if first.len() > 0 && acc.len() > 0 {
            append_str(&mut next, " ");
        }
        append_chars(&mut next, &acc);
        assert(next@ =~= if first@.len() > 0 && acc@.len() > 0 {
            first@ + " "@ + acc@
        } else {
            first@ + acc@
        });
        acc = next;
        i -= 1;
    }
    from_chars(&acc)
}

/// The namespaces with one more, where there is one.
fn choose_more(chosen: &Vec<FlatCompiledStyles>, more: &Option<FlatCompiledStyles>) -> (out: Vec<
    FlatCompiledStyles,
>)
    ensures
        chosen_view(out@) == with_choice(chosen_view(chosen@), slots_of(*more)),
{
    let mut out = clone_chosen(chosen);
    match more {
        Some(s) => {
            let ghost before = chosen_view(out@);
            out.push(clone_styles(s));
            assert(chosen_view(out@) =~= before.push(s@));
        },
        None => {},
    }
    out
}

/// The expression for the class names.
pub fn build_class_expr(args: &Vec<StyleArg>, from: usize, chosen: Vec<FlatCompiledStyles>) -> (e: Expr)
    ensures
        e@ == class_expr(style_args_view(args@), from as int, chosen_view(chosen@)),
    decreases args.len() - from,
{
    if from >= args.len() {
        return Expr::Lit(Lit::Str(class_names(&chosen)));
    }
    assert(style_args_view(args@)[from as int] == args[from as int]@);
    match &args[from] {
        StyleArg::Skip => build_class_expr(args, from + 1, chosen),
        StyleArg::Always(s) => {
            let more = choose_more(&chosen, &Some(clone_styles(s)));
            build_class_expr(args, from + 1, more)
        },
        StyleArg::When { test, then, otherwise } => {
            let with_then = choose_more(&chosen, then);
            let with_otherwise = choose_more(&chosen, otherwise);
            Expr::Cond {
                test: Box::new(clone_expr(test)),
                cons: Box::new(build_class_expr(args, from + 1, with_then)),
                alt: Box::new(build_class_expr(args, from + 1, with_otherwise)),
            }
        },
    }
}

/// What a call that consumes styles is rewritten to, where it can be.
pub fn consume(map: &OrderedMap<String, StylesObjectMap>, call: &CallExpr, key: &str) -> (r: Option<Expr>)
    ensures
        match consumed(style_map_view(*map), call@, key@) {
            Some(e) => r is Some && r->0@ == e,
            None => r is None,
        },
{
    proof {
        lemma_call_view(*call);
    }
    match classify_args(map, &call.args) {
        Some((args, guarded)) => {
            if guarded > MAX_GUARDS {
                return None;
            }
            let chosen: Vec<FlatCompiledStyles> = Vec::new();
            assert(chosen_view(chosen@) =~= Seq::<Seq<Slot>>::empty());
            let value = build_class_expr(&args, 0, chosen);
            let mut props: Vec<crate::ast::PropOrSpread> = Vec::new();
            props.push(make_member(PropName::Ident(key.to_string()), value));
            proof {
                lemma_object_view(props);
                assert(props_view(props@) =~= seq![
                    member(
                        PropNameView::Ident(key@),
                        class_expr(style_args_view(args@), 0, Seq::empty()),
                    ),
                ]);
            }
            Some(Expr::Object(props))
        },
        None => None,
    }
}

/// The call calls the library itself: what is called is a name by which
/// an import of the library is known.
pub open spec fn calls_library_itself(call: CallExprView, names: Seq<ImportSourcesView>) -> bool {
    match *call.callee {
        ExprView::Ident(id) => is_library_name(names, id.0),
        _ => false,
    }
}

/// What a direct call of the library is rewritten to: the expression for
/// the class names itself. The call is rewritten only where every
/// argument can be told and no more than `MAX_GUARDS` of them are guarded.
pub open spec fn spread_classes(map: Seq<(Seq<char>, Seq<Namespace>)>, call: CallExprView) -> Option<ExprView> {
    match style_args(map, call.args, call.args.len()) {
        Some(args) => if guards(args, args.len()) <= MAX_GUARDS {
            Some(class_expr(args, 0, Seq::empty()))
        } else {
            None
        },
        None => None,
    }
}

/// What rewriting a call that consumes styles gives while the calls that
/// consume styles are rewritten: a call of `props` gives way to an object
/// literal with the class names under `className`, a call of `attrs` to
/// one with them under `class`, a direct call of the library to the
/// class names themselves; any other call, and any call that cannot be
/// rewritten, is left alone.
pub open spec fn exit_transformed(state: StateManager, call: CallExprView, r: Result<Option<Expr>, Diagnostic>) -> bool {
    let rewritten = if calls_library(
        call,
        state.stylex_props_import@,
        state.stylex_import.order(),
        "props"@,
    ) {
        consumed(style_map_view(state.style_map), call, "className"@)
    } else if calls_library(call, state.stylex_attrs_import@, state.stylex_import.order(), "attrs"@) {
        consumed(style_map_view(state.style_map), call, "class"@)
    } else if calls_library_itself(call, state.stylex_import.order()) {
        spread_classes(style_map_view(state.style_map), call)
    } else {
        None
    };
    match rewritten {
        Some(e) => r matches Ok(Some(ast)) && ast@ == e,
        None => r == Ok::<Option<Expr>, Diagnostic>(None),
    }
}

/// What a direct call of the library is rewritten to, where it can be.
pub fn consume_directly(map: &OrderedMap<String, StylesObjectMap>, call: &CallExpr) -> (r: Option<Expr>)
    ensures
        match spread_classes(style_map_view(*map), call@) {
            Some(e) => r is Some && r->0@ == e,
            None => r is None,
        },
{
    proof {
        lemma_call_view(*call);
    }
    match classify_args(map, &call.args) {
        Some((args, guarded)) => {
            if guarded > MAX_GUARDS {
                return None;
            }
            let chosen: Vec<FlatCompiledStyles> = Vec::new();
            assert(chosen_view(chosen@) =~= Seq::<Seq<Slot>>::empty());
            Some(build_class_expr(&args, 0, chosen))
        },
        None => None,
    }
}

/// Whether the call calls the library itself.
pub fn call_is_direct(call: &CallExpr, names: &OrderedSet<ImportSources>) -> (yes: bool)
    ensures
        yes == calls_library_itself(call@, names.order()),
{
    proof {
        lemma_call_view(*call);
    }
    match &*call.callee {
        Expr::Ident(id) => library_name_in_use(names, id.sym.as_str()),
        _ => false,
    }
}

impl ModuleTransformVisitor {
    /// Rewrites a direct call of the library.
    pub fn transform_stylex_call(&self, call: &CallExpr) -> (r: Option<Expr>)
        ensures
            match (if calls_library_itself(call@, self.state.stylex_import.order()) {
                spread_classes(style_map_view(self.state.style_map), call@)
            } else {
                None
            }) {
                Some(e) => r is Some && r->0@ == e,
                None => r is None,
            },
    {
        if call_is_direct(call, &self.state.stylex_import) {
            consume_directly(&self.state.style_map, call)
        } else {
            None
        }
    }

    /// Rewrites a call of `props`.
    pub fn transform_stylex_props_call(&self, call: &CallExpr) -> (r: Option<Expr>)
        ensures
            match (if calls_library(
                call@,
                self.state.stylex_props_import@,
                self.state.stylex_import.order(),
                "props"@,
            ) {
                consumed(style_map_view(self.state.style_map), call@, "className"@)
            } else {
                None
            }) {
                Some(e) => r is Some && r->0@ == e,
                None => r is None,
            },
    {
        if call_is_of(call, &self.state.stylex_props_import, &self.state.stylex_import, "props") {
            consume(&self.state.style_map, call, "className")
        } else {
            None
        }
    }

    /// Rewrites a call of `attrs`.
    pub fn transform_stylex_attrs_call(&self, call: &CallExpr) -> (r: Option<Expr>)
        ensures
            match (if calls_library(
                call@,
                self.state.stylex_attrs_import@,
                self.state.stylex_import.order(),
                "attrs"@,
            ) {
                consumed(style_map_view(self.state.style_map), call@, "class"@)
            } else {
                None
            }) {
                Some(e) => r is Some && r->0@ == e,
                None => r is None,
            },
    {
        if call_is_of(call, &self.state.stylex_attrs_import, &self.state.stylex_import, "attrs") {
            consume(&self.state.style_map, call, "class")
        } else {
            None
        }
    }
}

} // verus!
