//! The transforms: recognising the calls of the styling library and
//! rewriting them.
use vstd::prelude::*;
use crate::ast::{
    clone_call, clone_expr, decls_view, elems_view, lemma_call_view, top_level_view, CallExpr,
    CallExprView, Expr, ExprView, Id, MemberProp, MemberPropView, Pat, PatView, Span,
    TopLevelExpressionView, VarDeclarator, VarDeclaratorView,
};
use crate::collections::{key_index, lemma_key_index, put_pair, Member, OrderedMap, OrderedSet};
use crate::compare::same_expr;
use crate::convert::{convert_object_to_ast, namespaces_expr};
use crate::create::{
    created_styles, namespace_views, stylex_create_set, CreatedView, FlatCompiledStyles, Namespace,
    Slot,
};
use crate::errors::{diagnostic_of, Diagnostic, Message};
use crate::evaluate::{evaluate, evaluated, Scope, ScopeView};
use crate::functions::{
    FunctionBinding, FunctionBindingView, FunctionConfig, FunctionConfigView, FunctionMap,
    NamedFunction, NamedFunctionView,
};
use crate::injected::{first_of_each_class, injected_entries};
use crate::lookup::{
    decl_declares_or_calls, find_decl_or_member, get_var_decl_by_ident_or_member,
};
use crate::options::{ImportSources, ImportSourcesView};
use crate::register::{
    find_init, find_top_level, lemma_key_index_by_keys, registered, var_entries,
};
use crate::state::{source_name, StateManager, StylesObjectMap};
use crate::text::str_eq;
use crate::validators::{create_argument_error, validate_create_argument};
use crate::value::{Function, FunctionView, ValueView};

verus! {

/// Where the traversal of a module stands.
#[derive(Clone, Copy, Debug, PartialEq, Eq, Structural)]
pub enum ModuleCycle {
    /// Imports, declarations and top-level expressions are collected.
    Initializing,
    Processing,
    /// The calls that produce styles are rewritten.
    TransformEnter,
    /// The calls that consume styles are rewritten.
    TransformExit,
    /// Nothing is done.
    Skip,
}

/// One of the imports in use is known by the name.
pub open spec fn is_library_name(names: Seq<ImportSourcesView>, sym: Seq<char>) -> bool {
    exists|i: int| 0 <= i < names.len() && source_name(#[trigger] names[i]) == sym
}

/// The call calls the function of the library that is imported under the
/// given bindings, or the member `member` of the library.
pub open spec fn calls_library(
    call: CallExprView,
    ids: Set<(Seq<char>, u32)>,
    names: Seq<ImportSourcesView>,
    member: Seq<char>,
) -> bool {
    match *call.callee {
        ExprView::Ident(id) => ids.contains(id),
        ExprView::Member { obj, prop } => match *obj {
            ExprView::Ident(o) => prop == MemberPropView::Ident(member) && is_library_name(names, o.0),
            _ => false,
        },
        _ => false,
    }
}

/// Whether one of the imports in use is known by the name.
pub fn library_name_in_use(names: &OrderedSet<ImportSources>, sym: &str) -> (yes: bool)
    ensures
        yes == is_library_name(names.order(), sym@),
{
    let ghost all = names.order();
    let mut i: usize = 0;
    while i < names.items.len()
        invariant
            i <= names.items.len(),
            all == names.order(),
            forall|j: int| 0 <= j < i ==> source_name(#[trigger] all[j]) != sym@,
        decreases names.items.len() - i,
    {
        assert(all[i as int] == names.items[i as int]@);
        let name = match &names.items[i] {
            ImportSources::Regular(n) => n,
            ImportSources::Named(n) => &n.as_name,
        };
        if str_eq(name.as_str(), sym) {
            return true;
        }
        i += 1;
    }
    false
}

/// Whether the call calls the function of the library that is imported
/// under the given bindings, or the member `member` of the library.
pub fn call_is_of(call: &CallExpr, ids: &OrderedSet<Id>, names: &OrderedSet<ImportSources>, member: &str) -> (yes:
    bool)
    ensures
        yes == calls_library(call@, ids@, names.order(), member@),
{
    proof {
        lemma_call_view(*call);
    }
    match &*call.callee {
        Expr::Ident(id) => ids.contains(id),
        Expr::Member { obj, prop } => {
            assert(call.callee@ == ExprView::Member { obj: Box::new(obj@), prop: prop@ });
            match (&**obj, prop) {
                (Expr::Ident(o), MemberProp::Ident(name)) => {
                    assert(prop@ == MemberPropView::Ident(name@));
                    str_eq(name.as_str(), member) && library_name_in_use(names, o.sym.as_str())
                },
                (Expr::Ident(o), MemberProp::Computed(k)) => {
                    assert(prop@ == MemberPropView::Computed(Box::new(k@)));
                    false
                },
                _ => false,
            }
        },
        _ => false,
    }
}

/// Whether the call creates styles.
pub fn is_create_call(call: &CallExpr, state: &StateManager) -> (yes: bool)
    ensures
        yes == calls_library(
            call@,
            state.stylex_create_import@,
            state.stylex_import.order(),
            "create"@,
        ),
{
    call_is_of(call, &state.stylex_create_import, &state.stylex_import, "create")
}

/// What is wrong with a call that creates styles: it must be bound, to a
/// variable or as a top-level expression; it must have one argument; and
/// the argument must be an object literal.
pub open spec fn create_call_error(
    call: CallExprView,
    decls: Seq<VarDeclaratorView>,
    top_level: Seq<TopLevelExpressionView>,
) -> Option<Diagnostic> {
    if !(find_decl_or_member(decls, "create"@) < decls.len() || find_top_level(
        top_level,
        ExprView::Call(call),
    ) < top_level.len()) {
        Some(diagnostic_of(Message::UnboundStylexCallValue))
    } else if call.args.len() != 1 {
        Some(diagnostic_of(Message::IllegalArgumentLength))
    } else if !(*call.args[0].expr is Object) {
        Some(diagnostic_of(Message::NonObjectForStylexCall))
    } else {
        None
    }
}

/// Whether one of the top-level expressions is the expression.
pub fn is_top_level(state: &StateManager, target: &Expr) -> (yes: bool)
    ensures
        yes == (find_top_level(top_level_view(state.top_level_expressions@), target@)
            < state.top_level_expressions.len()),
        0 <= find_top_level(top_level_view(state.top_level_expressions@), target@),
{
    let ghost all = top_level_view(state.top_level_expressions@);
    let mut i: usize = 0;
    assert(all.skip(0) =~= all);
    while i < state.top_level_expressions.len()
        invariant
            i <= state.top_level_expressions.len(),
            all == top_level_view(state.top_level_expressions@),
            find_top_level(all, target@) == i + find_top_level(all.skip(i as int), target@),
        decreases state.top_level_expressions.len() - i,
    {
        assert(all.skip(i as int)[0] == state.top_level_expressions[i as int]@);
        if same_expr(&state.top_level_expressions[i].1, target) {
            return true;
        }
        assert(all.skip(i as int).drop_first() =~= all.skip(i + 1));
        i += 1;
    }
    false
}

/// Checks a call that creates styles; a call that creates none passes.
pub fn validate_style_x_create_indent(call: &CallExpr, state: &StateManager) -> (r: Result<
    (),
    Diagnostic,
>)
    ensures
        r == if calls_library(
            call@,
            state.stylex_create_import@,
            state.stylex_import.order(),
            "create"@,
        ) {
            match create_call_error(
                call@,
                decls_view(state.declarations@),
                top_level_view(state.top_level_expressions@),
            ) {
                Some(d) => Err::<(), Diagnostic>(d),
                None => Ok(()),
            }
        } else {
            Ok(())
        },
{
    if !is_create_call(call, state) {
        return Ok(());
    }
    proof {
        lemma_call_view(*call);
    }
    let create = Id { sym: "create".to_string(), ctxt: 0 };
    let target = Expr::Call(clone_call(call));
    proof {
        lemma_call_view(target->Call_0);
    }
    let bound = get_var_decl_by_ident_or_member(state, &create).is_some() || is_top_level(
        state,
        &target,
    );
    if !bound {
        return Err(Diagnostic::new(Message::UnboundStylexCallValue));
    }
    if call.args.len() != 1 {
        return Err(Diagnostic::new(Message::IllegalArgumentLength));
    }
    assert(elems_view(call.args@)[0] == call.args[0]@);
    match &*call.args[0].expr {
        Expr::Object(_) => Ok(()),
        _ => Err(Diagnostic::new(Message::NonObjectForStylexCall)),
    }
}

/// A binding of each identifier to the function.
pub open spec fn bindings_for(ids: Seq<(Seq<char>, u32)>, f: FunctionView) -> Seq<FunctionBindingView> {
    Seq::new(
        ids.len(),
        |i: int| FunctionBindingView { id: ids[i], config: FunctionConfigView::Regular(f) },
    )
}

/// The functions that the library offers as its members while styles are
/// created.
pub open spec fn library_members() -> Seq<NamedFunctionView> {
    seq![
        NamedFunctionView { name: "include"@, function: FunctionView::Include },
        NamedFunctionView { name: "firstThatWorks"@, function: FunctionView::FirstThatWorks },
    ]
}

/// A binding of each name of the library to the library.
pub open spec fn library_bindings(names: Seq<ImportSourcesView>) -> Seq<FunctionBindingView> {
    Seq::new(
        names.len(),
        |i: int|
            FunctionBindingView {
                id: (source_name(names[i]), 0u32),
                config: FunctionConfigView::Members(library_members()),
            },
    )
}

/// The functions in scope while styles are created: what was imported to
/// include styles and to choose the first value that works, and the
/// library under each of its names.
pub open spec fn create_functions(state: StateManager) -> Seq<FunctionBindingView> {
    bindings_for(state.stylex_include_import.order(), FunctionView::Include) + bindings_for(
        state.stylex_first_that_works_import.order(),
        FunctionView::FirstThatWorks,
    ) + library_bindings(state.stylex_import.order())
}

/// Appends a binding of each identifier to the function.
fn push_bindings(out: &mut Vec<FunctionBinding>, ids: &OrderedSet<Id>, including: bool)
    ensures
        crate::functions::bindings_view(final(out)@) == crate::functions::bindings_view(old(out)@)
            + bindings_for(
            ids.order(),
            if including {
                FunctionView::Include
            } else {
                FunctionView::FirstThatWorks
            },
        ),
{
    let ghost start = crate::functions::bindings_view(out@);
    let ghost f = if including {
        FunctionView::Include
    } else {
        FunctionView::FirstThatWorks
    };
    let mut i: usize = 0;
    while i < ids.items.len()
        invariant
            i <= ids.items.len(),
            f == if including {
                FunctionView::Include
            } else {
                FunctionView::FirstThatWorks
            },
            crate::functions::bindings_view(out@) == start + bindings_for(ids.order(), f).take(
                i as int,
            ),
        decreases ids.items.len() - i,
    {
        let function = if including {
            Function::Include
        } else {
            Function::FirstThatWorks
        };
        let ghost before = crate::functions::bindings_view(out@);
        out.push(FunctionBinding { id: ids.items[i].clone(), config: FunctionConfig::Regular(function) });
        assert(crate::functions::bindings_view(out@) =~= before.push(bindings_for(ids.order(), f)[i as int]));
        assert(bindings_for(ids.order(), f).take(i + 1) =~= bindings_for(ids.order(), f).take(
            i as int,
        ).push(bindings_for(ids.order(), f)[i as int]));
        i += 1;
    }
    assert(bindings_for(ids.order(), f).take(i as int) =~= bindings_for(ids.order(), f));
}

/// The functions in scope while styles are created.
pub fn create_function_map(state: &StateManager) -> (map: FunctionMap)
    ensures
        map@ == create_functions(*state),
{
    let mut bindings: Vec<FunctionBinding> = Vec::new();
    assert(crate::functions::bindings_view(bindings@) =~= Seq::<FunctionBindingView>::empty());
    push_bindings(&mut bindings, &state.stylex_include_import, true);
    push_bindings(&mut bindings, &state.stylex_first_that_works_import, false);
    let ghost head = crate::functions::bindings_view(bindings@);
    let ghost names = state.stylex_import.order();
    let mut i: usize = 0;
    while i < state.stylex_import.items.len()
        invariant
            i <= state.stylex_import.items.len(),
            names == state.stylex_import.order(),
            crate::functions::bindings_view(bindings@) == head + library_bindings(names).take(i as int),
        decreases state.stylex_import.items.len() - i,
    {
        assert(names[i as int] == state.stylex_import.items[i as int]@);
        let name = match &state.stylex_import.items[i] {
            ImportSources::Regular(n) => n.clone(),
            ImportSources::Named(n) => n.as_name.clone(),
        };
        let mut members: Vec<NamedFunction> = Vec::new();
        members.push(NamedFunction { name: "include".to_string(), function: Function::Include });
        members.push(
            NamedFunction { name: "firstThatWorks".to_string(), function: Function::FirstThatWorks },
        );
        let config = FunctionConfig::Members(members);
        assert(config@->Members_0 =~= library_members());
        let ghost before = crate::functions::bindings_view(bindings@);
        bindings.push(FunctionBinding { id: Id { sym: name, ctxt: 0 }, config });
        assert(crate::functions::bindings_view(bindings@) =~= before.push(library_bindings(names)[i as int]));
        assert(library_bindings(names).take(i + 1) =~= library_bindings(names).take(i as int).push(
            library_bindings(names)[i as int],
        ));
        i += 1;
    }
    assert(library_bindings(names).take(i as int) =~= library_bindings(names));
    let map = FunctionMap { identifiers: bindings };
    assert(map@ =~= crate::functions::bindings_view(bindings@));
    map
}

/// What the call compiles to, where it creates styles: the call must
/// pass the checks, its argument must not be spread, every namespace
/// that the argument writes out must be valid, the argument must have a
/// static value, and the value must compile. The first of these that
/// fails gives the diagnostic.
pub open spec fn create_compiled(state: StateManager, call: CallExprView) -> Result<CreatedView, Diagnostic> {
    match create_call_error(
        call,
        decls_view(state.declarations@),
        top_level_view(state.top_level_expressions@),
    ) {
        Some(d) => Err(d),
        None => if call.args[0].spread {
            Err(diagnostic_of(Message::SpreadNotSupported))
        } else {
            match create_argument_error(*call.args[0].expr) {
                Some(d) => Err(d),
                None => match evaluated(
                    *call.args[0].expr,
                    ScopeView {
                        decls: decls_view(state.declarations@),
                        functions: create_functions(state),
                        computed: state.computed@,
                    },
                ) {
                    Ok(v) => created_styles(
                        v,
                        state.options.class_name_prefix@,
                        crate::shorthands::table_view(state.options.shorthands@),
                    ),
                    Err(_) => Err(diagnostic_of(Message::NonStaticValue)),
                },
            }
        },
    }
}

/// The compiled namespaces that the state remembers, by variable.
pub open spec fn style_map_view(m: OrderedMap<String, StylesObjectMap>) -> Seq<(Seq<char>, Seq<Namespace>)> {
    Seq::new(m.entries.len() as nat, |i: int| (m.entries[i].0@, namespace_views(m.entries[i].1)))
}

/// Remembers the compiled namespaces of a variable.
pub fn remember_styles(map: &mut OrderedMap<String, StylesObjectMap>, name: String, styles: StylesObjectMap)
    ensures
        style_map_view(*final(map)) == put_pair(
            style_map_view(*old(map)),
            name@,
            namespace_views(styles),
        ),
{
    proof {
        lemma_key_index_by_keys(map.pairs(), style_map_view(*map), name@);
    }
    let ghost before = style_map_view(*map);
    let ghost given = map.pairs();
    map.insert(name, styles);
    proof {
        lemma_key_index(given, name@);
        lemma_key_index_by_keys(given, before, name@);
        assert(style_map_view(*map).len() == map.pairs().len());
    }
    assert forall|j: int| 0 <= j < style_map_view(*map).len() implies style_map_view(*map)[j]
        == put_pair(before, name@, namespace_views(styles))[j] by {
        assert(map.pairs()[j] == put_pair(given, name@, styles)[j]);
        if j < given.len() {
            assert(before[j] == (given[j].0, namespace_views(given[j].1)));
        }
    }
    assert(style_map_view(*map) =~= put_pair(before, name@, namespace_views(styles)));
}

/// Remembers the declarator of a variable.
pub fn remember_var(map: &mut OrderedMap<String, VarDeclarator>, name: String, decl: VarDeclarator)
    ensures
        var_entries(*final(map)) == put_pair(var_entries(*old(map)), name@, decl@),
{
    proof {
        lemma_key_index_by_keys(map.pairs(), var_entries(*map), name@);
    }
    let ghost before = var_entries(*map);
    let ghost given = map.pairs();
    map.insert(name, decl);
    proof {
        lemma_key_index(given, name@);
        lemma_key_index_by_keys(given, before, name@);
        assert(var_entries(*map).len() == map.pairs().len());
    }
    assert forall|j: int| 0 <= j < var_entries(*map).len() implies var_entries(*map)[j] == put_pair(
        before,
        name@,
        decl@,
    )[j] by {
        assert(map.pairs()[j] == put_pair(given, name@, decl)[j]);
        if j < given.len() {
            assert(before[j] == (given[j].0, given[j].1@));
        }
    }
    assert(var_entries(*map) =~= put_pair(before, name@, decl@));
}

/// The namespace holds a namespace that is included by reference.
pub open spec fn has_included(slots: Seq<Slot>) -> bool {
    exists|i: int| 0 <= i < slots.len() && (#[trigger] slots[i]).1 is Included
}

/// The namespaces without those that hold an included namespace: what of
/// a definition of styles is remembered for the calls that consume
/// styles, since what an included namespace gives is not known here.
pub open spec fn without_spreads(namespaces: Seq<Namespace>) -> Seq<Namespace>
    decreases namespaces.len(),
{
    if namespaces.len() == 0 {
        Seq::empty()
    } else {
        let head = without_spreads(namespaces.drop_last());
        if has_included(namespaces.last().1) {
            head
        } else {
            crate::create::put_namespace(head, namespaces.last().0, namespaces.last().1)
        }
    }
}

/// Whether the namespace holds a namespace that is included by
/// reference.
pub fn holds_included(styles: &FlatCompiledStyles) -> (yes: bool)
    ensures
        yes == has_included(styles@),
{
    let n = styles.len();
    let mut i: usize = 0;
    while i < n
        invariant
            i <= n,
            n == styles@.len(),
            forall|j: int| 0 <= j < i ==> !((#[trigger] styles@[j]).1 is Included),
        decreases n - i,
    {
        match styles.get_index(i) {
            Some((_, crate::create::FlatCompiledStylesValue::IncludedStyle(_))) => {
                assert(styles@[i as int].1 is Included);
                return true;
            },
            _ => {},
        }
        i += 1;
    }
    false
}

/// The compiled namespaces without those that hold an included
/// namespace.
pub fn remove_objects_with_spreads(namespaces: &StylesObjectMap) -> (kept: StylesObjectMap)
    ensures
        namespace_views(kept) == without_spreads(namespace_views(*namespaces)),
{
    let ghost all = namespace_views(*namespaces);
    let mut kept = crate::create::namespaces_new();
    let n = crate::create::namespaces_len(namespaces);
    let mut i: usize = 0;
    assert(all.take(0) =~= Seq::<Namespace>::empty());
    while i < n
        invariant
            i <= n,
            n == all.len(),
            all == namespace_views(*namespaces),
            namespace_views(kept) == without_spreads(all.take(i as int)),
        decreases n - i,
    {
        assert(all.take(i + 1).drop_last() =~= all.take(i as int));
        assert(all.take(i + 1).last() == all[i as int]);
        match crate::create::namespaces_get_index(namespaces, i) {
            Some((name, styles)) => {
                if !holds_included(styles) {
                    crate::create::set_namespace(
                        &mut kept,
                        name.clone(),
                        crate::props::clone_styles(styles),
                    );
                }
            },
            None => {},
        }
        i += 1;
    }
    assert(all.take(i as int) =~= all);
    kept
}

/// The state `mid` is the state `pre` after the compiled namespaces and
/// the declarator of the variable that a call initialises were
/// remembered; nothing is remembered where the call initialises no
/// variable with a plain name.
pub open spec fn remembered(pre: StateManager, mid: StateManager, call: CallExprView, namespaces: Seq<Namespace>) -> bool {
    let decls = decls_view(pre.declarations@);
    let i = find_init(decls, ExprView::Call(call));
    &&& mid == (StateManager { style_map: mid.style_map, style_vars: mid.style_vars, ..pre })
    &&& if 0 <= i < decls.len() && decls[i].name is Ident {
        let name = decls[i].name->Ident_0.0;
        &&& style_map_view(mid.style_map) == put_pair(style_map_view(pre.style_map), name, namespaces)
        &&& var_entries(mid.style_vars) == put_pair(var_entries(pre.style_vars), name, decls[i])
    } else {
        &&& style_map_view(mid.style_map) == style_map_view(pre.style_map)
        &&& var_entries(mid.style_vars) == var_entries(pre.style_vars)
    }
}

/// The name of the variable that a call initialises, where it
/// initialises one with a plain name.
pub open spec fn parent_name(decls: Seq<VarDeclaratorView>, call: CallExprView) -> Option<Seq<char>> {
    crate::register::initialised_name(decls, ExprView::Call(call))
}

/// The first declarator that the expression initialises.
pub fn find_parent_decl<'a>(decls: &'a Vec<VarDeclarator>, target: &Expr) -> (found: Option<&'a VarDeclarator>)
    ensures
        0 <= find_init(decls_view(decls@), target@),
        match found {
            Some(d) => find_init(decls_view(decls@), target@) < decls.len() && d@ == decls_view(
                decls@,
            )[find_init(decls_view(decls@), target@)],
            None => find_init(decls_view(decls@), target@) == decls.len(),
        },
{
    let ghost all = decls_view(decls@);
    let mut i: usize = 0;
    assert(all.skip(0) =~= all);
    while i < decls.len()
        invariant
            i <= decls.len(),
            all == decls_view(decls@),
            find_init(all, target@) == i + find_init(all.skip(i as int), target@),
        decreases decls.len() - i,
    {
        assert(all.skip(i as int)[0] == decls[i as int]@);
        let hit = match &decls[i].init {
            Some(init) => same_expr(init, target),
            None => false,
        };
        if hit {
            return Some(&decls[i]);
        }
        assert(all.skip(i as int).drop_first() =~= all.skip(i + 1));
        i += 1;
    }
    None
}

/// The traversal of one module: its state, and where the traversal
/// stands.
pub struct ModuleTransformVisitor {
    pub state: StateManager,
    pub cycle: ModuleCycle,
    /// The variable that the first style definition initialises.
    pub props_declaration: Option<Id>,
    /// The binding of the styling library.
    pub declaration: Option<Id>,
    /// Whether the compiled module injects its styles when it runs.
    pub runtime_injection: bool,
}

/// The diagnostic at the place of a call.
pub open spec fn at_call(d: Diagnostic, call: CallExprView) -> Diagnostic {
    Diagnostic { kind: d.kind, message: d.message, span: Some(call.span) }
}

/// The state after a call that creates styles was rewritten to `ast`:
/// what the call compiled to is remembered under the variable that the
/// call initialises, without the namespaces that hold an included
/// namespace, and its styles are registered.
pub open spec fn create_rewritten(pre: StateManager, post: StateManager, call: CallExprView, created: CreatedView, ast: ExprView) -> bool {
    &&& ast == namespaces_expr(created.namespaces)
    &&& !post.in_stylex_create
    &&& exists|mid: StateManager|
        remembered(pre, mid, call, without_spreads(created.namespaces)) && #[trigger] registered(
            mid,
            StateManager { in_stylex_create: pre.in_stylex_create, ..post },
            call,
            first_of_each_class(created.styles),
            ast,
            parent_name(decls_view(pre.declarations@), call),
        )
}

/// What rewriting a call that creates styles gives, and what it does to
/// the state.
///
/// A call that creates none gives way to itself. Where the call does not
/// pass the checks, has no static value or does not compile, the diagnostic
/// comes with the place of the call. In both cases the state is as
/// before, but that it is no longer inside a definition of styles.
pub open spec fn create_transformed(
    pre: StateManager,
    post: StateManager,
    call: CallExprView,
    r: Result<Option<Expr>, Diagnostic>,
) -> bool {
    if !calls_library(call, pre.stylex_create_import@, pre.stylex_import.order(), "create"@) {
        r matches Ok(Some(e)) && e@ == ExprView::Call(call) && post == (StateManager {
            in_stylex_create: false,
            ..pre
        })
    } else {
        match create_compiled(pre, call) {
            Err(d) => r == Err::<Option<Expr>, Diagnostic>(at_call(d, call)) && post
                == (StateManager { in_stylex_create: false, ..pre }),
            Ok(created) => r matches Ok(Some(ast)) && create_rewritten(pre, post, call, created, ast@),
        }
    }
}

impl ModuleTransformVisitor {
    /// Rewrites a call that creates styles.
    ///
    /// A call that creates none gives way to itself. Otherwise the argument is
    /// evaluated and compiled; the call gives way to an object literal of
    /// its namespaces, each slot holding class names, and the styles are
    /// registered with the state. Where the call does not pass the checks,
    /// has no static value or does not compile, the diagnostic is returned
    /// with the place of the call, and the state is as before.
    pub fn transform_stylex_create(&mut self, call: &CallExpr) -> (r: Result<Option<Expr>, Diagnostic>)
        ensures
            final(self).cycle == old(self).cycle,
            final(self).props_declaration == old(self).props_declaration,
            final(self).declaration == old(self).declaration,
            final(self).runtime_injection == old(self).runtime_injection,
            create_transformed(old(self).state, final(self).state, call@, r),
    {
        proof {
            lemma_call_view(*call);
        }
        if !is_create_call(call, &self.state) {
            self.state.in_stylex_create = false;
            let same = Expr::Call(clone_call(call));
            proof {
                lemma_call_view(same->Call_0);
            }
            return Ok(Some(same));
        }
        match self.compile_create_call(call) {
            Err(d) => {
                self.state.in_stylex_create = false;
                Err(d.at(call.span))
            },
            Ok((compiled, injected)) => {
                let target = Expr::Call(clone_call(call));
                proof {
                    lemma_call_view(target->Call_0);
                }
                let parent = match find_parent_decl(&self.state.declarations, &target) {
                    Some(decl) => match &decl.name {
                        Pat::Ident(id) => Some((id.sym.clone(), decl.clone())),
                        Pat::Other => None,
                    },
                    None => None,
                };
                let ast = convert_object_to_ast(&compiled);
                let ghost pre = self.state;
                let var_name = match parent {
                    Some((name, decl)) => {
                        let kept = remove_objects_with_spreads(&compiled);
                        remember_styles(&mut self.state.style_map, name.clone(), kept);
                        remember_var(&mut self.state.style_vars, name.clone(), decl);
                        Some(name)
                    },
                    None => None,
                };
                let ghost mid = self.state;
                assert(remembered(pre, mid, call@, without_spreads(created_of(pre, call@).namespaces)));
                self.state.register_styles(call, &injected, &ast, &var_name);
                let ghost post = self.state;
                self.state.in_stylex_create = false;
                assert(post == (StateManager {
                    in_stylex_create: pre.in_stylex_create,
                    ..self.state
                }));
                Ok(Some(ast))
            },
        }
    }

    /// Checks, evaluates and compiles a call that creates styles.
    pub fn compile_create_call(&self, call: &CallExpr) -> (r: Result<
        (
            indexmap::IndexMap<String, FlatCompiledStyles>,
            indexmap::IndexMap<String, crate::rule::InjectableStyle>,
        ),
        Diagnostic,
    >)
        requires
            calls_library(
                call@,
                self.state.stylex_create_import@,
                self.state.stylex_import.order(),
                "create"@,
            ),
        ensures
            match create_compiled(self.state, call@) {
                Ok(c) => r is Ok && namespace_views(r->Ok_0.0) == c.namespaces
                    && injected_entries(r->Ok_0.1) == first_of_each_class(c.styles),
                Err(d) => r is Err && r->Err_0 == d,
            },
    {
        proof {
            lemma_call_view(*call);
        }
        if let Err(d) = validate_style_x_create_indent(call, &self.state) {
            return Err(d);
        }
        assert(elems_view(call.args@)[0] == call.args[0]@);
        if call.args[0].spread {
            return Err(Diagnostic::new(Message::SpreadNotSupported));
        }
        if let Err(d) = validate_create_argument(&call.args[0].expr) {
            return Err(d);
        }
        let functions = create_function_map(&self.state);
        let scope = Scope { decls: &self.state.declarations, functions: &functions, computed: &self.state.computed };
        assert(scope@.decls =~= decls_view(self.state.declarations@));
        let report = evaluate(&call.args[0].expr, &scope);
        let value = match report.value {
            Some(v) => v,
            None => {
                return Err(Diagnostic::new(Message::NonStaticValue));
            },
        };
        stylex_create_set(
            &value,
            self.state.options.class_name_prefix.as_str(),
            &self.state.options.shorthands,
        )
    }
}

/// What a call that creates styles compiles to, where it compiles.
pub open spec fn created_of(state: StateManager, call: CallExprView) -> CreatedView {
    create_compiled(state, call)->Ok_0
}

} // verus!
