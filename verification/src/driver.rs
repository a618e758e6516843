//! The pipeline driver: what is done at each item and call of a module,
//! by the cycle in which the traversal stands.
use vstd::prelude::*;
use crate::ast::{
    clone_expr, decls_view, items_view, lemma_call_view, top_level_view, CallExpr, CallExprView,
    Expr, ExprView, Id, ImportDecl, MemberProp, MemberPropView, Module, ModuleItem,
    ModuleItemView, Pat, PatView, TopLevelExpression, TopLevelExpressionKind,
    TopLevelExpressionView, VarDeclarator, VarDeclaratorView,
};
use crate::errors::Diagnostic;
use crate::factories::{normalize_expr, unparenthesised};
use crate::imports::{only_imports_differ, tracked_import};
use crate::lookup::imports_view;
use crate::options::sources_view;
use crate::state::{StateManager, TrackedSets};
use crate::text::str_eq;
use crate::theme_calls::{create_theme_transformed, define_vars_transformed};
use crate::visitor::{calls_library, create_transformed, ModuleCycle, ModuleTransformVisitor};

verus! {

/// The top-level expressions that the first `n` declarators of a
/// declaration give: one for each declarator that has an initialiser,
/// with the variable where the declarator declares a plain name.
pub open spec fn declared_top_level(decls: Seq<VarDeclaratorView>, kind: TopLevelExpressionKind, n: nat) -> Seq<
    TopLevelExpressionView,
>
    decreases n,
{
    if n == 0 || n > decls.len() {
        Seq::empty()
    } else {
        let head = declared_top_level(decls, kind, (n - 1) as nat);
        match decls[n - 1].init {
            Some(init) => head.push(
                TopLevelExpressionView {
                    kind,
                    expr: init,
                    id: match decls[n - 1].name {
                        PatView::Ident(id) => Some(id),
                        PatView::Other => None,
                    },
                },
            ),
            None => head,
        }
    }
}

/// Those of the first `n` declarators that have an initialiser.
pub open spec fn initialised(decls: Seq<VarDeclaratorView>, n: nat) -> Seq<VarDeclaratorView>
    decreases n,
{
    if n == 0 || n > decls.len() {
        Seq::empty()
    } else {
        let head = initialised(decls, (n - 1) as nat);
        if decls[n - 1].init is Some {
            head.push(decls[n - 1])
        } else {
            head
        }
    }
}

/// The top-level expressions that an item of a module gives.
pub open spec fn item_top_level(item: ModuleItemView) -> Seq<TopLevelExpressionView> {
    match item {
        ModuleItemView::ExportVar(decls) => declared_top_level(
            decls,
            TopLevelExpressionKind::NamedExport,
            decls.len(),
        ),
        ModuleItemView::ExportDefaultExpr(e) => seq![
            TopLevelExpressionView {
                kind: TopLevelExpressionKind::DefaultExport,
                expr: match e {
                    ExprView::Paren(inner) => *inner,
                    _ => e,
                },
                id: None,
            },
        ],
        ModuleItemView::Var(decls) => declared_top_level(
            decls,
            TopLevelExpressionKind::Stmt,
            decls.len(),
        ),
        _ => Seq::empty(),
    }
}

/// The declarators that an item of a module gives.
pub open spec fn item_decls(item: ModuleItemView) -> Seq<VarDeclaratorView> {
    match item {
        ModuleItemView::ExportVar(decls) => initialised(decls, decls.len()),
        ModuleItemView::Var(decls) => initialised(decls, decls.len()),
        _ => Seq::empty(),
    }
}

/// The top-level expressions of the first `n` items of a module.
pub open spec fn module_top_level(items: Seq<ModuleItemView>, n: nat) -> Seq<TopLevelExpressionView>
    decreases n,
{
    if n == 0 || n > items.len() {
        Seq::empty()
    } else {
        module_top_level(items, (n - 1) as nat) + item_top_level(items[n - 1])
    }
}

/// The declarators of the first `n` items of a module.
pub open spec fn module_decls(items: Seq<ModuleItemView>, n: nat) -> Seq<VarDeclaratorView>
    decreases n,
{
    if n == 0 || n > items.len() {
        Seq::empty()
    } else {
        module_decls(items, (n - 1) as nat) + item_decls(items[n - 1])
    }
}

/// Collects what a declaration gives.
fn collect_declaration(decls: &Vec<VarDeclarator>, kind: TopLevelExpressionKind, state: &mut StateManager)
    ensures
        top_level_view(final(state).top_level_expressions@) == top_level_view(
            old(state).top_level_expressions@,
        ) + declared_top_level(decls_view(decls@), kind, decls.len() as nat),
        decls_view(final(state).declarations@) == decls_view(old(state).declarations@)
            + initialised(decls_view(decls@), decls.len() as nat),
        *final(state) == (StateManager {
            top_level_expressions: final(state).top_level_expressions,
            declarations: final(state).declarations,
            ..*old(state)
        }),
{
    let ghost all = decls_view(decls@);
    let ghost exprs = top_level_view(state.top_level_expressions@);
    let ghost known = decls_view(state.declarations@);
    let mut i: usize = 0;
    assert(exprs + Seq::<TopLevelExpressionView>::empty() =~= exprs);
    assert(known + Seq::<VarDeclaratorView>::empty() =~= known);
    while i < decls.len()
        invariant
            i <= decls.len(),
            all == decls_view(decls@),
            top_level_view(state.top_level_expressions@) == exprs + declared_top_level(
                all,
                kind,
                i as nat,
            ),
            decls_view(state.declarations@) == known + initialised(all, i as nat),
            *state == (StateManager {
                top_level_expressions: state.top_level_expressions,
                declarations: state.declarations,
                ..*old(state)
            }),
        decreases decls.len() - i,
    {
        assert(all[i as int] == decls[i as int]@);
        match &decls[i].init {
            Some(init) => {
                let id = match &decls[i].name {
                    Pat::Ident(id) => Some(id.clone()),
                    Pat::Other => None,
                };
                let ghost before = top_level_view(state.top_level_expressions@);
                let ghost before_decls = decls_view(state.declarations@);
                let entry = TopLevelExpression(kind, clone_expr(init), id);
                state.top_level_expressions.push(entry);
                state.declarations.push(decls[i].clone());
                assert(top_level_view(state.top_level_expressions@) =~= before.push(entry@));
                assert(decls_view(state.declarations@) =~= before_decls.push(decls[i as int]@));
                assert(exprs + declared_top_level(all, kind, i as nat).push(entry@) =~= before.push(
                    entry@,
                ));
                assert(known + initialised(all, i as nat).push(decls[i as int]@)
                    =~= before_decls.push(decls[i as int]@));
            },
            None => {},
        }
        i += 1;
    }
}

/// Collects the declarators and the top-level expressions of a module.
pub fn fill_top_level_expressions(module: &Module, state: &mut StateManager)
    ensures
        top_level_view(final(state).top_level_expressions@) == top_level_view(
            old(state).top_level_expressions@,
        ) + module_top_level(items_view(module.body@), module.body.len() as nat),
        decls_view(final(state).declarations@) == decls_view(old(state).declarations@)
            + module_decls(items_view(module.body@), module.body.len() as nat),
        *final(state) == (StateManager {
            top_level_expressions: final(state).top_level_expressions,
            declarations: final(state).declarations,
            ..*old(state)
        }),
{
    let ghost items = items_view(module.body@);
    let ghost exprs = top_level_view(state.top_level_expressions@);
    let ghost known = decls_view(state.declarations@);
    let mut i: usize = 0;
    assert(exprs + Seq::<TopLevelExpressionView>::empty() =~= exprs);
    assert(known + Seq::<VarDeclaratorView>::empty() =~= known);
    while i < module.body.len()
        invariant
            i <= module.body.len(),
            items == items_view(module.body@),
            top_level_view(state.top_level_expressions@) == exprs + module_top_level(items, i as nat),
            decls_view(state.declarations@) == known + module_decls(items, i as nat),
            *state == (StateManager {
                top_level_expressions: state.top_level_expressions,
                declarations: state.declarations,
                ..*old(state)
            }),
        decreases module.body.len() - i,
    {
        assert(items[i as int] == module.body[i as int]@);
        let ghost before = top_level_view(state.top_level_expressions@);
        let ghost before_decls = decls_view(state.declarations@);
        match &module.body[i] {
            ModuleItem::ExportVar(decls) => {
                collect_declaration(decls, TopLevelExpressionKind::NamedExport, state);
            },
            ModuleItem::ExportDefaultExpr(e) => {
                let inner = match &**e {
                    Expr::Paren(inner) => clone_expr(inner),
                    other => clone_expr(other),
                };
                let entry = TopLevelExpression(TopLevelExpressionKind::DefaultExport, inner, None);
                state.top_level_expressions.push(entry);
                assert(top_level_view(state.top_level_expressions@) =~= before + seq![entry@]);
            },
            ModuleItem::Var(decls) => {
                collect_declaration(decls, TopLevelExpressionKind::Stmt, state);
            },
            _ => {},
        }
        assert(top_level_view(state.top_level_expressions@) =~= exprs + (module_top_level(
            items,
            i as nat,
        ) + item_top_level(items[i as int])));
        assert(decls_view(state.declarations@) =~= known + (module_decls(items, i as nat)
            + item_decls(items[i as int])));
        i += 1;
    }
}

/// What rewriting a call gives while the calls that produce styles are
/// rewritten: the definition of an animation, the definition of a theme's
/// variables, the creation of a theme, and the creation of styles are
/// tried in this order.
pub open spec fn enter_transformed(
    pre: StateManager,
    post: StateManager,
    call: CallExprView,
    r: Result<Option<Expr>, Diagnostic>,
) -> bool {
    if calls_library(call, pre.stylex_keyframes_import@, pre.stylex_import.order(), "keyframes"@) {
        crate::keyframes::keyframes_transformed(pre, post, call, r)
    } else if calls_library(
        call,
        pre.stylex_define_vars_import@,
        pre.stylex_import.order(),
        "defineVars"@,
    ) {
        define_vars_transformed(pre, post, call, r)
    } else if calls_library(
        call,
        pre.stylex_create_theme_import@,
        pre.stylex_import.order(),
        "createTheme"@,
    ) {
        create_theme_transformed(pre, post, call, r)
    } else {
        create_transformed(pre, post, call, r)
    }
}

/// What rewriting a call gives, and what it does to the state, by the
/// cycle in which the traversal stands: the calls that produce styles are
/// rewritten while the traversal enters, the calls that consume them
/// while it leaves; in any other cycle every call is left alone. Only
/// the calls that produce styles change the state.
pub open spec fn call_transformed(
    cycle: ModuleCycle,
    pre: StateManager,
    post: StateManager,
    call: CallExprView,
    r: Result<Option<Expr>, Diagnostic>,
) -> bool {
    match cycle {
        ModuleCycle::TransformEnter => enter_transformed(pre, post, call, r),
        ModuleCycle::TransformExit => post == pre && crate::props::exit_transformed(pre, call, r),
        _ => post == pre && r == Ok::<Option<Expr>, Diagnostic>(None),
    }
}

/// The callee is a name, or a member under a name.
pub open spec fn has_named_callee(call: CallExprView) -> bool {
    match *call.callee {
        ExprView::Ident(_) => true,
        ExprView::Member { obj, prop } => prop is Ident,
        _ => false,
    }
}

impl ModuleTransformVisitor {
    /// A traversal at its start.
    pub fn new(state: StateManager) -> (visitor: ModuleTransformVisitor)
        ensures
            visitor.state == state,
            visitor.cycle == ModuleCycle::Initializing,
            visitor.props_declaration is None,
            visitor.declaration is None,
            visitor.runtime_injection == (state.options.runtime_injection is Some),
    {
        let runtime_injection = state.options.runtime_injection.is_some();
        ModuleTransformVisitor {
            state,
            cycle: ModuleCycle::Initializing,
            props_declaration: None,
            declaration: None,
            runtime_injection,
        }
    }

    /// Visits an import declaration: while the module is initialised, the
    /// declaration is tracked; in every other cycle nothing is done. The
    /// declaration itself stays as it is.
    pub fn fold_import_decl_impl(&mut self, import_decl: ImportDecl) -> (r: Result<ImportDecl, Diagnostic>)
        requires
            old(self).state.wf(),
        ensures
            final(self).state.wf(),
            final(self).cycle == old(self).cycle,
            r matches Ok(decl) ==> decl == import_decl,
            old(self).cycle != ModuleCycle::Initializing ==> r is Ok && final(self).state == old(
                self,
            ).state,
            old(self).cycle == ModuleCycle::Initializing ==> {
                &&& only_imports_differ(old(self).state, final(self).state)
                &&& import_decl.type_only ==> final(self).state == old(self).state
                &&& match tracked_import(
                    old(self).state.sets(),
                    sources_view(old(self).state.options.import_sources@),
                    import_decl@,
                ) {
                    Ok(sets) => r is Ok && final(self).state.sets() == sets,
                    Err(d) => r is Err && r->Err_0 == d,
                }
                &&& imports_view(final(self).state.top_imports@) == if import_decl.type_only {
                    imports_view(old(self).state.top_imports@)
                } else {
                    imports_view(old(self).state.top_imports@).push(import_decl@)
                }
            },
    {
        match self.cycle {
            ModuleCycle::Initializing => match self.state.track_import(&import_decl) {
                Ok(()) => Ok(import_decl),
                Err(d) => Err(d),
            },
            _ => Ok(import_decl),
        }
    }

    /// Rewrites a call of a function of the styling library, by the cycle
    /// in which the traversal stands.
    pub fn transform_stylex_fns(&mut self, id: &Id, call: &CallExpr) -> (r: Result<Option<Expr>, Diagnostic>)
        ensures
            final(self).cycle == old(self).cycle,
            call_transformed(old(self).cycle, old(self).state, final(self).state, call@, r),
    {
        match self.cycle {
            ModuleCycle::TransformEnter => {
                match self.transform_stylex_keyframes_call(call) {
                    Err(d) => {
                        return Err(d);
                    },
                    Ok(Some(value)) => {
                        return Ok(Some(value));
                    },
                    Ok(None) => {},
                }
                match self.transform_stylex_define_vars(call) {
                    Err(d) => {
                        return Err(d);
                    },
                    Ok(Some(value)) => {
                        return Ok(Some(value));
                    },
                    Ok(None) => {},
                }
                match self.transform_stylex_create_theme_call(call) {
                    Err(d) => {
                        return Err(d);
                    },
                    Ok(Some(value)) => {
                        return Ok(Some(value));
                    },
                    Ok(None) => {},
                }
                self.transform_stylex_create(call)
            },
            ModuleCycle::TransformExit => {
                proof {
                    lemma_call_view(*call);
                }
                if crate::visitor::call_is_of(
                    call,
                    &self.state.stylex_props_import,
                    &self.state.stylex_import,
                    "props",
                ) {
                    Ok(self.transform_stylex_props_call(call))
                } else if crate::visitor::call_is_of(
                    call,
                    &self.state.stylex_attrs_import,
                    &self.state.stylex_import,
                    "attrs",
                ) {
                    Ok(self.transform_stylex_attrs_call(call))
                } else {
                    Ok(self.transform_stylex_call(call))
                }
            },
            _ => Ok(None),
        }
    }

    /// Rewrites a call, where its callee is a name or a member under a
    /// name; any other call is left alone.
    pub fn transform_call_expression_to_stylex_expr(&mut self, ex: &CallExpr) -> (r: Result<
        Option<Expr>,
        Diagnostic,
    >)
        ensures
            final(self).cycle == old(self).cycle,
            has_named_callee(ex@) ==> call_transformed(
                old(self).cycle,
                old(self).state,
                final(self).state,
                ex@,
                r,
            ),
            !has_named_callee(ex@) ==> r == Ok::<Option<Expr>, Diagnostic>(None)
                && final(self).state == old(self).state,
    {
        proof {
            lemma_call_view(*ex);
        }
        match &*ex.callee {
            Expr::Member { obj, prop } => {
                assert(ex.callee@ == ExprView::Member { obj: Box::new(obj@), prop: prop@ });
                match prop {
                    MemberProp::Ident(name) => {
                        assert(prop@ == MemberPropView::Ident(name@));
                        let id = Id { sym: name.clone(), ctxt: 0 };
                        self.transform_stylex_fns(&id, ex)
                    },
                    MemberProp::Computed(k) => {
                        assert(prop@ == MemberPropView::Computed(Box::new(k@)));
                        Ok(None)
                    },
                }
            },
            Expr::Ident(ident) => self.transform_stylex_fns(ident, ex),
            _ => Ok(None),
        }
    }
}

/// Determinism: what rewriting a call gives, and what it makes of the
/// state, is fixed by the state and the call. Two rewritings of the same
/// call in the same state give results of the same kind, and where both
/// give an expression, the same expression, the same styles under the same
/// variables in the same order, and the same statements to inject.
pub proof fn lemma_transform_deterministic(
    cycle: ModuleCycle,
    pre: StateManager,
    call: CallExprView,
    post1: StateManager,
    r1: Result<Option<Expr>, Diagnostic>,
    post2: StateManager,
    r2: Result<Option<Expr>, Diagnostic>,
)
    requires
        call_transformed(cycle, pre, post1, call, r1),
        call_transformed(cycle, pre, post2, call, r2),
    ensures
        r1 is Ok == r2 is Ok,
        r1 is Err ==> r1 == r2,
        r1 matches Ok(a) ==> (r2 matches Ok(b) && a is Some == b is Some && (a matches Some(x)
            ==> (b matches Some(y) && x@ == y@))),
        crate::register::metadata_pairs(post1.metadata) == crate::register::metadata_pairs(
            post2.metadata,
        ),
        crate::register::inject_pairs(post1.styles_to_inject) == crate::register::inject_pairs(
            post2.styles_to_inject,
        ),
{
}

/// The binding under which an import declaration brings in the whole
/// library: that of its first default or namespace specifier.
pub open spec fn library_binding(specifiers: Seq<crate::ast::ImportSpecifierView>) -> Option<
    (Seq<char>, u32),
>
    decreases specifiers.len(),
{
    if specifiers.len() == 0 {
        None
    } else {
        match specifiers[0] {
            crate::ast::ImportSpecifierView::Default(id) => Some(id),
            crate::ast::ImportSpecifierView::Namespace(id) => Some(id),
            crate::ast::ImportSpecifierView::Named { .. } => library_binding(specifiers.drop_first()),
        }
    }
}

/// The binding, where there is one.
pub open spec fn binding_view(id: Option<Id>) -> Option<(Seq<char>, u32)> {
    match id {
        Some(id) => Some(id@),
        None => None,
    }
}

impl ModuleTransformVisitor {
    /// Notes the binding of the styling library: once an import from a
    /// module that the state has tracked brings in the whole library, its
    /// binding is noted and kept.
    pub fn bind_library(&mut self, decl: &ImportDecl)
        ensures
            binding_view(final(self).declaration) == if old(self).declaration is Some || !old(
                self,
            ).state.import_paths@.contains(decl.src@) {
                binding_view(old(self).declaration)
            } else {
                library_binding(decl@.specifiers)
            },
            *final(self) == (ModuleTransformVisitor { declaration: final(self).declaration, ..*old(self) }),
    {
        if self.declaration.is_some() || !self.state.import_paths.contains(&decl.src) {
            return ;
        }
        let ghost all = decl@.specifiers;
        let mut i: usize = 0;
        assert(all.skip(0) =~= all);
        while i < decl.specifiers.len()
            invariant
                i <= decl.specifiers.len(),
                all == decl@.specifiers,
                all.len() == decl.specifiers.len(),
                *self == *old(self),
                old(self).declaration is None,
                old(self).state.import_paths@.contains(decl.src@),
                library_binding(all) == library_binding(all.skip(i as int)),
            decreases decl.specifiers.len() - i,
        {
            assert(all.skip(i as int)[0] == decl.specifiers[i as int]@);
            match &decl.specifiers[i] {
                crate::ast::ImportSpecifier::Default(id) => {
                    self.declaration = Some(id.clone());
                    return ;
                },
                crate::ast::ImportSpecifier::Namespace(id) => {
                    self.declaration = Some(id.clone());
                    return ;
                },
                crate::ast::ImportSpecifier::Named { .. } => {},
            }
            assert(all.skip(i as int).drop_first() =~= all.skip(i + 1));
            i += 1;
        }
    }
}

/// The binding and the member that a call calls, where its callee is a
/// member under a name.
pub open spec fn declaration_of(call: CallExprView) -> Option<((Seq<char>, u32), Seq<char>)> {
    match *call.callee {
        ExprView::Member { obj, prop } => match (*obj, prop) {
            (ExprView::Ident(id), MemberPropView::Ident(name)) => Some((id, name)),
            _ => None,
        },
        _ => None,
    }
}

/// The binding and the member that a call calls.
pub fn process_declaration(call: &CallExpr) -> (found: Option<(Id, String)>)
    ensures
        match declaration_of(call@) {
            Some((id, name)) => found matches Some(pair) && pair.0@ == id && pair.1@ == name,
            None => found is None,
        },
{
    proof {
        lemma_call_view(*call);
    }
    match &*call.callee {
        Expr::Member { obj, prop } => {
            assert(call.callee@ == ExprView::Member { obj: Box::new(obj@), prop: prop@ });
            match (&**obj, prop) {
                (Expr::Ident(id), MemberProp::Ident(name)) => {
                    assert(prop@ == MemberPropView::Ident(name@));
                    Some((id.clone(), name.clone()))
                },
                (Expr::Ident(id), MemberProp::Computed(k)) => {
                    assert(prop@ == MemberPropView::Computed(Box::new(k@)));
                    None
                },
                _ => None,
            }
        },
        _ => None,
    }
}

/// The declarator is initialised with a call of `create` on the binding
/// of the styling library.
pub open spec fn initialises_styles(declarator: VarDeclaratorView, library: Option<Id>) -> bool {
    match (declarator.init, library) {
        (Some(ExprView::Call(call)), Some(binding)) => declaration_of(call) == Some(
            (binding@, "create"@),
        ),
        _ => false,
    }
}

/// The name that the variable of a style definition gets where styles are
/// not injected at run time.
pub open spec fn props_name() -> (Seq<char>, u32) {
    ("_stylex$props"@, 0u32)
}

impl ModuleTransformVisitor {
    /// Visits a declarator. While the module is initialised, the variable
    /// of a style definition is noted; while it is processed, that
    /// variable is renamed where styles are not injected at run time. In
    /// every other cycle, and for every other declarator, nothing is
    /// done.
    pub fn fold_var_declarator_impl(&mut self, var_declarator: VarDeclarator) -> (out: VarDeclarator)
        ensures
            final(self).state == old(self).state,
            final(self).cycle == old(self).cycle,
            final(self).declaration == old(self).declaration,
            final(self).runtime_injection == old(self).runtime_injection,
            out@.init == var_declarator@.init,
            out@.name == if old(self).cycle == ModuleCycle::Processing && initialises_styles(
                var_declarator@,
                old(self).declaration,
            ) && !old(self).runtime_injection {
                PatView::Ident(props_name())
            } else {
                var_declarator@.name
            },
            if old(self).cycle == ModuleCycle::Initializing && initialises_styles(
                var_declarator@,
                old(self).declaration,
            ) {
                match var_declarator@.name {
                    PatView::Ident(id) => final(self).props_declaration matches Some(p) && p@ == id,
                    PatView::Other => final(self).props_declaration is None,
                }
            } else {
                final(self).props_declaration == old(self).props_declaration
            },
    {
        let active = match self.cycle {
            ModuleCycle::Initializing | ModuleCycle::Processing => true,
            _ => false,
        };
        if !active {
            return var_declarator;
        }
        let styles = match (&var_declarator.init, &self.declaration) {
            (Some(init), Some(binding)) => match &**init {
                Expr::Call(call) => {
                    proof {
                        lemma_call_view(*call);
                    }
                    match process_declaration(call) {
                        Some((id, member)) => binding.sym == id.sym && binding.ctxt == id.ctxt
                            && str_eq(member.as_str(), "create"),
                        None => false,
                    }
                },
                _ => false,
            },
            _ => false,
        };
        if !styles {
            return var_declarator;
        }
        match self.cycle {
            ModuleCycle::Initializing => {
                self.props_declaration = match &var_declarator.name {
                    Pat::Ident(id) => Some(id.clone()),
                    Pat::Other => None,
                };
                var_declarator
            },
            _ => {
                if !self.runtime_injection {
                    VarDeclarator {
                        name: Pat::Ident(Id { sym: "_stylex$props".to_string(), ctxt: 0 }),
                        init: var_declarator.init,
                    }
                } else {
                    var_declarator
                }
            },
        }
    }

    /// The name of the variable of the first style definition; empty
    /// where there is none.
    pub fn get_props_desclaration_as_string(&self) -> (name: String)
        ensures
            name@ == match self.props_declaration {
                Some(id) => id@.0,
                None => Seq::<char>::empty(),
            },
    {
        match &self.props_declaration {
            Some(id) => id.sym.clone(),
            None => String::new(),
        }
    }
}

} // verus!
