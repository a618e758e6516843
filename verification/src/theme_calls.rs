//! The transforms of the calls that define and create themes.
use vstd::prelude::*;
use crate::ast::{
    clone_call, clone_expr, decls_view, elems_view, lemma_call_view, top_level_view, CallExpr,
    CallExprView, Expr, ExprView, Id, Pat, PatView, TopLevelExpression, TopLevelExpressionKind,
    TopLevelExpressionView, VarDeclarator, VarDeclaratorView,
};
use crate::collections::{put_pair, OrderedMap, OrderedSet};
use crate::compare::same_expr;
use crate::convert::{slots_expr, slots_to_ast, value_expr, value_to_expr};
use crate::create::Slot;
use crate::errors::{diagnostic_of, Diagnostic, Message};
use crate::evaluate::{evaluate, evaluated, Scope, ScopeView};
use crate::factories::{file_based_identifier, gen_file_based_identifier};
use crate::functions::{
    bindings_view, FunctionBinding, FunctionBindingView, FunctionConfig, FunctionConfigView,
    FunctionMap, NamedFunction, NamedFunctionView,
};
use crate::injected::{first_of_each_class, injected_entries, ClassStyle};
use crate::register::{find_init, initialised_name, registered, var_entries};
use crate::rule::InjectableStyle;
use crate::state::{hashing_name, StateManager};
use crate::themes::{
    created_theme, defined_vars, stylex_create_theme, stylex_define_vars,
};
use crate::value::{Function, FunctionView, MapEntryView, Value, ValueView};
use crate::visitor::{
    at_call, call_is_of, calls_library, find_parent_decl, remember_var, ModuleTransformVisitor,
};

verus! {

/// The functions that declare the syntax of a value, by name.
pub open spec fn type_members() -> Seq<NamedFunctionView> {
    seq![
        NamedFunctionView { name: "angle"@, function: FunctionView::Types("<angle>"@) },
        NamedFunctionView { name: "color"@, function: FunctionView::Types("<color>"@) },
        NamedFunctionView { name: "url"@, function: FunctionView::Types("<url>"@) },
        NamedFunctionView { name: "image"@, function: FunctionView::Types("<image>"@) },
        NamedFunctionView { name: "integer"@, function: FunctionView::Types("<integer>"@) },
        NamedFunctionView {
            name: "lengthPercentage"@,
            function: FunctionView::Types("<length-percentage>"@),
        },
        NamedFunctionView { name: "length"@, function: FunctionView::Types("<length>"@) },
        NamedFunctionView { name: "percentage"@, function: FunctionView::Types("<percentage>"@) },
        NamedFunctionView { name: "number"@, function: FunctionView::Types("<number>"@) },
        NamedFunctionView { name: "resolution"@, function: FunctionView::Types("<resolution>"@) },
        NamedFunctionView { name: "time"@, function: FunctionView::Types("<time>"@) },
    ]
}

/// The functions in scope while themes are defined and created: under
/// each binding of `types`, the functions that declare a syntax.
pub open spec fn theme_functions(state: StateManager) -> Seq<FunctionBindingView> {
    Seq::new(
        state.stylex_types_import.order().len(),
        |i: int|
            FunctionBindingView {
                id: state.stylex_types_import.order()[i],
                config: FunctionConfigView::Members(type_members()),
            },
    )
}

/// A function that declares a syntax, under its name.
fn type_member(name: &str, syntax: &str) -> (m: NamedFunction)
    ensures
        m@ == (NamedFunctionView { name: name@, function: FunctionView::Types(syntax@) }),
{
    NamedFunction { name: name.to_string(), function: Function::Types(syntax.to_string()) }
}

/// The functions that declare the syntax of a value.
fn type_functions() -> (config: FunctionConfig)
    ensures
        config@ == FunctionConfigView::Members(type_members()),
{
    let mut members: Vec<NamedFunction> = Vec::new();
    members.push(type_member("angle", "<angle>"));
    members.push(type_member("color", "<color>"));
    members.push(type_member("url", "<url>"));
    members.push(type_member("image", "<image>"));
    members.push(type_member("integer", "<integer>"));
    members.push(type_member("lengthPercentage", "<length-percentage>"));
    members.push(type_member("length", "<length>"));
    members.push(type_member("percentage", "<percentage>"));
    members.push(type_member("number", "<number>"));
    members.push(type_member("resolution", "<resolution>"));
    members.push(type_member("time", "<time>"));
    let config = FunctionConfig::Members(members);
    assert(config@->Members_0 =~= type_members());
    config
}

/// The functions in scope while themes are defined and created.
pub fn theme_function_map(state: &StateManager) -> (map: FunctionMap)
    ensures
        map@ == theme_functions(*state),
{
    let mut bindings: Vec<FunctionBinding> = Vec::new();
    let mut i: usize = 0;
    while i < state.stylex_types_import.items.len()
        invariant
            i <= state.stylex_types_import.items.len(),
            bindings.len() == i,
            forall|j: int| 0 <= j < i ==> (#[trigger] bindings[j])@ == theme_functions(*state)[j],
        decreases state.stylex_types_import.items.len() - i,
    {
        bindings.push(
            FunctionBinding { id: state.stylex_types_import.items[i].clone(), config: type_functions() },
        );
        i += 1;
    }
    let map = FunctionMap { identifiers: bindings };
    assert(map@ =~= theme_functions(*state));
    map
}

/// The position of the first top-level expression that is a named export
/// and the given expression; the length where there is none.
pub open spec fn find_export(exprs: Seq<TopLevelExpressionView>, target: ExprView) -> int
    decreases exprs.len(),
{
    if exprs.len() == 0 {
        0
    } else if exprs[0].kind == TopLevelExpressionKind::NamedExport && exprs[0].expr == target {
        0
    } else {
        1 + find_export(exprs.drop_first(), target)
    }
}

/// The name under which the expression is exported, where it initialises
/// a named export.
pub open spec fn export_name(exprs: Seq<TopLevelExpressionView>, target: ExprView) -> Option<Seq<char>> {
    let i = find_export(exprs, target);
    if 0 <= i < exprs.len() {
        match exprs[i].id {
            Some(id) => Some(id.0),
            None => None,
        }
    } else {
        None
    }
}

/// The name under which the expression is exported.
pub fn exported_as(state: &StateManager, target: &Expr) -> (name: Option<String>)
    ensures
        match export_name(top_level_view(state.top_level_expressions@), target@) {
            Some(n) => name is Some && name->0@ == n,
            None => name is None,
        },
{
    let ghost all = top_level_view(state.top_level_expressions@);
    let mut i: usize = 0;
    assert(all.skip(0) =~= all);
    while i < state.top_level_expressions.len()
        invariant
            i <= state.top_level_expressions.len(),
            all == top_level_view(state.top_level_expressions@),
            find_export(all, target@) == i + find_export(all.skip(i as int), target@),
        decreases state.top_level_expressions.len() - i,
    {
        assert(all.skip(i as int)[0] == state.top_level_expressions[i as int]@);
        let entry = &state.top_level_expressions[i];
        if entry.0 == TopLevelExpressionKind::NamedExport && same_expr(&entry.1, target) {
            return match &entry.2 {
                Some(id) => Some(id.sym.clone()),
                None => None,
            };
        }
        assert(all.skip(i as int).drop_first() =~= all.skip(i + 1));
        i += 1;
    }
    None
}

/// The scope in which the arguments of a call about themes are
/// evaluated: the declarators that were rewritten first, so that a
/// variable that holds a defined theme has its value.
pub open spec fn theme_scope(state: StateManager) -> ScopeView {
    ScopeView {
        decls: Seq::new(
            state.style_vars.entries@.len(),
            |i: int| state.style_vars.entries@[i].1@,
        ) + decls_view(state.declarations@),
        functions: theme_functions(state),
        computed: state.computed@,
    }
}

/// The declarators in which the arguments of a call about themes are
/// evaluated.
pub fn theme_scope_decls(state: &StateManager) -> (decls: Vec<VarDeclarator>)
    ensures
        decls_view(decls@) == theme_scope(*state).decls,
{
    let mut decls: Vec<VarDeclarator> = Vec::new();
    let mut i: usize = 0;
    while i < state.style_vars.entries.len()
        invariant
            i <= state.style_vars.entries.len(),
            decls.len() == i,
            forall|j: int| 0 <= j < i ==> (#[trigger] decls[j])@ == state.style_vars.entries@[j].1@,
        decreases state.style_vars.entries.len() - i,
    {
        decls.push(state.style_vars.entries[i].1.clone());
        i += 1;
    }
    let ghost head = decls_view(decls@);
    let mut k: usize = 0;
    while k < state.declarations.len()
        invariant
            k <= state.declarations.len(),
            decls.len() == head.len() + k,
            forall|j: int| 0 <= j < head.len() ==> (#[trigger] decls[j])@ == head[j],
            forall|j: int|
                0 <= j < k ==> (#[trigger] decls[head.len() + j])@ == state.declarations[j]@,
        decreases state.declarations.len() - k,
    {
        decls.push(state.declarations[k].clone());
        k += 1;
    }
    assert(decls_view(decls@) =~= theme_scope(*state).decls) by {
        assert forall|j: int| 0 <= j < decls.len() implies decls_view(decls@)[j] == theme_scope(
            *state,
        ).decls[j] by {
            if j >= head.len() {
                assert(decls[head.len() + (j - head.len())]@ == state.declarations[j - head.len()]@);
            }
        }
    }
    decls
}

/// What a call that defines the variables of a theme compiles to: the
/// call must initialise a named export and have one argument, not
/// spread, with a static value; the module's file must be a theme file;
/// and the variables must be defined without fault.
pub open spec fn define_vars_compiled(state: StateManager, call: CallExprView) -> Result<
    (Seq<char>, Seq<MapEntryView>, Seq<ClassStyle>),
    Diagnostic,
> {
    match export_name(top_level_view(state.top_level_expressions@), ExprView::Call(call)) {
        None => Err(diagnostic_of(Message::UnboundStylexCallValue)),
        Some(export) => if call.args.len() != 1 {
            Err(diagnostic_of(Message::IllegalArgumentLength))
        } else if call.args[0].spread {
            Err(diagnostic_of(Message::SpreadNotSupported))
        } else {
            match evaluated(*call.args[0].expr, theme_scope(state)) {
                Err(_) => Err(diagnostic_of(Message::NonStaticValue)),
                Ok(value) => match hashing_name(
                    state.filename,
                    state.options.unstable_module_resolution,
                ) {
                    None => Err(diagnostic_of(Message::UnresolvedImport)),
                    Some(file) => {
                        let theme = file_based_identifier(file, export, None);
                        match defined_vars(value, theme, state.options.class_name_prefix@) {
                            Ok((refs, styles)) => Ok((theme, refs, styles)),
                            Err(d) => Err(d),
                        }
                    },
                },
            }
        },
    }
}

/// Checks, evaluates and compiles a call that defines the variables of a
/// theme.
pub fn compile_define_vars(state: &StateManager, call: &CallExpr) -> (r: Result<
    (String, Value, indexmap::IndexMap<String, InjectableStyle>),
    Diagnostic,
>)
    ensures
        match define_vars_compiled(*state, call@) {
            Ok((theme, refs, styles)) => r is Ok && r->Ok_0.0@ == theme && r->Ok_0.1@
                == ValueView::Object(refs) && injected_entries(r->Ok_0.2) == first_of_each_class(
                styles,
            ),
            Err(d) => r is Err && r->Err_0 == d,
        },
{
    proof {
        lemma_call_view(*call);
    }
    let target = Expr::Call(clone_call(call));
    proof {
        lemma_call_view(target->Call_0);
    }
    let export = match exported_as(state, &target) {
        Some(name) => name,
        None => {
            return Err(Diagnostic::new(Message::UnboundStylexCallValue));
        },
    };
    if call.args.len() != 1 {
        return Err(Diagnostic::new(Message::IllegalArgumentLength));
    }
    assert(elems_view(call.args@)[0] == call.args[0]@);
    if call.args[0].spread {
        return Err(Diagnostic::new(Message::SpreadNotSupported));
    }
    let functions = theme_function_map(state);
    let decls = theme_scope_decls(state);
    let scope = Scope { decls: &decls, functions: &functions, computed: &state.computed };
    assert(scope@.decls =~= decls_view(decls@));
    let report = evaluate(&call.args[0].expr, &scope);
    let value = match report.value {
        Some(v) => v,
        None => {
            return Err(Diagnostic::new(Message::NonStaticValue));
        },
    };
    let file = match state.get_filename_for_hashing() {
        Some(file) => file,
        None => {
            return Err(Diagnostic::new(Message::UnresolvedImport));
        },
    };
    let theme = gen_file_based_identifier(file.as_str(), export.as_str(), None);
    match stylex_define_vars(&value, theme.as_str(), state.options.class_name_prefix.as_str()) {
        Ok((refs, injected)) => Ok((theme, refs, injected)),
        Err(d) => Err(d),
    }
}

/// The state `mid` is the state `pre` after the theme's name was noted
/// and the variable that the call initialises was remembered with the
/// expression that the call gave way to.
pub open spec fn theme_remembered(pre: StateManager, mid: StateManager, call: CallExprView, theme: Seq<char>, ast: ExprView) -> bool {
    let decls = decls_view(pre.declarations@);
    let i = find_init(decls, ExprView::Call(call));
    &&& mid == (StateManager { theme_name: mid.theme_name, style_vars: mid.style_vars, ..pre })
    &&& mid.theme_name matches Some(name) && name@ == theme
    &&& if 0 <= i < decls.len() && decls[i].name is Ident {
        var_entries(mid.style_vars) == put_pair(
            var_entries(pre.style_vars),
            decls[i].name->Ident_0.0,
            VarDeclaratorView { name: decls[i].name, init: Some(ast) },
        )
    } else {
        var_entries(mid.style_vars) == var_entries(pre.style_vars)
    }
}

/// The state after a call that defines the variables of a theme was
/// rewritten to `ast`.
pub open spec fn define_vars_rewritten(
    pre: StateManager,
    post: StateManager,
    call: CallExprView,
    compiled: (Seq<char>, Seq<MapEntryView>, Seq<ClassStyle>),
    ast: ExprView,
) -> bool {
    &&& ast == value_expr(ValueView::Object(compiled.1))
    &&& exists|mid: StateManager|
        theme_remembered(pre, mid, call, compiled.0, ast) && #[trigger] registered(
            mid,
            post,
            call,
            first_of_each_class(compiled.2),
            ast,
            initialised_name(decls_view(pre.declarations@), ExprView::Call(call)),
        )
}

/// Remembers the variable that the expression initialises, with `ast` in
/// the expression's place; gives the variable's name.
pub fn remember_rewritten(state: &mut StateManager, target: &Expr, ast: &Expr) -> (name: Option<String>)
    ensures
        *final(state) == (StateManager { style_vars: final(state).style_vars, ..*old(state) }),
        match initialised_name(decls_view(old(state).declarations@), target@) {
            Some(n) => name is Some && name->0@ == n,
            None => name is None,
        },
        ({
            let decls = decls_view(old(state).declarations@);
            let i = find_init(decls, target@);
            if 0 <= i < decls.len() && decls[i].name is Ident {
                var_entries(final(state).style_vars) == put_pair(
                    var_entries(old(state).style_vars),
                    decls[i].name->Ident_0.0,
                    VarDeclaratorView { name: decls[i].name, init: Some(ast@) },
                )
            } else {
                var_entries(final(state).style_vars) == var_entries(old(state).style_vars)
            }
        }),
{
    let parent = match find_parent_decl(&state.declarations, target) {
        Some(decl) => match &decl.name {
            Pat::Ident(id) => Some(id.clone()),
            Pat::Other => None,
        },
        None => None,
    };
    match parent {
        Some(id) => {
            let name = id.sym.clone();
            remember_var(
                &mut state.style_vars,
                id.sym.clone(),
                VarDeclarator { name: Pat::Ident(id), init: Some(Box::new(clone_expr(ast))) },
            );
            Some(name)
        },
        None => None,
    }
}

/// What rewriting a call that defines the variables of a theme gives, and
/// what it does to the state. A call that defines none is left alone;
/// where the call cannot be compiled, the diagnostic comes with the place
/// of the call. In both cases the state is as before.
pub open spec fn define_vars_transformed(
    pre: StateManager,
    post: StateManager,
    call: CallExprView,
    r: Result<Option<Expr>, Diagnostic>,
) -> bool {
    if !calls_library(call, pre.stylex_define_vars_import@, pre.stylex_import.order(), "defineVars"@) {
        r == Ok::<Option<Expr>, Diagnostic>(None) && post == pre
    } else {
        match define_vars_compiled(pre, call) {
            Err(d) => r == Err::<Option<Expr>, Diagnostic>(at_call(d, call)) && post == pre,
            Ok(compiled) => r matches Ok(Some(ast)) && define_vars_rewritten(
                pre,
                post,
                call,
                compiled,
                ast@,
            ),
        }
    }
}

impl ModuleTransformVisitor {
    /// Rewrites a call that defines the variables of a theme: the call
    /// gives way to an object literal that holds, for each variable, the
    /// reference to its custom property. A call that defines none is left
    /// alone; where the call cannot be compiled, the diagnostic is
    /// returned with the place of the call, and the state is as before.
    pub fn transform_stylex_define_vars(&mut self, call: &CallExpr) -> (r: Result<Option<Expr>, Diagnostic>)
        ensures
            final(self).cycle == old(self).cycle,
            final(self).props_declaration == old(self).props_declaration,
            final(self).declaration == old(self).declaration,
            final(self).runtime_injection == old(self).runtime_injection,
            define_vars_transformed(old(self).state, final(self).state, call@, r),
    {
        proof {
            lemma_call_view(*call);
        }
        if !call_is_of(call, &self.state.stylex_define_vars_import, &self.state.stylex_import, "defineVars") {
            return Ok(None);
        }
        match compile_define_vars(&self.state, call) {
            Err(d) => Err(d.at(call.span)),
            Ok((theme, refs, injected)) => {
                let ast = value_to_expr(&refs);
                let target = Expr::Call(clone_call(call));
                proof {
                    lemma_call_view(target->Call_0);
                }
                let ghost pre = self.state;
                self.state.theme_name = Some(theme);
                let var_name = remember_rewritten(&mut self.state, &target, &ast);
                let ghost mid = self.state;
                assert(theme_remembered(pre, mid, call@, theme@, ast@));
                self.state.register_styles(call, &injected, &ast, &var_name);
                Ok(Some(ast))
            },
        }
    }
}

/// What a call that creates a theme compiles to: the call must
/// initialise a variable and have two arguments, none spread, both with
/// static values; the first must be a defined theme, the second an object
/// of overrides.
pub open spec fn create_theme_compiled(state: StateManager, call: CallExprView) -> Result<
    (Seq<Slot>, Seq<ClassStyle>),
    Diagnostic,
> {
    let decls = decls_view(state.declarations@);
    if !(find_init(decls, ExprView::Call(call)) < decls.len()) {
        Err(diagnostic_of(Message::UnboundStylexCallValue))
    } else if call.args.len() != 2 {
        Err(diagnostic_of(Message::IllegalArgumentLength))
    } else if call.args[0].spread || call.args[1].spread {
        Err(diagnostic_of(Message::SpreadNotSupported))
    } else {
        match (
            evaluated(*call.args[0].expr, theme_scope(state)),
            evaluated(*call.args[1].expr, theme_scope(state)),
        ) {
            (Ok(theme), Ok(overrides)) => created_theme(
                theme,
                overrides,
                state.options.class_name_prefix@,
            ),
            _ => Err(diagnostic_of(Message::NonStaticValue)),
        }
    }
}

/// Checks, evaluates and compiles a call that creates a theme.
pub fn compile_create_theme(state: &StateManager, call: &CallExpr) -> (r: Result<
    (crate::create::FlatCompiledStyles, indexmap::IndexMap<String, InjectableStyle>),
    Diagnostic,
>)
    ensures
        match create_theme_compiled(*state, call@) {
            Ok((slots, styles)) => r is Ok && r->Ok_0.0@ == slots && injected_entries(r->Ok_0.1)
                == first_of_each_class(styles),
            Err(d) => r is Err && r->Err_0 == d,
        },
{
    proof {
        lemma_call_view(*call);
    }
    let target = Expr::Call(clone_call(call));
    proof {
        lemma_call_view(target->Call_0);
    }
    if find_parent_decl(&state.declarations, &target).is_none() {
        return Err(Diagnostic::new(Message::UnboundStylexCallValue));
    }
    if call.args.len() != 2 {
        return Err(Diagnostic::new(Message::IllegalArgumentLength));
    }
    assert(elems_view(call.args@)[0] == call.args[0]@);
    assert(elems_view(call.args@)[1] == call.args[1]@);
    if call.args[0].spread || call.args[1].spread {
        return Err(Diagnostic::new(Message::SpreadNotSupported));
    }
    let functions = theme_function_map(state);
    let decls = theme_scope_decls(state);
    let scope = Scope { decls: &decls, functions: &functions, computed: &state.computed };
    assert(scope@.decls =~= decls_view(decls@));
    let first = evaluate(&call.args[0].expr, &scope);
    let second = evaluate(&call.args[1].expr, &scope);
    match (first.value, second.value) {
        (Some(theme), Some(overrides)) => stylex_create_theme(
            &theme,
            &overrides,
            state.options.class_name_prefix.as_str(),
        ),
        _ => Err(Diagnostic::new(Message::NonStaticValue)),
    }
}

/// The state after a call that creates a theme was rewritten to `ast`.
pub open spec fn create_theme_rewritten(
    pre: StateManager,
    post: StateManager,
    call: CallExprView,
    compiled: (Seq<Slot>, Seq<ClassStyle>),
    ast: ExprView,
) -> bool {
    &&& ast == slots_expr(compiled.0)
    &&& registered(
        pre,
        post,
        call,
        first_of_each_class(compiled.1),
        ast,
        initialised_name(decls_view(pre.declarations@), ExprView::Call(call)),
    )
}

/// What rewriting a call that creates a theme gives, and what it does to
/// the state. A call that creates none is left alone; where the call
/// cannot be compiled, the diagnostic comes with the place of the call.
/// In both cases the state is as before.
pub open spec fn create_theme_transformed(
    pre: StateManager,
    post: StateManager,
    call: CallExprView,
    r: Result<Option<Expr>, Diagnostic>,
) -> bool {
    if !calls_library(
        call,
        pre.stylex_create_theme_import@,
        pre.stylex_import.order(),
        "createTheme"@,
    ) {
        r == Ok::<Option<Expr>, Diagnostic>(None) && post == pre
    } else {
        match create_theme_compiled(pre, call) {
            Err(d) => r == Err::<Option<Expr>, Diagnostic>(at_call(d, call)) && post == pre,
            Ok(compiled) => r matches Ok(Some(ast)) && create_theme_rewritten(
                pre,
                post,
                call,
                compiled,
                ast@,
            ),
        }
    }
}

impl ModuleTransformVisitor {
    /// Rewrites a call that creates a theme: the call gives way to an
    /// object literal that holds the class of the override under the class
    /// of the theme. A call that creates none is left alone; where the
    /// call cannot be compiled, the diagnostic is returned with the place
    /// of the call, and the state is as before.
    pub fn transform_stylex_create_theme_call(&mut self, call: &CallExpr) -> (r: Result<
        Option<Expr>,
        Diagnostic,
    >)
        ensures
            final(self).cycle == old(self).cycle,
            final(self).props_declaration == old(self).props_declaration,
            final(self).declaration == old(self).declaration,
            final(self).runtime_injection == old(self).runtime_injection,
            create_theme_transformed(old(self).state, final(self).state, call@, r),
    {
        proof {
            lemma_call_view(*call);
        }
        if !call_is_of(
            call,
            &self.state.stylex_create_theme_import,
            &self.state.stylex_import,
            "createTheme",
        ) {
            return Ok(None);
        }
        match compile_create_theme(&self.state, call) {
            Err(d) => Err(d.at(call.span)),
            Ok((overrides_obj, inject_styles)) => {
                let result_ast = slots_to_ast(&overrides_obj);
                let target = Expr::Call(clone_call(call));
                proof {
                    lemma_call_view(target->Call_0);
                }
                let var_name = match find_parent_decl(&self.state.declarations, &target) {
                    Some(decl) => match &decl.name {
                        Pat::Ident(id) => Some(id.sym.clone()),
                        Pat::Other => None,
                    },
                    None => None,
                };
                self.state.register_styles(call, &inject_styles, &result_ast, &var_name);
                Ok(Some(result_ast))
            },
        }
    }
}

/// What a call that creates styles is evaluated in.
pub open spec fn create_scope(state: StateManager) -> ScopeView {
    ScopeView {
        decls: decls_view(state.declarations@),
        functions: crate::visitor::create_functions(state),
        computed: state.computed@,
    }
}

/// The computation for which one of the first `n` arguments waits, where
/// one does: each argument is looked at as an argument of a call that
/// creates styles, then as one of a call that defines a theme.
pub open spec fn wanted_in(
    args: Seq<crate::ast::ExprOrSpreadView>,
    n: nat,
    first: ScopeView,
    second: ScopeView,
) -> Option<(crate::ast::BinaryOp, crate::number::Number, crate::number::Number)>
    decreases n,
{
    if n == 0 || n > args.len() {
        None
    } else {
        match wanted_in(args, (n - 1) as nat, first, second) {
            Some(w) => Some(w),
            None => match crate::evaluate::wanted(*args[n - 1].expr, first) {
                Some(w) => Some(w),
                None => crate::evaluate::wanted(*args[n - 1].expr, second),
            },
        }
    }
}

impl ModuleTransformVisitor {
    /// The computation for which the rewriting of a call waits: where a
    /// call is rejected because an argument has no static value, and the
    /// evaluation of the argument stopped at an arithmetic operator of
    /// which the library has no result, the host computes the result, adds
    /// it to `computed` in the state, and rewrites the call again.
    pub fn wanted_computation(&self, call: &CallExpr) -> (r: Option<
        (crate::ast::BinaryOp, crate::number::Number, crate::number::Number),
    >)
        ensures
            r == wanted_in(call@.args, call@.args.len(), create_scope(self.state), theme_scope(self.state)),
    {
        proof {
            lemma_call_view(*call);
        }
        let functions = crate::visitor::create_function_map(&self.state);
        let first = Scope { decls: &self.state.declarations, functions: &functions, computed: &self.state.computed };
        assert(first@.decls =~= decls_view(self.state.declarations@));
        assert(first@ == create_scope(self.state));
        let decls = theme_scope_decls(&self.state);
        let theme = theme_function_map(&self.state);
        let second = Scope { decls: &decls, functions: &theme, computed: &self.state.computed };
        assert(second@.decls =~= theme_scope(self.state).decls);
        assert(second@ == theme_scope(self.state));
        let ghost args = call@.args;
        let mut i: usize = 0;
        while i < call.args.len()
            invariant
                i <= call.args.len(),
                args == elems_view(call.args@),
                args == call@.args,
                first@ == create_scope(self.state),
                second@ == theme_scope(self.state),
                wanted_in(args, i as nat, first@, second@) is None,
            decreases call.args.len() - i,
        {
            assert(args[i as int] == call.args[i as int]@);
            let found = match crate::evaluate::wanted_computation(&call.args[i].expr, &first) {
                Some(w) => Some(w),
                None => crate::evaluate::wanted_computation(&call.args[i].expr, &second),
            };
            if found.is_some() {
                proof {
                    lemma_wanted_in_stays(args, (i + 1) as nat, call.args.len() as nat, first@, second@);
                }
                return found;
            }
            i += 1;
        }
        None
    }
}

/// The first computation that is waited for stays the first however many
/// arguments follow.
proof fn lemma_wanted_in_stays(
    args: Seq<crate::ast::ExprOrSpreadView>,
    i: nat,
    n: nat,
    first: ScopeView,
    second: ScopeView,
)
    requires
        i <= n <= args.len(),
        wanted_in(args, i, first, second) is Some,
    ensures
        wanted_in(args, n, first, second) == wanted_in(args, i, first, second),
    decreases n,
{
    if i < n {
        lemma_wanted_in_stays(args, i, (n - 1) as nat, first, second);
    }
}

} // verus!
