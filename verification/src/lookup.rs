//! Looking things up in the state: declarations, imports, counts of
//! references, and the expressions at the top level.
use vstd::prelude::*;
use crate::ast::{
    decls_view, items_view, lemma_call_view, top_level_view, CallExpr, Expr, ExprView, Id,
    ImportDecl, ImportDeclView, ImportSpecifier, ImportSpecifierView, MemberProp, MemberPropView,
    Module, ModuleItem, ModuleItemView, Pat, PatView, TopLevelExpression, TopLevelExpressionKind,
    TopLevelExpressionView, VarDeclarator, VarDeclaratorView,
};
use crate::collections::{key_index, put_pair, OrderedMap};
use crate::compare::{same_call, same_expr};
use crate::evaluate::{declares, find_decl, find_declarator};
use crate::functions::{function_of, FunctionBindingView, FunctionMap};
use crate::state::StateManager;
use crate::text::str_eq;
use crate::value::{Function, FunctionView};

verus! {

/// What is done to the count of a variable when it is looked up.
#[derive(Clone, Copy, Debug, PartialEq, Eq, Structural)]
pub enum VarDeclAction {
    Increase,
    Reduce,
    /// The count stays as it is.
    Keep,
}

/// The count under a binding; zero where there is none.
pub open spec fn count_of(pairs: Seq<((Seq<char>, u32), i8)>, id: (Seq<char>, u32)) -> int {
    let i = key_index(pairs, id);
    if 0 <= i < pairs.len() {
        pairs[i].1 as int
    } else {
        0
    }
}

/// The count as it is held: itself, or the nearest that can be held.
pub open spec fn held_count(v: int) -> i8 {
    if v > i8::MAX {
        i8::MAX
    } else if v < i8::MIN {
        i8::MIN
    } else {
        v as i8
    }
}

/// The counts after `delta` was added to the count of a binding.
pub open spec fn counted(pairs: Seq<((Seq<char>, u32), i8)>, id: (Seq<char>, u32), delta: int) -> Seq<
    ((Seq<char>, u32), i8),
> {
    put_pair(pairs, id, held_count(count_of(pairs, id) + delta))
}

/// Adds `delta` to the count of a binding.
pub fn add_count(counts: &mut OrderedMap<Id, i8>, ident: &Id, delta: i8)
    ensures
        final(counts).pairs() == counted(old(counts).pairs(), ident@, delta as int),
{
    let current: i8 = match counts.get(ident) {
        Some(c) => *c,
        None => 0,
    };
    let sum: i16 = current as i16 + delta as i16;
    let next: i8 = if sum > 127 {
        127
    } else if sum < -128 {
        -128
    } else {
        sum as i8
    };
    counts.insert(ident.clone(), next);
}

/// Counts one reference less to the variable.
pub fn reduce_ident_count(state: &mut StateManager, ident: &Id)
    ensures
        final(state).var_decl_count_map.pairs() == counted(
            old(state).var_decl_count_map.pairs(),
            ident@,
            -1,
        ),
        *final(state) == (StateManager {
            var_decl_count_map: final(state).var_decl_count_map,
            ..*old(state)
        }),
{
    add_count(&mut state.var_decl_count_map, ident, -1);
}

/// Counts one reference more to the variable.
pub fn increase_ident_count(state: &mut StateManager, ident: &Id)
    ensures
        final(state).var_decl_count_map.pairs() == counted(
            old(state).var_decl_count_map.pairs(),
            ident@,
            1,
        ),
        *final(state) == (StateManager {
            var_decl_count_map: final(state).var_decl_count_map,
            ..*old(state)
        }),
{
    increase_ident_count_by_count(state, ident, 1);
}

/// Counts `count` references more to the variable.
pub fn increase_ident_count_by_count(state: &mut StateManager, ident: &Id, count: i8)
    ensures
        final(state).var_decl_count_map.pairs() == counted(
            old(state).var_decl_count_map.pairs(),
            ident@,
            count as int,
        ),
        *final(state) == (StateManager {
            var_decl_count_map: final(state).var_decl_count_map,
            ..*old(state)
        }),
{
    add_count(&mut state.var_decl_count_map, ident, count);
}

/// The first declarator of the variable's symbol.
pub fn get_var_decl_from<'a>(state: &'a StateManager, ident: &Id) -> (found: Option<&'a VarDeclarator>)
    ensures
        match found {
            Some(d) => 0 <= find_decl(decls_view(state.declarations@), ident@.0)
                < state.declarations.len() && d@ == decls_view(state.declarations@)[find_decl(
                decls_view(state.declarations@),
                ident@.0,
            )],
            None => find_decl(decls_view(state.declarations@), ident@.0)
                == state.declarations.len(),
        },
{
    assert(decls_view(state.declarations@) =~= Seq::new(
        state.declarations.len() as nat,
        |i: int| state.declarations[i]@,
    ));
    match find_declarator(&state.declarations, ident.sym.as_str()) {
        Some(i) => Some(&state.declarations[i]),
        None => None,
    }
}

/// The declarator that the lookup of a variable gives: the first
/// declarator of its symbol, or, where nothing declares it and it is bound
/// to a mapper, a declarator of the variable with the mapper's expression.
pub open spec fn var_decl_of(
    decls: Seq<VarDeclaratorView>,
    functions: Seq<FunctionBindingView>,
    id: (Seq<char>, u32),
) -> Option<VarDeclaratorView> {
    let i = find_decl(decls, id.0);
    if 0 <= i < decls.len() {
        Some(decls[i])
    } else {
        match function_of(functions, id) {
            Some(FunctionView::Mapper(e)) => Some(
                VarDeclaratorView { name: PatView::Ident(id), init: Some(e) },
            ),
            _ => None,
        }
    }
}

/// The delta that an action adds to the count.
pub open spec fn action_delta(action: VarDeclAction) -> int {
    match action {
        VarDeclAction::Increase => 1,
        VarDeclAction::Reduce => -1,
        VarDeclAction::Keep => 0,
    }
}

/// Looks a variable up and counts the lookup as the action says.
pub fn get_var_decl_by_ident(
    ident: &Id,
    state: &mut StateManager,
    functions: &FunctionMap,
    action: VarDeclAction,
) -> (found: Option<VarDeclarator>)
    ensures
        match var_decl_of(decls_view(old(state).declarations@), functions@, ident@) {
            Some(d) => found is Some && found->0@ == d,
            None => found is None,
        },
        final(state).var_decl_count_map.pairs() == if action == VarDeclAction::Keep {
            old(state).var_decl_count_map.pairs()
        } else {
            counted(old(state).var_decl_count_map.pairs(), ident@, action_delta(action))
        },
        *final(state) == (StateManager {
            var_decl_count_map: final(state).var_decl_count_map,
            ..*old(state)
        }),
{
    match action {
        VarDeclAction::Increase => increase_ident_count(state, ident),
        VarDeclAction::Reduce => reduce_ident_count(state, ident),
        VarDeclAction::Keep => {},
    }
    match get_var_decl_from(state, ident) {
        Some(var_decl) => Some(var_decl.clone()),
        None => match functions.function(ident) {
            Some(Function::Mapper(e)) => Some(
                VarDeclarator {
                    name: Pat::Ident(ident.clone()),
                    init: Some(Box::new(crate::ast::clone_expr(e))),
                },
            ),
            _ => None,
        },
    }
}

/// The specifier binds the symbol: as its local name, or, for a named
/// import, as the name it imports.
pub open spec fn binds(specifier: ImportSpecifierView, sym: Seq<char>) -> bool {
    match specifier {
        ImportSpecifierView::Named { local, imported } => local.0 == sym || imported == Some(sym),
        ImportSpecifierView::Default(local) => local.0 == sym,
        ImportSpecifierView::Namespace(local) => local.0 == sym,
    }
}

/// The import declaration binds the symbol.
pub open spec fn imports(decl: ImportDeclView, sym: Seq<char>) -> bool {
    exists|i: int| 0 <= i < decl.specifiers.len() && binds(#[trigger] decl.specifiers[i], sym)
}

/// The position of the first import declaration that binds the symbol;
/// the length where there is none.
pub open spec fn find_import(decls: Seq<ImportDeclView>, sym: Seq<char>) -> int
    decreases decls.len(),
{
    if decls.len() == 0 {
        0
    } else if imports(decls[0], sym) {
        0
    } else {
        1 + find_import(decls.drop_first(), sym)
    }
}

/// The views of a list of import declarations.
pub open spec fn imports_view(decls: Seq<ImportDecl>) -> Seq<ImportDeclView> {
    Seq::new(decls.len(), |i: int| decls[i]@)
}

/// Whether the import declaration binds the symbol.
pub fn import_binds(decl: &ImportDecl, sym: &str) -> (yes: bool)
    ensures
        yes == imports(decl@, sym@),
{
    let mut i: usize = 0;
    while i < decl.specifiers.len()
        invariant
            i <= decl.specifiers.len(),
            forall|j: int| 0 <= j < i ==> !binds(#[trigger] decl@.specifiers[j], sym@),
        decreases decl.specifiers.len() - i,
    {
        let hit = match &decl.specifiers[i] {
            ImportSpecifier::Named { local, imported } => str_eq(local.sym.as_str(), sym) || match imported {
                Some(name) => str_eq(name.as_str(), sym),
                None => false,
            },
            ImportSpecifier::Default(local) => str_eq(local.sym.as_str(), sym),
            ImportSpecifier::Namespace(local) => str_eq(local.sym.as_str(), sym),
        };
        assert(decl@.specifiers[i as int] == decl.specifiers[i as int]@);
        if hit {
            return true;
        }
        i += 1;
    }
    false
}

/// The first import declaration that binds the variable's symbol.
pub fn get_import_from<'a>(state: &'a StateManager, ident: &Id) -> (found: Option<&'a ImportDecl>)
    ensures
        match found {
            Some(d) => 0 <= find_import(imports_view(state.top_imports@), ident@.0)
                < state.top_imports.len() && d@ == imports_view(state.top_imports@)[find_import(
                imports_view(state.top_imports@),
                ident@.0,
            )],
            None => find_import(imports_view(state.top_imports@), ident@.0)
                == state.top_imports.len(),
        },
{
    let ghost all = imports_view(state.top_imports@);
    let mut i: usize = 0;
    assert(all.skip(0) =~= all);
    while i < state.top_imports.len()
        invariant
            i <= state.top_imports.len(),
            all == imports_view(state.top_imports@),
            find_import(all, ident@.0) == i + find_import(all.skip(i as int), ident@.0),
        decreases state.top_imports.len() - i,
    {
        assert(all.skip(i as int)[0] == state.top_imports[i as int]@);
        if import_binds(&state.top_imports[i], ident.sym.as_str()) {
            return Some(&state.top_imports[i]);
        }
        assert(all.skip(i as int).drop_first() =~= all.skip(i + 1));
        i += 1;
    }
    None
}

/// A copy of the first import declaration that binds the variable's
/// symbol.
pub fn get_import_by_ident(ident: &Id, state: &StateManager) -> (found: Option<ImportDecl>)
    ensures
        match found {
            Some(d) => 0 <= find_import(imports_view(state.top_imports@), ident@.0)
                < state.top_imports.len() && d@ == imports_view(state.top_imports@)[find_import(
                imports_view(state.top_imports@),
                ident@.0,
            )],
            None => find_import(imports_view(state.top_imports@), ident@.0)
                == state.top_imports.len(),
        },
{
    match get_import_from(state, ident) {
        Some(decl) => Some(decl.clone()),
        None => None,
    }
}

/// The declarator declares the symbol, or is initialised with a call of a
/// member of that name.
pub open spec fn declares_or_calls(d: VarDeclaratorView, sym: Seq<char>) -> bool {
    declares(d, sym) || match d.init {
        Some(ExprView::Call(call)) => match *call.callee {
            ExprView::Member { obj, prop } => prop == MemberPropView::Ident(sym),
            _ => false,
        },
        _ => false,
    }
}

/// The position of the first declarator that declares the symbol or
/// calls a member of that name; the length where there is none.
pub open spec fn find_decl_or_member(decls: Seq<VarDeclaratorView>, sym: Seq<char>) -> int
    decreases decls.len(),
{
    if decls.len() == 0 {
        0
    } else if declares_or_calls(decls[0], sym) {
        0
    } else {
        1 + find_decl_or_member(decls.drop_first(), sym)
    }
}

/// Whether the declarator declares the symbol or calls a member of that
/// name.
pub fn decl_declares_or_calls(d: &VarDeclarator, sym: &str) -> (yes: bool)
    ensures
        yes == declares_or_calls(d@, sym@),
{
    let named = match &d.name {
        Pat::Ident(id) => str_eq(id.sym.as_str(), sym),
        Pat::Other => false,
    };
    if named {
        return true;
    }
    match &d.init {
        Some(init) => match &**init {
            Expr::Call(call) => {
                proof {
                    lemma_call_view(*call);
                }
                match &*call.callee {
                    Expr::Member { obj, prop } => {
                        assert(call.callee@ == ExprView::Member { obj: Box::new(obj@), prop: prop@ });
                        match prop {
                            MemberProp::Ident(name) => str_eq(name.as_str(), sym),
                            MemberProp::Computed(_) => false,
                        }
                    },
                    _ => false,
                }
            },
            _ => false,
        },
        None => false,
    }
}

/// The first declarator that declares the variable's symbol or is
/// initialised with a call of a member of that name.
pub fn get_var_decl_by_ident_or_member<'a>(state: &'a StateManager, ident: &Id) -> (found: Option<
    &'a VarDeclarator,
>)
    ensures
        match found {
            Some(d) => 0 <= find_decl_or_member(decls_view(state.declarations@), ident@.0)
                < state.declarations.len() && d@ == decls_view(
                state.declarations@,
            )[find_decl_or_member(decls_view(state.declarations@), ident@.0)],
            None => find_decl_or_member(decls_view(state.declarations@), ident@.0)
                == state.declarations.len(),
        },
{
    let ghost all = decls_view(state.declarations@);
    let mut i: usize = 0;
    assert(all.skip(0) =~= all);
    while i < state.declarations.len()
        invariant
            i <= state.declarations.len(),
            all == decls_view(state.declarations@),
            find_decl_or_member(all, ident@.0) == i + find_decl_or_member(
                all.skip(i as int),
                ident@.0,
            ),
        decreases state.declarations.len() - i,
    {
        assert(all.skip(i as int)[0] == state.declarations[i as int]@);
        if decl_declares_or_calls(&state.declarations[i], ident.sym.as_str()) {
            return Some(&state.declarations[i]);
        }
        assert(all.skip(i as int).drop_first() =~= all.skip(i + 1));
        i += 1;
    }
    None
}

/// What a declarator is initialised with.
pub fn get_expr_from_var_decl(var_decl: &VarDeclarator) -> (init: Expr)
    requires
        var_decl.init is Some,
    ensures
        Some(init@) == var_decl@.init,
{
    match &var_decl.init {
        Some(e) => crate::ast::clone_expr(e),
        None => vstd::pervasive::unreached(),
    }
}

/// The holes of a template literal with each variable that has an
/// initialiser giving way to it.
pub open spec fn filled_holes(
    exprs: Seq<ExprView>,
    decls: Seq<VarDeclaratorView>,
    functions: Seq<FunctionBindingView>,
) -> Seq<ExprView> {
    Seq::new(
        exprs.len(),
        |i: int|
            match exprs[i] {
                ExprView::Ident(id) => match var_decl_of(decls, functions, id) {
                    Some(d) => match d.init {
                        Some(init) => init,
                        None => exprs[i],
                    },
                    None => exprs[i],
                },
                other => other,
            },
    )
}

/// The counts after one reference less was counted to each variable
/// among the first `n` holes.
pub open spec fn holes_counted(pairs: Seq<((Seq<char>, u32), i8)>, exprs: Seq<ExprView>, n: nat) -> Seq<
    ((Seq<char>, u32), i8),
>
    decreases n,
{
    if n == 0 || n > exprs.len() {
        pairs
    } else {
        let before = holes_counted(pairs, exprs, (n - 1) as nat);
        match exprs[n - 1] {
            ExprView::Ident(id) => counted(before, id, -1),
            _ => before,
        }
    }
}

/// The template literal with each hole that is a variable giving way to
/// what the variable is initialised with; every variable among the holes
/// is counted as looked up once.
pub fn handle_tpl_to_expression(
    quasis: &Vec<String>,
    exprs: &Vec<Expr>,
    state: &mut StateManager,
    functions: &FunctionMap,
) -> (tpl: Expr)
    ensures
        tpl@ == (ExprView::Tpl {
            quasis: crate::text::views(quasis@),
            exprs: filled_holes(
                crate::ast::exprs_view(exprs@),
                decls_view(old(state).declarations@),
                functions@,
            ),
        }),
        final(state).var_decl_count_map.pairs() == holes_counted(
            old(state).var_decl_count_map.pairs(),
            crate::ast::exprs_view(exprs@),
            exprs.len() as nat,
        ),
        *final(state) == (StateManager {
            var_decl_count_map: final(state).var_decl_count_map,
            ..*old(state)
        }),
{
    let ghost all = crate::ast::exprs_view(exprs@);
    let ghost wanted = filled_holes(all, decls_view(state.declarations@), functions@);
    let mut filled: Vec<Expr> = Vec::new();
    let mut i: usize = 0;
    while i < exprs.len()
        invariant
            i <= exprs.len(),
            all == crate::ast::exprs_view(exprs@),
            wanted == filled_holes(all, decls_view(old(state).declarations@), functions@),
            filled.len() == i,
            forall|j: int| 0 <= j < i ==> (#[trigger] filled[j])@ == wanted[j],
            state.var_decl_count_map.pairs() == holes_counted(
                old(state).var_decl_count_map.pairs(),
                all,
                i as nat,
            ),
            *state == (StateManager { var_decl_count_map: state.var_decl_count_map, ..*old(state) }),
        decreases exprs.len() - i,
    {
        assert(all[i as int] == exprs[i as int]@);
        let hole = match &exprs[i] {
            Expr::Ident(id) => match get_var_decl_by_ident(id, state, functions, VarDeclAction::Reduce) {
                Some(decl) => match &decl.init {
                    Some(init) => crate::ast::clone_expr(init),
                    None => crate::ast::clone_expr(&exprs[i]),
                },
                None => crate::ast::clone_expr(&exprs[i]),
            },
            other => crate::ast::clone_expr(other),
        };
        filled.push(hole);
        i += 1;
    }
    let tpl = Expr::Tpl { quasis: crate::ast::clone_strings(quasis), exprs: filled };
    assert(tpl@->Tpl_quasis =~= crate::text::views(quasis@));
    assert(tpl@->Tpl_exprs =~= wanted);
    tpl
}

} // verus!
