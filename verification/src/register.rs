//! Registering the styles of a rewritten call with the state.
use vstd::prelude::*;
use indexmap::IndexMap;
use crate::ast::{
    clone_call, clone_expr, decls_view, items_view, lemma_call_view, top_level_view, CallExpr,
    CallExprView, Expr, ExprView, Id, ModuleItem, ModuleItemView, Pat, PatView,
    TopLevelExpression, TopLevelExpressionKind, TopLevelExpressionView, VarDeclarator,
    VarDeclaratorView,
};
use crate::collections::{key_index, lemma_key_index, Member, OrderedMap};
use crate::compare::{same_call_ignoring_spans, same_expr, spanless_call};
use crate::inject::{
    add_inject_default_import_expression, add_inject_named_import_expression,
    add_inject_var_decl_expression, default_import_item, inject_call, inject_statement,
    named_import_item, uid_name, var_decl_item, UidGenerator,
};
use crate::injected::{
    class_index, first_of_each_class, has_class, injected_entries, injected_len,
    metadata_get_index, metadata_index_of, metadata_insert, metadata_len, styles_by_variable,
    with_class, ClassStyle,
};
use crate::options::RuntimeInjectionState;
use crate::rule::InjectableStyle;
use crate::state::{metadata_views, MetaData, StateManager};
use crate::text::{str_eq, views};

verus! {

/// The styles of each variable, by the variable's name.
pub type MetaPairs = Seq<(Seq<char>, Seq<ClassStyle>)>;

/// The statements to inject for each rewritten expression.
pub type InjectPairs = Seq<(ExprView, Seq<ModuleItemView>)>;

/// The styles that the state holds for each variable.
pub open spec fn metadata_pairs(m: IndexMap<String, Vec<MetaData>>) -> MetaPairs {
    styles_by_variable(m)
}

/// What a map of queued statements holds: the rewritten expressions, each
/// with the statements queued under it, in the order of the map. The map
/// tells its keys apart by the equality and the hash that are derived for
/// expressions; two expressions are equal by them exactly where their
/// views are.
pub uninterp spec fn queued_statements(m: IndexMap<Expr, Vec<ModuleItem>>) -> Seq<
    (ExprView, Seq<ModuleItemView>),
>;

/// `IndexMap::new`: a map that holds nothing.
#[verifier::external_body]
pub(crate) fn queue_new() -> (m: IndexMap<Expr, Vec<ModuleItem>>)
    ensures
        queued_statements(m) == Seq::<(ExprView, Seq<ModuleItemView>)>::empty(),
{
    IndexMap::new()
}

/// `IndexMap::len`: the number of entries.
#[verifier::external_body]
pub(crate) fn queue_len(m: &IndexMap<Expr, Vec<ModuleItem>>) -> (n: usize)
    ensures
        n == queued_statements(*m).len(),
{
    m.len()
}

/// `IndexMap::get_index_of`: the position of the entry that has the key,
/// where one has it.
#[verifier::external_body]
pub(crate) fn queue_index_of(m: &IndexMap<Expr, Vec<ModuleItem>>, ast: &Expr) -> (at: Option<usize>)
    ensures
        match at {
            Some(i) => i < queued_statements(*m).len() && i == key_index(queued_statements(*m), ast@),
            None => key_index(queued_statements(*m), ast@) == queued_statements(*m).len(),
        },
{
    m.get_index_of(ast)
}

/// `IndexMap::get_index`: the entry at a position of the order, where the
/// position is below the number of entries.
#[verifier::external_body]
pub(crate) fn queue_get_index(m: &IndexMap<Expr, Vec<ModuleItem>>, index: usize) -> (entry: Option<
    (&Expr, &Vec<ModuleItem>),
>)
    ensures
        match entry {
            Some((ast, items)) => index < queued_statements(*m).len() && ast@ == queued_statements(
                *m,
            )[index as int].0 && items_view(items@) == queued_statements(*m)[index as int].1,
            None => index >= queued_statements(*m).len(),
        },
{
    m.get_index(index)
}

/// `IndexMap::insert`: where no entry has the key, the new entry comes
/// last; where one has it, that entry stays in its place with the new
/// value.
#[verifier::external_body]
pub(crate) fn queue_insert(m: &mut IndexMap<Expr, Vec<ModuleItem>>, ast: Expr, items: Vec<ModuleItem>)
    ensures
        queued_statements(*final(m)) == crate::collections::put_pair(
            queued_statements(*old(m)),
            ast@,
            items_view(items@),
        ),
{
    m.insert(ast, items);
}

/// The statements that the state holds for each rewritten expression.
pub open spec fn inject_pairs(m: IndexMap<Expr, Vec<ModuleItem>>) -> InjectPairs {
    queued_statements(m)
}

/// The styles with one more under the variable: after those that the
/// variable has, unless one of them has its class.
pub open spec fn styled(pairs: MetaPairs, var_name: Seq<char>, style: ClassStyle) -> MetaPairs {
    let i = key_index(pairs, var_name);
    if 0 <= i < pairs.len() {
        pairs.update(i, (var_name, with_class(pairs[i].1, style)))
    } else {
        pairs.push((var_name, seq![style]))
    }
}

/// The statements with one more under the expression.
pub open spec fn queued(pairs: InjectPairs, ast: ExprView, item: ModuleItemView) -> InjectPairs {
    let i = key_index(pairs, ast);
    if 0 <= i < pairs.len() {
        pairs.update(i, (ast, pairs[i].1.push(item)))
    } else {
        pairs.push((ast, seq![item]))
    }
}

/// The styles after each of the first `n` of `styles` was added under the
/// variable.
pub open spec fn styled_all(pairs: MetaPairs, var_name: Seq<char>, styles: Seq<ClassStyle>, n: nat) -> MetaPairs
    decreases n,
{
    if n == 0 || n > styles.len() {
        pairs
    } else {
        styled(styled_all(pairs, var_name, styles, (n - 1) as nat), var_name, styles[n - 1])
    }
}

/// Whether a style of the class is held under one of the variables.
pub open spec fn class_registered(pairs: MetaPairs, class_name: Seq<char>) -> bool {
    exists|i: int| 0 <= i < pairs.len() && has_class((#[trigger] pairs[i]).1, class_name)
}

/// The statements after a style was met: the call of the helper for it
/// is queued under the expression, unless a style of its class is held
/// already, under whatever variable. So the helper is called once for
/// each class, for the style that came first.
pub open spec fn queued_once(
    held: MetaPairs,
    pairs: InjectPairs,
    ast: ExprView,
    style: ClassStyle,
    helper: (Seq<char>, u32),
) -> InjectPairs {
    if class_registered(held, style.0) {
        pairs
    } else {
        queued(pairs, ast, inject_statement(style.1, helper))
    }
}

/// The statements after each of the first `n` of `styles` was met in
/// turn and then added under the variable.
pub open spec fn queued_all(
    held: MetaPairs,
    pairs: InjectPairs,
    var_name: Seq<char>,
    ast: ExprView,
    styles: Seq<ClassStyle>,
    helper: (Seq<char>, u32),
    n: nat,
) -> InjectPairs
    decreases n,
{
    if n == 0 || n > styles.len() {
        pairs
    } else {
        queued_once(
            styled_all(held, var_name, styles, (n - 1) as nat),
            queued_all(held, pairs, var_name, ast, styles, helper, (n - 1) as nat),
            ast,
            styles[n - 1],
            helper,
        )
    }
}

/// Once a style was added under a variable its class is held, so a
/// later style of that class queues nothing: the statements stay as they
/// are.
pub proof fn lemma_queued_once_per_class(
    held: MetaPairs,
    pairs: InjectPairs,
    var_name: Seq<char>,
    first: ClassStyle,
    ast: ExprView,
    later: ClassStyle,
    helper: (Seq<char>, u32),
)
    requires
        later.0 == first.0,
    ensures
        class_registered(styled(held, var_name, first), first.0),
        queued_once(styled(held, var_name, first), pairs, ast, later, helper) == pairs,
{
    let after = styled(held, var_name, first);
    let i = key_index(held, var_name);
    lemma_key_index(held, var_name);
    if 0 <= i < held.len() {
        crate::injected::lemma_has_class_push(held[i].1, first, first.0);
        assert(has_class(after[i].1, first.0));
    } else {
        crate::injected::lemma_has_class_push(Seq::<ClassStyle>::empty(), first, first.0);
        assert(seq![first] =~= Seq::<ClassStyle>::empty().push(first));
        assert(has_class(after[held.len() as int].1, first.0));
    }
}

/// A class that is held stays held when a style is added.
pub proof fn lemma_styled_keeps_classes(
    held: MetaPairs,
    var_name: Seq<char>,
    style: ClassStyle,
    class_name: Seq<char>,
)
    requires
        class_registered(held, class_name),
    ensures
        class_registered(styled(held, var_name, style), class_name),
{
    let after = styled(held, var_name, style);
    let k = choose|k: int| 0 <= k < held.len() && has_class((#[trigger] held[k]).1, class_name);
    let i = key_index(held, var_name);
    if 0 <= i < held.len() && i == k {
        if !has_class(held[i].1, style.0) {
            crate::injected::lemma_has_class_push(held[i].1, style, class_name);
        }
        assert(has_class(after[k].1, class_name));
    } else {
        assert(after[k] == held[k]);
        assert(has_class(after[k].1, class_name));
    }
}

/// After styles were added under a variable, the class of each of them
/// is held: none of them queues a statement again.
pub proof fn lemma_styled_all_holds(
    held: MetaPairs,
    var_name: Seq<char>,
    styles: Seq<ClassStyle>,
    n: nat,
    k: int,
)
    requires
        0 <= k < n <= styles.len(),
    ensures
        class_registered(styled_all(held, var_name, styles, n), styles[k].0),
    decreases n,
{
    let before = styled_all(held, var_name, styles, (n - 1) as nat);
    if k == n - 1 {
        lemma_queued_once_per_class(
            before,
            Seq::empty(),
            var_name,
            styles[k],
            ExprView::Other,
            styles[k],
            (Seq::empty(), 0u32),
        );
    } else {
        lemma_styled_all_holds(held, var_name, styles, (n - 1) as nat, k);
        lemma_styled_keeps_classes(before, var_name, styles[n - 1], styles[k].0);
    }
}

/// The position of a key depends on the keys alone.
pub proof fn lemma_key_index_by_keys<K, V, W>(a: Seq<(K, V)>, b: Seq<(K, W)>, key: K)
    requires
        a.len() == b.len(),
        forall|i: int| 0 <= i < a.len() ==> (#[trigger] a[i]).0 == (#[trigger] b[i]).0,
    ensures
        key_index(a, key) == key_index(b, key),
    decreases a.len(),
{
    if a.len() > 0 {
        assert(a[0].0 == b[0].0);
        if a[0].0 != key {
            assert forall|i: int| 0 <= i < a.drop_first().len() implies (#[trigger] a.drop_first()[i]).0
                == (#[trigger] b.drop_first()[i]).0 by {
                assert(a[i + 1].0 == b[i + 1].0);
            }
            lemma_key_index_by_keys(a.drop_first(), b.drop_first(), key);
        }
    }
}

/// Whether one of the styles has the class.
pub fn contains_class(list: &Vec<MetaData>, class_name: &str) -> (yes: bool)
    ensures
        yes == has_class(metadata_views(list@), class_name@),
{
    let ghost all = metadata_views(list@);
    let mut i: usize = 0;
    assert(all.skip(0) =~= all);
    while i < list.len()
        invariant
            i <= list.len(),
            all == metadata_views(list@),
            class_index(all, class_name@) == i + class_index(all.skip(i as int), class_name@),
        decreases list.len() - i,
    {
        assert(all.skip(i as int)[0] == list[i as int]@);
        if str_eq(list[i].class_name.as_str(), class_name) {
            return true;
        }
        assert(all.skip(i as int).drop_first() =~= all.skip(i + 1));
        i += 1;
    }
    false
}

/// Whether a style of the class is held under one of the variables.
pub fn holds_class(metadata_map: &IndexMap<String, Vec<MetaData>>, class_name: &str) -> (yes: bool)
    ensures
        yes == class_registered(metadata_pairs(*metadata_map), class_name@),
{
    let ghost pairs = metadata_pairs(*metadata_map);
    let n = metadata_len(metadata_map);
    let mut i: usize = 0;
    while i < n
        invariant
            i <= n,
            n == pairs.len(),
            pairs == metadata_pairs(*metadata_map),
            forall|j: int| 0 <= j < i ==> !has_class((#[trigger] pairs[j]).1, class_name@),
        decreases n - i,
    {
        match metadata_get_index(metadata_map, i) {
            Some((_, styles)) => {
                if contains_class(styles, class_name) {
                    assert(has_class(pairs[i as int].1, class_name@));
                    return true;
                }
            },
            None => {},
        }
        i += 1;
    }
    false
}

/// A copy of a list of styles.
fn clone_styles_list(list: &Vec<MetaData>) -> (copy: Vec<MetaData>)
    ensures
        metadata_views(copy@) == metadata_views(list@),
{
    let mut copy: Vec<MetaData> = Vec::new();
    let mut i: usize = 0;
    while i < list.len()
        invariant
            i <= list.len(),
            copy.len() == i,
            forall|j: int| 0 <= j < i ==> (#[trigger] copy[j])@ == list[j]@,
        decreases list.len() - i,
    {
        copy.push(list[i].clone());
        i += 1;
    }
    assert(metadata_views(copy@) =~= metadata_views(list@));
    copy
}

/// Adds a style under a variable, unless the variable has a style of its
/// class already.
pub fn add_style_to(metadata_map: &mut IndexMap<String, Vec<MetaData>>, var_name: String, metadata: MetaData)
    ensures
        metadata_pairs(*final(metadata_map)) == styled(
            metadata_pairs(*old(metadata_map)),
            var_name@,
            metadata@,
        ),
{
    let ghost before = metadata_pairs(*metadata_map);
    proof {
        lemma_key_index(before, var_name@);
    }
    match metadata_index_of(metadata_map, var_name.as_str()) {
        Some(i) => {
            let held = match metadata_get_index(metadata_map, i) {
                Some((_, styles)) => {
                    if contains_class(styles, metadata.class_name.as_str()) {
                        None
                    } else {
                        Some(clone_styles_list(styles))
                    }
                },
                None => None,
            };
            match held {
                Some(list) => {
                    let mut list = list;
                    let ghost was = metadata_views(list@);
                    list.push(metadata);
                    assert(metadata_views(list@) =~= was.push(metadata@));
                    metadata_insert(metadata_map, var_name, list);
                    assert(metadata_pairs(*metadata_map) =~= styled(before, var_name@, metadata@));
                },
                None => {
                    assert(before.update(i as int, (var_name@, before[i as int].1)) =~= before);
                },
            }
        },
        None => {
            let mut list: Vec<MetaData> = Vec::new();
            list.push(metadata);
            assert(metadata_views(list@) =~= seq![metadata@]);
            metadata_insert(metadata_map, var_name, list);
        },
    }
}

/// A copy of a list of items.
fn clone_items(items: &Vec<ModuleItem>) -> (copy: Vec<ModuleItem>)
    ensures
        items_view(copy@) == items_view(items@),
{
    let mut copy: Vec<ModuleItem> = Vec::new();
    let mut i: usize = 0;
    while i < items.len()
        invariant
            i <= items.len(),
            copy.len() == i,
            forall|j: int| 0 <= j < i ==> (#[trigger] copy[j])@ == items[j]@,
        decreases items.len() - i,
    {
        copy.push(items[i].clone());
        i += 1;
    }
    assert(items_view(copy@) =~= items_view(items@));
    copy
}

/// Queues a statement under a rewritten expression.
pub fn queue_statement(queue: &mut IndexMap<Expr, Vec<ModuleItem>>, ast: &Expr, item: ModuleItem)
    ensures
        inject_pairs(*final(queue)) == queued(inject_pairs(*old(queue)), ast@, item@),
{
    let ghost before = inject_pairs(*queue);
    proof {
        lemma_key_index(before, ast@);
    }
    let at = queue_index_of(queue, ast);
    let held = match at {
        Some(i) => match queue_get_index(queue, i) {
            Some((_, items)) => clone_items(items),
            None => Vec::new(),
        },
        None => Vec::new(),
    };
    let mut list = held;
    let ghost was = items_view(list@);
    assert(at matches Some(i) ==> was == before[i as int].1);
    assert(at is None ==> was =~= Seq::<ModuleItemView>::empty());
    list.push(item);
    assert(items_view(list@) =~= was.push(item@));
    assert(Seq::<ModuleItemView>::empty().push(item@) =~= seq![item@]);
    queue_insert(queue, clone_expr(ast), list);
    assert(inject_pairs(*queue) =~= queued(before, ast@, item@));
}

impl StateManager {
    /// Adds a style under a variable, unless the variable has a style of
    /// its class already.
    pub fn add_style(&mut self, var_name: String, metadata: MetaData)
        ensures
            metadata_pairs(final(self).metadata) == styled(
                metadata_pairs(old(self).metadata),
                var_name@,
                metadata@,
            ),
            *final(self) == (StateManager { metadata: final(self).metadata, ..*old(self) }),
    {
        add_style_to(&mut self.metadata, var_name, metadata);
    }

    /// Queues, under the rewritten expression, the call of the helper
    /// that injects the style, unless the state holds a style of its
    /// class already: the helper is called once for each class.
    pub fn add_style_to_inject(&mut self, metadata: &MetaData, inject_var_ident: &Id, ast: &Expr)
        ensures
            inject_pairs(final(self).styles_to_inject) == queued_once(
                metadata_pairs(old(self).metadata),
                inject_pairs(old(self).styles_to_inject),
                ast@,
                metadata@,
                inject_var_ident@,
            ),
            *final(self) == (StateManager {
                styles_to_inject: final(self).styles_to_inject,
                ..*old(self)
            }),
    {
        if holds_class(&self.metadata, metadata.class_name.as_str()) {
            return ;
        }
        let item = inject_call(metadata, inject_var_ident);
        queue_statement(&mut self.styles_to_inject, ast, item);
    }
}

/// The position of the first declarator that is initialised with
/// `target`; the length where there is none.
pub open spec fn find_init(decls: Seq<VarDeclaratorView>, target: ExprView) -> int
    decreases decls.len(),
{
    if decls.len() == 0 {
        0
    } else if decls[0].init == Some(target) {
        0
    } else {
        1 + find_init(decls.drop_first(), target)
    }
}

/// The declarators with `ast` in the place of `target` as the initialiser
/// of the first declarator that is initialised with `target`.
pub open spec fn with_init(decls: Seq<VarDeclaratorView>, target: ExprView, ast: ExprView) -> Seq<
    VarDeclaratorView,
> {
    let i = find_init(decls, target);
    if 0 <= i < decls.len() {
        decls.update(i, VarDeclaratorView { name: decls[i].name, init: Some(ast) })
    } else {
        decls
    }
}

/// The name of the variable of the first declarator that is initialised
/// with `target`, where there is one and it declares a plain name.
pub open spec fn initialised_name(decls: Seq<VarDeclaratorView>, target: ExprView) -> Option<Seq<char>> {
    let i = find_init(decls, target);
    if 0 <= i < decls.len() {
        match decls[i].name {
            PatView::Ident(id) => Some(id.0),
            PatView::Other => None,
        }
    } else {
        None
    }
}

/// Whether the declarator is initialised with the expression.
fn initialised_with(decl: &VarDeclarator, target: &Expr) -> (yes: bool)
    ensures
        yes == (decl@.init == Some(target@)),
{
    match &decl.init {
        Some(init) => same_expr(init, target),
        None => false,
    }
}

/// Puts `ast` in the place of `target` as the initialiser of the first
/// declarator that is initialised with `target`; gives the name of its
/// variable.
pub fn replace_init(decls: &mut Vec<VarDeclarator>, target: &Expr, ast: &Expr) -> (name: Option<String>)
    ensures
        decls_view(final(decls)@) == with_init(decls_view(old(decls)@), target@, ast@),
        match initialised_name(decls_view(old(decls)@), target@) {
            Some(n) => name is Some && name->0@ == n,
            None => name is None,
        },
{
    let ghost all = decls_view(decls@);
    let mut i: usize = 0;
    assert(all.skip(0) =~= all);
    while i < decls.len()
        invariant
            i <= decls.len(),
            *decls == *old(decls),
            all == decls_view(decls@),
            find_init(all, target@) == i + find_init(all.skip(i as int), target@),
        decreases decls.len() - i,
    {
        assert(all.skip(i as int)[0] == decls[i as int]@);
        if initialised_with(&decls[i], target) {
            let name = match &decls[i].name {
                Pat::Ident(id) => Some(id.sym.clone()),
                Pat::Other => None,
            };
            let old_decl = decls.remove(i);
            decls.insert(i, VarDeclarator { name: old_decl.name, init: Some(Box::new(clone_expr(ast))) });
            assert(decls_view(decls@) =~= with_init(all, target@, ast@));
            return name;
        }
        assert(all.skip(i as int).drop_first() =~= all.skip(i + 1));
        i += 1;
    }
    None
}

/// The declarators that the state remembers, by variable.
pub open spec fn var_entries(m: OrderedMap<String, VarDeclarator>) -> Seq<(Seq<char>, VarDeclaratorView)> {
    Seq::new(m.entries.len() as nat, |i: int| (m.entries[i].0@, m.entries[i].1@))
}

/// The declarators of remembered variables, without the variables' names.
pub open spec fn entry_decls(entries: Seq<(Seq<char>, VarDeclaratorView)>) -> Seq<VarDeclaratorView> {
    Seq::new(entries.len(), |i: int| entries[i].1)
}

/// The remembered variables with `ast` in the place of `target` as the
/// initialiser of the first declarator that is initialised with `target`;
/// every variable keeps its name and its place.
pub open spec fn with_var_init(
    entries: Seq<(Seq<char>, VarDeclaratorView)>,
    target: ExprView,
    ast: ExprView,
) -> Seq<(Seq<char>, VarDeclaratorView)> {
    let i = find_init(entry_decls(entries), target);
    if 0 <= i < entries.len() {
        entries.update(
            i,
            (entries[i].0, VarDeclaratorView { name: entries[i].1.name, init: Some(ast) }),
        )
    } else {
        entries
    }
}

/// Puts `ast` in the place of `target` as the initialiser of the first
/// remembered declarator that is initialised with `target`.
pub fn replace_var_init(vars: &mut OrderedMap<String, VarDeclarator>, target: &Expr, ast: &Expr)
    ensures
        var_entries(*final(vars)) == with_var_init(var_entries(*old(vars)), target@, ast@),
{
    let ghost entries = var_entries(*vars);
    let ghost all = entry_decls(entries);
    let mut i: usize = 0;
    assert(all.skip(0) =~= all);
    while i < vars.entries.len()
        invariant
            i <= vars.entries.len(),
            *vars == *old(vars),
            entries == var_entries(*vars),
            all == entry_decls(entries),
            find_init(all, target@) == i + find_init(all.skip(i as int), target@),
        decreases vars.entries.len() - i,
    {
        assert(all.skip(i as int)[0] == vars.entries[i as int].1@);
        if initialised_with(&vars.entries[i].1, target) {
            let (key, old_decl) = vars.entries.remove(i);
            vars.entries.insert(
                i,
                (key, VarDeclarator { name: old_decl.name, init: Some(Box::new(clone_expr(ast))) }),
            );
            assert(var_entries(*vars) =~= with_var_init(entries, target@, ast@));
            return ;
        }
        assert(all.skip(i as int).drop_first() =~= all.skip(i + 1));
        i += 1;
    }
}

/// The position of the first top-level expression that is `target`; the
/// length where there is none.
pub open spec fn find_top_level(exprs: Seq<TopLevelExpressionView>, target: ExprView) -> int
    decreases exprs.len(),
{
    if exprs.len() == 0 {
        0
    } else if exprs[0].expr == target {
        0
    } else {
        1 + find_top_level(exprs.drop_first(), target)
    }
}

/// The top-level expressions with `ast` in the place of the first that is
/// `target`.
pub open spec fn with_top_level(exprs: Seq<TopLevelExpressionView>, target: ExprView, ast: ExprView) -> Seq<
    TopLevelExpressionView,
> {
    let i = find_top_level(exprs, target);
    if 0 <= i < exprs.len() {
        exprs.update(
            i,
            TopLevelExpressionView { kind: exprs[i].kind, expr: ast, id: exprs[i].id },
        )
    } else {
        exprs
    }
}

/// Puts `ast` in the place of the first top-level expression that is
/// `target`.
pub fn replace_top_level(exprs: &mut Vec<TopLevelExpression>, target: &Expr, ast: &Expr)
    ensures
        top_level_view(final(exprs)@) == with_top_level(top_level_view(old(exprs)@), target@, ast@),
{
    let ghost all = top_level_view(exprs@);
    let mut i: usize = 0;
    assert(all.skip(0) =~= all);
    while i < exprs.len()
        invariant
            i <= exprs.len(),
            *exprs == *old(exprs),
            all == top_level_view(exprs@),
            find_top_level(all, target@) == i + find_top_level(all.skip(i as int), target@),
        decreases exprs.len() - i,
    {
        assert(all.skip(i as int)[0] == exprs[i as int]@);
        if same_expr(&exprs[i].1, target) {
            let old_expr = exprs.remove(i);
            exprs.insert(i, TopLevelExpression(old_expr.0, clone_expr(ast), old_expr.2));
            assert(top_level_view(exprs@) =~= with_top_level(all, target@, ast@));
            return ;
        }
        assert(all.skip(i as int).drop_first() =~= all.skip(i + 1));
        i += 1;
    }
}

/// The views of a list of calls.
pub open spec fn calls_view(calls: Seq<CallExpr>) -> Seq<CallExprView> {
    Seq::new(calls.len(), |i: int| calls[i]@)
}

/// The position of the first call that is `call` but for places in the
/// source; the length where there is none.
pub open spec fn find_call(calls: Seq<CallExprView>, call: CallExprView) -> int
    decreases calls.len(),
{
    if calls.len() == 0 {
        0
    } else if spanless_call(calls[0]) == spanless_call(call) {
        0
    } else {
        1 + find_call(calls.drop_first(), call)
    }
}

/// The calls after the first that is `call`, but for places in the
/// source, gave way to `ast`: to the call that `ast` is, or to nothing
/// where `ast` is no call.
pub open spec fn with_call(calls: Seq<CallExprView>, call: CallExprView, ast: ExprView) -> Seq<CallExprView> {
    let i = find_call(calls, call);
    if 0 <= i < calls.len() {
        match ast {
            ExprView::Call(c) => calls.update(i, c),
            _ => calls.remove(i),
        }
    } else {
        calls
    }
}

/// Lets the first call that is `call`, but for places in the source, give
/// way to `ast`.
pub fn replace_call(calls: &mut Vec<CallExpr>, call: &CallExpr, ast: &Expr)
    ensures
        calls_view(final(calls)@) == with_call(calls_view(old(calls)@), call@, ast@),
{
    let ghost all = calls_view(calls@);
    let mut i: usize = 0;
    assert(all.skip(0) =~= all);
    while i < calls.len()
        invariant
            i <= calls.len(),
            *calls == *old(calls),
            all == calls_view(calls@),
            find_call(all, call@) == i + find_call(all.skip(i as int), call@),
        decreases calls.len() - i,
    {
        assert(all.skip(i as int)[0] == calls[i as int]@);
        if same_call_ignoring_spans(&calls[i], call) {
            let _ = calls.remove(i);
            match ast {
                Expr::Call(c) => {
                    proof {
                        lemma_call_view(*c);
                    }
                    calls.insert(i, clone_call(c));
                    assert(calls_view(calls@) =~= all.update(i as int, c@));
                },
                _ => {
                    assert(calls_view(calls@) =~= all.remove(i as int));
                },
            }
            return ;
        }
        assert(all.skip(i as int).drop_first() =~= all.skip(i + 1));
        i += 1;
    }
}

/// The top-level expression of the given kind that is the call.
pub open spec fn find_top_level_call(exprs: Seq<TopLevelExpressionView>, kind: TopLevelExpressionKind, call: CallExprView) -> int
    decreases exprs.len(),
{
    if exprs.len() == 0 {
        0
    } else if exprs[0].kind == kind && exprs[0].expr == ExprView::Call(call) {
        0
    } else {
        1 + find_top_level_call(exprs.drop_first(), kind, call)
    }
}

impl StateManager {
    /// A copy of the first top-level expression of the given kind that is
    /// the call.
    pub fn get_top_level_expr(&self, kind: &TopLevelExpressionKind, call: &CallExpr) -> (found: Option<
        TopLevelExpression,
    >)
        ensures
            match found {
                Some(e) => 0 <= find_top_level_call(
                    top_level_view(self.top_level_expressions@),
                    *kind,
                    call@,
                ) < self.top_level_expressions.len() && e@ == top_level_view(
                    self.top_level_expressions@,
                )[find_top_level_call(top_level_view(self.top_level_expressions@), *kind, call@)],
                None => find_top_level_call(
                    top_level_view(self.top_level_expressions@),
                    *kind,
                    call@,
                ) == self.top_level_expressions.len(),
            },
    {
        let ghost all = top_level_view(self.top_level_expressions@);
        let target = Expr::Call(clone_call(call));
        proof {
            lemma_call_view(target->Call_0);
        }
        let mut i: usize = 0;
        assert(all.skip(0) =~= all);
        while i < self.top_level_expressions.len()
            invariant
                i <= self.top_level_expressions.len(),
                all == top_level_view(self.top_level_expressions@),
                target@ == ExprView::Call(call@),
                find_top_level_call(all, *kind, call@) == i + find_top_level_call(
                    all.skip(i as int),
                    *kind,
                    call@,
                ),
            decreases self.top_level_expressions.len() - i,
        {
            assert(all.skip(i as int)[0] == self.top_level_expressions[i as int]@);
            let entry = &self.top_level_expressions[i];
            if entry.0 == *kind && same_expr(&entry.1, &target) {
                return Some(entry.clone());
            }
            assert(all.skip(i as int).drop_first() =~= all.skip(i + 1));
            i += 1;
        }
        None
    }
}

/// The two names of the helper: the names under which it was brought in,
/// or, where it was not brought in yet, the first made-up name for the
/// module and another for the function, after the export where one is
/// named.
pub open spec fn helper_idents(
    inserted: Option<(Id, Id)>,
    injection: Option<RuntimeInjectionState>,
) -> ((Seq<char>, u32), (Seq<char>, u32)) {
    match inserted {
        Some(ids) => (ids.0@, ids.1@),
        None => (
            (uid_name("inject"@, 1), 0u32),
            match injection {
                Some(RuntimeInjectionState::Named(source)) => (uid_name(source.as_name@, 1), 0u32),
                _ => (uid_name("inject"@, 2), 0u32),
            },
        ),
    }
}

/// The two items that bring the helper in: its import, and the variable
/// that holds it.
pub open spec fn helper_items(
    idents: ((Seq<char>, u32), (Seq<char>, u32)),
    injection: Option<RuntimeInjectionState>,
) -> Seq<ModuleItemView> {
    match injection {
        Some(RuntimeInjectionState::Named(_)) => seq![
            named_import_item(idents.0, idents.1),
            var_decl_item(idents.1, idents.0),
        ],
        _ => seq![default_import_item(idents.0), var_decl_item(idents.1, idents.0)],
    }
}

/// The state `post` is the state `pre` after the styles of a call that
/// was rewritten to `ast` were registered.
///
/// Without styles nothing changes. Otherwise the helper is brought in
/// where it was not yet, every style is added under the variable, or
/// under `default` where there is none, and a call of the helper is
/// queued for each whose class the state did not hold yet; and, where
/// styles are injected at run time, the call
/// gives way to `ast` wherever the state holds it. Every other field
/// stays.
pub open spec fn registered(
    pre: StateManager,
    post: StateManager,
    call: CallExprView,
    styles: Seq<ClassStyle>,
    ast: ExprView,
    var_name: Option<Seq<char>>,
) -> bool {
    let idents = helper_idents(pre.inject_import_inserted, pre.options.runtime_injection);
    let name = match var_name {
        Some(n) => n,
        None => "default"@,
    };
    let rewrites = pre.options.runtime_injection is Some;
    let target = ExprView::Call(call);
    &&& styles.len() == 0 ==> post == pre
    &&& styles.len() > 0 ==> {
        &&& post.inject_import_inserted matches Some(ids) && (ids.0@, ids.1@) == idents
        &&& items_view(post.prepend_include_module_items@) == if pre.prepend_include_module_items@.len()
            == 0 {
            helper_items(idents, pre.options.runtime_injection)
        } else {
            items_view(pre.prepend_include_module_items@)
        }
        &&& metadata_pairs(post.metadata) == styled_all(
            metadata_pairs(pre.metadata),
            name,
            styles,
            styles.len(),
        )
        &&& inject_pairs(post.styles_to_inject) == queued_all(
            metadata_pairs(pre.metadata),
            inject_pairs(pre.styles_to_inject),
            name,
            ast,
            styles,
            idents.1,
            styles.len(),
        )
        &&& decls_view(post.declarations@) == if rewrites {
            with_init(decls_view(pre.declarations@), target, ast)
        } else {
            decls_view(pre.declarations@)
        }
        &&& views(post.styles_vars_to_inject@) == if rewrites {
            with_name(
                views(pre.styles_vars_to_inject@),
                initialised_name(decls_view(pre.declarations@), target),
            )
        } else {
            views(pre.styles_vars_to_inject@)
        }
        &&& var_entries(post.style_vars) == if rewrites {
            with_var_init(var_entries(pre.style_vars), target, ast)
        } else {
            var_entries(pre.style_vars)
        }
        &&& top_level_view(post.top_level_expressions@) == if rewrites {
            with_top_level(top_level_view(pre.top_level_expressions@), target, ast)
        } else {
            top_level_view(pre.top_level_expressions@)
        }
        &&& calls_view(post.all_call_expressions@) == if rewrites {
            with_call(calls_view(pre.all_call_expressions@), call, ast)
        } else {
            calls_view(pre.all_call_expressions@)
        }
    }
    &&& post == (StateManager {
        inject_import_inserted: post.inject_import_inserted,
        prepend_include_module_items: post.prepend_include_module_items,
        metadata: post.metadata,
        styles_to_inject: post.styles_to_inject,
        declarations: post.declarations,
        styles_vars_to_inject: post.styles_vars_to_inject,
        style_vars: post.style_vars,
        top_level_expressions: post.top_level_expressions,
        all_call_expressions: post.all_call_expressions,
        ..pre
    })
}

/// The names with one more, unless they hold it.
pub open spec fn with_name(names: Seq<Seq<char>>, name: Option<Seq<char>>) -> Seq<Seq<char>> {
    match name {
        Some(n) => if names.contains(n) {
            names
        } else {
            names.push(n)
        },
        None => names,
    }
}

/// Adds a name to the names, unless they hold it.
fn push_name(names: &mut Vec<String>, name: Option<String>)
    ensures
        views(final(names)@) == with_name(
            views(old(names)@),
            match name {
                Some(n) => Some(n@),
                None => None,
            },
        ),
{
    match name {
        Some(n) => {
            let ghost before = views(names@);
            let mut i: usize = 0;
            while i < names.len()
                invariant
                    i <= names.len(),
                    *names == *old(names),
                    name == Some(n),
                    before == views(names@),
                    forall|j: int| 0 <= j < i ==> (#[trigger] before[j]) != n@,
                decreases names.len() - i,
            {
                if names[i] == n {
                    assert(before[i as int] == n@);
                    assert(before.contains(n@));
                    return ;
                }
                i += 1;
            }
            assert(!before.contains(n@));
            names.push(n);
            assert(views(names@) =~= before.push(n@));
        },
        None => {},
    }
}

impl StateManager {
    /// Brings the helper in, where it was not brought in yet: remembers
    /// its two names, and queues the items that import it where no item
    /// is queued.
    pub fn ensure_inject_import(&mut self) -> (idents: (Id, Id))
        ensures
            (idents.0@, idents.1@) == helper_idents(
                old(self).inject_import_inserted,
                old(self).options.runtime_injection,
            ),
            final(self).inject_import_inserted matches Some(ids) && (ids.0@, ids.1@) == (
                idents.0@,
                idents.1@,
            ),
            items_view(final(self).prepend_include_module_items@) == if old(
                self,
            ).prepend_include_module_items@.len() == 0 {
                helper_items((idents.0@, idents.1@), old(self).options.runtime_injection)
            } else {
                items_view(old(self).prepend_include_module_items@)
            },
            *final(self) == (StateManager {
                inject_import_inserted: final(self).inject_import_inserted,
                prepend_include_module_items: final(self).prepend_include_module_items,
                ..*old(self)
            }),
    {
        let (module_ident, var_ident) = match &self.inject_import_inserted {
            Some(ids) => (ids.0.clone(), ids.1.clone()),
            None => {
                let mut generator = UidGenerator::new("inject");
                let module_ident = generator.generate_ident();
                let var_ident = match &self.options.runtime_injection {
                    Some(RuntimeInjectionState::Named(source)) => {
                        let mut named = UidGenerator::new(source.as_name.as_str());
                        named.generate_ident()
                    },
                    _ => generator.generate_ident(),
                };
                self.inject_import_inserted = Some((module_ident.clone(), var_ident.clone()));
                (module_ident, var_ident)
            },
        };
        if self.prepend_include_module_items.len() == 0 {
            let first = match &self.options.runtime_injection {
                Some(RuntimeInjectionState::Named(_)) => add_inject_named_import_expression(
                    &module_ident,
                    &var_ident,
                ),
                _ => add_inject_default_import_expression(&module_ident),
            };
            self.prepend_include_module_items.push(first);
            self.prepend_include_module_items.push(
                add_inject_var_decl_expression(&var_ident, &module_ident),
            );
            assert(items_view(self.prepend_include_module_items@) =~= helper_items(
                (module_ident@, var_ident@),
                old(self).options.runtime_injection,
            ));
        }
        (module_ident, var_ident)
    }

    /// Adds every style under the variable, and queues under the rewritten
    /// expression a call of the helper for each whose class the state
    /// did not hold yet.
    pub fn add_styles(&mut self, metadatas: &Vec<MetaData>, var_name: &str, inject_var_ident: &Id, ast: &Expr)
        ensures
            metadata_pairs(final(self).metadata) == styled_all(
                metadata_pairs(old(self).metadata),
                var_name@,
                metadata_views(metadatas@),
                metadatas.len() as nat,
            ),
            inject_pairs(final(self).styles_to_inject) == queued_all(
                metadata_pairs(old(self).metadata),
                inject_pairs(old(self).styles_to_inject),
                var_name@,
                ast@,
                metadata_views(metadatas@),
                inject_var_ident@,
                metadatas.len() as nat,
            ),
            *final(self) == (StateManager {
                metadata: final(self).metadata,
                styles_to_inject: final(self).styles_to_inject,
                ..*old(self)
            }),
    {
        let ghost all = metadata_views(metadatas@);
        let mut i: usize = 0;
        while i < metadatas.len()
            invariant
                i <= metadatas.len(),
                all == metadata_views(metadatas@),
                metadata_pairs(self.metadata) == styled_all(
                    metadata_pairs(old(self).metadata),
                    var_name@,
                    all,
                    i as nat,
                ),
                inject_pairs(self.styles_to_inject) == queued_all(
                    metadata_pairs(old(self).metadata),
                    inject_pairs(old(self).styles_to_inject),
                    var_name@,
                    ast@,
                    all,
                    inject_var_ident@,
                    i as nat,
                ),
                *self == (StateManager {
                    metadata: self.metadata,
                    styles_to_inject: self.styles_to_inject,
                    ..*old(self)
                }),
            decreases metadatas.len() - i,
        {
            assert(all[i as int] == metadatas[i as int]@);
            self.add_style_to_inject(&metadatas[i], inject_var_ident, ast);
            self.add_style(var_name.to_string(), metadatas[i].clone());
            i += 1;
        }
    }

    /// Lets the call give way to the expression that it was rewritten to,
    /// wherever the state holds the call: as the initialiser of a
    /// declarator or of a remembered variable, as a top-level expression,
    /// and among the calls. The variable that the call initialised is
    /// noted as one whose styles are injected.
    pub fn rewrite_call_site(&mut self, call: &CallExpr, ast: &Expr)
        ensures
            decls_view(final(self).declarations@) == with_init(
                decls_view(old(self).declarations@),
                ExprView::Call(call@),
                ast@,
            ),
            views(final(self).styles_vars_to_inject@) == with_name(
                views(old(self).styles_vars_to_inject@),
                initialised_name(decls_view(old(self).declarations@), ExprView::Call(call@)),
            ),
            var_entries(final(self).style_vars) == with_var_init(
                var_entries(old(self).style_vars),
                ExprView::Call(call@),
                ast@,
            ),
            top_level_view(final(self).top_level_expressions@) == with_top_level(
                top_level_view(old(self).top_level_expressions@),
                ExprView::Call(call@),
                ast@,
            ),
            calls_view(final(self).all_call_expressions@) == with_call(
                calls_view(old(self).all_call_expressions@),
                call@,
                ast@,
            ),
            *final(self) == (StateManager {
                declarations: final(self).declarations,
                styles_vars_to_inject: final(self).styles_vars_to_inject,
                style_vars: final(self).style_vars,
                top_level_expressions: final(self).top_level_expressions,
                all_call_expressions: final(self).all_call_expressions,
                ..*old(self)
            }),
    {
        let target = Expr::Call(clone_call(call));
        proof {
            lemma_call_view(target->Call_0);
        }
        let name = replace_init(&mut self.declarations, &target, ast);
        push_name(&mut self.styles_vars_to_inject, name);
        replace_var_init(&mut self.style_vars, &target, ast);
        replace_top_level(&mut self.top_level_expressions, &target, ast);
        replace_call(&mut self.all_call_expressions, call, ast);
    }

    /// Registers the styles of a call that was rewritten to `ast`.
    pub fn register_styles(&mut self, call: &CallExpr, style: &IndexMap<String, InjectableStyle>, ast: &Expr, var_name: &Option<String>)
        ensures
            registered(
                *old(self),
                *final(self),
                call@,
                injected_entries(*style),
                ast@,
                match var_name {
                    Some(n) => Some(n@),
                    None => None,
                },
            ),
    {
        if injected_len(style) == 0 {
            return ;
        }
        let metadatas = MetaData::convert_from_injected_styles_map(style);
        let (_, inject_var_ident) = self.ensure_inject_import();
        match var_name {
            Some(n) => self.add_styles(&metadatas, n.as_str(), &inject_var_ident, ast),
            None => self.add_styles(&metadatas, "default", &inject_var_ident, ast),
        }
        if self.options.runtime_injection.is_none() {
            return ;
        }
        self.rewrite_call_site(call, ast);
    }
}

/// The styles of all variables, those of the first variable first.
pub open spec fn all_styles(pairs: MetaPairs) -> Seq<ClassStyle>
    decreases pairs.len(),
{
    if pairs.len() == 0 {
        Seq::empty()
    } else {
        all_styles(pairs.drop_last()) + pairs.last().1
    }
}

impl StateManager {
    /// The styles of the module as a host receives them: those of every
    /// variable in the order in which they arose, each class once, for
    /// the style that came first.
    pub fn module_metadata(&self) -> (list: Vec<MetaData>)
        ensures
            metadata_views(list@) == first_of_each_class(all_styles(metadata_pairs(self.metadata))),
    {
        let ghost pairs = metadata_pairs(self.metadata);
        let mut list: Vec<MetaData> = Vec::new();
        let n = metadata_len(&self.metadata);
        let mut i: usize = 0;
        assert(pairs.take(0) =~= Seq::<(Seq<char>, Seq<ClassStyle>)>::empty());
        assert(metadata_views(list@) =~= Seq::<ClassStyle>::empty());
        while i < n
            invariant
                i <= n,
                n == pairs.len(),
                pairs == metadata_pairs(self.metadata),
                metadata_views(list@) == first_of_each_class(all_styles(pairs.take(i as int))),
            decreases n - i,
        {
            let ghost head = all_styles(pairs.take(i as int));
            match metadata_get_index(&self.metadata, i) {
                Some((_, styles)) => {
                    let ghost given = metadata_views(styles@);
                    assert(given == pairs[i as int].1);
                    let mut j: usize = 0;
                    assert(head + given.take(0) =~= head);
                    while j < styles.len()
                        invariant
                            j <= styles.len(),
                            given == metadata_views(styles@),
                            metadata_views(list@) == first_of_each_class(head + given.take(j as int)),
                        decreases styles.len() - j,
                    {
                        let ghost before = head + given.take(j as int);
                        let ghost kept = metadata_views(list@);
                        assert(given[j as int] == styles[j as int]@);
                        assert(head + given.take(j + 1) =~= before.push(given[j as int]));
                        assert(before.push(given[j as int]).drop_last() =~= before);
                        if !contains_class(&list, styles[j].class_name.as_str()) {
                            list.push(styles[j].clone());
                            assert(metadata_views(list@) =~= kept.push(given[j as int]));
                        }
                        j += 1;
                    }
                    assert(given.take(j as int) =~= given);
                },
                None => {},
            }
            assert(pairs.take(i + 1).drop_last() =~= pairs.take(i as int));
            assert(pairs.take(i + 1).last() == pairs[i as int]);
            i += 1;
        }
        assert(pairs.take(i as int) =~= pairs);
        list
    }
}

/// The item holds the expression at the top level: as the initialiser
/// of one of its declarators, as what it exports by default, or as the
/// expression of the statement.
pub open spec fn item_holds(item: ModuleItemView, ast: ExprView) -> bool {
    match item {
        ModuleItemView::ExportVar(decls) => find_init(decls, ast) < decls.len(),
        ModuleItemView::Var(decls) => find_init(decls, ast) < decls.len(),
        ModuleItemView::ExportDefaultExpr(e) => e == ast,
        ModuleItemView::Stmt(e) => e == ast,
        _ => false,
    }
}

/// The position of the first item that holds the expression; the number
/// of items where none does.
pub open spec fn holder_index(items: Seq<ModuleItemView>, ast: ExprView) -> int
    decreases items.len(),
{
    if items.len() == 0 {
        0
    } else if item_holds(items[0], ast) {
        0
    } else {
        1 + holder_index(items.drop_first(), ast)
    }
}

/// The place of the first item that holds the expression, where one
/// does.
pub open spec fn first_holder(items: Seq<ModuleItemView>, ast: ExprView) -> Option<usize> {
    let i = holder_index(items, ast);
    if 0 <= i < items.len() {
        Some(i as usize)
    } else {
        None
    }
}

/// Whether one of the declarators is initialised with the expression.
fn declarators_hold(decls: &Vec<VarDeclarator>, ast: &Expr) -> (yes: bool)
    ensures
        yes == (find_init(decls_view(decls@), ast@) < decls.len()),
{
    let ghost all = decls_view(decls@);
    let mut i: usize = 0;
    assert(all.skip(0) =~= all);
    while i < decls.len()
        invariant
            i <= decls.len(),
            all == decls_view(decls@),
            find_init(all, ast@) == i + find_init(all.skip(i as int), ast@),
        decreases decls.len() - i,
    {
        assert(all.skip(i as int)[0] == decls[i as int]@);
        if initialised_with(&decls[i], ast) {
            return true;
        }
        assert(all.skip(i as int).drop_first() =~= all.skip(i + 1));
        i += 1;
    }
    false
}

/// Whether the item holds the expression at the top level.
pub fn holds_expr(item: &ModuleItem, ast: &Expr) -> (yes: bool)
    ensures
        yes == item_holds(item@, ast@),
{
    match item {
        ModuleItem::ExportVar(decls) => declarators_hold(decls, ast),
        ModuleItem::Var(decls) => declarators_hold(decls, ast),
        ModuleItem::ExportDefaultExpr(e) => same_expr(e, ast),
        ModuleItem::Stmt(e) => same_expr(e, ast),
        _ => false,
    }
}

/// The place of the first item that holds the expression.
pub fn find_holder(items: &Vec<ModuleItem>, ast: &Expr) -> (at: Option<usize>)
    ensures
        at == first_holder(items_view(items@), ast@),
{
    let ghost all = items_view(items@);
    let mut i: usize = 0;
    assert(all.skip(0) =~= all);
    while i < items.len()
        invariant
            i <= items.len(),
            all == items_view(items@),
            holder_index(all, ast@) == i + holder_index(all.skip(i as int), ast@),
        decreases items.len() - i,
    {
        assert(all.skip(i as int)[0] == items[i as int]@);
        if holds_expr(&items[i], ast) {
            return Some(i);
        }
        assert(all.skip(i as int).drop_first() =~= all.skip(i + 1));
        i += 1;
    }
    None
}

/// Where the queued statements go: for each rewritten expression of the
/// queue, in the queue's order, the place of the first item of the module
/// that holds the expression. The statements of an expression go after
/// that item; those of an expression that no item holds have no such
/// place and go to the head of the module.
pub fn placements(items: &Vec<ModuleItem>, queue: &IndexMap<Expr, Vec<ModuleItem>>) -> (at: Vec<
    Option<usize>,
>)
    ensures
        at.len() == inject_pairs(*queue).len(),
        forall|i: int|
            0 <= i < at.len() ==> at[i] == first_holder(
                items_view(items@),
                (#[trigger] inject_pairs(*queue)[i]).0,
            ),
{
    let mut at: Vec<Option<usize>> = Vec::new();
    let n = queue_len(queue);
    let mut i: usize = 0;
    while i < n
        invariant
            i <= n,
            n == inject_pairs(*queue).len(),
            at.len() == i,
            forall|j: int|
                0 <= j < i ==> at[j] == first_holder(
                    items_view(items@),
                    (#[trigger] inject_pairs(*queue)[j]).0,
                ),
        decreases n - i,
    {
        let place = match queue_get_index(queue, i) {
            Some((ast, _)) => find_holder(items, ast),
            None => None,
        };
        at.push(place);
        i += 1;
    }
    at
}

/// One item of a module after the queued statements were written into
/// it.
#[derive(Clone, Copy, Debug, PartialEq, Eq, Structural)]
pub enum Placed {
    /// The import at this place of the imports to prepend.
    Import(usize),
    /// The item at this place of the items that bring the helper in.
    Include(usize),
    /// Of the queue's entry at the first place, the statement at the
    /// second.
    Queued(usize, usize),
    /// The item at this place of the module's body.
    Body(usize),
}

/// The statements of one entry of the queue.
pub open spec fn entry_items(entry: usize, len: usize) -> Seq<Placed> {
    Seq::new(len as nat, |j: int| Placed::Queued(entry, j as usize))
}

/// The statements of those of the first `n` entries of the queue that
/// have the given place, in the order of the queue.
pub open spec fn queued_at(place: Option<usize>, at: Seq<Option<usize>>, lens: Seq<usize>, n: nat) -> Seq<
    Placed,
>
    decreases n,
{
    if n == 0 || n > at.len() || n > lens.len() {
        Seq::empty()
    } else {
        queued_at(place, at, lens, (n - 1) as nat) + if at[n - 1] == place {
            entry_items((n - 1) as usize, lens[n - 1])
        } else {
            Seq::empty()
        }
    }
}

/// The first `body` items of the module's body, each followed by the
/// statements that are placed after it.
pub open spec fn body_part(body: nat, at: Seq<Option<usize>>, lens: Seq<usize>) -> Seq<Placed>
    decreases body,
{
    if body == 0 {
        Seq::empty()
    } else {
        body_part((body - 1) as nat, at, lens) + seq![Placed::Body((body - 1) as usize)] + queued_at(
            Some((body - 1) as usize),
            at,
            lens,
            at.len(),
        )
    }
}

/// The order of a module after the queue was written into it: the
/// imports to prepend, the items that bring the helper in, the
/// statements that have no place, and the body, each of its items
/// followed by the statements placed after it.
pub open spec fn module_order(
    body: usize,
    imports: usize,
    includes: usize,
    at: Seq<Option<usize>>,
    lens: Seq<usize>,
) -> Seq<Placed> {
    Seq::new(imports as nat, |j: int| Placed::Import(j as usize)) + Seq::new(
        includes as nat,
        |j: int| Placed::Include(j as usize),
    ) + queued_at(None, at, lens, at.len()) + body_part(body as nat, at, lens)
}

/// Appends the statements of the entries that have the given place.
fn push_queued(out: &mut Vec<Placed>, place: Option<usize>, at: &Vec<Option<usize>>, lens: &Vec<usize>)
    requires
        at.len() == lens.len(),
    ensures
        final(out)@ == old(out)@ + queued_at(place, at@, lens@, at.len() as nat),
{
    let ghost start = out@;
    let mut i: usize = 0;
    assert(start + Seq::<Placed>::empty() =~= start);
    while i < at.len()
        invariant
            i <= at.len(),
            at.len() == lens.len(),
            out@ == start + queued_at(place, at@, lens@, i as nat),
        decreases at.len() - i,
    {
        let ghost before = out@;
        let same = match (at[i], place) {
            (Some(a), Some(b)) => a == b,
            (None, None) => true,
            _ => false,
        };
        if same {
            let mut j: usize = 0;
            assert(before + entry_items(i, lens[i as int]).take(0) =~= before);
            while j < lens[i]
                invariant
                    j <= lens[i as int],
                    i < at.len(),
                    at.len() == lens.len(),
                    out@ == before + entry_items(i, lens[i as int]).take(j as int),
                decreases lens[i as int] - j,
            {
                out.push(Placed::Queued(i, j));
                assert(entry_items(i, lens[i as int]).take(j + 1) =~= entry_items(
                    i,
                    lens[i as int],
                ).take(j as int).push(Placed::Queued(i, j)));
                j += 1;
            }
            assert(entry_items(i, lens[i as int]).take(j as int) =~= entry_items(i, lens[i as int]));
            assert(out@ =~= start + (queued_at(place, at@, lens@, i as nat) + entry_items(
                i,
                lens[i as int],
            )));
        } else {
            assert(out@ =~= start + (queued_at(place, at@, lens@, i as nat) + Seq::<Placed>::empty()));
        }
        i += 1;
    }
}

/// The order of a module after the queue was written into it.
pub fn module_order_of(body: usize, imports: usize, includes: usize, at: &Vec<Option<usize>>, lens: &Vec<usize>) -> (out:
    Vec<Placed>)
    requires
        at.len() == lens.len(),
    ensures
        out@ == module_order(body, imports, includes, at@, lens@),
{
    let mut out: Vec<Placed> = Vec::new();
    let mut i: usize = 0;
    while i < imports
        invariant
            i <= imports,
            out@ == Seq::new(i as nat, |j: int| Placed::Import(j as usize)),
        decreases imports - i,
    {
        out.push(Placed::Import(i));
        assert(out@ =~= Seq::new((i + 1) as nat, |j: int| Placed::Import(j as usize)));
        i += 1;
    }
    let ghost first = out@;
    let mut i: usize = 0;
    assert(first + Seq::new(0, |j: int| Placed::Include(j as usize)) =~= first);
    while i < includes
        invariant
            i <= includes,
            out@ == first + Seq::new(i as nat, |j: int| Placed::Include(j as usize)),
        decreases includes - i,
    {
        out.push(Placed::Include(i));
        assert(out@ =~= first + Seq::new((i + 1) as nat, |j: int| Placed::Include(j as usize)));
        i += 1;
    }
    push_queued(&mut out, None, at, lens);
    let ghost head = out@;
    let mut k: usize = 0;
    assert(head + body_part(0, at@, lens@) =~= head);
    while k < body
        invariant
            k <= body,
            at.len() == lens.len(),
            out@ == head + body_part(k as nat, at@, lens@),
        decreases body - k,
    {
        let ghost before = out@;
        out.push(Placed::Body(k));
        push_queued(&mut out, Some(k), at, lens);
        assert(out@ =~= head + (body_part(k as nat, at@, lens@) + seq![Placed::Body(k)] + queued_at(
            Some(k),
            at@,
            lens@,
            at.len() as nat,
        )));
        k += 1;
    }
    out
}

impl StateManager {
    /// The order of the module after the queue of the state was written
    /// into it: each queued statement goes after the first item of the
    /// body that holds its expression, or before the body where none
    /// does.
    pub fn flush_order(&self, items: &Vec<ModuleItem>) -> (out: Vec<Placed>)
        ensures
            out@ == module_order(
                items.len(),
                self.prepend_import_module_items.len(),
                self.prepend_include_module_items.len(),
                Seq::new(
                    inject_pairs(self.styles_to_inject).len(),
                    |i: int| first_holder(items_view(items@), inject_pairs(self.styles_to_inject)[i].0),
                ),
                Seq::new(
                    inject_pairs(self.styles_to_inject).len(),
                    |i: int| inject_pairs(self.styles_to_inject)[i].1.len() as usize,
                ),
            ),
    {
        let at = placements(items, &self.styles_to_inject);
        let n = queue_len(&self.styles_to_inject);
        let ghost pairs = inject_pairs(self.styles_to_inject);
        let mut lens: Vec<usize> = Vec::new();
        let mut i: usize = 0;
        while i < n
            invariant
                i <= n,
                n == pairs.len(),
                pairs == inject_pairs(self.styles_to_inject),
                lens.len() == i,
                forall|j: int| 0 <= j < i ==> lens[j] == (#[trigger] pairs[j]).1.len(),
            decreases n - i,
        {
            let len = match queue_get_index(&self.styles_to_inject, i) {
                Some((_, queued)) => {
                    assert(items_view(queued@).len() == queued.len());
                    queued.len()
                },
                None => 0,
            };
            lens.push(len);
            i += 1;
        }
        assert(at@ =~= Seq::new(
            pairs.len(),
            |i: int| first_holder(items_view(items@), inject_pairs(self.styles_to_inject)[i].0),
        ));
        assert(lens@ =~= Seq::new(
            pairs.len(),
            |i: int| inject_pairs(self.styles_to_inject)[i].1.len() as usize,
        ));
        module_order_of(
            items.len(),
            self.prepend_import_module_items.len(),
            self.prepend_include_module_items.len(),
            &at,
            &lens,
        )
    }
}

/// The first of the files that was found, where one was.
pub open spec fn first_of(found: Seq<Option<String>>) -> Option<Seq<char>>
    decreases found.len(),
{
    if found.len() == 0 {
        None
    } else {
        match found[0] {
            Some(file) => Some(file@),
            None => first_of(found.drop_first()),
        }
    }
}

/// Chooses the file that a relative import names: of the paths under
/// which it is looked for, in their order, the first under which a file
/// was found.
pub fn first_found(found: &Vec<Option<String>>) -> (file: Option<String>)
    ensures
        match first_of(found@) {
            Some(text) => file is Some && file->0@ == text,
            None => file is None,
        },
{
    let mut i: usize = 0;
    assert(found@.skip(0) =~= found@);
    while i < found.len()
        invariant
            i <= found.len(),
            first_of(found@) == first_of(found@.skip(i as int)),
        decreases found.len() - i,
    {
        assert(found@.skip(i as int)[0] == found[i as int]);
        match &found[i] {
            Some(f) => {
                return Some(f.clone());
            },
            None => {},
        }
        assert(found@.skip(i as int).drop_first() =~= found@.skip(i + 1));
        i += 1;
    }
    None
}

/// Two maps of queued statements as one; on an expression that both
/// have, the statements of the first win.
pub fn chain_collect_queue(
    map1: IndexMap<Expr, Vec<ModuleItem>>,
    map2: IndexMap<Expr, Vec<ModuleItem>>,
) -> (both: IndexMap<Expr, Vec<ModuleItem>>)
    ensures
        queued_statements(both) == crate::collections::merge_pairs(
            queued_statements(map1),
            queued_statements(map2),
        ),
{
    let ghost b = queued_statements(map2);
    let mut both = map1;
    let n = queue_len(&map2);
    let mut i: usize = 0;
    assert(b.take(0) =~= Seq::<(ExprView, Seq<ModuleItemView>)>::empty());
    while i < n
        invariant
            i <= n,
            n == b.len(),
            b == queued_statements(map2),
            queued_statements(both) == crate::collections::merge_pairs(
                queued_statements(map1),
                b.take(i as int),
            ),
        decreases n - i,
    {
        assert(b.take(i + 1).drop_last() =~= b.take(i as int));
        assert(b.take(i + 1).last() == b[i as int]);
        match queue_get_index(&map2, i) {
            Some((ast, items)) => {
                if queue_index_of(&both, ast).is_none() {
                    queue_insert(&mut both, clone_expr(ast), clone_items(items));
                }
            },
            None => {},
        }
        i += 1;
    }
    assert(b.take(i as int) =~= b);
    both
}

} // verus!
