//! The state of one module's transformation: what was imported, what was
//! declared, what was compiled, and what is to be injected.
use vstd::prelude::*;
use indexmap::IndexMap;
use crate::ast::{
    decls_view, items_view, top_level_view, CallExpr, Expr, Id, ImportDecl, ModuleItem,
    TopLevelExpression, VarDeclarator,
};
use crate::collections::{merge_pairs, union_order, Member, OrderedMap, OrderedSet};
use crate::create::{with_classes, FlatCompiledStyles};
use crate::injected::{
    injected_contains, injected_entries, injected_get_index, injected_insert, injected_len,
    injected_new, metadata_get_index, metadata_index_of, metadata_insert, metadata_len,
    metadata_new, styles_by_variable, ClassStyle,
};
use crate::options::{
    sources_view, ImportSources, ImportSourcesView, StyleXOptions, StyleXStateOptions,
};
use crate::rule::InjectableStyle;
use crate::options::{CheckModuleResolution, ModuleResolution};
use crate::paths::{
    add_file_extension, extract_filename_from_path, extract_filename_with_ext_from_path,
    extract_path, file_name, file_stem, matches_file_suffix, relative_path, relative_to,
    suffix_matches, unknown_file, with_file_extension,
};
use crate::text::{str_eq, views};

verus! {

/// One style to inject, as the host receives it.
#[derive(Debug)]
pub struct MetaData {
    pub class_name: String,
    pub style: InjectableStyle,
}

impl View for MetaData {
    type V = ClassStyle;

    open spec fn view(&self) -> ClassStyle {
        (self.class_name@, self.style@)
    }
}

impl Clone for MetaData {
    fn clone(&self) -> (copy: MetaData)
        ensures
            copy@ == self@,
    {
        MetaData { class_name: self.class_name.clone(), style: self.style.clone() }
    }
}

/// The views of a list of styles to inject.
pub open spec fn metadata_views(list: Seq<MetaData>) -> Seq<ClassStyle> {
    Seq::new(list.len(), |i: int| list[i]@)
}

/// The compiled namespaces of one style definition.
pub type StylesObjectMap = IndexMap<String, FlatCompiledStyles>;

/// Which namespace of a variable of styles is kept.
#[derive(Debug)]
pub enum NonNullProp {
    Id(Id),
    /// Every namespace.
    True,
}

/// Which members of a namespace are kept.
#[derive(Debug)]
pub enum NonNullProps {
    Vec(Vec<Id>),
    /// Every member.
    True,
}

/// A variable of styles of which something is kept: the variable, the
/// namespace and the members.
#[derive(Debug)]
pub struct StyleVarsToKeep(pub Id, pub NonNullProp, pub NonNullProps);

pub ghost enum NonNullPropView {
    Id((Seq<char>, u32)),
    True,
}

pub ghost enum NonNullPropsView {
    Vec(Seq<(Seq<char>, u32)>),
    True,
}

impl View for NonNullProp {
    type V = NonNullPropView;

    open spec fn view(&self) -> NonNullPropView {
        match self {
            NonNullProp::Id(id) => NonNullPropView::Id(id@),
            NonNullProp::True => NonNullPropView::True,
        }
    }
}

impl View for NonNullProps {
    type V = NonNullPropsView;

    open spec fn view(&self) -> NonNullPropsView {
        match self {
            NonNullProps::Vec(ids) => NonNullPropsView::Vec(Seq::new(ids.len() as nat, |i: int| ids[i]@)),
            NonNullProps::True => NonNullPropsView::True,
        }
    }
}

impl View for StyleVarsToKeep {
    type V = ((Seq<char>, u32), NonNullPropView, NonNullPropsView);

    open spec fn view(&self) -> ((Seq<char>, u32), NonNullPropView, NonNullPropsView) {
        (self.0@, self.1@, self.2@)
    }
}

/// Whether two lists of bindings are the same bindings in the same order.
fn same_ids(a: &Vec<Id>, b: &Vec<Id>) -> (same: bool)
    ensures
        same == (Seq::new(a.len() as nat, |i: int| a[i]@) == Seq::new(b.len() as nat, |i: int| b[i]@)),
{
    let ghost va = Seq::new(a.len() as nat, |i: int| a[i]@);
    let ghost vb = Seq::new(b.len() as nat, |i: int| b[i]@);
    if a.len() != b.len() {
        assert(va.len() != vb.len());
        return false;
    }
    let mut i: usize = 0;
    while i < a.len()
        invariant
            i <= a.len(),
            a.len() == b.len(),
            va == Seq::new(a.len() as nat, |i: int| a[i]@),
            vb == Seq::new(b.len() as nat, |i: int| b[i]@),
            forall|j: int| 0 <= j < i ==> va[j] == vb[j],
        decreases a.len() - i,
    {
        if !a[i].same(&b[i]) {
            assert(va[i as int] != vb[i as int]);
            return false;
        }
        i += 1;
    }
    assert(va =~= vb);
    true
}

/// A copy of a list of bindings.
fn copy_ids(ids: &Vec<Id>) -> (out: Vec<Id>)
    ensures
        Seq::new(out.len() as nat, |i: int| out[i]@) == Seq::new(ids.len() as nat, |i: int| ids[i]@),
{
    let mut out: Vec<Id> = Vec::new();
    let mut i: usize = 0;
    while i < ids.len()
        invariant
            i <= ids.len(),
            out.len() == i,
            forall|j: int| 0 <= j < i ==> (#[trigger] out[j])@ == ids[j]@,
        decreases ids.len() - i,
    {
        out.push(ids[i].clone());
        i += 1;
    }
    assert(Seq::new(out.len() as nat, |i: int| out[i]@) =~= Seq::new(ids.len() as nat, |i: int| ids[i]@));
    out
}

impl Member for StyleVarsToKeep {
    fn same(&self, other: &Self) -> (same: bool) {
        let first = self.0.same(&other.0);
        let second = match (&self.1, &other.1) {
            (NonNullProp::Id(a), NonNullProp::Id(b)) => a.same(b),
            (NonNullProp::True, NonNullProp::True) => true,
            _ => false,
        };
        let third = match (&self.2, &other.2) {
            (NonNullProps::Vec(a), NonNullProps::Vec(b)) => same_ids(a, b),
            (NonNullProps::True, NonNullProps::True) => true,
            _ => false,
        };
        first && second && third
    }

    fn copy(&self) -> (copy: Self) {
        StyleVarsToKeep(
            self.0.clone(),
            match &self.1 {
                NonNullProp::Id(id) => NonNullProp::Id(id.clone()),
                NonNullProp::True => NonNullProp::True,
            },
            match &self.2 {
                NonNullProps::Vec(ids) => NonNullProps::Vec(copy_ids(ids)),
                NonNullProps::True => NonNullProps::True,
            },
        )
    }
}

/// The state of one module's transformation.
pub struct StateManager {
    pub options: StyleXStateOptions,
    /// The path of the module's file, where the module is a file.
    pub filename: Option<String>,
    // what was imported
    pub import_paths: OrderedSet<String>,
    pub stylex_import: OrderedSet<ImportSources>,
    pub stylex_props_import: OrderedSet<Id>,
    pub stylex_attrs_import: OrderedSet<Id>,
    pub stylex_create_import: OrderedSet<Id>,
    pub stylex_include_import: OrderedSet<Id>,
    pub stylex_first_that_works_import: OrderedSet<Id>,
    pub stylex_keyframes_import: OrderedSet<Id>,
    pub stylex_define_vars_import: OrderedSet<Id>,
    pub stylex_create_theme_import: OrderedSet<Id>,
    pub stylex_types_import: OrderedSet<Id>,
    /// The two names under which the helper that injects styles was
    /// brought in, once it was.
    pub inject_import_inserted: Option<(Id, Id)>,
    pub theme_name: Option<String>,
    // what was declared
    pub declarations: Vec<VarDeclarator>,
    pub top_level_expressions: Vec<TopLevelExpression>,
    pub all_call_expressions: Vec<CallExpr>,
    pub var_decl_count_map: OrderedMap<Id, i8>,
    pub member_object_ident_count_map: OrderedMap<Id, i8>,
    // what was compiled
    pub style_map: OrderedMap<String, StylesObjectMap>,
    pub style_vars: OrderedMap<String, VarDeclarator>,
    /// What is kept of the variables of styles.
    pub style_vars_to_keep: OrderedSet<StyleVarsToKeep>,
    pub in_stylex_create: bool,
    // what is to be injected
    pub styles_vars_to_inject: Vec<String>,
    pub metadata: IndexMap<String, Vec<MetaData>>,
    pub styles_to_inject: IndexMap<Expr, Vec<ModuleItem>>,
    pub prepend_include_module_items: Vec<ModuleItem>,
    pub prepend_import_module_items: Vec<ModuleItem>,
    pub injected_keyframes: IndexMap<String, InjectableStyle>,
    pub top_imports: Vec<ImportDecl>,
    /// What the host has computed where the library has no exact result
    /// of an arithmetic operator.
    pub computed: Vec<crate::operators::Computation>,
}

/// The set-valued fields of a state.
pub ghost struct TrackedSets {
    pub import_paths: Set<Seq<char>>,
    pub stylex_import: Set<ImportSourcesView>,
    pub props: Set<(Seq<char>, u32)>,
    pub attrs: Set<(Seq<char>, u32)>,
    pub create: Set<(Seq<char>, u32)>,
    pub includes: Set<(Seq<char>, u32)>,
    pub first_that_works: Set<(Seq<char>, u32)>,
    pub keyframes: Set<(Seq<char>, u32)>,
    pub define_vars: Set<(Seq<char>, u32)>,
    pub create_theme: Set<(Seq<char>, u32)>,
    pub types: Set<(Seq<char>, u32)>,
    pub kept: Set<((Seq<char>, u32), NonNullPropView, NonNullPropsView)>,
}

/// The unions of the sets of two states, field by field.
pub open spec fn combined_sets(a: TrackedSets, b: TrackedSets) -> TrackedSets {
    TrackedSets {
        import_paths: a.import_paths.union(b.import_paths),
        stylex_import: a.stylex_import.union(b.stylex_import),
        props: a.props.union(b.props),
        attrs: a.attrs.union(b.attrs),
        create: a.create.union(b.create),
        includes: a.includes.union(b.includes),
        first_that_works: a.first_that_works.union(b.first_that_works),
        keyframes: a.keyframes.union(b.keyframes),
        define_vars: a.define_vars.union(b.define_vars),
        create_theme: a.create_theme.union(b.create_theme),
        types: a.types.union(b.types),
        kept: a.kept.union(b.kept),
    }
}

/// Merge associativity: combining three states gives the same sets
/// however the combinations are grouped.
pub proof fn lemma_combine_associative(a: TrackedSets, b: TrackedSets, c: TrackedSets)
    ensures
        combined_sets(a, combined_sets(b, c)) == combined_sets(combined_sets(a, b), c),
{
    let l = combined_sets(a, combined_sets(b, c));
    let r = combined_sets(combined_sets(a, b), c);
    assert(l.import_paths =~= r.import_paths);
    assert(l.stylex_import =~= r.stylex_import);
    assert(l.props =~= r.props);
    assert(l.attrs =~= r.attrs);
    assert(l.create =~= r.create);
    assert(l.includes =~= r.includes);
    assert(l.first_that_works =~= r.first_that_works);
    assert(l.keyframes =~= r.keyframes);
    assert(l.define_vars =~= r.define_vars);
    assert(l.create_theme =~= r.create_theme);
    assert(l.types =~= r.types);
    assert(l.kept =~= r.kept);
}

/// The name under which the first named source of the module `import`
/// exports the library, where a named source is of that module.
pub open spec fn import_name(sources: Seq<ImportSourcesView>, import: Seq<char>) -> Option<Seq<char>>
    decreases sources.len(),
{
    if sources.len() == 0 {
        None
    } else {
        match sources[0] {
            ImportSourcesView::Named { as_name, from } => if from == import {
                Some(as_name)
            } else {
                import_name(sources.drop_first(), import)
            },
            _ => import_name(sources.drop_first(), import),
        }
    }
}

/// The module of an import source.
pub open spec fn source_module(source: ImportSourcesView) -> Seq<char> {
    match source {
        ImportSourcesView::Regular(module) => module,
        ImportSourcesView::Named { as_name, from } => from,
    }
}

/// The name by which an import in use is known: the module of a regular
/// source, the name of a named one.
pub open spec fn source_name(source: ImportSourcesView) -> Seq<char> {
    match source {
        ImportSourcesView::Regular(module) => module,
        ImportSourcesView::Named { as_name, from } => as_name,
    }
}

impl StateManager {
    /// Every set of the state holds nothing twice.
    pub open spec fn wf(&self) -> bool {
        &&& self.import_paths.wf()
        &&& self.stylex_import.wf()
        &&& self.stylex_props_import.wf()
        &&& self.stylex_attrs_import.wf()
        &&& self.stylex_create_import.wf()
        &&& self.stylex_include_import.wf()
        &&& self.stylex_first_that_works_import.wf()
        &&& self.stylex_keyframes_import.wf()
        &&& self.stylex_define_vars_import.wf()
        &&& self.stylex_create_theme_import.wf()
        &&& self.stylex_types_import.wf()
        &&& self.style_vars_to_keep.wf()
    }

    /// Whether every set of the state holds nothing twice.
    pub fn is_wf(&self) -> (ok: bool)
        ensures
            ok == self.wf(),
    {
        self.import_paths.is_wf() && self.stylex_import.is_wf() && self.stylex_props_import.is_wf()
            && self.stylex_attrs_import.is_wf() && self.stylex_create_import.is_wf()
            && self.stylex_include_import.is_wf() && self.stylex_first_that_works_import.is_wf()
            && self.stylex_keyframes_import.is_wf() && self.stylex_define_vars_import.is_wf()
            && self.stylex_create_theme_import.is_wf() && self.stylex_types_import.is_wf()
            && self.style_vars_to_keep.is_wf()
    }

    /// The set-valued fields.
    pub open spec fn sets(&self) -> TrackedSets {
        TrackedSets {
            import_paths: self.import_paths@,
            stylex_import: self.stylex_import@,
            props: self.stylex_props_import@,
            attrs: self.stylex_attrs_import@,
            create: self.stylex_create_import@,
            includes: self.stylex_include_import@,
            first_that_works: self.stylex_first_that_works_import@,
            keyframes: self.stylex_keyframes_import@,
            define_vars: self.stylex_define_vars_import@,
            create_theme: self.stylex_create_theme_import@,
            types: self.stylex_types_import@,
            kept: self.style_vars_to_keep@,
        }
    }

    /// Nothing was imported, declared, compiled or queued yet.
    pub open spec fn is_fresh(&self) -> bool {
        &&& self.sets() == (TrackedSets {
            import_paths: Set::empty(),
            stylex_import: Set::empty(),
            props: Set::empty(),
            attrs: Set::empty(),
            create: Set::empty(),
            includes: Set::empty(),
            first_that_works: Set::empty(),
            keyframes: Set::empty(),
            define_vars: Set::empty(),
            create_theme: Set::empty(),
            types: Set::empty(),
            kept: Set::empty(),
        })
        &&& self.inject_import_inserted is None
        &&& self.theme_name is None
        &&& self.declarations@.len() == 0
        &&& self.top_level_expressions@.len() == 0
        &&& self.all_call_expressions@.len() == 0
        &&& self.var_decl_count_map.pairs().len() == 0
        &&& self.member_object_ident_count_map.pairs().len() == 0
        &&& self.style_map.pairs().len() == 0
        &&& self.style_vars.pairs().len() == 0
        &&& !self.in_stylex_create
        &&& self.styles_vars_to_inject@.len() == 0
        &&& styles_by_variable(self.metadata).len() == 0
        &&& crate::register::queued_statements(self.styles_to_inject).len() == 0
        &&& self.prepend_include_module_items@.len() == 0
        &&& self.prepend_import_module_items@.len() == 0
        &&& injected_entries(self.injected_keyframes).len() == 0
        &&& self.top_imports@.len() == 0
        &&& self.computed@.len() == 0
    }

    /// The state at the start of a module, under the given options.
    pub fn new(stylex_options: StyleXOptions) -> (state: StateManager)
        ensures
            state.wf(),
            state.is_fresh(),
            state.filename is None,
            state.options.dev == stylex_options.dev,
            state.options.test == stylex_options.test,
            state.options.gen_conditional_classes == stylex_options.gen_conditional_classes,
            state.options.treeshake_compensation == stylex_options.treeshake_compensation,
            state.options.class_name_prefix == stylex_options.class_name_prefix,
            state.options.import_sources == stylex_options.import_sources,
            state.options.unstable_module_resolution == stylex_options.unstable_module_resolution,
            state.options.shorthands == stylex_options.shorthands,
    {
        StateManager {
            options: StyleXStateOptions::from(stylex_options),
            filename: None,
            import_paths: OrderedSet::new(),
            stylex_import: OrderedSet::new(),
            stylex_props_import: OrderedSet::new(),
            stylex_attrs_import: OrderedSet::new(),
            stylex_create_import: OrderedSet::new(),
            stylex_include_import: OrderedSet::new(),
            stylex_first_that_works_import: OrderedSet::new(),
            stylex_keyframes_import: OrderedSet::new(),
            stylex_define_vars_import: OrderedSet::new(),
            stylex_create_theme_import: OrderedSet::new(),
            stylex_types_import: OrderedSet::new(),
            inject_import_inserted: None,
            theme_name: None,
            declarations: Vec::new(),
            top_level_expressions: Vec::new(),
            all_call_expressions: Vec::new(),
            var_decl_count_map: OrderedMap::new(),
            member_object_ident_count_map: OrderedMap::new(),
            style_map: OrderedMap::new(),
            style_vars: OrderedMap::new(),
            style_vars_to_keep: OrderedSet::new(),
            in_stylex_create: false,
            styles_vars_to_inject: Vec::new(),
            metadata: metadata_new(),
            styles_to_inject: crate::register::queue_new(),
            prepend_include_module_items: Vec::new(),
            prepend_import_module_items: Vec::new(),
            injected_keyframes: injected_new(),
            top_imports: Vec::new(),
            computed: Vec::new(),
        }
    }

    /// The name under which the module `import` exports the library,
    /// where the options name that module with a name of its own.
    pub fn import_as(&self, import: &str) -> (name: Option<String>)
        ensures
            match import_name(sources_view(self.options.import_sources@), import@) {
                Some(n) => name is Some && name->0@ == n,
                None => name is None,
            },
    {
        let ghost all = sources_view(self.options.import_sources@);
        let mut i: usize = 0;
        assert(all.skip(0) =~= all);
        while i < self.options.import_sources.len()
            invariant
                i <= self.options.import_sources.len(),
                all == sources_view(self.options.import_sources@),
                import_name(all, import@) == import_name(all.skip(i as int), import@),
            decreases self.options.import_sources.len() - i,
        {
            assert(all.skip(i as int)[0] == self.options.import_sources[i as int]@);
            assert(all.skip(i as int).drop_first() =~= all.skip(i + 1));
            match &self.options.import_sources[i] {
                ImportSources::Regular(_) => {},
                ImportSources::Named(named) => {
                    assert(all.skip(i as int)[0] == ImportSourcesView::Named {
                        as_name: named.as_name@,
                        from: named.from@,
                    });
                    if str_eq(named.from.as_str(), import) {
                        assert(import_name(all.skip(i as int), import@) == Some(named.as_name@));
                        return Some(named.as_name.clone());
                    }
                },
            }
            i += 1;
        }
        None
    }

    /// The import sources of the options.
    pub fn import_sources(&self) -> (sources: Vec<ImportSources>)
        ensures
            sources_view(sources@) == sources_view(self.options.import_sources@),
    {
        let given = &self.options.import_sources;
        let mut sources: Vec<ImportSources> = Vec::new();
        let mut i: usize = 0;
        while i < given.len()
            invariant
                i <= given.len(),
                sources.len() == i,
                forall|j: int| 0 <= j < i ==> (#[trigger] sources[j])@ == given[j]@,
            decreases given.len() - i,
        {
            sources.push(given[i].clone());
            i += 1;
        }
        assert(sources_view(sources@) =~= sources_view(given@));
        sources
    }

    /// The modules of the import sources of the options, in their order.
    pub fn import_sources_stringified(&self) -> (modules: Vec<String>)
        ensures
            views(modules@) == Seq::new(
                self.options.import_sources@.len(),
                |i: int| source_module(self.options.import_sources@[i]@),
            ),
    {
        let given = &self.options.import_sources;
        let mut modules: Vec<String> = Vec::new();
        let mut i: usize = 0;
        while i < given.len()
            invariant
                i <= given.len(),
                modules.len() == i,
                forall|j: int| 0 <= j < i ==> (#[trigger] modules[j])@ == source_module(given[j]@),
            decreases given.len() - i,
        {
            let module = match &given[i] {
                ImportSources::Regular(regular) => regular.clone(),
                ImportSources::Named(named) => named.from.clone(),
            };
            modules.push(module);
            i += 1;
        }
        assert(views(modules@) =~= Seq::new(given@.len(), |i: int| source_module(given@[i]@)));
        modules
    }

    /// The names of the imports of the library in use, in the order in
    /// which they came up.
    pub fn stylex_import_stringified(&self) -> (names: Vec<String>)
        ensures
            views(names@) == Seq::new(
                self.stylex_import.order().len(),
                |i: int| source_name(self.stylex_import.order()[i]),
            ),
    {
        let given = &self.stylex_import.items;
        let mut names: Vec<String> = Vec::new();
        let mut i: usize = 0;
        while i < given.len()
            invariant
                i <= given.len(),
                names.len() == i,
                forall|j: int| 0 <= j < i ==> (#[trigger] names[j])@ == source_name(given[j]@),
            decreases given.len() - i,
        {
            let name = match &given[i] {
                ImportSources::Regular(regular) => regular.clone(),
                ImportSources::Named(named) => named.as_name.clone(),
            };
            names.push(name);
            i += 1;
        }
        assert(views(names@) =~= Seq::new(
            self.stylex_import.order().len(),
            |i: int| source_name(self.stylex_import.order()[i]),
        ));
        names
    }

    /// Whether class names are to show where they come from, for
    /// snapshots.
    pub fn is_test(&self) -> (test: bool)
        ensures
            test == self.options.test,
    {
        self.options.test
    }

    /// Whether class names are to be readable.
    pub fn is_dev(&self) -> (dev: bool)
        ensures
            dev == self.options.dev,
    {
        self.options.dev
    }

    /// Whether conditional classes are generated.
    pub fn gen_conditional_classes(&self) -> (yes: bool)
        ensures
            yes == self.options.gen_conditional_classes,
    {
        self.options.gen_conditional_classes
    }

    /// The custom properties that the host defines, each with its value.
    pub fn _get_css_vars(&self) -> (vars: &Vec<(String, String)>)
        ensures
            *vars == self.options.defined_stylex_css_variables,
    {
        &self.options.defined_stylex_css_variables
    }

    /// Whether unused styles are kept against tree shaking; they are not
    /// where the options do not say.
    pub fn get_treeshake_compensation(&self) -> (yes: bool)
        ensures
            yes == match self.options.treeshake_compensation {
                Some(b) => b,
                None => false,
            },
    {
        match self.options.treeshake_compensation {
            Some(b) => b,
            None => false,
        }
    }
}

impl Default for StateManager {
    fn default() -> (state: StateManager)
        ensures
            state.wf(),
            state.is_fresh(),
            state.options.class_name_prefix@ == "x"@,
    {
        StateManager::new(StyleXOptions::default())
    }
}

/// The items of the first list, then those of the second.
pub fn chain_collect<T>(vec1: Vec<T>, vec2: Vec<T>) -> (both: Vec<T>)
    ensures
        both@ == vec1@ + vec2@,
{
    let mut both = vec1;
    let mut rest = vec2;
    both.append(&mut rest);
    both
}

/// The union of two sets: the members of the first in their order, then
/// those of the second that the first does not have.
pub fn union_hash_set<T: Member>(set1: &OrderedSet<T>, set2: &OrderedSet<T>) -> (both: OrderedSet<T>)
    requires
        set1.wf(),
    ensures
        both.wf(),
        both@ == set1@.union(set2@),
        both.order() == union_order(set1.order(), set2.order()),
{
    set1.union(set2)
}

/// Two maps as one; on a key that both have, the entry of the first
/// wins.
pub fn chain_collect_hash_map<K: Member, V>(map1: OrderedMap<K, V>, map2: OrderedMap<K, V>) -> (both:
    OrderedMap<K, V>)
    ensures
        both.pairs() == merge_pairs(map1.pairs(), map2.pairs()),
{
    map1.merge(map2)
}

/// Two maps of styles as one; on a class that both have, the style of
/// the first wins.
pub fn chain_collect_index_map(
    map1: IndexMap<String, InjectableStyle>,
    map2: IndexMap<String, InjectableStyle>,
) -> (both: IndexMap<String, InjectableStyle>)
    ensures
        injected_entries(both) == with_classes(injected_entries(map1), injected_entries(map2)),
{
    let ghost b = injected_entries(map2);
    let mut both = map1;
    let n = injected_len(&map2);
    let mut i: usize = 0;
    assert(b.take(0) =~= Seq::<ClassStyle>::empty());
    while i < n
        invariant
            i <= n,
            n == b.len(),
            b == injected_entries(map2),
            injected_entries(both) == with_classes(injected_entries(map1), b.take(i as int)),
        decreases n - i,
    {
        assert(b.take(i + 1).drop_last() =~= b.take(i as int));
        assert(b.take(i + 1).last() == b[i as int]);
        match injected_get_index(&map2, i) {
            Some((class_name, style)) => {
                if !injected_contains(&both, class_name.as_str()) {
                    injected_insert(&mut both, class_name.clone(), style.clone());
                }
            },
            None => {},
        }
        i += 1;
    }
    assert(b.take(i as int) =~= b);
    both
}

/// Two maps of styles by variable as one; on a variable that both have,
/// the styles of the first win.
pub fn chain_collect_styles(
    map1: IndexMap<String, Vec<MetaData>>,
    map2: IndexMap<String, Vec<MetaData>>,
) -> (both: IndexMap<String, Vec<MetaData>>)
    ensures
        styles_by_variable(both) == merge_pairs(styles_by_variable(map1), styles_by_variable(map2)),
{
    let ghost b = styles_by_variable(map2);
    let mut both = map1;
    let n = metadata_len(&map2);
    let mut i: usize = 0;
    assert(b.take(0) =~= Seq::<(Seq<char>, Seq<ClassStyle>)>::empty());
    while i < n
        invariant
            i <= n,
            n == b.len(),
            b == styles_by_variable(map2),
            styles_by_variable(both) == merge_pairs(styles_by_variable(map1), b.take(i as int)),
        decreases n - i,
    {
        assert(b.take(i + 1).drop_last() =~= b.take(i as int));
        assert(b.take(i + 1).last() == b[i as int]);
        match metadata_get_index(&map2, i) {
            Some((var_name, styles)) => {
                if metadata_index_of(&both, var_name.as_str()).is_none() {
                    let mut copy: Vec<MetaData> = Vec::new();
                    let mut j: usize = 0;
                    while j < styles.len()
                        invariant
                            j <= styles.len(),
                            copy.len() == j,
                            forall|k: int| 0 <= k < j ==> (#[trigger] copy[k])@ == styles[k]@,
                        decreases styles.len() - j,
                    {
                        copy.push(styles[j].clone());
                        j += 1;
                    }
                    assert(metadata_views(copy@) =~= metadata_views(styles@));
                    metadata_insert(&mut both, var_name.clone(), copy);
                }
            },
            None => {},
        }
        i += 1;
    }
    assert(b.take(i as int) =~= b);
    both
}

impl StateManager {
    /// The two states as one. Sets are united, lists follow each other,
    /// and of two entries of a map under one key, or two values of a
    /// field that holds one, that of `self` wins. Grouping does not matter
    /// to the result; the order of the two states does.
    pub fn combine(self, other: Self) -> (both: Self)
        requires
            self.wf(),
        ensures
            both.wf(),
            both.sets() == combined_sets(self.sets(), other.sets()),
            both.options == self.options,
            both.filename == self.filename,
            both.inject_import_inserted == if self.inject_import_inserted is Some {
                self.inject_import_inserted
            } else {
                other.inject_import_inserted
            },
            both.theme_name == if self.theme_name is Some {
                self.theme_name
            } else {
                other.theme_name
            },
            both.declarations@ == self.declarations@ + other.declarations@,
            both.top_level_expressions@ == self.top_level_expressions@
                + other.top_level_expressions@,
            both.all_call_expressions@ == self.all_call_expressions@ + other.all_call_expressions@,
            both.var_decl_count_map.pairs() == merge_pairs(
                self.var_decl_count_map.pairs(),
                other.var_decl_count_map.pairs(),
            ),
            both.member_object_ident_count_map.pairs() == merge_pairs(
                self.member_object_ident_count_map.pairs(),
                other.member_object_ident_count_map.pairs(),
            ),
            both.style_map.pairs() == merge_pairs(self.style_map.pairs(), other.style_map.pairs()),
            both.style_vars.pairs() == merge_pairs(
                self.style_vars.pairs(),
                other.style_vars.pairs(),
            ),
            both.in_stylex_create == (self.in_stylex_create || other.in_stylex_create),
            both.styles_vars_to_inject@ == self.styles_vars_to_inject@
                + other.styles_vars_to_inject@,
            styles_by_variable(both.metadata) == merge_pairs(
                styles_by_variable(self.metadata),
                styles_by_variable(other.metadata),
            ),
            crate::register::queued_statements(both.styles_to_inject) == merge_pairs(
                crate::register::queued_statements(self.styles_to_inject),
                crate::register::queued_statements(other.styles_to_inject),
            ),
            both.prepend_include_module_items@ == self.prepend_include_module_items@
                + other.prepend_include_module_items@,
            both.prepend_import_module_items@ == self.prepend_import_module_items@
                + other.prepend_import_module_items@,
            injected_entries(both.injected_keyframes) == with_classes(
                injected_entries(self.injected_keyframes),
                injected_entries(other.injected_keyframes),
            ),
            both.top_imports@ == self.top_imports@ + other.top_imports@,
            both.computed@ == self.computed@ + other.computed@,
    {
        StateManager {
            options: self.options,
            filename: self.filename,
            import_paths: union_hash_set(&self.import_paths, &other.import_paths),
            stylex_import: union_hash_set(&self.stylex_import, &other.stylex_import),
            stylex_props_import: union_hash_set(
                &self.stylex_props_import,
                &other.stylex_props_import,
            ),
            stylex_attrs_import: union_hash_set(
                &self.stylex_attrs_import,
                &other.stylex_attrs_import,
            ),
            stylex_create_import: union_hash_set(
                &self.stylex_create_import,
                &other.stylex_create_import,
            ),
            stylex_include_import: union_hash_set(
                &self.stylex_include_import,
                &other.stylex_include_import,
            ),
            stylex_first_that_works_import: union_hash_set(
                &self.stylex_first_that_works_import,
                &other.stylex_first_that_works_import,
            ),
            stylex_keyframes_import: union_hash_set(
                &self.stylex_keyframes_import,
                &other.stylex_keyframes_import,
            ),
            stylex_define_vars_import: union_hash_set(
                &self.stylex_define_vars_import,
                &other.stylex_define_vars_import,
            ),
            stylex_create_theme_import: union_hash_set(
                &self.stylex_create_theme_import,
                &other.stylex_create_theme_import,
            ),
            stylex_types_import: union_hash_set(
                &self.stylex_types_import,
                &other.stylex_types_import,
            ),
            inject_import_inserted: if self.inject_import_inserted.is_some() {
                self.inject_import_inserted
            } else {
                other.inject_import_inserted
            },
            theme_name: if self.theme_name.is_some() {
                self.theme_name
            } else {
                other.theme_name
            },
            declarations: chain_collect(self.declarations, other.declarations),
            top_level_expressions: chain_collect(
                self.top_level_expressions,
                other.top_level_expressions,
            ),
            all_call_expressions: chain_collect(
                self.all_call_expressions,
                other.all_call_expressions,
            ),
            var_decl_count_map: chain_collect_hash_map(
                self.var_decl_count_map,
                other.var_decl_count_map,
            ),
            member_object_ident_count_map: chain_collect_hash_map(
                self.member_object_ident_count_map,
                other.member_object_ident_count_map,
            ),
            style_map: chain_collect_hash_map(self.style_map, other.style_map),
            style_vars: chain_collect_hash_map(self.style_vars, other.style_vars),
            style_vars_to_keep: union_hash_set(&self.style_vars_to_keep, &other.style_vars_to_keep),
            in_stylex_create: self.in_stylex_create || other.in_stylex_create,
            styles_vars_to_inject: chain_collect(
                self.styles_vars_to_inject,
                other.styles_vars_to_inject,
            ),
            metadata: chain_collect_styles(self.metadata, other.metadata),
            styles_to_inject: crate::register::chain_collect_queue(
                self.styles_to_inject,
                other.styles_to_inject,
            ),
            prepend_include_module_items: chain_collect(
                self.prepend_include_module_items,
                other.prepend_include_module_items,
            ),
            prepend_import_module_items: chain_collect(
                self.prepend_import_module_items,
                other.prepend_import_module_items,
            ),
            injected_keyframes: chain_collect_index_map(
                self.injected_keyframes,
                other.injected_keyframes,
            ),
            top_imports: chain_collect(self.top_imports, other.top_imports),
            computed: chain_collect(self.computed, other.computed),
        }
    }
}

/// What an import path resolves to.
#[derive(Clone, Copy, Debug, PartialEq, Eq, Structural)]
pub enum ImportPathResolutionType {
    ThemeNameRef,
    FilePath,
}

/// The resolution of an import path.
#[derive(Debug)]
pub enum ImportPathResolution {
    /// The path does not resolve to a theme.
    False,
    Tuple(ImportPathResolutionType, String),
}

pub ghost enum ImportPathResolutionView {
    False,
    Tuple(ImportPathResolutionType, Seq<char>),
}

impl View for ImportPathResolution {
    type V = ImportPathResolutionView;

    open spec fn view(&self) -> ImportPathResolutionView {
        match self {
            ImportPathResolution::False => ImportPathResolutionView::False,
            ImportPathResolution::Tuple(kind, path) => ImportPathResolutionView::Tuple(*kind, path@),
        }
    }
}

/// The settings of a way of resolving imports.
pub open spec fn settings_of(resolution: CheckModuleResolution) -> ModuleResolution {
    match resolution {
        CheckModuleResolution::CommonJS(m) => m,
        CheckModuleResolution::Haste(m) => m,
        CheckModuleResolution::CrossFileParsing(m) => m,
    }
}

/// What the name of a theme file ends in before its extension: what
/// the settings say, or `.stylex`.
pub open spec fn theme_extension(resolution: Option<CheckModuleResolution>) -> Seq<char> {
    match resolution {
        Some(r) => match settings_of(r).theme_file_extension {
            Some(e) => e@,
            None => ".stylex"@,
        },
        None => ".stylex"@,
    }
}

/// The path as it is known: the file's path, or `UnknownFile`.
pub open spec fn known_path(filename: Option<String>) -> Seq<char> {
    match filename {
        Some(p) => p@,
        None => unknown_file(),
    }
}

/// The name under which the variables of the module's themes are hashed:
/// none unless the module is a theme file and imports are resolved; the
/// file's name under Haste; otherwise the path relative to the root
/// directory, where one is given.
pub open spec fn hashing_name(filename: Option<String>, resolution: Option<CheckModuleResolution>) -> Option<
    Seq<char>,
> {
    let path = known_path(filename);
    if path.len() == 0 || !suffix_matches(theme_extension(resolution), path) {
        None
    } else {
        match resolution {
            None => None,
            Some(CheckModuleResolution::Haste(_)) => Some(file_name(path)),
            Some(r) => match settings_of(r).root_dir {
                Some(root) => Some(relative_to(root@, path)),
                None => None,
            },
        }
    }
}

/// What an import path resolves to. `resolved` is the file that the path
/// was found to name, where it was looked for and found.
///
/// The path after the first `n` rewrites of a host were applied to it in
/// turn: in each, the first text gives way to the second, once.
pub open spec fn rewritten(path: Seq<char>, rewrites: Seq<(String, String)>, n: nat) -> Seq<char>
    decreases n,
{
    if n == 0 || n > rewrites.len() {
        path
    } else {
        crate::text::replaced_first(
            rewritten(path, rewrites, (n - 1) as nat),
            rewrites[n - 1].0@,
            rewrites[n - 1].1@,
        )
    }
}

/// Applies the rewrites of a host to a path.
pub fn rewrite_path(path: &str, rewrites: &Vec<(String, String)>) -> (out: String)
    ensures
        out@ == rewritten(path@, rewrites@, rewrites.len() as nat),
{
    let mut chars = crate::text::to_chars(path);
    let mut i: usize = 0;
    while i < rewrites.len()
        invariant
            i <= rewrites.len(),
            chars@ == rewritten(path@, rewrites@, i as nat),
        decreases rewrites.len() - i,
    {
        let from = crate::text::to_chars(rewrites[i].0.as_str());
        let to = crate::text::to_chars(rewrites[i].1.as_str());
        chars = crate::text::replace_first(&chars, &from, &to);
        i += 1;
    }
    crate::text::from_chars(&chars)
}

/// The path resolves to a theme only where the module's file is known,
/// imports are resolved, and the path names a theme file. Under CommonJS
/// it resolves to the found file, after the rewrites of the host,
/// relative to the root directory; under
/// Haste to the path with the extension of the importing file.
pub open spec fn resolution_of(
    filename: Option<String>,
    resolution: Option<CheckModuleResolution>,
    import_path: Seq<char>,
    resolved: Option<Seq<char>>,
    rewrites: Seq<(String, String)>,
) -> ImportPathResolutionView {
    let source = known_path(filename);
    if source.len() == 0 || !suffix_matches(theme_extension(resolution), import_path) {
        ImportPathResolutionView::False
    } else {
        match resolution {
            Some(CheckModuleResolution::CommonJS(m)) => match (m.root_dir, resolved) {
                (Some(root), Some(file)) => ImportPathResolutionView::Tuple(
                    ImportPathResolutionType::ThemeNameRef,
                    relative_to(root@, rewritten(file, rewrites, rewrites.len())),
                ),
                _ => ImportPathResolutionView::False,
            },
            Some(CheckModuleResolution::Haste(_)) => ImportPathResolutionView::Tuple(
                ImportPathResolutionType::ThemeNameRef,
                with_file_extension(import_path, source),
            ),
            _ => ImportPathResolutionView::False,
        }
    }
}

/// The extensions of source files, in the order in which an import is
/// looked for under them.
pub open spec fn source_extensions() -> Seq<Seq<char>> {
    seq![".tsx"@, ".ts"@, ".jsx"@, ".js"@, ".mjs"@, ".cjs"@, ".mdx"@, ".md"@]
}

/// The paths under which a relative import is looked for, in order: the
/// path with each extension of source files where it begins with `.`, the
/// path itself as often otherwise.
pub open spec fn candidates(relative_file_path: Seq<char>) -> Seq<Seq<char>> {
    Seq::new(
        8,
        |i: int|
            if relative_file_path.len() > 0 && relative_file_path[0] == '.' {
                relative_file_path + source_extensions()[i]
            } else {
                relative_file_path
            },
    )
}

/// The paths under which a relative import is looked for, in order.
pub fn file_path_candidates(relative_file_path: &str) -> (paths: Vec<String>)
    ensures
        views(paths@) == candidates(relative_file_path@),
{
    let chars = crate::text::to_chars(relative_file_path);
    let dotted = chars.len() > 0 && chars[0] == '.';
    let mut extensions: Vec<&str> = Vec::new();
    extensions.push(".tsx");
    extensions.push(".ts");
    extensions.push(".jsx");
    extensions.push(".js");
    extensions.push(".mjs");
    extensions.push(".cjs");
    extensions.push(".mdx");
    extensions.push(".md");
    assert(Seq::new(8, |i: int| extensions[i]@) =~= source_extensions());
    let mut paths: Vec<String> = Vec::new();
    let mut i: usize = 0;
    while i < 8
        invariant
            i <= 8,
            extensions.len() == 8,
            Seq::new(8, |i: int| extensions[i]@) == source_extensions(),
            dotted == (relative_file_path@.len() > 0 && relative_file_path@[0] == '.'),
            paths.len() == i,
            forall|j: int| 0 <= j < i ==> (#[trigger] paths[j])@ == candidates(relative_file_path@)[j],
        decreases 8 - i,
    {
        assert(Seq::new(8, |i: int| extensions[i]@)[i as int] == extensions[i as int]@);
        let path = if dotted {
            let mut p = crate::text::to_chars(relative_file_path);
            crate::text::append_str(&mut p, extensions[i]);
            crate::text::from_chars(&p)
        } else {
            relative_file_path.to_string()
        };
        paths.push(path);
        i += 1;
    }
    assert(views(paths@) =~= candidates(relative_file_path@));
    paths
}

impl StateManager {
    /// The name of the module's file without its extension.
    pub fn get_short_filename(&self) -> (name: String)
        ensures
            name@ == match self.filename {
                Some(p) => file_stem(p@),
                None => unknown_file(),
            },
    {
        extract_filename_from_path(&self.filename)
    }

    /// The path of the module's file.
    pub fn get_filename(&self) -> (path: String)
        ensures
            path@ == known_path(self.filename),
    {
        extract_path(&self.filename)
    }

    /// What the name of a theme file ends in before its extension.
    pub fn theme_file_extension(&self) -> (ext: String)
        ensures
            ext@ == theme_extension(self.options.unstable_module_resolution),
    {
        let given = match &self.options.unstable_module_resolution {
            Some(CheckModuleResolution::CommonJS(m)) => &m.theme_file_extension,
            Some(CheckModuleResolution::Haste(m)) => &m.theme_file_extension,
            Some(CheckModuleResolution::CrossFileParsing(m)) => &m.theme_file_extension,
            None => {
                return ".stylex".to_string();
            },
        };
        match given {
            Some(e) => e.clone(),
            None => ".stylex".to_string(),
        }
    }

    /// The name under which the variables of the module's themes are
    /// hashed.
    pub fn get_filename_for_hashing(&self) -> (name: Option<String>)
        ensures
            match hashing_name(self.filename, self.options.unstable_module_resolution) {
                Some(n) => name is Some && name->0@ == n,
                None => name is None,
            },
    {
        let filename = self.get_filename();
        let ext = self.theme_file_extension();
        if filename.as_str().is_empty() || !matches_file_suffix(ext.as_str(), filename.as_str()) {
            return None;
        }
        match &self.options.unstable_module_resolution {
            None => None,
            Some(CheckModuleResolution::Haste(_)) => extract_filename_with_ext_from_path(
                &Some(filename),
            ),
            Some(CheckModuleResolution::CommonJS(m)) => match &m.root_dir {
                Some(root) => Some(relative_path(root.as_str(), filename.as_str())),
                None => None,
            },
            Some(CheckModuleResolution::CrossFileParsing(m)) => match &m.root_dir {
                Some(root) => Some(relative_path(root.as_str(), filename.as_str())),
                None => None,
            },
        }
    }

    /// What an import path resolves to, given the file that it was found
    /// to name, where it was looked for and found.
    pub fn import_path_resolver(&self, import_path: &str, resolved: Option<&str>) -> (r:
        ImportPathResolution)
        ensures
            r@ == resolution_of(
                self.filename,
                self.options.unstable_module_resolution,
                import_path@,
                match resolved {
                    Some(file) => Some(file@),
                    None => None,
                },
                self.options.resolved_path_rewrites@,
            ),
    {
        let source = self.get_filename();
        let ext = self.theme_file_extension();
        if source.as_str().is_empty() || !matches_file_suffix(ext.as_str(), import_path) {
            return ImportPathResolution::False;
        }
        match &self.options.unstable_module_resolution {
            Some(CheckModuleResolution::CommonJS(m)) => match (&m.root_dir, resolved) {
                (Some(root), Some(file)) => {
                    let file = rewrite_path(file, &self.options.resolved_path_rewrites);
                    ImportPathResolution::Tuple(
                        ImportPathResolutionType::ThemeNameRef,
                        relative_path(root.as_str(), file.as_str()),
                    )
                },
                _ => ImportPathResolution::False,
            },
            Some(CheckModuleResolution::Haste(_)) => ImportPathResolution::Tuple(
                ImportPathResolutionType::ThemeNameRef,
                add_file_extension(import_path, source.as_str()),
            ),
            _ => ImportPathResolution::False,
        }
    }
}

} // verus!
