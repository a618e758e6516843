use stylex_swc_plugin::ast::{
    CallExpr, Expr, Id, ImportDecl, ImportSpecifier, Lit, Module, ModuleItem, Pat, Span,
    TopLevelExpressionKind, VarDeclarator,
};
use stylex_swc_plugin::collections::{OrderedMap, OrderedSet};
use stylex_swc_plugin::driver::fill_top_level_expressions;
use stylex_swc_plugin::errors::Message;
use stylex_swc_plugin::functions::{FunctionBinding, FunctionConfig, FunctionMap};
use stylex_swc_plugin::lookup::{
    get_expr_from_var_decl, get_import_by_ident, get_var_decl_by_ident,
    get_var_decl_by_ident_or_member, get_var_decl_from, handle_tpl_to_expression,
    increase_ident_count, increase_ident_count_by_count, reduce_ident_count, VarDeclAction,
};
use stylex_swc_plugin::options::{
    CheckModuleResolution, ImportSources, ModuleResolution, NamedImportSource, RuntimeInjection,
    RuntimeInjectionState, StyleXOptions,
};
use stylex_swc_plugin::paths::{
    add_file_extension, extract_filename_from_path, extract_filename_with_ext_from_path,
    extract_path, matches_file_suffix, relative_path,
};
use stylex_swc_plugin::register::{find_holder, first_found, module_order_of, placements, Placed};
use stylex_swc_plugin::rule::InjectableStyle;
use stylex_swc_plugin::state::{
    chain_collect, chain_collect_hash_map, file_path_candidates, union_hash_set,
    ImportPathResolution, ImportPathResolutionType, MetaData, NonNullProp, NonNullProps,
    StateManager, StyleVarsToKeep,
};
use stylex_swc_plugin::value::Function;
use stylex_swc_plugin::visitor::{ModuleCycle, ModuleTransformVisitor};

fn id(s: &str) -> Id {
    Id { sym: s.to_string(), ctxt: 0 }
}

fn text(s: &str) -> Expr {
    Expr::Lit(Lit::Str(s.to_string()))
}

fn decl(name: &str, init: Option<Expr>) -> VarDeclarator {
    VarDeclarator { name: Pat::Ident(id(name)), init: init.map(Box::new) }
}

fn named_options() -> StyleXOptions {
    let mut options = StyleXOptions::default();
    options.import_sources = vec![
        ImportSources::Regular("stylex".to_string()),
        ImportSources::Named(NamedImportSource { as_name: "css".to_string(), from: "my-lib".to_string() }),
    ];
    options
}

fn import(src: &str, specifiers: Vec<ImportSpecifier>) -> ImportDecl {
    ImportDecl { src: src.to_string(), specifiers, type_only: false }
}

fn names(set: &OrderedSet<Id>) -> Vec<String> {
    set.items.iter().map(|i| i.sym.clone()).collect()
}

fn strings(set: &OrderedSet<String>) -> Vec<String> {
    set.items.clone()
}

#[test]
fn a_new_state_is_empty_and_keeps_the_options() {
    let state = StateManager::new(named_options());
    assert!(state.import_paths.items.is_empty());
    assert!(state.stylex_create_import.items.is_empty());
    assert!(state.declarations.is_empty());
    assert!(state.metadata.is_empty());
    assert!(state.injected_keyframes.is_empty());
    assert!(state.inject_import_inserted.is_none());
    assert!(state.filename.is_none());
    assert!(!state.is_test());
    assert!(!state.is_dev());
    assert!(!state.gen_conditional_classes());
    assert!(!state.get_treeshake_compensation());
    assert_eq!(state.options.class_name_prefix, "x");
    assert!(state.options.runtime_injection.is_none());
    assert_eq!(state.import_as("my-lib"), Some("css".to_string()));
    assert_eq!(state.import_as("stylex"), None);
    assert_eq!(state.import_sources_stringified(), vec!["stylex".to_string(), "my-lib".to_string()]);
    assert_eq!(state.import_sources().len(), 2);
    let state = StateManager::default();
    assert_eq!(
        state.import_sources_stringified(),
        vec!["stylex".to_string(), "@stylexjs/stylex".to_string()]
    );
}

#[test]
fn runtime_injection_is_kept_with_the_helper_module() {
    let mut options = StyleXOptions::default();
    options.runtime_injection = RuntimeInjection::Default;
    options.treeshake_compensation = Some(true);
    let state = StateManager::new(options);
    assert!(state.get_treeshake_compensation());
    assert!(matches!(
        &state.options.runtime_injection,
        Some(RuntimeInjectionState::Regular(p)) if p == "@stylexjs/stylex/lib/stylex-inject"
    ));
    let mut options = StyleXOptions::default();
    options.runtime_injection = RuntimeInjection::Named("inject".to_string());
    let state = StateManager::new(options);
    assert!(matches!(
        &state.options.runtime_injection,
        Some(RuntimeInjectionState::Named(n))
            if n.as_name == "inject" && n.from == "@stylexjs/stylex/lib/stylex-inject"
    ));
}

#[test]
fn imports_are_tracked_while_initialising() {
    let mut visitor = ModuleTransformVisitor::new(StateManager::new(named_options()));
    let decl = import(
        "stylex",
        vec![
            ImportSpecifier::Default(id("sx")),
            ImportSpecifier::Named { local: id("c"), imported: Some("create".to_string()) },
            ImportSpecifier::Named { local: id("props"), imported: None },
            ImportSpecifier::Named { local: id("ftw"), imported: Some("firstThatWorks".to_string()) },
            ImportSpecifier::Namespace(id("ns")),
        ],
    );
    let out = visitor.fold_import_decl_impl(decl).unwrap();
    assert_eq!(out.src, "stylex");
    let state = &visitor.state;
    assert_eq!(strings(&state.import_paths), vec!["stylex".to_string()]);
    assert_eq!(state.stylex_import_stringified(), vec!["sx".to_string(), "ns".to_string()]);
    assert_eq!(names(&state.stylex_create_import), vec!["c".to_string()]);
    assert_eq!(names(&state.stylex_props_import), vec!["props".to_string()]);
    assert_eq!(names(&state.stylex_first_that_works_import), vec!["ftw".to_string()]);
    assert_eq!(state.top_imports.len(), 1);
}

#[test]
fn imports_from_a_named_source_bind_the_library_under_its_name() {
    let mut visitor = ModuleTransformVisitor::new(StateManager::new(named_options()));
    let decl = import(
        "my-lib",
        vec![
            ImportSpecifier::Named { local: id("styling"), imported: Some("css".to_string()) },
            ImportSpecifier::Named { local: id("create"), imported: None },
            ImportSpecifier::Default(id("whole")),
        ],
    );
    visitor.fold_import_decl_impl(decl).unwrap();
    let state = &visitor.state;
    assert_eq!(strings(&state.import_paths), vec!["css".to_string()]);
    assert_eq!(state.stylex_import_stringified(), vec!["styling".to_string()]);
    assert!(state.stylex_create_import.items.is_empty());
}

#[test]
fn unknown_symbols_from_a_recognised_source_are_rejected() {
    let mut visitor = ModuleTransformVisitor::new(StateManager::new(named_options()));
    let decl = import("stylex", vec![ImportSpecifier::Named { local: id("nope"), imported: None }]);
    let err = visitor.fold_import_decl_impl(decl).unwrap_err();
    assert_eq!(err.message, Message::UnknownImport);
}

#[test]
fn other_imports_and_other_cycles_bind_nothing() {
    let mut visitor = ModuleTransformVisitor::new(StateManager::new(named_options()));
    visitor
        .fold_import_decl_impl(import("react", vec![ImportSpecifier::Default(id("React"))]))
        .unwrap();
    assert!(visitor.state.stylex_import.items.is_empty());
    assert_eq!(visitor.state.top_imports.len(), 1);
    let mut types_only = import("stylex", vec![ImportSpecifier::Default(id("sx"))]);
    types_only.type_only = true;
    visitor.fold_import_decl_impl(types_only).unwrap();
    assert!(visitor.state.stylex_import.items.is_empty());
    assert_eq!(visitor.state.top_imports.len(), 1);
    visitor.cycle = ModuleCycle::Skip;
    visitor
        .fold_import_decl_impl(import("stylex", vec![ImportSpecifier::Default(id("sx"))]))
        .unwrap();
    assert!(visitor.state.stylex_import.items.is_empty());
    visitor.cycle = ModuleCycle::TransformEnter;
    visitor
        .fold_import_decl_impl(import("stylex", vec![ImportSpecifier::Default(id("sx"))]))
        .unwrap();
    assert!(visitor.state.stylex_import.items.is_empty());
}

#[test]
fn combine_unites_sets_and_lets_the_left_win() {
    let mut a = StateManager::default();
    a.stylex_create_import.insert(id("a"));
    a.import_paths.insert("p".to_string());
    a.theme_name = Some("left".to_string());
    a.declarations.push(decl("x", None));
    a.var_decl_count_map.insert(id("v"), 1);
    let mut b = StateManager::default();
    b.stylex_create_import.insert(id("b"));
    b.stylex_create_import.insert(id("a"));
    b.theme_name = Some("right".to_string());
    b.in_stylex_create = true;
    b.declarations.push(decl("y", None));
    b.var_decl_count_map.insert(id("v"), 5);
    b.var_decl_count_map.insert(id("w"), 7);
    let both = a.combine(b);
    assert_eq!(names(&both.stylex_create_import), vec!["a".to_string(), "b".to_string()]);
    assert_eq!(strings(&both.import_paths), vec!["p".to_string()]);
    assert_eq!(both.theme_name, Some("left".to_string()));
    assert!(both.in_stylex_create);
    assert_eq!(both.declarations.len(), 2);
    let counts: Vec<(String, i8)> =
        both.var_decl_count_map.entries.iter().map(|(k, v)| (k.sym.clone(), *v)).collect();
    assert_eq!(counts, vec![("v".to_string(), 1), ("w".to_string(), 7)]);
}

fn state_with(ids: &[&str]) -> StateManager {
    let mut s = StateManager::default();
    for i in ids {
        s.stylex_create_import.insert(id(i));
        s.import_paths.insert(i.to_string());
    }
    s
}

fn sorted(mut v: Vec<String>) -> Vec<String> {
    v.sort();
    v
}

#[test]
fn combine_is_associative_on_sets() {
    let left = state_with(&["a", "b"]).combine(state_with(&["b", "c"]).combine(state_with(&["c", "d"])));
    let right = state_with(&["a", "b"]).combine(state_with(&["b", "c"])).combine(state_with(&["c", "d"]));
    assert_eq!(sorted(names(&left.stylex_create_import)), sorted(names(&right.stylex_create_import)));
    assert_eq!(sorted(strings(&left.import_paths)), sorted(strings(&right.import_paths)));
    assert_eq!(names(&left.stylex_create_import).len(), 4);
}

#[test]
fn collection_helpers() {
    assert_eq!(chain_collect(vec![1, 2], vec![3]), vec![1, 2, 3]);
    let mut a = OrderedSet::new();
    a.insert("x".to_string());
    let mut b = OrderedSet::new();
    b.insert("y".to_string());
    b.insert("x".to_string());
    assert_eq!(union_hash_set(&a, &b).items, vec!["x".to_string(), "y".to_string()]);
    assert!(a.contains(&"x".to_string()));
    assert!(!a.contains(&"y".to_string()));
    assert!(!a.insert("x".to_string()));
    let mut m: OrderedMap<String, u8> = OrderedMap::new();
    m.insert("k".to_string(), 1);
    m.insert("k".to_string(), 2);
    let mut o: OrderedMap<String, u8> = OrderedMap::new();
    o.insert("k".to_string(), 9);
    o.insert("l".to_string(), 3);
    assert_eq!(m.get(&"k".to_string()), Some(&2));
    let both = chain_collect_hash_map(m, o);
    assert_eq!(both.entries, vec![("k".to_string(), 2), ("l".to_string(), 3)]);
}

#[test]
fn file_suffixes_and_extensions() {
    assert!(matches_file_suffix(".stylex", "tokens.stylex.ts"));
    assert!(matches_file_suffix(".stylex", "a/b/tokens.stylex.cjs"));
    assert!(matches_file_suffix(".stylex", "tokens.stylex"));
    assert!(!matches_file_suffix(".stylex", "tokens.ts"));
    assert!(!matches_file_suffix(".stylex", "tokens.stylex.css"));
    assert_eq!(add_file_extension("./tokens.stylex", "/src/app.tsx"), "./tokens.stylex.tsx");
    assert_eq!(add_file_extension("./tokens.stylex.js", "/src/app.tsx"), "./tokens.stylex.js");
    assert_eq!(add_file_extension("./tokens", "/src/Makefile"), "./tokens.");
    assert_eq!(add_file_extension("./tokens", "/src/.hidden"), "./tokens.");
    assert_eq!(relative_path("/root", "/root/src/a.ts"), "src/a.ts");
    assert_eq!(relative_path("/root/", "/root/src/a.ts"), "src/a.ts");
    assert_eq!(relative_path("/root", "/rootless/a.ts"), "/rootless/a.ts");
    assert_eq!(relative_path("/root", "/root"), "");
    assert_eq!(relative_path("", "/a.ts"), "/a.ts");
    assert_eq!(relative_path("/", "/app/x"), "app/x");
    assert_eq!(relative_path("/", "/"), "");
    assert_eq!(relative_path("/", "app/x"), "app/x");
    assert_eq!(relative_path("/app", "/app//src/x"), "src/x");
    assert_eq!(relative_path("/app/", "/app/src/x/"), "src/x");
    assert_eq!(relative_path("/app/.", "/app/./src/x"), "src/x");
    assert_eq!(relative_path("app", "app/src/x"), "src/x");
    assert_eq!(relative_path("app", "/app/src/x"), "/app/src/x");
    assert_eq!(relative_path("/app/src/x", "/app"), "/app");
    assert_eq!(relative_path("./app", "app/x"), "app/x");
    assert_eq!(relative_path("./app", "./app/x"), "x");
    assert_eq!(extract_filename_from_path(&Some("/a/b/tokens.stylex.ts".to_string())), "tokens.stylex");
    assert_eq!(extract_filename_from_path(&None), "UnknownFile");
    assert_eq!(extract_path(&Some("/a/b.ts".to_string())), "/a/b.ts");
    assert_eq!(extract_path(&None), "UnknownFile");
    assert_eq!(
        extract_filename_with_ext_from_path(&Some("/a/b/c.ts".to_string())),
        Some("c.ts".to_string())
    );
    assert_eq!(extract_filename_with_ext_from_path(&None), None);
    assert_eq!(
        file_path_candidates("./t"),
        vec!["./t.tsx", "./t.ts", "./t.jsx", "./t.js", "./t.mjs", "./t.cjs", "./t.mdx", "./t.md"]
    );
    assert_eq!(file_path_candidates("pkg/t")[3], "pkg/t");
}

fn resolving(resolution: CheckModuleResolution, filename: Option<&str>) -> StateManager {
    let mut options = StyleXOptions::default();
    options.unstable_module_resolution = Some(resolution);
    let mut state = StateManager::new(options);
    state.filename = filename.map(|f| f.to_string());
    state
}

fn settings(root: Option<&str>) -> ModuleResolution {
    ModuleResolution { root_dir: root.map(|r| r.to_string()), theme_file_extension: None }
}

#[test]
fn the_name_for_hashing_follows_the_resolution() {
    let state =
        resolving(CheckModuleResolution::CommonJS(settings(Some("/repo"))), Some("/repo/src/tokens.stylex.ts"));
    assert_eq!(state.get_filename_for_hashing(), Some("src/tokens.stylex.ts".to_string()));
    assert_eq!(state.get_short_filename(), "tokens.stylex");
    assert_eq!(state.get_filename(), "/repo/src/tokens.stylex.ts");
    let state = resolving(CheckModuleResolution::Haste(settings(None)), Some("/repo/src/tokens.stylex.ts"));
    assert_eq!(state.get_filename_for_hashing(), Some("tokens.stylex.ts".to_string()));
    let state = resolving(CheckModuleResolution::CommonJS(settings(Some("/repo"))), Some("/repo/src/app.ts"));
    assert_eq!(state.get_filename_for_hashing(), None);
    let state = resolving(CheckModuleResolution::CommonJS(settings(None)), Some("/repo/tokens.stylex.ts"));
    assert_eq!(state.get_filename_for_hashing(), None);
    let mut state = StateManager::default();
    state.filename = Some("/repo/tokens.stylex.ts".to_string());
    assert_eq!(state.get_filename_for_hashing(), None);
}

fn resolution(r: ImportPathResolution) -> Option<(ImportPathResolutionType, String)> {
    match r {
        ImportPathResolution::False => None,
        ImportPathResolution::Tuple(kind, path) => Some((kind, path)),
    }
}

#[test]
fn import_paths_resolve_to_theme_names() {
    let state = resolving(CheckModuleResolution::CommonJS(settings(Some("/repo"))), Some("/repo/src/app.ts"));
    assert_eq!(
        resolution(state.import_path_resolver("./tokens.stylex", Some("/repo/src/tokens.stylex.ts"))),
        Some((ImportPathResolutionType::ThemeNameRef, "src/tokens.stylex.ts".to_string()))
    );
    assert_eq!(resolution(state.import_path_resolver("./tokens.stylex", None)), None);
    assert_eq!(resolution(state.import_path_resolver("./tokens", Some("/repo/src/tokens.ts"))), None);
    let state = resolving(CheckModuleResolution::Haste(settings(None)), Some("/repo/src/app.tsx"));
    assert_eq!(
        resolution(state.import_path_resolver("tokens.stylex", None)),
        Some((ImportPathResolutionType::ThemeNameRef, "tokens.stylex.tsx".to_string()))
    );
    let state = resolving(CheckModuleResolution::CrossFileParsing(settings(Some("/repo"))), Some("/a.ts"));
    assert_eq!(resolution(state.import_path_resolver("./tokens.stylex", Some("/repo/t.stylex.ts"))), None);
    let state = StateManager::default();
    assert_eq!(resolution(state.import_path_resolver("./tokens.stylex", Some("/x"))), None);
}

#[test]
fn reference_counts_go_up_and_down_and_stay_in_range() {
    let mut state = StateManager::default();
    increase_ident_count(&mut state, &id("a"));
    increase_ident_count_by_count(&mut state, &id("a"), 5);
    reduce_ident_count(&mut state, &id("b"));
    assert_eq!(state.var_decl_count_map.get(&id("a")), Some(&6));
    assert_eq!(state.var_decl_count_map.get(&id("b")), Some(&-1));
    increase_ident_count_by_count(&mut state, &id("a"), 127);
    assert_eq!(state.var_decl_count_map.get(&id("a")), Some(&127));
    increase_ident_count_by_count(&mut state, &id("b"), -128);
    assert_eq!(state.var_decl_count_map.get(&id("b")), Some(&-128));
    assert_eq!(state.var_decl_count_map.get(&Id { sym: "a".to_string(), ctxt: 1 }), None);
}

#[test]
fn declarations_and_imports_are_found_by_symbol() {
    let mut state = StateManager::default();
    state.declarations.push(decl("a", Some(text("1"))));
    state.declarations.push(decl("a", Some(text("2"))));
    state.declarations.push(decl(
        "styles",
        Some(Expr::Call(CallExpr {
            span: Span { lo: 0, hi: 1 },
            callee: Box::new(Expr::Member {
                obj: Box::new(Expr::Ident(id("stylex"))),
                prop: stylex_swc_plugin::ast::MemberProp::Ident("create".to_string()),
            }),
            args: vec![],
        })),
    ));
    state.top_imports.push(import(
        "lib",
        vec![ImportSpecifier::Named { local: id("local"), imported: Some("remote".to_string()) }],
    ));
    let found = get_var_decl_from(&state, &id("a")).unwrap();
    assert!(matches!(&**found.init.as_ref().unwrap(), Expr::Lit(Lit::Str(s)) if s == "1"));
    assert!(get_var_decl_from(&state, &id("zz")).is_none());
    assert!(matches!(get_expr_from_var_decl(found), Expr::Lit(Lit::Str(s)) if s == "1"));
    let by_member = get_var_decl_by_ident_or_member(&state, &id("create")).unwrap();
    assert!(matches!(&by_member.name, Pat::Ident(i) if i.sym == "styles"));
    assert_eq!(get_import_by_ident(&id("remote"), &state).unwrap().src, "lib");
    assert_eq!(get_import_by_ident(&id("local"), &state).unwrap().src, "lib");
    assert!(get_import_by_ident(&id("zz"), &state).is_none());

    let functions = FunctionMap {
        identifiers: vec![FunctionBinding {
            id: id("mapped"),
            config: FunctionConfig::Regular(Function::Mapper(Box::new(text("m")))),
        }],
    };
    let found = get_var_decl_by_ident(&id("a"), &mut state, &functions, VarDeclAction::Reduce).unwrap();
    assert!(matches!(&**found.init.as_ref().unwrap(), Expr::Lit(Lit::Str(s)) if s == "1"));
    assert_eq!(state.var_decl_count_map.get(&id("a")), Some(&-1));
    let found = get_var_decl_by_ident(&id("mapped"), &mut state, &functions, VarDeclAction::Increase).unwrap();
    assert!(matches!(&**found.init.as_ref().unwrap(), Expr::Lit(Lit::Str(s)) if s == "m"));
    assert_eq!(state.var_decl_count_map.get(&id("mapped")), Some(&1));
    assert!(get_var_decl_by_ident(&id("zz"), &mut state, &functions, VarDeclAction::Keep).is_none());
    assert_eq!(state.var_decl_count_map.get(&id("zz")), None);

    let tpl = handle_tpl_to_expression(
        &vec!["a".to_string(), "b".to_string(), "c".to_string()],
        &vec![Expr::Ident(id("a")), Expr::Ident(id("zz"))],
        &mut state,
        &functions,
    );
    let Expr::Tpl { quasis, exprs } = tpl else { panic!("no template") };
    assert_eq!(quasis.len(), 3);
    assert!(matches!(&exprs[0], Expr::Lit(Lit::Str(s)) if s == "1"));
    assert!(matches!(&exprs[1], Expr::Ident(i) if i.sym == "zz"));
    assert_eq!(state.var_decl_count_map.get(&id("a")), Some(&-2));
    assert_eq!(state.var_decl_count_map.get(&id("zz")), Some(&-1));
}

#[test]
fn top_level_expressions_are_collected_in_order() {
    let module = Module {
        body: vec![
            ModuleItem::Var(vec![decl("a", Some(text("1"))), decl("b", None)]),
            ModuleItem::ExportVar(vec![decl("c", Some(text("2")))]),
            ModuleItem::ExportDefaultExpr(Box::new(Expr::Paren(Box::new(text("3"))))),
            ModuleItem::Stmt(Box::new(text("4"))),
            ModuleItem::Other,
        ],
    };
    let mut state = StateManager::default();
    fill_top_level_expressions(&module, &mut state);
    let kinds: Vec<TopLevelExpressionKind> = state.top_level_expressions.iter().map(|e| e.0).collect();
    assert_eq!(
        kinds,
        vec![
            TopLevelExpressionKind::Stmt,
            TopLevelExpressionKind::NamedExport,
            TopLevelExpressionKind::DefaultExport
        ]
    );
    assert!(matches!(&state.top_level_expressions[2].1, Expr::Lit(Lit::Str(s)) if s == "3"));
    assert_eq!(state.top_level_expressions[1].2.as_ref().unwrap().sym, "c");
    assert!(state.top_level_expressions[2].2.is_none());
    let declared: Vec<String> = state
        .declarations
        .iter()
        .map(|d| match &d.name {
            Pat::Ident(i) => i.sym.clone(),
            Pat::Other => String::new(),
        })
        .collect();
    assert_eq!(declared, vec!["a".to_string(), "c".to_string()]);
    let call = CallExpr { span: Span { lo: 0, hi: 0 }, callee: Box::new(Expr::Other), args: vec![] };
    assert!(state.get_top_level_expr(&TopLevelExpressionKind::Stmt, &call).is_none());
}

fn kept(variable: &str, namespace: Option<&str>) -> StyleVarsToKeep {
    StyleVarsToKeep(
        id(variable),
        match namespace {
            Some(n) => NonNullProp::Id(id(n)),
            None => NonNullProp::True,
        },
        NonNullProps::True,
    )
}

#[test]
fn combine_unites_what_is_kept() {
    let mut a = StateManager::default();
    a.style_vars_to_keep.insert(kept("styles", Some("root")));
    let mut b = StateManager::default();
    b.style_vars_to_keep.insert(kept("styles", Some("root")));
    b.style_vars_to_keep.insert(kept("styles", None));
    let both = a.combine(b);
    assert_eq!(both.style_vars_to_keep.items.len(), 2);
    assert!(both.style_vars_to_keep.contains(&kept("styles", None)));
    assert!(both.is_wf());
}

fn meta(class_name: &str, priority: u64) -> MetaData {
    MetaData {
        class_name: class_name.to_string(),
        style: InjectableStyle { ltr: format!(".{}{{}}", class_name), rtl: None, priority },
    }
}

#[test]
fn the_styles_of_a_module_hold_each_class_once() {
    let mut state = StateManager::default();
    state.add_style("a".to_string(), meta("x1", 1));
    state.add_style("a".to_string(), meta("x2", 2));
    state.add_style("b".to_string(), meta("x2", 9));
    state.add_style("b".to_string(), meta("x3", 3));
    state.add_style("a".to_string(), meta("x4", 4));
    let list = state.module_metadata();
    let seen: Vec<(String, u64)> = list.iter().map(|m| (m.class_name.clone(), m.style.priority)).collect();
    assert_eq!(
        seen,
        vec![("x1".to_string(), 1), ("x2".to_string(), 2), ("x4".to_string(), 4), ("x3".to_string(), 3)]
    );
}

#[test]
fn queued_statements_go_after_the_first_item_that_holds_their_expression() {
    let one = Expr::Lit(Lit::Str("one".to_string()));
    let two = Expr::Lit(Lit::Str("two".to_string()));
    let three = Expr::Lit(Lit::Str("three".to_string()));
    let items = vec![
        ModuleItem::Other,
        ModuleItem::Var(vec![decl("a", None), decl("b", Some(two.clone()))]),
        ModuleItem::ExportDefaultExpr(Box::new(one.clone())),
        ModuleItem::Stmt(Box::new(one.clone())),
        ModuleItem::ExportVar(vec![decl("c", Some(two.clone()))]),
    ];
    let mut queue: indexmap::IndexMap<Expr, Vec<ModuleItem>> = indexmap::IndexMap::new();
    queue.insert(one.clone(), vec![ModuleItem::Other]);
    queue.insert(three.clone(), vec![ModuleItem::Other]);
    queue.insert(two.clone(), vec![ModuleItem::Other]);
    assert_eq!(placements(&items, &queue), vec![Some(2), None, Some(1)]);
    assert_eq!(find_holder(&items, &two), Some(1));
    assert_eq!(find_holder(&Vec::new(), &two), None);
}

#[test]
fn the_queue_is_written_into_the_module_in_order() {
    let order = module_order_of(3, 1, 2, &vec![Some(2), None, Some(0), Some(2)], &vec![1, 2, 1, 2]);
    assert_eq!(
        order,
        vec![
            Placed::Import(0),
            Placed::Include(0),
            Placed::Include(1),
            Placed::Queued(1, 0),
            Placed::Queued(1, 1),
            Placed::Body(0),
            Placed::Queued(2, 0),
            Placed::Body(1),
            Placed::Body(2),
            Placed::Queued(0, 0),
            Placed::Queued(3, 0),
            Placed::Queued(3, 1),
        ]
    );
    assert_eq!(module_order_of(0, 0, 0, &vec![], &vec![]), vec![]);
}

#[test]
fn the_first_file_that_was_found_is_chosen() {
    assert_eq!(first_found(&vec![None, Some("a.ts".to_string()), Some("a.js".to_string())]), Some("a.ts".to_string()));
    assert_eq!(first_found(&vec![None, None]), None);
    assert_eq!(first_found(&vec![]), None);
}

#[test]
fn the_library_is_bound_by_its_first_default_or_namespace_import() {
    let mut visitor = ModuleTransformVisitor::new(StateManager::default());
    let decl = import(
        "stylex",
        vec![
            ImportSpecifier::Named { local: id("create"), imported: None },
            ImportSpecifier::Namespace(id("sx")),
            ImportSpecifier::Default(id("other")),
        ],
    );
    visitor.bind_library(&decl);
    assert!(visitor.declaration.is_none());
    visitor.fold_import_decl_impl(decl.clone()).unwrap();
    visitor.bind_library(&decl);
    assert_eq!(visitor.declaration.as_ref().map(|i| i.sym.as_str()), Some("sx"));
    let later = import("stylex", vec![ImportSpecifier::Default(id("late"))]);
    visitor.bind_library(&later);
    assert_eq!(visitor.declaration.as_ref().map(|i| i.sym.as_str()), Some("sx"));
}

#[test]
fn a_host_may_rewrite_the_resolved_path() {
    let mut options = StyleXOptions::default();
    options.unstable_module_resolution = Some(CheckModuleResolution::CommonJS(ModuleResolution {
        root_dir: Some("/project".to_string()),
        theme_file_extension: None,
    }));
    let mut state = StateManager::new(options);
    state.filename = Some("/project/src/a.ts".to_string());
    let plain = state.import_path_resolver("./tokens.stylex", Some("/app/@lib/tokens.stylex.ts"));
    assert!(matches!(plain, ImportPathResolution::Tuple(_, p) if p == "/app/@lib/tokens.stylex.ts"));
    state.options.resolved_path_rewrites = vec![("/app/@".to_string(), "/project/node_modules/@".to_string())];
    let moved = state.import_path_resolver("./tokens.stylex", Some("/app/@lib/tokens.stylex.ts"));
    assert!(matches!(moved, ImportPathResolution::Tuple(_, p) if p == "node_modules/@lib/tokens.stylex.ts"));
}

#[test]
fn text_is_replaced_once_at_its_first_place() {
    let chars = |s: &str| -> Vec<char> { s.chars().collect() };
    let text = |v: Vec<char>| -> String { v.into_iter().collect() };
    assert_eq!(text(stylex_swc_plugin::text::replace_first(&chars("a/b/a/b"), &chars("a/"), &chars("X"))), "Xb/a/b");
    assert_eq!(text(stylex_swc_plugin::text::replace_first(&chars("a/b"), &chars("c"), &chars("X"))), "a/b");
    assert_eq!(text(stylex_swc_plugin::text::replace_first(&chars("a/b"), &chars(""), &chars("X"))), "a/b");
    assert_eq!(text(stylex_swc_plugin::text::replace_first(&chars("ab"), &chars("abc"), &chars("X"))), "ab");
    assert_eq!(text(stylex_swc_plugin::text::replace_first(&chars("xab"), &chars("ab"), &chars(""))), "x");
}
