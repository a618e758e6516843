use stylex_swc_plugin::ast::{
    CallExpr, Expr, ExprOrSpread, Id, KeyValueProp, Lit, MemberProp, Pat, PropName, PropOrSpread,
    Span, TopLevelExpression, TopLevelExpressionKind, VarDeclarator,
};
use stylex_swc_plugin::collections::OrderedSet;
use stylex_swc_plugin::errors::{ErrorKind, Message};
use stylex_swc_plugin::hash::create_hash;
use stylex_swc_plugin::options::{
    CheckModuleResolution, ImportSources, ModuleResolution, StyleXOptions,
};
use stylex_swc_plugin::state::StateManager;
use stylex_swc_plugin::themes::{stylex_create_theme, stylex_define_vars};
use stylex_swc_plugin::value::{Key, MapEntry, Value};
use stylex_swc_plugin::visitor::{ModuleCycle, ModuleTransformVisitor};

fn id(s: &str) -> Id {
    Id { sym: s.to_string(), ctxt: 0 }
}

fn text(s: &str) -> Expr {
    Expr::Lit(Lit::Str(s.to_string()))
}

fn kv(key: &str, value: Expr) -> PropOrSpread {
    let key = if key.starts_with('@') { PropName::Str(key.to_string()) } else { PropName::Ident(key.to_string()) };
    PropOrSpread::KeyValue(KeyValueProp { key, value: Box::new(value) })
}

fn call(member: &str, lo: u32, args: Vec<Expr>) -> CallExpr {
    CallExpr {
        span: Span { lo, hi: lo + 5 },
        callee: Box::new(Expr::Member {
            obj: Box::new(Expr::Ident(id("stylex"))),
            prop: MemberProp::Ident(member.to_string()),
        }),
        args: args.into_iter().map(|e| ExprOrSpread { spread: false, expr: Box::new(e) }).collect(),
    }
}

fn entry(key: &str, value: Value) -> MapEntry {
    MapEntry { key: Key::Str(key.to_string()), value }
}

fn s(v: &str) -> Value {
    Value::Str(v.to_string())
}

fn get<'a>(v: &'a Value, key: &str) -> &'a Value {
    let Value::Object(entries) = v else { panic!("no object") };
    for e in entries {
        if matches!(&e.key, Key::Str(k) if k == key) {
            return &e.value;
        }
    }
    panic!("no entry {}", key)
}

const THEME: &str = "src/tokens.stylex.ts//tokens";

#[test]
fn define_vars_gives_one_reference_for_each_variable() {
    let variables = Value::Object(vec![entry(
        "color",
        Value::Object(vec![entry("default", s("red")), entry("@media (prefers-color-scheme: dark)", s("cyan"))]),
    )]);
    let (refs, injected) = stylex_define_vars(&variables, THEME, "x").unwrap();
    let hash = format!("x{}", create_hash(&format!("{}.color", THEME)));
    let theme = format!("x{}", create_hash(THEME));
    assert!(matches!(get(&refs, "color"), Value::Str(r) if *r == format!("var(--{})", hash)));
    assert!(matches!(get(&refs, "__themeName__"), Value::Str(r) if *r == theme));
    let Value::Object(entries) = &refs else { panic!("no object") };
    assert_eq!(entries.len(), 2);
    assert_eq!(injected.len(), 2);
    let (class_name, style) = injected.get_index(0).unwrap();
    assert_eq!(*class_name, theme);
    assert_eq!(style.ltr, format!(":root{{--{}:red}}", hash));
    assert_eq!(style.priority, 0);
    let (class_name, style) = injected.get_index(1).unwrap();
    let dark = "@media (prefers-color-scheme: dark)";
    assert_eq!(*class_name, format!("{}-{}", theme, create_hash(dark)));
    assert_eq!(style.ltr, format!("{}{{:root{{--{}:cyan}}}}", dark, hash));
    assert_eq!(style.priority, 1);
}

#[test]
fn define_vars_registers_typed_properties() {
    let variables = Value::Object(vec![
        entry("size", Value::TypedCss { value: Box::new(s("4px")), syntax: "<length>".to_string() }),
        entry("plain", Value::Num(stylex_swc_plugin::number::Number::from_ten_thousandths(20_000).unwrap())),
    ]);
    let (_, injected) = stylex_define_vars(&variables, THEME, "x").unwrap();
    let size = format!("x{}", create_hash(&format!("{}.size", THEME)));
    let plain = format!("x{}", create_hash(&format!("{}.plain", THEME)));
    assert_eq!(injected.len(), 2);
    let (class_name, style) = injected.get_index(0).unwrap();
    assert_eq!(*class_name, size);
    assert_eq!(
        style.ltr,
        format!("@property --{} {{ syntax: \"<length>\"; inherits: true; initial-value: 4px }}", size)
    );
    let (_, style) = injected.get_index(1).unwrap();
    assert_eq!(style.ltr, format!(":root{{--{}:4px;--{}:2}}", size, plain));
}

#[test]
fn define_vars_rejects_illegal_values() {
    assert_eq!(stylex_define_vars(&s("x"), THEME, "x").unwrap_err().message, Message::NonObjectForStylexCall);
    let no_default = Value::Object(vec![entry("a", Value::Object(vec![entry("@media print", s("1"))]))]);
    assert_eq!(stylex_define_vars(&no_default, THEME, "x").unwrap_err().message, Message::IllegalPropValue);
    let bad_key =
        Value::Object(vec![entry("a", Value::Object(vec![entry("default", s("1")), entry(":hover", s("2"))]))]);
    assert_eq!(stylex_define_vars(&bad_key, THEME, "x").unwrap_err().message, Message::InvalidPseudoOrAtRule);
    let bad_value = Value::Object(vec![entry("a", Value::List(vec![]))]);
    assert_eq!(stylex_define_vars(&bad_value, THEME, "x").unwrap_err().message, Message::IllegalPropValue);
}

#[test]
fn create_theme_overrides_the_variables_of_a_theme() {
    let variables = Value::Object(vec![entry("color", s("red")), entry("size", s("1px"))]);
    let (refs, _) = stylex_define_vars(&variables, THEME, "x").unwrap();
    let overrides = Value::Object(vec![
        entry("size", Value::Object(vec![entry("default", s("2px")), entry("@media print", s("3px"))])),
        entry("color", s("blue")),
    ]);
    let (slots, injected) = stylex_create_theme(&refs, &overrides, "x").unwrap();
    let color = format!("x{}", create_hash(&format!("{}.color", THEME)));
    let size = format!("x{}", create_hash(&format!("{}.size", THEME)));
    let theme = format!("x{}", create_hash(THEME));
    let default_decls = format!("--{}:blue;--{}:2px", color, size);
    let print_decls = format!("--{}:3px", size);
    let class_name = format!("x{}", create_hash(&format!("{}@media print{{{}}}", default_decls, print_decls)));
    assert_eq!(slots.entries.len(), 2);
    assert_eq!(*slots.entries.get_index(0).unwrap().0, "$$css");
    assert_eq!(*slots.entries.get_index(1).unwrap().0, theme);
    assert!(matches!(
        slots.entries.get_index(1).unwrap().1,
        stylex_swc_plugin::create::FlatCompiledStylesValue::String(s) if *s == format!("{} {}", class_name, theme)
    ));
    assert_eq!(injected.len(), 2);
    let (name, style) = injected.get_index(0).unwrap();
    assert_eq!(*name, class_name);
    assert_eq!(style.ltr, format!(":root.{}{{{}}}", class_name, default_decls));
    assert_eq!(style.priority, 5);
    let (name, style) = injected.get_index(1).unwrap();
    assert_eq!(*name, format!("{}-{}", class_name, create_hash("@media print")));
    assert_eq!(style.ltr, format!("@media print{{:root.{}{{{}}}}}", class_name, print_decls));
    assert_eq!(style.priority, 9);
}

#[test]
fn create_theme_needs_a_theme_and_its_variables() {
    let overrides = Value::Object(vec![entry("color", s("blue"))]);
    let err = stylex_create_theme(&Value::Object(vec![]), &overrides, "x").unwrap_err();
    assert_eq!(err.message, Message::NotAThemeReference);
    assert_eq!(err.kind, ErrorKind::IllegalArgument);
    assert_eq!(stylex_create_theme(&s("t"), &overrides, "x").unwrap_err().message, Message::NotAThemeReference);
    let (refs, _) = stylex_define_vars(&Value::Object(vec![entry("color", s("red"))]), THEME, "x").unwrap();
    assert_eq!(stylex_create_theme(&refs, &s("o"), "x").unwrap_err().message, Message::NonObjectForStylexCall);
    let unknown = Value::Object(vec![entry("size", s("1px"))]);
    assert_eq!(stylex_create_theme(&refs, &unknown, "x").unwrap_err().message, Message::IllegalPropValue);
}

fn theme_visitor(define: &CallExpr, create: &CallExpr) -> ModuleTransformVisitor {
    let mut options = StyleXOptions::default();
    options.unstable_module_resolution = Some(CheckModuleResolution::CommonJS(ModuleResolution {
        root_dir: Some("/repo".to_string()),
        theme_file_extension: None,
    }));
    let mut state = StateManager::new(options);
    state.filename = Some("/repo/src/tokens.stylex.ts".to_string());
    let mut names = OrderedSet::new();
    names.insert(ImportSources::Regular("stylex".to_string()));
    state.stylex_import = names;
    state.declarations.push(VarDeclarator {
        name: Pat::Ident(id("tokens")),
        init: Some(Box::new(Expr::Call(define.clone()))),
    });
    state.declarations.push(VarDeclarator {
        name: Pat::Ident(id("theme")),
        init: Some(Box::new(Expr::Call(create.clone()))),
    });
    state.top_level_expressions.push(TopLevelExpression(
        TopLevelExpressionKind::NamedExport,
        Expr::Call(define.clone()),
        Some(id("tokens")),
    ));
    let mut visitor = ModuleTransformVisitor::new(state);
    visitor.cycle = ModuleCycle::TransformEnter;
    visitor
}

fn member<'a>(ast: &'a Expr, key: &str) -> &'a Expr {
    let Expr::Object(props) = ast else { panic!("no object") };
    for p in props {
        let PropOrSpread::KeyValue(p) = p else { panic!("no member") };
        let name = match &p.key {
            PropName::Ident(s) | PropName::Str(s) => s.as_str(),
            _ => panic!("no name"),
        };
        if name == key {
            return &p.value;
        }
    }
    panic!("no member {}", key)
}

#[test]
fn a_theme_is_defined_and_then_overridden() {
    let define = call(
        "defineVars",
        10,
        vec![Expr::Object(vec![kv(
            "color",
            Expr::Object(vec![kv("default", text("red")), kv("@media (prefers-color-scheme: dark)", text("cyan"))]),
        )])],
    );
    let create = call(
        "createTheme",
        90,
        vec![Expr::Ident(id("tokens")), Expr::Object(vec![kv("color", text("blue"))])],
    );
    let mut visitor = theme_visitor(&define, &create);

    let tokens = visitor.transform_call_expression_to_stylex_expr(&define).unwrap().unwrap();
    let hash = format!("x{}", create_hash(&format!("{}.color", THEME)));
    let theme = format!("x{}", create_hash(THEME));
    assert!(matches!(member(&tokens, "color"), Expr::Lit(Lit::Str(s)) if *s == format!("var(--{})", hash)));
    assert!(matches!(member(&tokens, "__themeName__"), Expr::Lit(Lit::Str(s)) if *s == theme));
    assert_eq!(visitor.state.theme_name, Some(THEME.to_string()));
    let defined = visitor.state.metadata.get_index(0).unwrap();
    assert_eq!(defined.0, "tokens");
    let properties: Vec<&str> = defined.1.iter().map(|m| m.style.ltr.as_str()).collect();
    assert_eq!(properties.iter().filter(|css| css.starts_with(":root{")).count(), 1);
    assert_eq!(properties[0], format!(":root{{--{}:red}}", hash));

    let overridden = visitor.transform_call_expression_to_stylex_expr(&create).unwrap().unwrap();
    let class_name = format!("x{}", create_hash(&format!("--{}:blue", hash)));
    assert!(matches!(member(&overridden, "$$css"), Expr::Lit(Lit::Bool(true))));
    assert!(matches!(
        member(&overridden, &theme),
        Expr::Lit(Lit::Str(s)) if *s == format!("{} {}", class_name, theme)
    ));
    let created = visitor.state.metadata.get_index(1).unwrap();
    assert_eq!(created.0, "theme");
    assert_eq!(created.1.len(), 1);
    assert_eq!(created.1[0].class_name, class_name);
    assert_eq!(created.1[0].style.ltr, format!(":root.{}{{--{}:blue}}", class_name, hash));
}

#[test]
fn theme_calls_are_checked() {
    let define = call("defineVars", 10, vec![Expr::Object(vec![kv("color", text("red"))])]);
    let create = call("createTheme", 90, vec![Expr::Ident(id("tokens"))]);
    let mut visitor = theme_visitor(&define, &create);
    let err = visitor.transform_stylex_create_theme_call(&create).unwrap_err();
    assert_eq!(err.message, Message::IllegalArgumentLength);
    assert_eq!(err.span, Some(Span { lo: 90, hi: 95 }));

    let unbound = call("defineVars", 300, vec![Expr::Object(vec![])]);
    assert_eq!(visitor.transform_stylex_define_vars(&unbound).unwrap_err().message, Message::UnboundStylexCallValue);

    visitor.state.filename = Some("/repo/src/app.ts".to_string());
    let err = visitor.transform_stylex_define_vars(&define).unwrap_err();
    assert_eq!(err.message, Message::UnresolvedImport);
    assert_eq!(err.kind, ErrorKind::Unresolved);

    let create = call(
        "createTheme",
        90,
        vec![Expr::Object(vec![]), Expr::Object(vec![kv("color", text("blue"))])],
    );
    let mut visitor = theme_visitor(&define, &create);
    assert_eq!(
        visitor.transform_stylex_create_theme_call(&create).unwrap_err().message,
        Message::NotAThemeReference
    );
    assert!(visitor.transform_stylex_create_theme_call(&define).unwrap().is_none());
    assert!(visitor.transform_stylex_define_vars(&create).unwrap().is_none());
}

#[test]
fn calls_are_rewritten_while_entering_only() {
    let define = call("defineVars", 10, vec![Expr::Object(vec![kv("color", text("red"))])]);
    let create = call("createTheme", 90, vec![]);
    let mut visitor = theme_visitor(&define, &create);
    for cycle in [ModuleCycle::Initializing, ModuleCycle::Processing, ModuleCycle::TransformExit, ModuleCycle::Skip] {
        visitor.cycle = cycle;
        assert!(visitor.transform_call_expression_to_stylex_expr(&define).unwrap().is_none());
        assert!(visitor.transform_stylex_fns(&id("defineVars"), &define).unwrap().is_none());
    }
    assert!(visitor.state.metadata.is_empty());
    visitor.cycle = ModuleCycle::TransformEnter;
    let mut odd = define.clone();
    odd.callee = Box::new(Expr::Other);
    assert!(visitor.transform_call_expression_to_stylex_expr(&odd).unwrap().is_none());
    assert!(visitor.transform_call_expression_to_stylex_expr(&define).unwrap().is_some());
}
