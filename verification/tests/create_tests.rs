use stylex_swc_plugin::ast::{
    ArrayElem, CallExpr, Expr, ExprOrSpread, Id, KeyValueProp, Lit, MemberProp, Pat, PropName,
    PropOrSpread, Span, TopLevelExpression, TopLevelExpressionKind, VarDeclarator,
};
use stylex_swc_plugin::collections::OrderedSet;
use stylex_swc_plugin::errors::{ErrorKind, Message};
use stylex_swc_plugin::number::Number;
use stylex_swc_plugin::options::{ImportSources, RuntimeInjection, StyleXOptions};
use stylex_swc_plugin::shorthands::{expand_shorthands, Shorthand};
use stylex_swc_plugin::value::{Key, MapEntry, Value};
use stylex_swc_plugin::state::StateManager;
use stylex_swc_plugin::create::{set_slot, FlatCompiledStyles, FlatCompiledStylesValue};
use stylex_swc_plugin::visitor::{
    holds_included, remove_objects_with_spreads, ModuleCycle, ModuleTransformVisitor,
};

fn num(n: i64) -> Expr {
    Expr::Lit(Lit::Num(Number::from_ten_thousandths(n * 10_000).unwrap()))
}

fn text(s: &str) -> Expr {
    Expr::Lit(Lit::Str(s.to_string()))
}

fn kv(key: &str, value: Expr) -> PropOrSpread {
    PropOrSpread::KeyValue(KeyValueProp { key: PropName::Ident(key.to_string()), value: Box::new(value) })
}

fn object(props: Vec<PropOrSpread>) -> Expr {
    Expr::Object(props)
}

fn array(items: Vec<Expr>) -> Expr {
    Expr::Array(
        items
            .into_iter()
            .map(|e| ArrayElem::Elem(ExprOrSpread { spread: false, expr: Box::new(e) }))
            .collect(),
    )
}

fn create_call(arg: Expr) -> CallExpr {
    CallExpr {
        span: Span { lo: 10, hi: 90 },
        callee: Box::new(Expr::Member {
            obj: Box::new(Expr::Ident(Id { sym: "stylex".to_string(), ctxt: 1 })),
            prop: MemberProp::Ident("create".to_string()),
        }),
        args: vec![ExprOrSpread { spread: false, expr: Box::new(arg) }],
    }
}

fn visitor_for(call: &CallExpr, runtime_injection: RuntimeInjection) -> ModuleTransformVisitor {
    let mut options = StyleXOptions::default();
    options.runtime_injection = runtime_injection;
    let mut state = StateManager::new(options);
    let mut names = OrderedSet::new();
    names.insert(ImportSources::Regular("stylex".to_string()));
    state.stylex_import = names;
    let decl = VarDeclarator {
        name: Pat::Ident(Id { sym: "styles".to_string(), ctxt: 1 }),
        init: Some(Box::new(Expr::Call(call.clone()))),
    };
    state.declarations.push(decl);
    state.top_level_expressions.push(TopLevelExpression(
        TopLevelExpressionKind::Stmt,
        Expr::Call(call.clone()),
        Some(Id { sym: "styles".to_string(), ctxt: 1 }),
    ));
    ModuleTransformVisitor {
        state,
        cycle: ModuleCycle::TransformEnter,
        props_declaration: None,
        declaration: None,
        runtime_injection: false,
    }
}

fn slot<'a>(ast: &'a Expr, namespace: &str, key: &str) -> &'a Expr {
    let Expr::Object(namespaces) = ast else { panic!("no object") };
    for n in namespaces {
        let PropOrSpread::KeyValue(n) = n else { panic!("no member") };
        let name = match &n.key {
            PropName::Ident(s) | PropName::Str(s) => s.as_str(),
            _ => panic!("no name"),
        };
        if name != namespace {
            continue;
        }
        let Expr::Object(slots) = &*n.value else { panic!("no slots") };
        for s in slots {
            let PropOrSpread::KeyValue(s) = s else { panic!("no member") };
            let name = match &s.key {
                PropName::Ident(k) | PropName::Str(k) => k.as_str(),
                _ => panic!("no name"),
            };
            if name == key {
                return &s.value;
            }
        }
    }
    panic!("slot not found")
}

fn class_of(ast: &Expr, namespace: &str, key: &str) -> String {
    match slot(ast, namespace, key) {
        Expr::Lit(Lit::Str(s)) => s.clone(),
        _ => panic!("no class names"),
    }
}

#[test]
fn create_compiles_margin_and_z_index() {
    let call = create_call(object(vec![kv(
        "root",
        object(vec![kv("margin", num(10)), kv("zIndex", num(10))]),
    )]));
    let mut visitor = visitor_for(&call, RuntimeInjection::Off);
    let ast = visitor.transform_stylex_create(&call).unwrap().unwrap();
    let margin = class_of(&ast, "root", "margin");
    let z_index = class_of(&ast, "root", "zIndex");
    assert_ne!(margin, z_index);
    assert!(margin.starts_with('x'));
    assert!(matches!(slot(&ast, "root", "$$css"), Expr::Lit(Lit::Bool(true))));
    let metadata = &visitor.state.metadata;
    assert_eq!(metadata.len(), 1);
    assert_eq!(*metadata.get_index(0).unwrap().0, "styles");
    let list = metadata.get_index(0).unwrap().1;
    assert_eq!(list.len(), 2);
    assert_eq!(list[0].class_name, margin);
    assert_eq!(list[0].style.ltr, format!(".{}{{margin:10px}}", margin));
    assert_eq!(list[0].style.priority, 30_000);
    assert_eq!(list[0].style.rtl, None);
    assert_eq!(list[1].class_name, z_index);
    assert_eq!(list[1].style.ltr, format!(".{}{{z-index:10}}", z_index));
    assert!(!visitor.state.in_stylex_create);
}

#[test]
fn create_expands_fallbacks_into_two_classes() {
    let call = create_call(object(vec![kv(
        "h",
        object(vec![kv("height", array(vec![text("500"), text("var(--h)"), text("100dvh")]))]),
    )]));
    let mut visitor = visitor_for(&call, RuntimeInjection::Off);
    let ast = visitor.transform_stylex_create(&call).unwrap().unwrap();
    let classes = class_of(&ast, "h", "height");
    let names: Vec<&str> = classes.split(' ').collect();
    assert_eq!(names.len(), 2);
    let list = visitor.state.metadata.get_index(0).unwrap().1;
    assert_eq!(list.len(), 2);
    assert_eq!(list[0].class_name, names[0]);
    assert_eq!(list[0].style.ltr, format!(".{}{{height:var(--h,500px)}}", names[0]));
    assert_eq!(list[0].style.priority, 30_000);
    assert_eq!(list[1].class_name, names[1]);
    assert_eq!(list[1].style.ltr, format!(".{}{{height:100dvh}}", names[1]));
    assert_eq!(list[1].style.priority, 30_001);
}

#[test]
fn create_deduplicates_equal_rules() {
    let call = create_call(object(vec![
        kv("a", object(vec![kv("color", text("red"))])),
        kv("b", object(vec![kv("color", text("red")), kv("opacity", text("0.25"))])),
    ]));
    let mut visitor = visitor_for(&call, RuntimeInjection::Off);
    let ast = visitor.transform_stylex_create(&call).unwrap().unwrap();
    assert_eq!(class_of(&ast, "a", "color"), class_of(&ast, "b", "color"));
    let list = visitor.state.metadata.get_index(0).unwrap().1;
    assert_eq!(list.len(), 2);
    assert!(list[1].style.ltr.contains("opacity:.25"));
}

#[test]
fn create_rejects_a_non_static_value() {
    let call = create_call(object(vec![kv(
        "root",
        object(vec![kv("color", Expr::Ident(Id { sym: "unknown".to_string(), ctxt: 0 }))]),
    )]));
    let mut visitor = visitor_for(&call, RuntimeInjection::Off);
    let err = visitor.transform_stylex_create(&call).unwrap_err();
    assert_eq!(err.kind, ErrorKind::NonStaticValue);
    assert_eq!(err.message, Message::NonStaticValue);
    assert_eq!(err.span, Some(Span { lo: 10, hi: 90 }));
    assert!(visitor.state.metadata.is_empty());
}

#[test]
fn create_leaves_other_calls_alone() {
    let mut call = create_call(object(vec![]));
    call.callee = Box::new(Expr::Ident(Id { sym: "other".to_string(), ctxt: 0 }));
    let mut visitor = visitor_for(&call, RuntimeInjection::Off);
    visitor.state.in_stylex_create = true;
    let same = visitor.transform_stylex_create(&call).unwrap().unwrap();
    assert_eq!(format!("{:?}", same), format!("{:?}", Expr::Call(call.clone())));
    assert!(!visitor.state.in_stylex_create);
    assert!(visitor.state.metadata.is_empty());
    assert!(visitor.state.style_map.entries.is_empty());
}

#[test]
fn create_checks_its_namespaces_before_it_evaluates() {
    let repeated = create_call(object(vec![kv(
        "root",
        object(vec![kv(
            "color",
            object(vec![PropOrSpread::KeyValue(KeyValueProp {
                key: PropName::Str(":hover".to_string()),
                value: Box::new(object(vec![PropOrSpread::KeyValue(KeyValueProp {
                    key: PropName::Str(":hover".to_string()),
                    value: Box::new(text("red")),
                })])),
            })]),
        )]),
    )]));
    let mut visitor = visitor_for(&repeated, RuntimeInjection::Off);
    let d = visitor.transform_stylex_create(&repeated).unwrap_err();
    assert_eq!(d.message, Message::DuplicateConditional);
    assert_eq!(d.kind, ErrorKind::IllegalArgument);
    assert!(visitor.state.metadata.is_empty());

    let spread = create_call(object(vec![kv(
        "root",
        object(vec![kv("color", text("red")), PropOrSpread::Spread(Box::new(object(vec![])))]),
    )]));
    let mut visitor = visitor_for(&spread, RuntimeInjection::Off);
    let d = visitor.transform_stylex_create(&spread).unwrap_err();
    assert_eq!(d.message, Message::SpreadNotSupported);

    let nested = create_call(object(vec![kv(
        "root",
        object(vec![PropOrSpread::KeyValue(KeyValueProp {
            key: PropName::Str(":hover".to_string()),
            value: Box::new(object(vec![kv(
                "__included_1",
                Expr::Ident(Id { sym: "other".to_string(), ctxt: 0 }),
            )])),
        })]),
    )]));
    let mut visitor = visitor_for(&nested, RuntimeInjection::Off);
    let d = visitor.transform_stylex_create(&nested).unwrap_err();
    assert_eq!(d.message, Message::OnlyTopLevelIncludes);
}

#[test]
fn a_style_registered_twice_is_injected_once() {
    let call = create_call(object(vec![kv("a", object(vec![kv("color", text("red"))]))]));
    let mut visitor = visitor_for(&call, RuntimeInjection::Default);
    let ast = visitor.transform_stylex_create(&call).unwrap().unwrap();
    let queued: usize = visitor.state.styles_to_inject.iter().map(|(_, items)| items.len()).sum();
    assert_eq!(queued, 1);
    let metadata = visitor.state.metadata.get_index(0).unwrap().1[0].clone();
    let helper = visitor.state.inject_import_inserted.as_ref().unwrap().1.clone();
    visitor.state.add_style_to_inject(&metadata, &helper, &ast);
    visitor.state.add_style_to_inject(&metadata, &helper, &text("elsewhere"));
    let queued: usize = visitor.state.styles_to_inject.iter().map(|(_, items)| items.len()).sum();
    assert_eq!(queued, 1);
    assert_eq!(visitor.state.module_metadata().len(), 1);
}

#[test]
fn create_with_runtime_injection_rewrites_the_declaration() {
    let call = create_call(object(vec![kv("root", object(vec![kv("marginLeft", num(4))]))]));
    let mut visitor = visitor_for(&call, RuntimeInjection::Default);
    let ast = visitor.transform_stylex_create(&call).unwrap().unwrap();
    let cls = class_of(&ast, "root", "marginLeft");
    let list = visitor.state.metadata.get_index(0).unwrap().1;
    assert_eq!(list[0].style.ltr, format!(".{}{{margin-left:4px}}", cls));
    assert_eq!(list[0].style.rtl, Some(format!(".{}{{margin-right:4px}}", cls)));
    assert_eq!(visitor.state.prepend_include_module_items.len(), 2);
    assert_eq!(visitor.state.styles_to_inject.len(), 1);
    assert_eq!(visitor.state.styles_to_inject.get_index(0).unwrap().1.len(), 1);
    assert_eq!(visitor.state.styles_vars_to_inject, vec!["styles".to_string()]);
    assert!(matches!(&**visitor.state.declarations[0].init.as_ref().unwrap(), Expr::Object(_)));
    let ids = visitor.state.inject_import_inserted.as_ref().unwrap();
    assert_eq!(ids.0.sym, "_inject");
    assert_eq!(ids.1.sym, "_inject2");
}

fn shorthand(name: &str, longhands: &[&str]) -> Shorthand {
    Shorthand { name: name.to_string(), longhands: longhands.iter().map(|l| l.to_string()).collect() }
}

fn table() -> Vec<Shorthand> {
    vec![
        shorthand("margin", &["marginBlock", "marginInline"]),
        shorthand("marginBlock", &["marginTop", "marginBottom"]),
        shorthand("marginInline", &["marginLeft", "marginRight"]),
        shorthand("loop", &["loop"]),
    ]
}

fn entry(key: &str, value: &str) -> MapEntry {
    MapEntry { key: Key::Str(key.to_string()), value: Value::Str(value.to_string()) }
}

fn pairs(entries: &Vec<MapEntry>) -> Vec<(String, String)> {
    entries
        .iter()
        .map(|e| {
            let Key::Str(k) = &e.key else { panic!("no text key") };
            let v = match &e.value {
                Value::Str(v) => v.clone(),
                other => format!("{:?}", other),
            };
            (k.clone(), v)
        })
        .collect()
}

fn pair(k: &str, v: &str) -> (String, String) {
    (k.to_string(), v.to_string())
}

#[test]
fn shorthands_expand_recursively_and_later_entries_win() {
    let entries = vec![entry("marginTop", "0"), entry("margin", "1px"), entry("marginLeft", "2px"), entry("color", "red")];
    let out = expand_shorthands(&table(), &entries);
    assert_eq!(
        pairs(&out),
        vec![
            pair("marginTop", "1px"),
            pair("marginBottom", "1px"),
            pair("marginRight", "1px"),
            pair("marginLeft", "2px"),
            pair("color", "red"),
        ]
    );
    let out = expand_shorthands(&vec![], &entries);
    assert_eq!(pairs(&out).len(), 4);
    let out = expand_shorthands(&table(), &vec![entry("loop", "x")]);
    assert_eq!(pairs(&out), vec![pair("loop", "x")]);
}

#[test]
fn shorthands_expand_under_conditions_too() {
    let entries = vec![MapEntry {
        key: Key::Str(":hover".to_string()),
        value: Value::Object(vec![entry("marginBlock", "1px")]),
    }];
    let out = expand_shorthands(&table(), &entries);
    let Value::Object(inner) = &out[0].value else { panic!("no object") };
    assert_eq!(pairs(inner), vec![pair("marginTop", "1px"), pair("marginBottom", "1px")]);
}

#[test]
fn create_expands_the_shorthands_of_the_options() {
    let call = create_call(object(vec![kv("root", object(vec![kv("marginInline", num(4))]))]));
    let mut visitor = visitor_for(&call, RuntimeInjection::Off);
    visitor.state.options.shorthands = table();
    let ast = visitor.transform_stylex_create(&call).unwrap().unwrap();
    let left = class_of(&ast, "root", "marginLeft");
    let right = class_of(&ast, "root", "marginRight");
    assert_ne!(left, right);
    let list = visitor.state.metadata.get_index(0).unwrap().1;
    assert_eq!(list[0].style.ltr, format!(".{}{{margin-left:4px}}", left));
    assert_eq!(list[1].style.rtl, Some(format!(".{}{{margin-left:4px}}", right)));
}

#[test]
fn create_checks_its_call() {
    let call = create_call(object(vec![]));
    let mut visitor = visitor_for(&call, RuntimeInjection::Off);
    let mut two = call.clone();
    two.args.push(two.args[0].clone());
    visitor.state.top_level_expressions[0].1 = Expr::Call(two.clone());
    assert_eq!(visitor.transform_stylex_create(&two).unwrap_err().message, Message::IllegalArgumentLength);
    let text_arg = create_call(text("x"));
    visitor.state.declarations.clear();
    visitor.state.top_level_expressions.clear();
    assert_eq!(
        visitor.transform_stylex_create(&text_arg).unwrap_err().message,
        Message::UnboundStylexCallValue
    );
    let mut visitor = visitor_for(&text_arg, RuntimeInjection::Off);
    assert_eq!(
        visitor.transform_stylex_create(&text_arg).unwrap_err().message,
        Message::NonObjectForStylexCall
    );
    let bad = create_call(object(vec![kv("root", text("x"))]));
    let mut visitor = visitor_for(&bad, RuntimeInjection::Off);
    let err = visitor.transform_stylex_create(&bad).unwrap_err();
    assert_eq!(err.message, Message::IllegalNamespaceValue);
    assert_eq!(err.kind, ErrorKind::IllegalValue);
    assert_eq!(err.message.text(), "A stylex namespace must be an object.");
}

#[test]
fn transforming_the_same_call_twice_gives_the_same_result() {
    let call = create_call(object(vec![
        kv("root", object(vec![kv("margin", num(10)), kv("color", array(vec![text("red"), text("blue")]))])),
        kv("other", object(vec![kv("color", text("red"))])),
    ]));
    let mut first = visitor_for(&call, RuntimeInjection::Default);
    let mut second = visitor_for(&call, RuntimeInjection::Default);
    let a = first.transform_call_expression_to_stylex_expr(&call).unwrap().unwrap();
    let b = second.transform_call_expression_to_stylex_expr(&call).unwrap().unwrap();
    assert_eq!(format!("{:?}", a), format!("{:?}", b));
    assert_eq!(
        format!("{:?}", first.state.metadata),
        format!("{:?}", second.state.metadata)
    );
    assert_eq!(
        format!("{:?}", first.state.styles_to_inject),
        format!("{:?}", second.state.styles_to_inject)
    );
    assert_eq!(
        format!("{:?}", first.state.prepend_import_module_items),
        format!("{:?}", second.state.prepend_import_module_items)
    );
}

#[test]
fn create_computes_with_inexact_decimals() {
    let third = Expr::Bin {
        op: stylex_swc_plugin::ast::BinaryOp::Div,
        left: Box::new(num(100)),
        right: Box::new(num(3)),
    };
    let opacity = Expr::Lit(Lit::Num(Number { num: 33333, den: 100000 }));
    let call = create_call(object(vec![kv(
        "a",
        object(vec![kv("width", third), kv("opacity", opacity)]),
    )]));
    let mut visitor = visitor_for(&call, RuntimeInjection::Off);
    visitor.transform_stylex_create(&call).unwrap().unwrap();
    let list = visitor.state.metadata.get_index(0).unwrap().1;
    assert_eq!(list.len(), 2);
    assert!(list[0].style.ltr.ends_with("{width:33.3333px}"), "{}", list[0].style.ltr);
    assert!(list[1].style.ltr.ends_with("{opacity:.3333}"), "{}", list[1].style.ltr);
}

#[test]
fn namespaces_that_include_others_are_not_remembered() {
    let mut plain = FlatCompiledStyles::new();
    set_slot(&mut plain, "color".to_string(), FlatCompiledStylesValue::String("x1".to_string()));
    let mut including = FlatCompiledStyles::new();
    set_slot(&mut including, "color".to_string(), FlatCompiledStylesValue::String("x2".to_string()));
    set_slot(
        &mut including,
        "__included_1".to_string(),
        FlatCompiledStylesValue::IncludedStyle(Value::Str("other".to_string())),
    );
    assert!(!holds_included(&plain));
    assert!(holds_included(&including));
    let mut namespaces = indexmap::IndexMap::new();
    namespaces.insert("a".to_string(), including);
    namespaces.insert("b".to_string(), plain);
    let kept = remove_objects_with_spreads(&namespaces);
    assert_eq!(kept.len(), 1);
    assert_eq!(*kept.get_index(0).unwrap().0, "b");
    assert_eq!(namespaces.len(), 2);
}
