use stylex_swc_plugin::ast::{
    BinaryOp, CallExpr, Expr, ExprOrSpread, Id, KeyValueProp, Lit, MemberProp, Pat, PropName,
    PropOrSpread, Span, TopLevelExpression, TopLevelExpressionKind, VarDeclarator,
};
use stylex_swc_plugin::collections::OrderedSet;
use stylex_swc_plugin::errors::Message;
use stylex_swc_plugin::hash::create_hash;
use stylex_swc_plugin::keyframes::stylex_keyframes;
use stylex_swc_plugin::options::{ImportSources, StyleXOptions};
use stylex_swc_plugin::state::StateManager;
use stylex_swc_plugin::value::{Key, MapEntry, Value};
use stylex_swc_plugin::visitor::{ModuleCycle, ModuleTransformVisitor};

fn id(s: &str) -> Id {
    Id { sym: s.to_string(), ctxt: 0 }
}

fn text(s: &str) -> Expr {
    Expr::Lit(Lit::Str(s.to_string()))
}

fn kv(key: &str, value: Expr) -> PropOrSpread {
    PropOrSpread::KeyValue(KeyValueProp { key: PropName::Ident(key.to_string()), value: Box::new(value) })
}

fn call(member: &str, lo: u32, args: Vec<Expr>) -> CallExpr {
    CallExpr {
        span: Span { lo, hi: lo + 5 },
        callee: Box::new(Expr::Member {
            obj: Box::new(Expr::Ident(id("stylex"))),
            prop: MemberProp::Ident(member.to_string()),
        }),
        args: args.into_iter().map(|e| ExprOrSpread { spread: false, expr: Box::new(e) }).collect(),
    }
}

fn reference(ns: &str) -> Expr {
    Expr::Member { obj: Box::new(Expr::Ident(id("styles"))), prop: MemberProp::Ident(ns.to_string()) }
}

fn entry(key: &str, value: Value) -> MapEntry {
    MapEntry { key: Key::Str(key.to_string()), value }
}

fn s(v: &str) -> Value {
    Value::Str(v.to_string())
}

fn visitor_with_styles() -> (ModuleTransformVisitor, String, String, String) {
    let create = call(
        "create",
        10,
        vec![Expr::Object(vec![
            kv("base", Expr::Object(vec![kv("color", text("red")), kv("margin", text("1px"))])),
            kv("active", Expr::Object(vec![kv("color", text("blue"))])),
        ])],
    );
    let mut state = StateManager::new(StyleXOptions::default());
    let mut names = OrderedSet::new();
    names.insert(ImportSources::Regular("stylex".to_string()));
    state.stylex_import = names;
    state.declarations.push(VarDeclarator {
        name: Pat::Ident(id("styles")),
        init: Some(Box::new(Expr::Call(create.clone()))),
    });
    state.top_level_expressions.push(TopLevelExpression(
        TopLevelExpressionKind::Stmt,
        Expr::Call(create.clone()),
        Some(id("styles")),
    ));
    let mut visitor = ModuleTransformVisitor::new(state);
    visitor.cycle = ModuleCycle::TransformEnter;
    visitor.transform_call_expression_to_stylex_expr(&create).unwrap().unwrap();
    visitor.cycle = ModuleCycle::TransformExit;
    let red = format!("x{}", create_hash("colorred"));
    let margin = format!("x{}", create_hash("margin1px"));
    let blue = format!("x{}", create_hash("colorblue"));
    (visitor, red, margin, blue)
}

fn class_value<'a>(ast: &'a Expr, key: &str) -> &'a Expr {
    let Expr::Object(props) = ast else { panic!("no object") };
    assert_eq!(props.len(), 1);
    let PropOrSpread::KeyValue(p) = &props[0] else { panic!("no member") };
    assert!(matches!(&p.key, PropName::Ident(k) if k == key));
    &p.value
}

fn literal(e: &Expr) -> String {
    match e {
        Expr::Lit(Lit::Str(s)) => s.clone(),
        other => panic!("no string: {:?}", other),
    }
}

#[test]
fn props_joins_the_classes_of_the_last_value_of_each_property() {
    let (mut visitor, red, margin, blue) = visitor_with_styles();
    let props = call("props", 200, vec![reference("base"), reference("active")]);
    let ast = visitor.transform_call_expression_to_stylex_expr(&props).unwrap().unwrap();
    assert_eq!(literal(class_value(&ast, "className")), format!("{} {}", margin, blue));
    let props = call("props", 200, vec![reference("active"), Expr::Lit(Lit::Bool(false)), reference("base")]);
    let ast = visitor.transform_call_expression_to_stylex_expr(&props).unwrap().unwrap();
    assert_eq!(literal(class_value(&ast, "className")), format!("{} {}", red, margin));
    let props = call("props", 200, vec![]);
    let ast = visitor.transform_call_expression_to_stylex_expr(&props).unwrap().unwrap();
    assert_eq!(literal(class_value(&ast, "className")), "");
}

#[test]
fn attrs_puts_the_classes_under_class() {
    let (mut visitor, red, margin, _) = visitor_with_styles();
    let attrs = call("attrs", 200, vec![reference("base")]);
    let ast = visitor.transform_call_expression_to_stylex_expr(&attrs).unwrap().unwrap();
    assert_eq!(literal(class_value(&ast, "class")), format!("{} {}", red, margin));
}

#[test]
fn guards_stay_as_choices_between_literal_class_names() {
    let (mut visitor, red, margin, blue) = visitor_with_styles();
    let guard = Expr::Bin {
        op: BinaryOp::LogicalAnd,
        left: Box::new(Expr::Ident(id("isActive"))),
        right: Box::new(reference("active")),
    };
    let props = call("props", 200, vec![reference("base"), guard]);
    let ast = visitor.transform_call_expression_to_stylex_expr(&props).unwrap().unwrap();
    let Expr::Cond { test, cons, alt } = class_value(&ast, "className") else { panic!("no choice") };
    assert!(matches!(&**test, Expr::Ident(i) if i.sym == "isActive"));
    assert_eq!(literal(cons), format!("{} {}", margin, blue));
    assert_eq!(literal(alt), format!("{} {}", red, margin));

    let choice = Expr::Cond {
        test: Box::new(Expr::Ident(id("on"))),
        cons: Box::new(reference("active")),
        alt: Box::new(Expr::Lit(Lit::Null)),
    };
    let props = call("props", 200, vec![choice]);
    let ast = visitor.transform_call_expression_to_stylex_expr(&props).unwrap().unwrap();
    let Expr::Cond { cons, alt, .. } = class_value(&ast, "className") else { panic!("no choice") };
    assert_eq!(literal(cons), blue);
    assert_eq!(literal(alt), "");
}

#[test]
fn calls_that_cannot_be_told_are_left_alone() {
    let (mut visitor, _, _, _) = visitor_with_styles();
    let props = call("props", 200, vec![reference("missing")]);
    assert!(visitor.transform_call_expression_to_stylex_expr(&props).unwrap().is_none());
    let props = call("props", 200, vec![Expr::Ident(id("dynamic"))]);
    assert!(visitor.transform_call_expression_to_stylex_expr(&props).unwrap().is_none());
    let mut spread = call("props", 200, vec![reference("base")]);
    spread.args[0].spread = true;
    assert!(visitor.transform_call_expression_to_stylex_expr(&spread).unwrap().is_none());
    let guard = |name: &str| Expr::Bin {
        op: BinaryOp::LogicalAnd,
        left: Box::new(Expr::Ident(id(name))),
        right: Box::new(reference("active")),
    };
    let props = call("props", 200, vec![guard("a"), guard("b"), guard("c"), guard("d"), guard("e")]);
    assert!(visitor.transform_call_expression_to_stylex_expr(&props).unwrap().is_none());
    let props = call("props", 200, vec![guard("a"), guard("b"), guard("c"), guard("d")]);
    assert!(visitor.transform_call_expression_to_stylex_expr(&props).unwrap().is_some());
    let other = call("other", 200, vec![reference("base")]);
    assert!(visitor.transform_call_expression_to_stylex_expr(&other).unwrap().is_none());
    visitor.cycle = ModuleCycle::TransformEnter;
    let props = call("props", 200, vec![reference("base")]);
    let same = visitor.transform_call_expression_to_stylex_expr(&props).unwrap().unwrap();
    assert_eq!(format!("{:?}", same), format!("{:?}", Expr::Call(props.clone())));
}

#[test]
fn keyframes_compile_to_a_named_rule() {
    let frames = Value::Object(vec![
        entry("from", Value::Object(vec![entry("marginLeft", s("0")), entry("opacity", s("0.5"))])),
        entry("to", Value::Object(vec![entry("marginLeft", s("10"))])),
    ]);
    let (name, style) = stylex_keyframes(&frames, "x").unwrap();
    let ltr = "from{margin-left:0;opacity:.5;}to{margin-left:10px;}";
    let rtl = "from{margin-right:0;opacity:.5;}to{margin-right:10px;}";
    assert_eq!(name, format!("x{}-B", create_hash(ltr)));
    assert_eq!(style.ltr, format!("@keyframes {}{{{}}}", name, ltr));
    assert_eq!(style.rtl, Some(format!("@keyframes {}{{{}}}", name, rtl)));
    assert_eq!(style.priority, 10);
    let frames = Value::Object(vec![entry("0%", Value::Object(vec![entry("color", s("red"))]))]);
    let (name, style) = stylex_keyframes(&frames, "x").unwrap();
    assert_eq!(style.ltr, format!("@keyframes {}{{0%{{color:red;}}}}", name));
    assert_eq!(style.rtl, None);
}

#[test]
fn keyframes_reject_what_are_no_frames() {
    assert_eq!(stylex_keyframes(&s("x"), "x").unwrap_err().message, Message::NonObjectForStylexCall);
    let frames = Value::Object(vec![entry("from", s("red"))]);
    assert_eq!(stylex_keyframes(&frames, "x").unwrap_err().message, Message::IllegalNamespaceValue);
    let frames = Value::Object(vec![entry("from", Value::Object(vec![entry("color", Value::Null)]))]);
    assert_eq!(stylex_keyframes(&frames, "x").unwrap_err().message, Message::IllegalPropValue);
}

#[test]
fn a_keyframes_call_gives_way_to_the_name() {
    let define = call(
        "keyframes",
        10,
        vec![Expr::Object(vec![kv("from", Expr::Object(vec![kv("color", text("red"))]))])],
    );
    let mut state = StateManager::new(StyleXOptions::default());
    let mut names = OrderedSet::new();
    names.insert(ImportSources::Regular("stylex".to_string()));
    state.stylex_import = names;
    state.declarations.push(VarDeclarator {
        name: Pat::Ident(id("pulse")),
        init: Some(Box::new(Expr::Call(define.clone()))),
    });
    let mut visitor = ModuleTransformVisitor::new(state);
    visitor.cycle = ModuleCycle::TransformEnter;
    let ast = visitor.transform_call_expression_to_stylex_expr(&define).unwrap().unwrap();
    let name = format!("x{}-B", create_hash("from{color:red;}"));
    assert_eq!(literal(&ast), name);
    assert_eq!(visitor.state.injected_keyframes.len(), 1);
    assert!(visitor.state.injected_keyframes.contains_key(name.as_str()));
    assert_eq!(*visitor.state.metadata.get_index(0).unwrap().0, "pulse");
    assert_eq!(visitor.state.metadata.get_index(0).unwrap().1[0].class_name, name);
    visitor.transform_call_expression_to_stylex_expr(&define).unwrap().unwrap();
    assert_eq!(visitor.state.injected_keyframes.len(), 1);
    assert_eq!(visitor.state.metadata.get_index(0).unwrap().1.len(), 1);
    let empty = call("keyframes", 10, vec![]);
    assert_eq!(
        visitor.transform_stylex_keyframes_call(&empty).unwrap_err().message,
        Message::IllegalArgumentLength
    );
}

fn direct(args: Vec<Expr>) -> CallExpr {
    CallExpr {
        span: Span { lo: 300, hi: 305 },
        callee: Box::new(Expr::Ident(id("stylex"))),
        args: args.into_iter().map(|e| ExprOrSpread { spread: false, expr: Box::new(e) }).collect(),
    }
}

#[test]
fn a_direct_call_gives_way_to_the_class_names() {
    let (mut visitor, red, margin, blue) = visitor_with_styles();
    let ast = visitor
        .transform_call_expression_to_stylex_expr(&direct(vec![reference("base"), reference("active")]))
        .unwrap()
        .unwrap();
    assert_eq!(literal(&ast), format!("{} {}", margin, blue));
    let guard = Expr::Bin {
        op: BinaryOp::LogicalAnd,
        left: Box::new(Expr::Ident(id("on"))),
        right: Box::new(reference("active")),
    };
    let ast = visitor
        .transform_call_expression_to_stylex_expr(&direct(vec![reference("base"), guard]))
        .unwrap()
        .unwrap();
    let Expr::Cond { cons, alt, .. } = &ast else { panic!("no choice") };
    assert_eq!(literal(cons), format!("{} {}", margin, blue));
    assert_eq!(literal(alt), format!("{} {}", red, margin));
    let unknown = direct(vec![Expr::Ident(id("something"))]);
    assert!(visitor.transform_call_expression_to_stylex_expr(&unknown).unwrap().is_none());
    let mut other = direct(vec![reference("base")]);
    other.callee = Box::new(Expr::Ident(id("classnames")));
    assert!(visitor.transform_call_expression_to_stylex_expr(&other).unwrap().is_none());
}
