use stylex_swc_plugin::ast::{
    CallExpr, Expr, ExprOrSpread, Id, KeyValueProp, Lit, MemberProp, Pat, PropName, PropOrSpread,
    Span, VarDeclarator,
};
use stylex_swc_plugin::compare::{same_call_ignoring_spans, same_expr};
use stylex_swc_plugin::driver::process_declaration;
use stylex_swc_plugin::errors::Message;
use stylex_swc_plugin::factories::{
    deep_merge_props, expr_or_spread_number_expression_creator,
    expr_or_spread_string_expression_creator, gen_file_based_identifier, get_css_value,
    get_key_str, get_key_values_from_object, get_pat_as_string, normalize_expr,
    number_to_expression, prop_name_eq, prop_or_spread_boolean_creator,
    prop_or_spread_expression_creator, prop_or_spread_string_creator, remove_duplicates,
    string_to_expression, string_to_prop_name, transform_shorthand_to_key_values,
    wrap_key_in_quotes,
};
use stylex_swc_plugin::fn_result::{FnResult, NestedStringObject};
use stylex_swc_plugin::inject::{
    add_import_expression, add_inject_default_import_expression,
    add_inject_named_import_expression, add_inject_var_decl_expression, UidGenerator,
};
use stylex_swc_plugin::ast::{ImportSpecifier, ModuleItem};
use stylex_swc_plugin::number::Number;
use stylex_swc_plugin::state::StateManager;
use stylex_swc_plugin::visitor::{ModuleCycle, ModuleTransformVisitor};

fn id(s: &str) -> Id {
    Id { sym: s.to_string(), ctxt: 0 }
}

fn text(s: &str) -> Expr {
    Expr::Lit(Lit::Str(s.to_string()))
}

fn kv(key: &str, value: Expr) -> PropOrSpread {
    PropOrSpread::KeyValue(KeyValueProp { key: PropName::Ident(key.to_string()), value: Box::new(value) })
}

fn keys(props: &Vec<PropOrSpread>) -> Vec<String> {
    props
        .iter()
        .map(|p| match p {
            PropOrSpread::KeyValue(kv) => get_key_str(kv).unwrap(),
            PropOrSpread::Shorthand(i) => i.sym.clone(),
            _ => "?".to_string(),
        })
        .collect()
}

fn value_of(p: &PropOrSpread) -> String {
    match p {
        PropOrSpread::KeyValue(kv) => match &*kv.value {
            Expr::Lit(Lit::Str(s)) => s.clone(),
            other => format!("{:?}", other),
        },
        other => format!("{:?}", other),
    }
}

#[test]
fn keys_are_names_where_they_can_be() {
    assert!(matches!(string_to_prop_name("color".to_string()), Some(PropName::Ident(s)) if s == "color"));
    assert!(matches!(string_to_prop_name("$$css".to_string()), Some(PropName::Ident(s)) if s == "$$css"));
    assert!(matches!(string_to_prop_name("12".to_string()), Some(PropName::Str(s)) if s == "12"));
    assert!(matches!(string_to_prop_name(":hover".to_string()), Some(PropName::Str(s)) if s == ":hover"));
    assert!(matches!(string_to_prop_name("".to_string()), Some(PropName::Str(s)) if s.is_empty()));
    assert_eq!(wrap_key_in_quotes("a", &true), "\"a\"");
    assert_eq!(wrap_key_in_quotes("a", &false), "a");
    assert_eq!(get_pat_as_string(&Pat::Ident(id("p"))), Some("p".to_string()));
    assert_eq!(get_pat_as_string(&Pat::Other), None);
    assert_eq!(gen_file_based_identifier("f.ts", "tokens", None), "f.ts//tokens");
    assert_eq!(gen_file_based_identifier("f.ts", "tokens", Some("color")), "f.ts//tokens.color");
}

#[test]
fn creators_build_members_and_arguments() {
    let m = prop_or_spread_string_creator("className".to_string(), "x1 x2".to_string());
    assert_eq!(keys(&vec![m.clone()]), vec!["className".to_string()]);
    assert_eq!(value_of(&m), "x1 x2");
    let m = prop_or_spread_boolean_creator("$$css".to_string(), Some(true));
    let PropOrSpread::KeyValue(kv) = &m else { panic!("no member") };
    assert!(matches!(&*kv.value, Expr::Lit(Lit::Bool(true))));
    let m = prop_or_spread_expression_creator("a b".to_string(), text("v"));
    let PropOrSpread::KeyValue(kv) = &m else { panic!("no member") };
    assert!(matches!(&kv.key, PropName::Str(s) if s == "a b"));
    assert!(matches!(string_to_expression("s".to_string()), Some(Expr::Lit(Lit::Str(s))) if s == "s"));
    assert!(matches!(
        number_to_expression(Number::from_ten_thousandths(5).unwrap()),
        Some(Expr::Lit(Lit::Num(n))) if n == Number::from_ten_thousandths(5).unwrap()
    ));
    let arg = expr_or_spread_string_expression_creator("s".to_string());
    assert!(!arg.spread);
    let arg = expr_or_spread_number_expression_creator(Number::from_ten_thousandths(7).unwrap());
    assert!(matches!(&*arg.expr, Expr::Lit(Lit::Num(n)) if *n == Number::from_ten_thousandths(7).unwrap()));
}

#[test]
fn keys_are_equal_within_their_kind() {
    assert!(prop_name_eq(&PropName::Ident("a".to_string()), &PropName::Ident("a".to_string())));
    assert!(!prop_name_eq(&PropName::Ident("a".to_string()), &PropName::Str("a".to_string())));
    assert!(prop_name_eq(&PropName::Num(Number::from_ten_thousandths(3).unwrap()), &PropName::Num(Number::from_ten_thousandths(3).unwrap())));
    assert!(!prop_name_eq(
        &PropName::Computed(Box::new(text("a"))),
        &PropName::Computed(Box::new(text("a")))
    ));
}

#[test]
fn duplicates_give_way_to_the_last() {
    let props = vec![
        kv("a", text("1")),
        kv("b", text("2")),
        PropOrSpread::Spread(Box::new(text("s"))),
        kv("a", text("3")),
        PropOrSpread::Shorthand(id("b")),
        kv("c", text("4")),
    ];
    let out = remove_duplicates(props);
    assert_eq!(keys(&out), vec!["a".to_string(), "b".to_string(), "c".to_string()]);
    assert_eq!(value_of(&out[0]), "3");
    assert!(matches!(&out[1], PropOrSpread::Shorthand(_)));
}

#[test]
fn deep_merge_adds_what_is_new_and_reverses() {
    let old = vec![kv("a", text("old")), kv("b", text("b")), kv("o", Expr::Object(vec![kv("x", text("1"))]))];
    let new = vec![kv("a", text("new")), kv("o", text("flat"))];
    let out = deep_merge_props(&old, new);
    assert_eq!(keys(&out), vec!["b".to_string(), "o".to_string(), "a".to_string()]);
    assert_eq!(value_of(&out[2]), "new");
    assert_eq!(value_of(&out[1]), "flat");
}

#[test]
fn shorthands_are_written_out() {
    let mut p = PropOrSpread::Shorthand(Id { sym: "color".to_string(), ctxt: 3 });
    transform_shorthand_to_key_values(&mut p);
    let PropOrSpread::KeyValue(written) = &p else { panic!("no member") };
    assert!(matches!(&written.key, PropName::Ident(s) if s == "color"));
    assert!(matches!(&*written.value, Expr::Ident(i) if i.sym == "color" && i.ctxt == 3));
    let mut q = PropOrSpread::Other;
    transform_shorthand_to_key_values(&mut q);
    assert!(matches!(q, PropOrSpread::Other));
    let props = vec![kv("a", text("1")), PropOrSpread::Shorthand(id("b"))];
    let kvs = get_key_values_from_object(&props).unwrap();
    assert_eq!(kvs.len(), 2);
    assert!(matches!(&*kvs[1].value, Expr::Ident(i) if i.sym == "b"));
    let props = vec![PropOrSpread::Spread(Box::new(text("s")))];
    assert_eq!(get_key_values_from_object(&props).unwrap_err().message, Message::SpreadNotSupported);
    let props = vec![kv("a", text("1")), PropOrSpread::Other];
    assert_eq!(get_key_values_from_object(&props).unwrap_err().message, Message::IllegalPropValue);
}

#[test]
fn typed_values_are_told_apart() {
    let plain = KeyValueProp { key: PropName::Ident("k".to_string()), value: Box::new(text("red")) };
    let (value, typed) = get_css_value(&plain).unwrap();
    assert!(matches!(value, Expr::Lit(Lit::Str(s)) if s == "red"));
    assert!(typed.is_none());
    let object = Expr::Object(vec![kv("syntax", text("<color>")), kv("value", text("blue"))]);
    let typed_kv = KeyValueProp { key: PropName::Ident("k".to_string()), value: Box::new(object.clone()) };
    let (value, typed) = get_css_value(&typed_kv).unwrap();
    assert!(matches!(value, Expr::Lit(Lit::Str(s)) if s == "blue"));
    assert!(same_expr(&typed.unwrap(), &object));
    let partial = Expr::Object(vec![kv("value", text("blue"))]);
    let partial_kv = KeyValueProp { key: PropName::Ident("k".to_string()), value: Box::new(partial.clone()) };
    let (value, typed) = get_css_value(&partial_kv).unwrap();
    assert!(same_expr(&value, &partial));
    assert!(typed.is_none());
    let spread = Expr::Object(vec![PropOrSpread::Spread(Box::new(text("s")))]);
    let spread_kv = KeyValueProp { key: PropName::Ident("k".to_string()), value: Box::new(spread) };
    assert_eq!(get_css_value(&spread_kv).unwrap_err().message, Message::SpreadNotSupported);
}

fn call_at(lo: u32, arg: Expr) -> CallExpr {
    CallExpr {
        span: Span { lo, hi: lo + 1 },
        callee: Box::new(Expr::Member {
            obj: Box::new(Expr::Ident(id("stylex"))),
            prop: MemberProp::Ident("create".to_string()),
        }),
        args: vec![ExprOrSpread { spread: false, expr: Box::new(arg) }],
    }
}

#[test]
fn expressions_compare_by_structure() {
    let a = Expr::Paren(Box::new(Expr::Paren(Box::new(text("x")))));
    assert!(same_expr(normalize_expr(&a), &text("x")));
    assert!(same_expr(&a, &a.clone()));
    assert!(!same_expr(&a, &text("x")));
    let one = call_at(1, Expr::Call(call_at(2, text("a"))));
    let two = call_at(7, Expr::Call(call_at(9, text("a"))));
    let three = call_at(1, Expr::Call(call_at(2, text("b"))));
    assert!(!same_expr(&Expr::Call(one.clone()), &Expr::Call(two.clone())));
    assert!(same_call_ignoring_spans(&one, &two));
    assert!(!same_call_ignoring_spans(&one, &three));
    let found = process_declaration(&one).unwrap();
    assert_eq!(found.0.sym, "stylex");
    assert_eq!(found.1, "create");
    let mut plain = one.clone();
    plain.callee = Box::new(Expr::Ident(id("create")));
    assert!(process_declaration(&plain).is_none());
}

#[test]
fn made_up_names_count_up() {
    let mut generator = UidGenerator::new("inject");
    assert_eq!(generator.generate_ident().sym, "_inject");
    assert_eq!(generator.generate_ident().sym, "_inject2");
    assert_eq!(generator.generate_ident().sym, "_inject3");
    let mut generator = UidGenerator { prefix: "a".to_string(), count: 10 };
    let name = generator.generate_ident();
    assert_eq!(name.sym, "_a11");
    assert_eq!(name.ctxt, 0);
}

#[test]
fn inject_items_import_the_helper() {
    let ModuleItem::Import(decl) = add_inject_default_import_expression(&id("_inject")) else { panic!() };
    assert_eq!(decl.src, "@stylexjs/stylex/lib/stylex-inject");
    assert!(matches!(&decl.specifiers[0], ImportSpecifier::Default(i) if i.sym == "_inject"));
    let ModuleItem::Import(decl) = add_inject_named_import_expression(&id("_inject"), &id("_go")) else {
        panic!()
    };
    assert!(matches!(
        &decl.specifiers[0],
        ImportSpecifier::Named { local, imported } if local.sym == "_inject" && imported.as_deref() == Some("_go")
    ));
    let ModuleItem::Import(decl) = add_import_expression("./x.css") else { panic!() };
    assert_eq!(decl.src, "./x.css");
    assert!(decl.specifiers.is_empty());
    let ModuleItem::Var(decls) = add_inject_var_decl_expression(&id("_inject2"), &id("_inject")) else {
        panic!()
    };
    assert!(matches!(&decls[0].name, Pat::Ident(i) if i.sym == "_inject2"));
    assert!(matches!(&**decls[0].init.as_ref().unwrap(), Expr::Ident(i) if i.sym == "_inject"));
}

#[test]
fn the_variable_of_a_style_definition_is_noted_and_renamed() {
    let declarator = |name: &str| VarDeclarator {
        name: Pat::Ident(id(name)),
        init: Some(Box::new(Expr::Call(call_at(1, Expr::Object(vec![]))))),
    };
    let mut visitor = ModuleTransformVisitor::new(StateManager::default());
    visitor.declaration = Some(id("stylex"));
    let out = visitor.fold_var_declarator_impl(declarator("styles"));
    assert!(matches!(&out.name, Pat::Ident(i) if i.sym == "styles"));
    assert_eq!(visitor.props_declaration.as_ref().unwrap().sym, "styles");
    assert_eq!(visitor.get_props_desclaration_as_string(), "styles");
    visitor.cycle = ModuleCycle::Processing;
    let out = visitor.fold_var_declarator_impl(declarator("styles"));
    assert!(matches!(&out.name, Pat::Ident(i) if i.sym == "_stylex$props"));
    visitor.runtime_injection = true;
    let out = visitor.fold_var_declarator_impl(declarator("styles"));
    assert!(matches!(&out.name, Pat::Ident(i) if i.sym == "styles"));
    visitor.runtime_injection = false;
    visitor.declaration = Some(id("other"));
    let out = visitor.fold_var_declarator_impl(declarator("styles"));
    assert!(matches!(&out.name, Pat::Ident(i) if i.sym == "styles"));
    visitor.declaration = Some(id("stylex"));
    visitor.cycle = ModuleCycle::TransformEnter;
    let out = visitor.fold_var_declarator_impl(declarator("styles"));
    assert!(matches!(&out.name, Pat::Ident(i) if i.sym == "styles"));
    let fresh = ModuleTransformVisitor::new(StateManager::default());
    assert_eq!(fresh.get_props_desclaration_as_string(), "");
}

#[test]
fn results_are_told_apart_by_kind() {
    let props = FnResult::Props(NestedStringObject::FlatCompiledStyles(indexmap::IndexMap::new()));
    assert!(props.as_props().is_some());
    assert!(props.as_stylex().is_none());
    assert!(props._as_attrs().is_none());
    let expr = FnResult::Stylex(text("x"));
    assert!(expr.as_stylex().is_some());
    assert!(expr.as_props().is_none());
    let attrs = FnResult::Attrs(NestedStringObject::FlatCompiledStyles(indexmap::IndexMap::new()));
    assert!(attrs._as_attrs().is_some());
}
