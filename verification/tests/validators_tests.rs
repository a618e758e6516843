use stylex_swc_plugin::ast::{
    ArrayElem, Expr, ExprOrSpread, Id, KeyValueProp, Lit, Pat, PropName, PropOrSpread,
};
use stylex_swc_plugin::errors::{Diagnostic, ErrorKind, Message};
use stylex_swc_plugin::flatten::flatten_raw_style_object;
use stylex_swc_plugin::number::Number;
use stylex_swc_plugin::pre_rule::{PreRuleSet, PreRules};
use stylex_swc_plugin::rule::PreRuleValue;
use stylex_swc_plugin::validators::{
    validate_conditional_styles, validate_dynamic_style_params, validate_namespace,
};
use stylex_swc_plugin::value::{Key, MapEntry, Value};

fn text(s: &str) -> Expr {
    Expr::Lit(Lit::Str(s.to_string()))
}

fn ident_kv(key: &str, value: Expr) -> KeyValueProp {
    KeyValueProp { key: PropName::Ident(key.to_string()), value: Box::new(value) }
}

fn str_kv(key: &str, value: Expr) -> KeyValueProp {
    KeyValueProp { key: PropName::Str(key.to_string()), value: Box::new(value) }
}

fn object(kvs: Vec<KeyValueProp>) -> Expr {
    Expr::Object(kvs.into_iter().map(PropOrSpread::KeyValue).collect())
}

fn elem(e: Expr, spread: bool) -> ArrayElem {
    ArrayElem::Elem(ExprOrSpread { spread, expr: Box::new(e) })
}

fn message(r: Result<(), Diagnostic>) -> Option<Message> {
    r.err().map(|d| d.message)
}

#[test]
fn a_plain_namespace_is_valid() {
    let ns = vec![
        ident_kv("color", text("red")),
        ident_kv("margin", Expr::Array(vec![elem(text("1px"), false), ArrayElem::Hole])),
        ident_kv(
            "width",
            object(vec![
                ident_kv("default", text("1px")),
                str_kv(":hover", text("2px")),
                str_kv("@media print", object(vec![ident_kv("default", text("3px"))])),
            ]),
        ),
        str_kv(":hover", object(vec![ident_kv("color", text("blue"))])),
    ];
    assert_eq!(validate_namespace(&ns, &vec![]), Ok(()));
}

#[test]
fn namespace_keys_must_be_static_names_or_conditions() {
    let ns = vec![str_kv("color", text("red"))];
    assert_eq!(message(validate_namespace(&ns, &vec![])), Some(Message::InvalidPseudoOrAtRule));
    let ns = vec![KeyValueProp {
        key: PropName::Computed(Box::new(text("a"))),
        value: Box::new(text("red")),
    }];
    let err = validate_namespace(&ns, &vec![]).unwrap_err();
    assert_eq!(err.message, Message::NonStaticValue);
    assert_eq!(err.kind, ErrorKind::NonStaticValue);
    let ns = vec![KeyValueProp { key: PropName::Num(Number::from_ten_thousandths(1).unwrap()), value: Box::new(text("red")) }];
    assert_eq!(message(validate_namespace(&ns, &vec![])), Some(Message::NonStaticValue));
}

#[test]
fn arrays_must_hold_literals_and_no_spreads() {
    let ns = vec![ident_kv("margin", Expr::Array(vec![elem(text("1px"), true)]))];
    assert_eq!(message(validate_namespace(&ns, &vec![])), Some(Message::SpreadNotSupported));
    let ns = vec![ident_kv("margin", Expr::Array(vec![elem(Expr::Other, false)]))];
    let err = validate_namespace(&ns, &vec![]).unwrap_err();
    assert_eq!(err.message, Message::IllegalPropArrayValue);
    assert_eq!(err.kind, ErrorKind::IllegalValue);
}

#[test]
fn conditions_may_not_repeat() {
    let ns = vec![str_kv(
        ":hover",
        Expr::Object(vec![PropOrSpread::KeyValue(str_kv(":hover", object(vec![])))]),
    )];
    assert_eq!(message(validate_namespace(&ns, &vec![])), Some(Message::DuplicateConditional));
    let ns = vec![str_kv(":hover", object(vec![]))];
    assert_eq!(
        message(validate_namespace(&ns, &vec![":hover".to_string()])),
        Some(Message::DuplicateConditional)
    );
}

#[test]
fn objects_may_not_hold_spreads_or_methods() {
    let ns = vec![ident_kv("color", Expr::Object(vec![PropOrSpread::Spread(Box::new(Expr::Other))]))];
    assert_eq!(message(validate_namespace(&ns, &vec![])), Some(Message::SpreadNotSupported));
    let ns = vec![ident_kv("color", Expr::Object(vec![PropOrSpread::Other]))];
    assert_eq!(message(validate_namespace(&ns, &vec![])), Some(Message::IllegalPropValue));
}

#[test]
fn includes_stand_at_the_top_level_only() {
    let included = Expr::Ident(Id { sym: "x".to_string(), ctxt: 0 });
    let ns = vec![ident_kv("__included_1", included.clone())];
    assert_eq!(validate_namespace(&ns, &vec![]), Ok(()));
    assert_eq!(
        message(validate_namespace(&ns, &vec![":hover".to_string()])),
        Some(Message::OnlyTopLevelIncludes)
    );
    let inner = str_kv(":__included_1", included.clone());
    assert_eq!(validate_conditional_styles(&inner, &vec![]), Ok(()));
}

#[test]
fn conditional_styles_need_conditional_keys_and_legal_values() {
    assert_eq!(validate_conditional_styles(&ident_kv("default", text("a")), &vec![]), Ok(()));
    assert_eq!(
        message(validate_conditional_styles(&ident_kv("color", text("a")), &vec![])),
        Some(Message::InvalidPseudoOrAtRule)
    );
    assert_eq!(
        message(validate_conditional_styles(&str_kv(":hover", text("a")), &vec![":hover".to_string()])),
        Some(Message::DuplicateConditional)
    );
    assert_eq!(
        message(validate_conditional_styles(&str_kv(":hover", Expr::Other), &vec![])),
        Some(Message::IllegalPropValue)
    );
    assert_eq!(
        message(validate_conditional_styles(
            &str_kv(":hover", Expr::Array(vec![elem(Expr::Other, false)])),
            &vec![]
        )),
        Some(Message::IllegalPropValue)
    );
    assert_eq!(
        message(validate_conditional_styles(
            &str_kv(":hover", object(vec![str_kv(":hover", text("a"))])),
            &vec![]
        )),
        Some(Message::DuplicateConditional)
    );
}

#[test]
fn dynamic_style_params_must_be_names() {
    let named = vec![Pat::Ident(Id { sym: "a".to_string(), ctxt: 0 })];
    assert_eq!(validate_dynamic_style_params(&named), Ok(()));
    let mixed = vec![Pat::Ident(Id { sym: "a".to_string(), ctxt: 0 }), Pat::Other];
    let err = validate_dynamic_style_params(&mixed).unwrap_err();
    assert_eq!(err.message, Message::OnlyNamedParametersInDynamicStyleFunctions);
    assert_eq!(err.kind, ErrorKind::IllegalArgument);
    assert!(!err.message.text().is_empty());
}

fn entry(key: &str, value: Value) -> MapEntry {
    MapEntry { key: Key::Str(key.to_string()), value }
}

fn s(v: &str) -> Value {
    Value::Str(v.to_string())
}

fn styles(rule: &PreRules) -> (String, String, Vec<String>, Vec<String>, u64) {
    match rule {
        PreRules::StylesPreRule(r) => {
            let PreRuleValue::String(v) = &r.value else { panic!("no single value") };
            (r.property.clone(), v.clone(), r.pseudos.clone(), r.at_rules.clone(), r.bonus)
        }
        other => panic!("no styles rule: {:?}", other),
    }
}

#[test]
fn flatten_keeps_source_order_and_accumulates_conditions() {
    let namespace = vec![
        entry("color", s("red")),
        entry(
            "width",
            Value::Object(vec![
                entry("default", s("1px")),
                entry(":hover", s("2px")),
                entry("@media print", Value::Object(vec![entry(":active", s("3px"))])),
            ]),
        ),
        entry(":focus", Value::Object(vec![entry("color", s("blue"))])),
        entry("margin", Value::Null),
    ];
    let flat = flatten_raw_style_object(&namespace).unwrap();
    let keys: Vec<&str> = flat.iter().map(|(k, _)| k.as_str()).collect();
    assert_eq!(keys, vec!["color", "width", ":focus_color", "margin"]);
    assert_eq!(styles(&flat[0].1), ("color".to_string(), "red".to_string(), vec![], vec![], 0));
    let PreRules::PreRuleSet(set) = &flat[1].1 else { panic!("no set") };
    assert_eq!(set.rules.len(), 3);
    assert_eq!(styles(&set.rules[0]), ("width".to_string(), "1px".to_string(), vec![], vec![], 1));
    assert_eq!(
        styles(&set.rules[1]),
        ("width".to_string(), "2px".to_string(), vec![":hover".to_string()], vec![], 0)
    );
    assert_eq!(
        styles(&set.rules[2]),
        (
            "width".to_string(),
            "3px".to_string(),
            vec![":active".to_string()],
            vec!["@media print".to_string()],
            0
        )
    );
    assert_eq!(
        styles(&flat[2].1),
        ("color".to_string(), "blue".to_string(), vec![":focus".to_string()], vec![], 0)
    );
    assert!(matches!(flat[3].1, PreRules::NullPreRule(_)));
}

#[test]
fn flatten_expands_lists_with_rising_priority() {
    let namespace = vec![entry(
        "height",
        Value::List(vec![s("500"), s("var(--h)"), s("100dvh")]),
    )];
    let flat = flatten_raw_style_object(&namespace).unwrap();
    let PreRules::PreRuleSet(set) = &flat[0].1 else { panic!("no set") };
    assert_eq!(set.rules.len(), 2);
    assert_eq!(styles(&set.rules[0]).1, "var(--h,500px)");
    assert_eq!(styles(&set.rules[0]).4, 0);
    assert_eq!(styles(&set.rules[1]).1, "100dvh");
    assert_eq!(styles(&set.rules[1]).4, 1);
    assert_eq!(set.get_value(), Some("var(--h,500px)".to_string()));
}

#[test]
fn flatten_rejects_illegal_values() {
    let namespace = vec![entry("color", Value::Object(vec![entry("hover", s("red"))]))];
    assert_eq!(
        flatten_raw_style_object(&namespace).unwrap_err().message,
        Message::InvalidPseudoOrAtRule
    );
    let namespace = vec![entry("color", Value::List(vec![Value::Null]))];
    assert_eq!(
        flatten_raw_style_object(&namespace).unwrap_err().message,
        Message::IllegalPropArrayValue
    );
    let namespace = vec![entry("color", Value::ThemeRef("t".to_string()))];
    assert_eq!(flatten_raw_style_object(&namespace).unwrap_err().message, Message::IllegalPropValue);
    let namespace = vec![entry(":hover", s("red"))];
    assert_eq!(
        flatten_raw_style_object(&namespace).unwrap_err().message,
        Message::IllegalNamespaceValue
    );
    let namespace = vec![MapEntry { key: Key::Num(Number::from_ten_thousandths(1).unwrap()), value: s("red") }];
    assert_eq!(flatten_raw_style_object(&namespace).unwrap_err().message, Message::IllegalPropValue);
}

#[test]
fn pre_rule_set_create_flattens_groups() {
    assert!(matches!(PreRuleSet::create(vec![]), PreRules::NullPreRule(_)));
    let namespace = vec![entry("a", s("1")), entry("b", s("2")), entry("c", s("3"))];
    let flat = flatten_raw_style_object(&namespace).unwrap();
    let rules: Vec<PreRules> = flat.into_iter().map(|(_, r)| r).collect();
    let one = PreRuleSet::create(vec![rules[0].clone()]);
    assert!(matches!(one, PreRules::StylesPreRule(_)));
    let pair = PreRuleSet::create(vec![rules[0].clone(), rules[1].clone()]);
    let nested = PreRuleSet::create(vec![pair, rules[2].clone()]);
    let PreRules::PreRuleSet(set) = &nested else { panic!("no set") };
    assert_eq!(set.rules.len(), 3);
    assert!(set.rules.iter().all(|r| matches!(r, PreRules::StylesPreRule(_))));
    assert!(PreRuleSet::new().rules.is_empty());
    assert_eq!(PreRuleSet::new().get_value(), None);
}
