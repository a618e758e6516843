use stylex_swc_plugin::ast::{
    ArrayElem, BinaryOp, CallExpr, Expr, ExprOrSpread, Id, KeyValueProp, Lit, MemberProp, Pat,
    PropName, PropOrSpread, Span, UnaryOp, VarDeclarator,
};
use stylex_swc_plugin::common::{
    binary_expr_to_num, evaluate_bin_expr, expr_to_num, expr_to_str, expr_tpl_to_string,
    get_string_val_from_lit, ident_to_number, lit_to_num, transform_bin_expr_to_number,
    unari_to_num,
};
use stylex_swc_plugin::evaluate::{evaluate, wanted_computation, Scope};
use stylex_swc_plugin::operators::Computation;
use stylex_swc_plugin::functions::{
    FunctionBinding, FunctionConfig, FunctionMap, NamedFunction,
};
use stylex_swc_plugin::number::Number;
use stylex_swc_plugin::value::{Function, Key, Value};

fn n(units: i64) -> Number {
    Number::from_ten_thousandths(units).unwrap()
}

fn num(v: i64) -> Expr {
    Expr::Lit(Lit::Num(n(v * 10_000)))
}

fn text(s: &str) -> Expr {
    Expr::Lit(Lit::Str(s.to_string()))
}

fn ident(s: &str) -> Expr {
    Expr::Ident(id(s))
}

fn id(s: &str) -> Id {
    Id { sym: s.to_string(), ctxt: 0 }
}

fn bin(op: BinaryOp, l: Expr, r: Expr) -> Expr {
    Expr::Bin { op, left: Box::new(l), right: Box::new(r) }
}

fn unary(op: UnaryOp, arg: Expr) -> Expr {
    Expr::Unary { op, arg: Box::new(arg) }
}

fn decl(name: &str, init: Option<Expr>) -> VarDeclarator {
    VarDeclarator { name: Pat::Ident(id(name)), init: init.map(Box::new) }
}

fn kv(key: &str, value: Expr) -> PropOrSpread {
    PropOrSpread::KeyValue(KeyValueProp { key: PropName::Ident(key.to_string()), value: Box::new(value) })
}

fn elem(e: Expr) -> ArrayElem {
    ArrayElem::Elem(ExprOrSpread { spread: false, expr: Box::new(e) })
}

fn spread(e: Expr) -> ArrayElem {
    ArrayElem::Elem(ExprOrSpread { spread: true, expr: Box::new(e) })
}

fn no_functions() -> FunctionMap {
    FunctionMap::new()
}

fn eval(e: &Expr, decls: &Vec<VarDeclarator>, functions: &FunctionMap) -> Result<String, String> {
    let computed = Vec::new();
    let scope = Scope { decls, functions, computed: &computed };
    let report = evaluate(e, &scope);
    assert_eq!(report.confident, report.value.is_some());
    assert_eq!(report.deopt.is_some(), report.value.is_none());
    match report.value {
        Some(v) => Ok(format!("{:?}", v)),
        None => Err(format!("{:?}", report.deopt.unwrap())),
    }
}

fn value(e: &Expr) -> Option<Value> {
    let decls = vec![];
    let functions = no_functions();
    let computed = Vec::new();
    let scope = Scope { decls: &decls, functions: &functions, computed: &computed };
    evaluate(e, &scope).value
}

#[test]
fn literals_evaluate_to_scalars() {
    assert!(matches!(value(&num(3)), Some(Value::Num(x)) if x == n(30_000)));
    assert!(matches!(value(&text("a")), Some(Value::Str(s)) if s == "a"));
    assert!(matches!(value(&Expr::Lit(Lit::Bool(true))), Some(Value::Bool(true))));
    assert!(matches!(value(&Expr::Lit(Lit::Null)), Some(Value::Null)));
    assert!(value(&Expr::Lit(Lit::Regex("a".to_string()))).is_none());
}

#[test]
fn arithmetic_is_strict() {
    assert!(matches!(value(&bin(BinaryOp::Add, num(1), num(2))), Some(Value::Num(x)) if x == n(30_000)));
    assert!(matches!(value(&bin(BinaryOp::Mul, num(3), num(4))), Some(Value::Num(x)) if x == n(120_000)));
    assert!(matches!(value(&bin(BinaryOp::Div, num(1), num(4))), Some(Value::Num(x)) if x == n(2_500)));
    assert!(matches!(value(&bin(BinaryOp::Exp, num(2), num(3))), Some(Value::Num(x)) if x == n(80_000)));
    assert!(matches!(value(&bin(BinaryOp::Mod, num(7), num(4))), Some(Value::Num(x)) if x == n(30_000)));
    assert!(matches!(value(&bin(BinaryOp::Add, text("a"), text("b"))), Some(Value::Str(s)) if s == "ab"));
    assert!(value(&bin(BinaryOp::Add, text("1"), num(2))).is_none());
    assert!(matches!(
        value(&bin(BinaryOp::Div, num(1), num(3))),
        Some(Value::Num(x)) if x == Number { num: 1, den: 3 }
    ));
    assert!(matches!(
        value(&bin(BinaryOp::Mul, bin(BinaryOp::Div, num(1), num(3)), num(3))),
        Some(Value::Num(x)) if x == n(10_000)
    ));
    assert!(value(&bin(BinaryOp::Div, num(1), num(0))).is_none());
    assert!(value(&bin(BinaryOp::In, num(1), num(0))).is_none());
}

#[test]
fn bitwise_and_comparison_operators() {
    assert!(matches!(value(&bin(BinaryOp::BitAnd, num(6), num(3))), Some(Value::Num(x)) if x == n(20_000)));
    assert!(matches!(value(&bin(BinaryOp::BitOr, num(6), num(3))), Some(Value::Num(x)) if x == n(70_000)));
    assert!(matches!(value(&bin(BinaryOp::BitXor, num(6), num(3))), Some(Value::Num(x)) if x == n(50_000)));
    assert!(matches!(value(&bin(BinaryOp::LShift, num(1), num(4))), Some(Value::Num(x)) if x == n(160_000)));
    assert!(matches!(value(&bin(BinaryOp::RShift, num(-16), num(2))), Some(Value::Num(x)) if x == n(-40_000)));
    assert!(matches!(value(&bin(BinaryOp::LShift, num(1), num(33))), Some(Value::Num(x)) if x == n(20_000)));
    assert!(matches!(
        value(&bin(BinaryOp::ZeroFillRShift, num(-8), num(1))),
        Some(Value::Num(x)) if x == n(2_147_483_644 * 10_000)
    ));
    assert!(matches!(value(&bin(BinaryOp::Lt, num(1), num(2))), Some(Value::Bool(true))));
    assert!(matches!(value(&bin(BinaryOp::GtEq, num(1), num(2))), Some(Value::Bool(false))));
    assert!(matches!(value(&bin(BinaryOp::EqEqEq, num(1), text("1"))), Some(Value::Bool(false))));
    assert!(matches!(value(&bin(BinaryOp::NotEqEq, num(1), text("1"))), Some(Value::Bool(true))));
    assert!(value(&bin(BinaryOp::EqEq, num(1), text("1"))).is_none());
    assert!(matches!(value(&bin(BinaryOp::EqEq, text("a"), text("a"))), Some(Value::Bool(true))));
}

#[test]
fn unary_operators() {
    assert!(matches!(value(&unary(UnaryOp::Minus, num(2))), Some(Value::Num(x)) if x == n(-20_000)));
    assert!(matches!(value(&unary(UnaryOp::Plus, num(2))), Some(Value::Num(x)) if x == n(20_000)));
    assert!(matches!(value(&unary(UnaryOp::Bang, num(0))), Some(Value::Bool(true))));
    assert!(matches!(value(&unary(UnaryOp::Tilde, num(5))), Some(Value::Num(x)) if x == n(-60_000)));
    assert!(matches!(value(&unary(UnaryOp::Void, num(5))), Some(Value::Null)));
    assert!(matches!(value(&unary(UnaryOp::TypeOf, num(5))), Some(Value::Str(s)) if s == "number"));
    assert!(matches!(value(&unary(UnaryOp::TypeOf, text(""))), Some(Value::Str(s)) if s == "string"));
    assert!(value(&unary(UnaryOp::Minus, text("2"))).is_none());
    assert!(value(&unary(UnaryOp::Delete, num(5))).is_none());
}

#[test]
fn short_circuit_keeps_confidence_where_the_left_decides() {
    let unknown = ident("unknown");
    assert!(matches!(
        value(&bin(BinaryOp::LogicalOr, num(1), unknown.clone())),
        Some(Value::Num(x)) if x == n(10_000)
    ));
    assert!(value(&bin(BinaryOp::LogicalOr, num(0), unknown.clone())).is_none());
    assert!(matches!(
        value(&bin(BinaryOp::LogicalAnd, num(0), unknown.clone())),
        Some(Value::Num(x)) if x == n(0)
    ));
    assert!(value(&bin(BinaryOp::LogicalAnd, num(1), unknown.clone())).is_none());
    assert!(matches!(
        value(&bin(BinaryOp::LogicalAnd, num(1), text("b"))),
        Some(Value::Str(s)) if s == "b"
    ));
    assert!(matches!(
        value(&bin(BinaryOp::NullishCoalescing, num(0), unknown.clone())),
        Some(Value::Num(x)) if x == n(0)
    ));
    assert!(matches!(
        value(&bin(BinaryOp::NullishCoalescing, Expr::Lit(Lit::Null), text("b"))),
        Some(Value::Str(s)) if s == "b"
    ));
    assert!(value(&bin(BinaryOp::LogicalOr, unknown.clone(), num(1))).is_none());
}

#[test]
fn conditional_evaluates_the_chosen_branch_only() {
    let cond = Expr::Cond {
        test: Box::new(Expr::Lit(Lit::Bool(true))),
        cons: Box::new(num(1)),
        alt: Box::new(ident("unknown")),
    };
    assert!(matches!(value(&cond), Some(Value::Num(x)) if x == n(10_000)));
    let cond = Expr::Cond {
        test: Box::new(Expr::Lit(Lit::Bool(false))),
        cons: Box::new(num(1)),
        alt: Box::new(ident("unknown")),
    };
    assert!(value(&cond).is_none());
}

#[test]
fn the_deopt_names_the_offending_node() {
    let decls = vec![];
    let functions = no_functions();
    let e = bin(BinaryOp::Add, num(1), unary(UnaryOp::Minus, ident("unknown")));
    assert_eq!(eval(&e, &decls, &functions), Err(format!("{:?}", ident("unknown"))));
    let e = bin(BinaryOp::Add, num(1), text("a"));
    assert_eq!(eval(&e, &decls, &functions), Err(format!("{:?}", e)));
}

#[test]
fn identifiers_resolve_through_declarations() {
    let decls = vec![
        decl("a", Some(num(2))),
        decl("b", Some(bin(BinaryOp::Mul, ident("a"), num(3)))),
        decl("c", None),
        decl("p", Some(ident("q"))),
        decl("q", Some(ident("p"))),
    ];
    let functions = no_functions();
    let computed = Vec::new();
    let scope = Scope { decls: &decls, functions: &functions, computed: &computed };
    assert!(matches!(evaluate(&ident("b"), &scope).value, Some(Value::Num(x)) if x == n(60_000)));
    assert!(!evaluate(&ident("c"), &scope).confident);
    assert!(!evaluate(&ident("p"), &scope).confident);
    assert!(!evaluate(&ident("missing"), &scope).confident);
}

#[test]
fn objects_arrays_members_and_spreads() {
    let object = Expr::Object(vec![
        kv("a", num(1)),
        PropOrSpread::Spread(Box::new(Expr::Object(vec![kv("b", num(2)), kv("a", num(3))]))),
        PropOrSpread::KeyValue(KeyValueProp {
            key: PropName::Computed(Box::new(bin(BinaryOp::Add, text("c"), text("d")))),
            value: Box::new(num(4)),
        }),
    ]);
    let Some(Value::Object(entries)) = value(&object) else { panic!("no object") };
    let keys: Vec<String> = entries
        .iter()
        .map(|e| match &e.key {
            Key::Str(s) => s.clone(),
            Key::Num(_) => panic!("no text key"),
        })
        .collect();
    assert_eq!(keys, vec!["a".to_string(), "b".to_string(), "cd".to_string()]);
    assert!(matches!(&entries[0].value, Value::Num(x) if *x == n(30_000)));

    let member = Expr::Member { obj: Box::new(object.clone()), prop: MemberProp::Ident("b".to_string()) };
    assert!(matches!(value(&member), Some(Value::Num(x)) if x == n(20_000)));
    let member = Expr::Member { obj: Box::new(object.clone()), prop: MemberProp::Computed(Box::new(text("cd"))) };
    assert!(matches!(value(&member), Some(Value::Num(x)) if x == n(40_000)));
    let member = Expr::Member { obj: Box::new(object), prop: MemberProp::Ident("zz".to_string()) };
    assert!(value(&member).is_none());

    let array = Expr::Array(vec![
        elem(num(1)),
        ArrayElem::Hole,
        spread(Expr::Array(vec![elem(num(2)), elem(num(3))])),
    ]);
    let Some(Value::List(items)) = value(&array) else { panic!("no list") };
    assert_eq!(items.len(), 4);
    assert!(matches!(items[1], Value::Null));
    assert!(matches!(items[3], Value::Num(x) if x == n(30_000)));
    assert!(value(&Expr::Array(vec![spread(num(1))])).is_none());
}

#[test]
fn template_literals_concatenate() {
    let tpl = Expr::Tpl {
        quasis: vec!["a".to_string(), "b".to_string(), "".to_string()],
        exprs: vec![num(1), text("x")],
    };
    assert!(matches!(value(&tpl), Some(Value::Str(s)) if s == "a1bx"));
    let tpl = Expr::Tpl { quasis: vec!["a".to_string()], exprs: vec![num(1)] };
    assert!(value(&tpl).is_none());
    let tpl = Expr::Tpl {
        quasis: vec!["a".to_string(), "b".to_string()],
        exprs: vec![Expr::Lit(Lit::Bool(true))],
    };
    assert!(value(&tpl).is_none());
}

#[test]
fn calls_go_through_the_function_map() {
    let functions = FunctionMap {
        identifiers: vec![
            FunctionBinding { id: id("first"), config: FunctionConfig::Regular(Function::FirstThatWorks) },
            FunctionBinding {
                id: id("stylex"),
                config: FunctionConfig::Members(vec![NamedFunction {
                    name: "include".to_string(),
                    function: Function::Include,
                }]),
            },
        ],
    };
    let decls = vec![];
    let computed = Vec::new();
    let scope = Scope { decls: &decls, functions: &functions, computed: &computed };
    let call = Expr::Call(CallExpr {
        span: Span { lo: 0, hi: 0 },
        callee: Box::new(ident("first")),
        args: vec![
            ExprOrSpread { spread: false, expr: Box::new(text("a")) },
            ExprOrSpread { spread: false, expr: Box::new(text("b")) },
        ],
    });
    let Some(Value::List(items)) = evaluate(&call, &scope).value else { panic!("no list") };
    assert!(matches!(&items[0], Value::Str(s) if s == "a"));
    assert!(matches!(&items[1], Value::Str(s) if s == "b"));

    let call = Expr::Call(CallExpr {
        span: Span { lo: 0, hi: 0 },
        callee: Box::new(Expr::Member {
            obj: Box::new(Expr::Ident(Id { sym: "stylex".to_string(), ctxt: 7 })),
            prop: MemberProp::Ident("include".to_string()),
        }),
        args: vec![ExprOrSpread { spread: false, expr: Box::new(Expr::Object(vec![kv("a", text("x1"))])) }],
    });
    assert!(matches!(evaluate(&call, &scope).value, Some(Value::IncludedStyles(_))));

    let call = Expr::Call(CallExpr {
        span: Span { lo: 0, hi: 0 },
        callee: Box::new(ident("other")),
        args: vec![],
    });
    assert!(!evaluate(&call, &scope).confident);
    assert!(matches!(evaluate(&ident("first"), &scope).value, Some(Value::Callable(_))));
}

#[test]
fn numbers_of_literals_and_expressions() {
    assert_eq!(lit_to_num(&Lit::Bool(true)), Some(n(10_000)));
    assert_eq!(lit_to_num(&Lit::Bool(false)), Some(n(0)));
    assert_eq!(lit_to_num(&Lit::Num(n(5))), Some(n(5)));
    assert_eq!(lit_to_num(&Lit::Str("2.5".to_string())), Some(n(25_000)));
    assert_eq!(lit_to_num(&Lit::Str("x".to_string())), None);
    assert_eq!(lit_to_num(&Lit::Null), None);

    let decls = vec![decl("a", Some(num(2))), decl("b", Some(ident("a")))];
    let functions = no_functions();
    let computed = Vec::new();
    let scope = Scope { decls: &decls, functions: &functions, computed: &computed };
    assert_eq!(expr_to_num(&ident("a"), &scope), Some(n(20_000)));
    assert_eq!(expr_to_num(&ident("b"), &scope), None);
    assert_eq!(expr_to_num(&unary(UnaryOp::Minus, text("3")), &scope), Some(n(-30_000)));
    assert_eq!(expr_to_num(&bin(BinaryOp::Add, ident("a"), num(1)), &scope), Some(n(30_000)));
    assert_eq!(expr_to_num(&Expr::Other, &scope), None);
    assert_eq!(ident_to_number(&id("a"), &scope), Some(n(20_000)));
    assert_eq!(ident_to_number(&id("zz"), &scope), None);
    assert_eq!(unari_to_num(UnaryOp::Minus, &num(2), &scope), Some(n(-20_000)));
    assert_eq!(unari_to_num(UnaryOp::Plus, &num(2), &scope), Some(n(20_000)));
    assert_eq!(unari_to_num(UnaryOp::Bang, &num(2), &scope), None);
}

#[test]
fn numbers_of_binary_expressions() {
    let decls = vec![];
    let functions = no_functions();
    let computed = Vec::new();
    let scope = Scope { decls: &decls, functions: &functions, computed: &computed };
    assert_eq!(binary_expr_to_num(BinaryOp::Add, &num(1), &num(2), &scope), Some(n(30_000)));
    assert_eq!(binary_expr_to_num(BinaryOp::Add, &text("1"), &num(2), &scope), Some(n(30_000)));
    assert_eq!(binary_expr_to_num(BinaryOp::Lt, &num(1), &num(2), &scope), Some(n(10_000)));
    assert_eq!(binary_expr_to_num(BinaryOp::EqEq, &num(1), &num(2), &scope), Some(n(0)));
    assert_eq!(binary_expr_to_num(BinaryOp::NotEq, &num(1), &num(2), &scope), Some(n(10_000)));
    assert_eq!(binary_expr_to_num(BinaryOp::In, &num(1), &num(0), &scope), None);
    assert_eq!(binary_expr_to_num(BinaryOp::InstanceOf, &num(1), &num(2), &scope), None);
    assert_eq!(
        binary_expr_to_num(BinaryOp::ZeroFillRShift, &num(-8), &num(1), &scope),
        Some(n(2_147_483_644 * 10_000))
    );
    assert_eq!(binary_expr_to_num(BinaryOp::ZeroFillRShift, &num(-1), &num(0), &scope), Some(n(4_294_967_295 * 10_000)));
    assert_eq!(binary_expr_to_num(BinaryOp::ZeroFillRShift, &num(16), &num(2), &scope), Some(n(40_000)));
    assert_eq!(binary_expr_to_num(BinaryOp::RShift, &num(-8), &num(1), &scope), Some(n(-40_000)));
    assert_eq!(binary_expr_to_num(BinaryOp::BitOr, &num(4), &num(1), &scope), Some(n(50_000)));
    assert_eq!(binary_expr_to_num(BinaryOp::LogicalOr, &num(0), &num(7), &scope), Some(n(70_000)));
    assert_eq!(binary_expr_to_num(BinaryOp::LogicalOr, &num(3), &ident("zz"), &scope), Some(n(30_000)));
    assert_eq!(binary_expr_to_num(BinaryOp::LogicalOr, &num(0), &ident("zz"), &scope), None);
    assert_eq!(binary_expr_to_num(BinaryOp::LogicalAnd, &num(3), &num(7), &scope), Some(n(70_000)));
    assert_eq!(binary_expr_to_num(BinaryOp::LogicalAnd, &num(0), &ident("zz"), &scope), Some(n(0)));
    assert_eq!(binary_expr_to_num(BinaryOp::NullishCoalescing, &num(0), &num(7), &scope), Some(n(0)));
    assert_eq!(binary_expr_to_num(BinaryOp::Add, &ident("zz"), &num(2), &scope), None);
    assert_eq!(binary_expr_to_num(BinaryOp::Div, &num(1), &num(3), &scope), Some(Number { num: 1, den: 3 }));
    assert_eq!(binary_expr_to_num(BinaryOp::Div, &num(100), &num(3), &scope), Some(Number { num: 100, den: 3 }));
    assert_eq!(binary_expr_to_num(BinaryOp::Div, &num(1), &num(0), &scope), None);
    assert_eq!(evaluate_bin_expr(BinaryOp::Sub, n(30_000), n(10_000)), Some(n(20_000)));
    assert_eq!(evaluate_bin_expr(BinaryOp::Div, n(30_000), n(0)), None);
    assert_eq!(transform_bin_expr_to_number(BinaryOp::Mul, &num(2), &num(3), &scope), Some(n(60_000)));
    assert_eq!(transform_bin_expr_to_number(BinaryOp::Mod, &num(2), &num(3), &scope), None);
}

#[test]
fn text_of_literals_and_expressions() {
    assert_eq!(get_string_val_from_lit(&Lit::Str("a".to_string())), Some("a".to_string()));
    assert_eq!(get_string_val_from_lit(&Lit::Num(n(15_000))), Some("1.5".to_string()));
    assert_eq!(get_string_val_from_lit(&Lit::BigInt("12".to_string())), Some("12".to_string()));
    assert_eq!(get_string_val_from_lit(&Lit::Null), None);

    let decls = vec![
        decl("a", Some(text("x"))),
        decl("b", Some(ident("a"))),
        decl("c", Some(bin(BinaryOp::Add, num(1), num(1)))),
    ];
    let functions = no_functions();
    let computed = Vec::new();
    let scope = Scope { decls: &decls, functions: &functions, computed: &computed };
    assert_eq!(expr_to_str(&ident("b"), &scope), Some("x".to_string()));
    assert_eq!(expr_to_str(&ident("c"), &scope), None);
    assert_eq!(expr_to_str(&num(2), &scope), Some("2".to_string()));
    assert_eq!(expr_to_str(&Expr::Other, &scope), None);

    let quasis = vec!["m-".to_string(), "-".to_string(), "px".to_string()];
    let exprs = vec![ident("a"), bin(BinaryOp::Mul, num(2), num(4))];
    assert_eq!(expr_tpl_to_string(&quasis, &exprs, &scope), Some("m-x-8px".to_string()));
    let exprs = vec![ident("b"), num(1)];
    assert_eq!(expr_tpl_to_string(&quasis, &exprs, &scope), None);
}

#[test]
fn a_deopt_below_makes_every_expression_above_deopt() {
    let decls = vec![decl("known", Some(num(2)))];
    let functions = no_functions();
    let bad = ident("unknown");
    assert!(eval(&bad, &decls, &functions).is_err());
    let above = vec![
        unary(UnaryOp::Minus, ident("unknown")),
        bin(BinaryOp::Add, ident("known"), ident("unknown")),
        bin(BinaryOp::Mul, ident("unknown"), num(3)),
        Expr::Array(vec![elem(num(1)), elem(ident("unknown"))]),
        Expr::Object(vec![kv("a", num(1)), kv("b", ident("unknown"))]),
        Expr::Paren(Box::new(ident("unknown"))),
        Expr::Tpl { quasis: vec!["a".to_string(), "b".to_string()], exprs: vec![ident("unknown")] },
        Expr::Cond {
            test: Box::new(ident("unknown")),
            cons: Box::new(num(1)),
            alt: Box::new(num(2)),
        },
        Expr::Object(vec![kv("a", Expr::Array(vec![elem(unary(UnaryOp::Minus, ident("unknown")))]))]),
    ];
    for e in above.iter() {
        assert!(eval(e, &decls, &functions).is_err(), "{:?}", e);
    }
    let fine = bin(BinaryOp::Add, ident("known"), num(3));
    assert!(eval(&fine, &decls, &functions).is_ok());
}

#[test]
fn what_has_no_exact_result_waits_for_the_host() {
    let decls = vec![decl("half", Some(Expr::Lit(Lit::Num(Number { num: 1, den: 2 }))))];
    let functions = no_functions();
    let root = bin(BinaryOp::Exp, num(2), ident("half"));
    let e = bin(BinaryOp::Add, num(1), root.clone());
    let mut computed: Vec<Computation> = Vec::new();
    {
        let scope = Scope { decls: &decls, functions: &functions, computed: &computed };
        assert!(evaluate(&e, &scope).value.is_none());
        assert_eq!(
            wanted_computation(&e, &scope),
            Some((BinaryOp::Exp, n(20_000), Number { num: 1, den: 2 }))
        );
        assert_eq!(wanted_computation(&bin(BinaryOp::Add, num(1), ident("unknown")), &scope), None);
        assert_eq!(wanted_computation(&bin(BinaryOp::Add, num(1), num(2)), &scope), None);
        assert_eq!(wanted_computation(&bin(BinaryOp::Div, num(1), num(3)), &scope), None);
        assert_eq!(
            wanted_computation(&bin(BinaryOp::Div, num(1), num(0)), &scope),
            Some((BinaryOp::Div, n(10_000), n(0)))
        );
    }
    computed.push(Computation {
        op: BinaryOp::Exp,
        left: n(20_000),
        right: Number { num: 1, den: 2 },
        result: Number { num: 14142, den: 10000 },
    });
    let scope = Scope { decls: &decls, functions: &functions, computed: &computed };
    assert_eq!(wanted_computation(&e, &scope), None);
    assert!(matches!(
        evaluate(&e, &scope).value,
        Some(Value::Num(x)) if x == Number { num: 12071, den: 5000 }
    ));
    assert_eq!(
        binary_expr_to_num(BinaryOp::Exp, &num(2), &ident("half"), &scope),
        Some(Number { num: 14142, den: 10000 })
    );
}
