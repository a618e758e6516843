use stylex_swc_plugin::css::{dashify, transform_value, variable_fallbacks};
use stylex_swc_plugin::rule::{compile_rule, PreRuleValue};

fn text(chars: &Vec<char>) -> String {
    chars.iter().collect()
}

fn chars(s: &str) -> Vec<char> {
    s.chars().collect()
}

fn strings(items: &[&str]) -> Vec<String> {
    items.iter().map(|s| s.to_string()).collect()
}

#[test]
fn dashify_inserts_dashes_and_lowers() {
    assert_eq!(dashify("zIndex"), "z-index");
    assert_eq!(dashify("gridTemplateRows"), "grid-template-rows");
    assert_eq!(dashify("WebkitLineClamp"), "-webkit-line-clamp");
    assert_eq!(dashify("margin"), "margin");
    assert_eq!(dashify("aBC"), "a-bc");
    assert_eq!(dashify(""), "");
}

#[test]
fn transform_value_adds_px_to_bare_numbers() {
    assert_eq!(text(&transform_value("margin", "10")), "10px");
    assert_eq!(text(&transform_value("margin", "-1.5")), "-1.5px");
    assert_eq!(text(&transform_value("margin", "0")), "0");
    assert_eq!(text(&transform_value("margin", "10px")), "10px");
    assert_eq!(text(&transform_value("margin", "auto")), "auto");
}

#[test]
fn transform_value_keeps_unitless_numbers() {
    assert_eq!(text(&transform_value("zIndex", "10")), "10");
    assert_eq!(text(&transform_value("opacity", "0.25")), ".25");
    assert_eq!(text(&transform_value("opacity", "-0.25")), "-.25");
    assert_eq!(text(&transform_value("flex", "1")), "1");
}

#[test]
fn transform_value_simplifies_zero_with_unit() {
    assert_eq!(text(&transform_value("gridTemplateRows", "0fr")), "0");
    assert_eq!(text(&transform_value("width", "0px")), "0");
    assert_eq!(text(&transform_value("flexBasis", "0%")), "0%");
    assert_eq!(text(&transform_value("width", "0.5em")), ".5em");
}

#[test]
fn variable_fallbacks_fold_references() {
    let folded = variable_fallbacks(vec![chars("500px"), chars("var(--h)"), chars("100dvh")]);
    let folded: Vec<String> = folded.iter().map(text).collect();
    assert_eq!(folded, vec!["var(--h,500px)".to_string(), "100dvh".to_string()]);

    let folded = variable_fallbacks(vec![chars("var(--x)"), chars("var(--y)")]);
    let folded: Vec<String> = folded.iter().map(text).collect();
    assert_eq!(folded, vec!["var(--y,var(--x))".to_string()]);

    let folded = variable_fallbacks(vec![chars("var(--x)"), chars("5px"), chars("var(--y)")]);
    let folded: Vec<String> = folded.iter().map(text).collect();
    assert_eq!(folded, vec!["var(--x)".to_string(), "5px".to_string(), "var(--y)".to_string()]);

    let folded = variable_fallbacks(vec![chars("1px"), chars("2px")]);
    let folded: Vec<String> = folded.iter().map(text).collect();
    assert_eq!(folded, vec!["1px".to_string(), "2px".to_string()]);
}

#[test]
fn compile_rule_names_the_class_by_the_hash_of_the_rule() {
    let rule = compile_rule("margin", &PreRuleValue::String("10".to_string()), &[], &[], "x");
    assert_eq!(rule.0, "margin");
    assert_eq!(rule.1, "xjgcjvd");
    assert_eq!(rule.2.ltr, ".xjgcjvd{margin:10px}");
    assert_eq!(rule.2.rtl, None);
    assert_eq!(rule.2.priority, 30_000);

    let rule = compile_rule("zIndex", &PreRuleValue::String("10".to_string()), &[], &[], "x");
    assert_eq!(rule.1, "x1exvga7");
    assert_eq!(rule.2.ltr, ".x1exvga7{z-index:10}");
}

#[test]
fn compile_rule_depends_on_the_prefix_only_in_the_prefix() {
    let a = compile_rule("margin", &PreRuleValue::String("10".to_string()), &[], &[], "x");
    let b = compile_rule("margin", &PreRuleValue::String("10".to_string()), &[], &[], "abc");
    assert_eq!(a.1, "xjgcjvd");
    assert_eq!(b.1, "abcjgcjvd");
}

#[test]
fn compile_rule_with_a_pseudo() {
    let rule = compile_rule(
        "color",
        &PreRuleValue::String("blue".to_string()),
        &strings(&[":hover"]),
        &[],
        "x",
    );
    assert_eq!(rule.1, "xos1i7a");
    assert_eq!(rule.2.ltr, ".xos1i7a:hover{color:blue}");
    assert_eq!(rule.2.priority, 30_350);
}

#[test]
fn compile_rule_with_an_at_rule() {
    let rule = compile_rule(
        "color",
        &PreRuleValue::String("blue".to_string()),
        &[],
        &strings(&["@media (min-width: 100px)"]),
        "x",
    );
    assert_eq!(rule.1, "x1mzldzv");
    assert_eq!(rule.2.ltr, "@media (min-width: 100px){.x1mzldzv{color:blue}}");
    assert_eq!(rule.2.priority, 32_000);
}

#[test]
fn compile_rule_sorts_its_conditions() {
    let a = compile_rule(
        "color",
        &PreRuleValue::String("blue".to_string()),
        &strings(&[":hover", ":active"]),
        &strings(&["@supports (color: red)", "@media print"]),
        "x",
    );
    let b = compile_rule(
        "color",
        &PreRuleValue::String("blue".to_string()),
        &strings(&[":active", ":hover"]),
        &strings(&["@media print", "@supports (color: red)"]),
        "x",
    );
    assert_eq!(a.1, b.1);
    assert_eq!(a.2.ltr, b.2.ltr);
    assert_eq!(
        a.2.ltr,
        format!("@supports (color: red){{@media print{{.{}:active:hover{{color:blue}}}}}}", a.1)
    );
    assert_eq!(a.2.priority, 30_000 + 350 + 450 + 300 + 2_000);
}

#[test]
fn compile_rule_mirrors_sides_for_right_to_left() {
    let rule = compile_rule("marginLeft", &PreRuleValue::String("4".to_string()), &[], &[], "x");
    assert_eq!(rule.2.ltr, format!(".{}{{margin-left:4px}}", rule.1));
    assert_eq!(rule.2.rtl, Some(format!(".{}{{margin-right:4px}}", rule.1)));

    let rule = compile_rule("float", &PreRuleValue::String("left".to_string()), &[], &[], "x");
    assert_eq!(rule.2.rtl, Some(format!(".{}{{float:right}}", rule.1)));

    let rule = compile_rule("float", &PreRuleValue::String("none".to_string()), &[], &[], "x");
    assert_eq!(rule.2.rtl, None);
}
