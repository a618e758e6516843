//! The rule compiler: from a property, its value and its conditions to a
//! class name and the CSS text to inject.
use vstd::prelude::*;
use crate::css::{dashed, dashify, transform_value, transformed, variable_fallbacks, with_fallbacks};
use crate::hash::{create_hash, hash_text};
use crate::text::{
    append_all, append_chars, append_joined, append_str, chars_views, concat_all, first_index,
    find_char, from_chars, join_with, lemma_sort_texts_canonical, slice_chars, sort_texts,
    sorted_texts, str_eq, to_chars, views,
};

verus! {

/// The CSS of one atomic rule, with the weight by which rules are ordered
/// when they are injected.
#[derive(Debug)]
pub struct InjectableStyle {
    /// The rule for left-to-right text.
    pub ltr: String,
    /// The rule for right-to-left text, where it differs.
    pub rtl: Option<String>,
    /// The priority in tenths.
    pub priority: u64,
}

pub ghost struct InjectableStyleView {
    pub ltr: Seq<char>,
    pub rtl: Option<Seq<char>>,
    pub priority: u64,
}

impl View for InjectableStyle {
    type V = InjectableStyleView;

    open spec fn view(&self) -> InjectableStyleView {
        InjectableStyleView {
            ltr: self.ltr@,
            rtl: match self.rtl {
                Some(r) => Some(r@),
                None => None,
            },
            priority: self.priority,
        }
    }
}

impl Clone for InjectableStyle {
    fn clone(&self) -> (copy: InjectableStyle)
        ensures
            copy@ == self@,
    {
        InjectableStyle {
            ltr: self.ltr.clone(),
            rtl: match &self.rtl {
                Some(r) => Some(r.clone()),
                None => None,
            },
            priority: self.priority,
        }
    }
}

/// The raw value of a rule: one value, or a list of fallbacks.
#[derive(Debug)]
pub enum PreRuleValue {
    String(String),
    Vec(Vec<String>),
}

pub ghost enum PreRuleValueView {
    One(Seq<char>),
    Many(Seq<Seq<char>>),
}

impl View for PreRuleValue {
    type V = PreRuleValueView;

    open spec fn view(&self) -> PreRuleValueView {
        match self {
            PreRuleValue::String(s) => PreRuleValueView::One(s@),
            PreRuleValue::Vec(l) => PreRuleValueView::Many(views(l@)),
        }
    }
}

/// Each raw value as CSS text under the property `key`.
pub open spec fn transformed_all(key: Seq<char>, raw: Seq<Seq<char>>) -> Seq<Seq<char>> {
    Seq::new(raw.len(), |i: int| transformed(key, raw[i]))
}

/// The CSS values of a rule, in the order of their declarations: the one
/// value, or the fallbacks of the list.
pub open spec fn css_values(key: Seq<char>, value: PreRuleValueView) -> Seq<Seq<char>> {
    match value {
        PreRuleValueView::One(raw) => seq![transformed(key, raw)],
        PreRuleValueView::Many(raw) => with_fallbacks(transformed_all(key, raw)),
    }
}

/// The text that is hashed to name a rule: its at-rules in order, its
/// pseudos in order, its property, and its values with `, ` between them.
pub open spec fn hash_input(
    property: Seq<char>,
    values: Seq<Seq<char>>,
    pseudos: Seq<Seq<char>>,
    at_rules: Seq<Seq<char>>,
) -> Seq<char> {
    concat_all(at_rules) + concat_all(pseudos) + property + join_with(values, ", "@)
}

/// One declaration for each value.
pub open spec fn declarations(property: Seq<char>, values: Seq<Seq<char>>) -> Seq<Seq<char>> {
    Seq::new(values.len(), |i: int| property + ":"@ + values[i])
}

/// The rule inside its at-rules: the first at-rule innermost.
pub open spec fn wrapped(rule: Seq<char>, at_rules: Seq<Seq<char>>) -> Seq<char>
    decreases at_rules.len(),
{
    if at_rules.len() == 0 {
        rule
    } else {
        at_rules.last() + "{"@ + wrapped(rule, at_rules.drop_last()) + "}"@
    }
}

/// The text of a rule: the class with its pseudos as selector, the
/// declarations with `;` between them, inside the at-rules.
pub open spec fn rule_text(
    class_name: Seq<char>,
    decls: Seq<Seq<char>>,
    pseudos: Seq<Seq<char>>,
    at_rules: Seq<Seq<char>>,
) -> Seq<char> {
    wrapped("."@ + class_name + concat_all(pseudos) + "{"@ + join_with(decls, ";"@) + "}"@, at_rules)
}

/// The property that takes the place of `property` in right-to-left text.
pub open spec fn mirrored_property(property: Seq<char>) -> Option<Seq<char>> {
    if property == "margin-left"@ {
        Some("margin-right"@)
    } else if property == "margin-right"@ {
        Some("margin-left"@)
    } else if property == "padding-left"@ {
        Some("padding-right"@)
    } else if property == "padding-right"@ {
        Some("padding-left"@)
    } else if property == "border-left"@ {
        Some("border-right"@)
    } else if property == "border-right"@ {
        Some("border-left"@)
    } else if property == "left"@ {
        Some("right"@)
    } else if property == "right"@ {
        Some("left"@)
    } else {
        None
    }
}

/// The value that takes the place of `value` in right-to-left text under
/// a property that places things at a side.
pub open spec fn mirrored_value(property: Seq<char>, value: Seq<char>) -> Option<Seq<char>> {
    if property == "float"@ || property == "clear"@ || property == "text-align"@ {
        if value == "left"@ {
            Some("right"@)
        } else if value == "right"@ {
            Some("left"@)
        } else {
            None
        }
    } else {
        None
    }
}

/// The declaration for right-to-left text, where the property or the
/// value has a mirror.
pub open spec fn mirrored_declaration(property: Seq<char>, value: Seq<char>) -> Option<Seq<char>> {
    match mirrored_property(property) {
        Some(other) => Some(other + ":"@ + value),
        None => match mirrored_value(property, value) {
            Some(other) => Some(property + ":"@ + other),
            None => None,
        },
    }
}

/// The declarations for right-to-left text: one for each value that has
/// one.
pub open spec fn mirrored_declarations(property: Seq<char>, values: Seq<Seq<char>>) -> Seq<Seq<char>>
    decreases values.len(),
{
    if values.len() == 0 {
        Seq::empty()
    } else {
        let head = mirrored_declarations(property, values.drop_last());
        match mirrored_declaration(property, values.last()) {
            Some(d) => head.push(d),
            None => head,
        }
    }
}

/// The name of a pseudo: the text before its arguments.
pub open spec fn pseudo_name(pseudo: Seq<char>) -> Seq<char> {
    pseudo.take(first_index(pseudo, '('))
}

/// What a pseudo adds to the priority, by its specificity.
pub open spec fn pseudo_weight(name: Seq<char>) -> u64 {
    if name == ":first-child"@ {
        5
    } else if name == ":last-child"@ {
        6
    } else if name == ":only-child"@ {
        7
    } else if name == ":nth-child"@ {
        8
    } else if name == ":empty"@ {
        10
    } else if name == ":link"@ {
        12
    } else if name == ":visited"@ {
        14
    } else if name == ":enabled"@ {
        16
    } else if name == ":disabled"@ {
        17
    } else if name == ":required"@ {
        18
    } else if name == ":read-only"@ {
        20
    } else if name == ":placeholder-shown"@ {
        22
    } else if name == ":checked"@ {
        25
    } else if name == ":valid"@ {
        27
    } else if name == ":invalid"@ {
        28
    } else if name == ":hover"@ {
        35
    } else if name == ":focus-within"@ {
        38
    } else if name == ":focus"@ {
        40
    } else if name == ":focus-visible"@ {
        42
    } else if name == ":active"@ {
        45
    } else {
        1
    }
}

/// The name of an at-rule: the text before its first space.
pub open spec fn at_rule_name(at_rule: Seq<char>) -> Seq<char> {
    at_rule.take(first_index(at_rule, ' '))
}

/// What an at-rule adds to the priority.
pub open spec fn at_rule_weight(name: Seq<char>) -> u64 {
    if name == "@supports"@ {
        30
    } else if name == "@media"@ {
        200
    } else if name == "@container"@ {
        300
    } else {
        0
    }
}

/// The priority of a rule without conditions, in tenths.
pub const BASE_PRIORITY: u64 = 30_000;

/// The sum of the weights of the pseudos, in tenths.
pub open spec fn pseudo_tenths(pseudos: Seq<Seq<char>>) -> nat
    decreases pseudos.len(),
{
    if pseudos.len() == 0 {
        0
    } else {
        pseudo_tenths(pseudos.drop_last()) + (10 * pseudo_weight(pseudo_name(pseudos.last()))) as nat
    }
}

/// The sum of the weights of the at-rules, in tenths.
pub open spec fn at_rule_tenths(at_rules: Seq<Seq<char>>) -> nat
    decreases at_rules.len(),
{
    if at_rules.len() == 0 {
        0
    } else {
        at_rule_tenths(at_rules.drop_last()) + (10 * at_rule_weight(at_rule_name(at_rules.last()))) as nat
    }
}

/// A count of tenths as it is held: itself, or the most that can be held.
pub open spec fn held(tenths: nat) -> u64 {
    if tenths <= u64::MAX {
        tenths as u64
    } else {
        u64::MAX
    }
}

/// The priority of a rule under the given conditions, in tenths: the base
/// and the weight of every pseudo and at-rule.
pub open spec fn priority_of(pseudos: Seq<Seq<char>>, at_rules: Seq<Seq<char>>) -> u64 {
    held(BASE_PRIORITY as nat + pseudo_tenths(pseudos) + at_rule_tenths(at_rules))
}

/// What a pseudo adds to the priority.
pub fn weight_of_pseudo(pseudo: &Vec<char>) -> (w: u64)
    ensures
        w == pseudo_weight(pseudo_name(pseudo@)),
        w <= 45,
{
    let k = find_char(pseudo, 0, '(');
    assert(pseudo@.skip(0) =~= pseudo@);
    let name_chars = slice_chars(pseudo, 0, k);
    assert(name_chars@ =~= pseudo_name(pseudo@));
    let name_string = from_chars(&name_chars);
    let name = name_string.as_str();
    if str_eq(name, ":first-child") {
        5
    } else if str_eq(name, ":last-child") {
        6
    } else if str_eq(name, ":only-child") {
        7
    } else if str_eq(name, ":nth-child") {
        8
    } else if str_eq(name, ":empty") {
        10
    } else if str_eq(name, ":link") {
        12
    } else if str_eq(name, ":visited") {
        14
    } else if str_eq(name, ":enabled") {
        16
    } else if str_eq(name, ":disabled") {
        17
    } else if str_eq(name, ":required") {
        18
    } else if str_eq(name, ":read-only") {
        20
    } else if str_eq(name, ":placeholder-shown") {
        22
    } else if str_eq(name, ":checked") {
        25
    } else if str_eq(name, ":valid") {
        27
    } else if str_eq(name, ":invalid") {
        28
    } else if str_eq(name, ":hover") {
        35
    } else if str_eq(name, ":focus-within") {
        38
    } else if str_eq(name, ":focus") {
        40
    } else if str_eq(name, ":focus-visible") {
        42
    } else if str_eq(name, ":active") {
        45
    } else {
        1
    }
}

/// What an at-rule adds to the priority.
pub fn weight_of_at_rule(at_rule: &Vec<char>) -> (w: u64)
    ensures
        w == at_rule_weight(at_rule_name(at_rule@)),
        w <= 300,
{
    let k = find_char(at_rule, 0, ' ');
    assert(at_rule@.skip(0) =~= at_rule@);
    let name_chars = slice_chars(at_rule, 0, k);
    assert(name_chars@ =~= at_rule_name(at_rule@));
    let name_string = from_chars(&name_chars);
    let name = name_string.as_str();
    if str_eq(name, "@supports") {
        30
    } else if str_eq(name, "@media") {
        200
    } else if str_eq(name, "@container") {
        300
    } else {
        0
    }
}

/// The sum of two counts of tenths as it is held.
pub fn add_held(a: u64, b: u64) -> (sum: u64)
    ensures
        sum == held((a + b) as nat),
{
    match a.checked_add(b) {
        Some(sum) => sum,
        None => u64::MAX,
    }
}

/// The priority of a rule under the given conditions, in tenths.
pub fn priority(pseudos: &Vec<Vec<char>>, at_rules: &Vec<Vec<char>>) -> (p: u64)
    ensures
        p == priority_of(chars_views(pseudos@), chars_views(at_rules@)),
{
    let ghost ps = chars_views(pseudos@);
    let ghost ats = chars_views(at_rules@);
    let mut total: u64 = BASE_PRIORITY;
    let mut i: usize = 0;
    assert(ps.take(0) =~= Seq::<Seq<char>>::empty());
    while i < pseudos.len()
        invariant
            i <= pseudos.len(),
            ps == chars_views(pseudos@),
            total == held(BASE_PRIORITY as nat + pseudo_tenths(ps.take(i as int))),
        decreases pseudos.len() - i,
    {
        assert(ps.take(i + 1).drop_last() =~= ps.take(i as int));
        assert(ps.take(i + 1).last() == pseudos[i as int]@);
        let w = weight_of_pseudo(&pseudos[i]);
        total = add_held(total, 10 * w);
        i += 1;
    }
    assert(ps.take(i as int) =~= ps);
    let mut j: usize = 0;
    assert(ats.take(0) =~= Seq::<Seq<char>>::empty());
    while j < at_rules.len()
        invariant
            j <= at_rules.len(),
            ats == chars_views(at_rules@),
            total == held(
                BASE_PRIORITY as nat + pseudo_tenths(ps) + at_rule_tenths(ats.take(j as int)),
            ),
        decreases at_rules.len() - j,
    {
        assert(ats.take(j + 1).drop_last() =~= ats.take(j as int));
        assert(ats.take(j + 1).last() == at_rules[j as int]@);
        let w = weight_of_at_rule(&at_rules[j]);
        total = add_held(total, 10 * w);
        j += 1;
    }
    assert(ats.take(j as int) =~= ats);
    total
}

/// The class name of a rule: the prefix and the hash of the rule's
/// property, values and conditions, the conditions in ascending order.
pub open spec fn compiled_class(
    key: Seq<char>,
    value: PreRuleValueView,
    pseudos: Seq<Seq<char>>,
    at_rules: Seq<Seq<char>>,
    prefix: Seq<char>,
) -> Seq<char> {
    prefix + hash_text(
        hash_input(dashed(key), css_values(key, value), sort_texts(pseudos), sort_texts(at_rules)),
    )
}

/// The CSS of a rule and its priority.
pub open spec fn compiled_style(
    key: Seq<char>,
    value: PreRuleValueView,
    pseudos: Seq<Seq<char>>,
    at_rules: Seq<Seq<char>>,
    prefix: Seq<char>,
) -> InjectableStyleView {
    let class_name = compiled_class(key, value, pseudos, at_rules, prefix);
    let property = dashed(key);
    let values = css_values(key, value);
    let ps = sort_texts(pseudos);
    let ats = sort_texts(at_rules);
    let mirrored = mirrored_declarations(property, values);
    InjectableStyleView {
        ltr: rule_text(class_name, declarations(property, values), ps, ats),
        rtl: if mirrored.len() > 0 {
            Some(rule_text(class_name, mirrored, ps, ats))
        } else {
            None
        },
        priority: priority_of(ps, ats),
    }
}

/// The word `to`, where `s` is the word `from`.
fn swap_word(s: &Vec<char>, from: &str, to: &str) -> (r: Option<Vec<char>>)
    ensures
        match r {
            Some(t) => s@ == from@ && t@ == to@,
            None => s@ != from@,
        },
{
    if is_word(s, from) {
        Some(to_chars(to))
    } else {
        None
    }
}

/// Whether `s` is the word `word`.
fn is_word(s: &Vec<char>, word: &str) -> (yes: bool)
    ensures
        yes == (s@ == word@),
{
    let w = to_chars(word);
    crate::text::same_chars(s, &w)
}

/// The property that takes the place of `property` in right-to-left text.
pub fn mirror_property(property: &Vec<char>) -> (r: Option<Vec<char>>)
    ensures
        match mirrored_property(property@) {
            Some(other) => r is Some && r->0@ == other,
            None => r is None,
        },
{
    if let Some(t) = swap_word(property, "margin-left", "margin-right") {
        return Some(t);
    }
    if let Some(t) = swap_word(property, "margin-right", "margin-left") {
        return Some(t);
    }
    if let Some(t) = swap_word(property, "padding-left", "padding-right") {
        return Some(t);
    }
    if let Some(t) = swap_word(property, "padding-right", "padding-left") {
        return Some(t);
    }
    if let Some(t) = swap_word(property, "border-left", "border-right") {
        return Some(t);
    }
    if let Some(t) = swap_word(property, "border-right", "border-left") {
        return Some(t);
    }
    if let Some(t) = swap_word(property, "left", "right") {
        return Some(t);
    }
    swap_word(property, "right", "left")
}

/// The value that takes the place of `value` in right-to-left text.
pub fn mirror_value(property: &Vec<char>, value: &Vec<char>) -> (r: Option<Vec<char>>)
    ensures
        match mirrored_value(property@, value@) {
            Some(other) => r is Some && r->0@ == other,
            None => r is None,
        },
{
    let sided = is_word(property, "float") || is_word(property, "clear") || is_word(
        property,
        "text-align",
    );
    if !sided {
        return None;
    }
    if let Some(t) = swap_word(value, "left", "right") {
        return Some(t);
    }
    swap_word(value, "right", "left")
}

/// The declaration `property:value`.
fn declaration(property: &Vec<char>, value: &Vec<char>) -> (d: Vec<char>)
    ensures
        d@ == property@ + ":"@ + value@,
{
    let mut d: Vec<char> = Vec::new();
    append_chars(&mut d, property);
    append_str(&mut d, ":");
    append_chars(&mut d, value);
    assert(d@ =~= property@ + ":"@ + value@);
    d
}

/// The declaration for right-to-left text, where there is one.
pub fn mirror_declaration(property: &Vec<char>, value: &Vec<char>) -> (r: Option<Vec<char>>)
    ensures
        match mirrored_declaration(property@, value@) {
            Some(d) => r is Some && r->0@ == d,
            None => r is None,
        },
{
    match mirror_property(property) {
        Some(other) => Some(declaration(&other, value)),
        None => match mirror_value(property, value) {
            Some(other) => Some(declaration(property, &other)),
            None => None,
        },
    }
}

/// One declaration for each value.
pub fn declarations_of(property: &Vec<char>, values: &Vec<Vec<char>>) -> (out: Vec<Vec<char>>)
    ensures
        chars_views(out@) == declarations(property@, chars_views(values@)),
{
    let mut out: Vec<Vec<char>> = Vec::new();
    let mut i: usize = 0;
    while i < values.len()
        invariant
            i <= values.len(),
            out.len() == i,
            forall|j: int| 0 <= j < i ==> (#[trigger] out[j])@ == property@ + ":"@ + values[j]@,
        decreases values.len() - i,
    {
        out.push(declaration(property, &values[i]));
        i += 1;
    }
    assert(chars_views(out@) =~= declarations(property@, chars_views(values@)));
    out
}

/// The declarations for right-to-left text.
pub fn mirror_declarations(property: &Vec<char>, values: &Vec<Vec<char>>) -> (out: Vec<Vec<char>>)
    ensures
        chars_views(out@) == mirrored_declarations(property@, chars_views(values@)),
{
    let ghost all = chars_views(values@);
    let mut out: Vec<Vec<char>> = Vec::new();
    let mut i: usize = 0;
    assert(all.take(0) =~= Seq::<Seq<char>>::empty());
    assert(chars_views(out@) =~= Seq::<Seq<char>>::empty());
    while i < values.len()
        invariant
            i <= values.len(),
            all == chars_views(values@),
            chars_views(out@) == mirrored_declarations(property@, all.take(i as int)),
        decreases values.len() - i,
    {
        assert(all.take(i + 1).drop_last() =~= all.take(i as int));
        assert(all.take(i + 1).last() == values[i as int]@);
        let ghost before = chars_views(out@);
        match mirror_declaration(property, &values[i]) {
            Some(d) => {
                out.push(d);
                assert(chars_views(out@) =~= before.push(d@));
            },
            None => {},
        }
        i += 1;
    }
    assert(all.take(i as int) =~= all);
    out
}

/// Appends the rule inside the first `n` at-rules.
fn push_wrapped(out: &mut Vec<char>, rule: &Vec<char>, at_rules: &Vec<Vec<char>>, n: usize)
    requires
        n <= at_rules.len(),
    ensures
        final(out)@ == old(out)@ + wrapped(rule@, chars_views(at_rules@).take(n as int)),
    decreases n,
{
    let ghost all = chars_views(at_rules@);
    if n == 0 {
        append_chars(out, rule);
    } else {
        assert(all.take(n as int).last() == at_rules[n - 1]@);
        assert(all.take(n as int).drop_last() =~= all.take(n - 1));
        append_chars(out, &at_rules[n - 1]);
        append_str(out, "{");
        push_wrapped(out, rule, at_rules, n - 1);
        append_str(out, "}");
        assert(out@ =~= old(out)@ + (at_rules[n - 1]@ + "{"@ + wrapped(rule@, all.take(n - 1)) + "}"@));
    }
}

/// The text of a rule.
pub fn write_rule(
    class_name: &Vec<char>,
    decls: &Vec<Vec<char>>,
    pseudos: &Vec<Vec<char>>,
    at_rules: &Vec<Vec<char>>,
) -> (out: Vec<char>)
    ensures
        out@ == rule_text(
            class_name@,
            chars_views(decls@),
            chars_views(pseudos@),
            chars_views(at_rules@),
        ),
{
    let mut rule: Vec<char> = Vec::new();
    append_str(&mut rule, ".");
    append_chars(&mut rule, class_name);
    append_all(&mut rule, pseudos);
    append_str(&mut rule, "{");
    append_joined(&mut rule, decls, ";");
    append_str(&mut rule, "}");
    assert(rule@ =~= "."@ + class_name@ + concat_all(chars_views(pseudos@)) + "{"@ + join_with(
        chars_views(decls@),
        ";"@,
    ) + "}"@);
    let mut out: Vec<char> = Vec::new();
    push_wrapped(&mut out, &rule, at_rules, at_rules.len());
    assert(chars_views(at_rules@).take(at_rules.len() as int) =~= chars_views(at_rules@));
    assert(out@ =~= wrapped(rule@, chars_views(at_rules@)));
    out
}

/// The CSS values of a rule.
pub fn values_of(key: &str, value: &PreRuleValue) -> (out: Vec<Vec<char>>)
    ensures
        chars_views(out@) == css_values(key@, value@),
{
    match value {
        PreRuleValue::String(raw) => {
            let mut out: Vec<Vec<char>> = Vec::new();
            out.push(transform_value(key, raw.as_str()));
            assert(chars_views(out@) =~= seq![transformed(key@, raw@)]);
            out
        },
        PreRuleValue::Vec(list) => {
            let mut all: Vec<Vec<char>> = Vec::new();
            let mut i: usize = 0;
            while i < list.len()
                invariant
                    i <= list.len(),
                    all.len() == i,
                    forall|j: int| 0 <= j < i ==> (#[trigger] all[j])@ == transformed(key@, list[j]@),
                decreases list.len() - i,
            {
                all.push(transform_value(key, list[i].as_str()));
                i += 1;
            }
            assert(chars_views(all@) =~= transformed_all(key@, views(list@)));
            variable_fallbacks(all)
        },
    }
}

/// Compiles one rule: its key as given, its class name, and its CSS with
/// its priority.
///
/// The class name and the CSS are functions of the key, the value, the
/// conditions and the prefix alone. The conditions enter in ascending
/// order.
pub fn compile_rule(
    key: &str,
    value: &PreRuleValue,
    pseudos: &[String],
    at_rules: &[String],
    prefix: &str,
) -> (rule: (String, String, InjectableStyle))
    ensures
        rule.0@ == key@,
        rule.1@ == compiled_class(key@, value@, views(pseudos@), views(at_rules@), prefix@),
        rule.2@ == compiled_style(key@, value@, views(pseudos@), views(at_rules@), prefix@),
{
    let property_string = dashify(key);
    let property = to_chars(property_string.as_str());
    let values = values_of(key, value);
    let ps = sorted_texts(pseudos);
    let ats = sorted_texts(at_rules);
    let mut input: Vec<char> = Vec::new();
    append_all(&mut input, &ats);
    append_all(&mut input, &ps);
    append_chars(&mut input, &property);
    append_joined(&mut input, &values, ", ");
    assert(input@ =~= hash_input(
        property@,
        chars_views(values@),
        chars_views(ps@),
        chars_views(ats@),
    ));
    let input_string = from_chars(&input);
    let hash = create_hash(input_string.as_str());
    let mut class_name = to_chars(prefix);
    append_str(&mut class_name, hash.as_str());
    let decls = declarations_of(&property, &values);
    let mirrored = mirror_declarations(&property, &values);
    let ltr = write_rule(&class_name, &decls, &ps, &ats);
    let rtl = if mirrored.len() > 0 {
        Some(from_chars(&write_rule(&class_name, &mirrored, &ps, &ats)))
    } else {
        None
    };
    let style = InjectableStyle { ltr: from_chars(&ltr), rtl, priority: priority(&ps, &ats) };
    (key.to_string(), from_chars(&class_name), style)
}

/// Hash stability: the class name of a rule, and its CSS, are functions
/// of the rule and of the prefix, and of nothing else. Of the rule's
/// conditions only which they are and how often each occurs enters, not
/// the order in which they are given.
pub proof fn lemma_hash_stability(
    key: Seq<char>,
    value: PreRuleValueView,
    pseudos: Seq<Seq<char>>,
    at_rules: Seq<Seq<char>>,
    prefix: Seq<char>,
    other_pseudos: Seq<Seq<char>>,
    other_at_rules: Seq<Seq<char>>,
)
    requires
        pseudos.to_multiset() == other_pseudos.to_multiset(),
        at_rules.to_multiset() == other_at_rules.to_multiset(),
    ensures
        compiled_class(key, value, pseudos, at_rules, prefix) == compiled_class(
            key,
            value,
            other_pseudos,
            other_at_rules,
            prefix,
        ),
        compiled_style(key, value, pseudos, at_rules, prefix) == compiled_style(
            key,
            value,
            other_pseudos,
            other_at_rules,
            prefix,
        ),
{
    lemma_sort_texts_canonical(pseudos, other_pseudos);
    lemma_sort_texts_canonical(at_rules, other_at_rules);
}

/// Compiles one style to its class name and CSS: the rule compiler under
/// the conditions and the prefix given; the state does not enter the
/// result.
pub fn convert_style_to_class_name(
    obj_entry: (&str, &PreRuleValue),
    pseudos: &[String],
    at_rules: &[String],
    prefix: &str,
    state: &crate::state::StateManager,
) -> (rule: (String, String, InjectableStyle))
    ensures
        rule.0@ == obj_entry.0@,
        rule.1@ == compiled_class(
            obj_entry.0@,
            obj_entry.1@,
            views(pseudos@),
            views(at_rules@),
            prefix@,
        ),
        rule.2@ == compiled_style(
            obj_entry.0@,
            obj_entry.1@,
            views(pseudos@),
            views(at_rules@),
            prefix@,
        ),
{
    compile_rule(obj_entry.0, obj_entry.1, pseudos, at_rules, prefix)
}

} // verus!
