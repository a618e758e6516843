//! Themes: the custom properties that a file defines, and the classes
//! that override them.
use vstd::prelude::*;
use crate::collections::{key_index, lemma_key_index};
use crate::create::{key_text, key_to_string, FlatValueView, Slot};
use crate::errors::{diagnostic_of, Diagnostic, Message};
use crate::evaluate::find_key;
use crate::flatten::{scalar_text, text_of_scalar};
use crate::hash::{create_hash, hash_text};
use crate::create::{inject_all, lemma_first_of_each_concat, with_classes};
use crate::injected::{first_of_each_class, injected_entries, injected_new, ClassStyle};
use crate::pre_rule::computed_views;
use crate::rule::{InjectableStyle, InjectableStyleView};
use crate::text::{
    append_chars, append_str, chars_views, from_chars, has_prefix, slice_chars, sort_texts,
    sorted_texts, starts_with, str_eq, to_chars, views,
};
use crate::value::{
    entries_view, lemma_map_view, Key, KeyView, MapEntry, MapEntryView, Value, ValueView,
};

verus! {

/// Declarations by the condition under which they hold: `default`, or an
/// at-rule.
pub type Rules = Seq<(Seq<char>, Seq<char>)>;

/// The views of grouped declarations.
pub open spec fn rules_view(rules: Seq<(String, String)>) -> Rules {
    Seq::new(rules.len(), |i: int| (rules[i].0@, rules[i].1@))
}

/// The declarations with one more under a condition: after those that
/// the condition has, and a `;` between them.
pub open spec fn with_decl(rules: Rules, condition: Seq<char>, decl: Seq<char>) -> Rules {
    let i = key_index(rules, condition);
    if 0 <= i < rules.len() {
        rules.update(i, (condition, rules[i].1 + ";"@ + decl))
    } else {
        rules.push((condition, decl))
    }
}

/// The declaration that gives a custom property a value.
pub open spec fn property_decl(hash: Seq<char>, value: Seq<char>) -> Seq<char> {
    "--"@ + hash + ":"@ + value
}

/// The condition is `default` or an at-rule.
pub open spec fn is_theme_condition(condition: Seq<char>) -> bool {
    condition == "default"@ || (condition.len() > 0 && condition[0] == '@')
}

/// The declarations after one entry of a conditional value: the key must
/// be `default` or an at-rule, the value a string, a number or a truth
/// value.
pub open spec fn collected_condition(rules: Rules, hash: Seq<char>, entry: MapEntryView) -> Result<Rules, Diagnostic> {
    match entry.key {
        KeyView::Str(condition) => if is_theme_condition(condition) {
            match scalar_text(entry.value) {
                Some(text) => Ok(with_decl(rules, condition, property_decl(hash, text))),
                None => Err(diagnostic_of(Message::IllegalPropValue)),
            }
        } else {
            Err(diagnostic_of(Message::InvalidPseudoOrAtRule))
        },
        KeyView::Num(_) => Err(diagnostic_of(Message::InvalidPseudoOrAtRule)),
    }
}

/// The declarations after the first `n` entries of a conditional value.
pub open spec fn collected_conditions(rules: Rules, hash: Seq<char>, entries: Seq<MapEntryView>, n: nat) -> Result<
    Rules,
    Diagnostic,
>
    decreases n,
{
    if n == 0 || n > entries.len() {
        Ok(rules)
    } else {
        match collected_conditions(rules, hash, entries, (n - 1) as nat) {
            Ok(before) => collected_condition(before, hash, entries[n - 1]),
            Err(d) => Err(d),
        }
    }
}

/// The value without the syntax it is declared to have.
pub open spec fn untyped(v: ValueView) -> ValueView {
    match v {
        ValueView::TypedCss { value, syntax } => *value,
        _ => v,
    }
}

/// The declarations after the value of one custom property: a plain
/// value holds by default; a conditional value, which must have a
/// default, holds as its conditions say.
pub open spec fn collected(rules: Rules, hash: Seq<char>, v: ValueView) -> Result<Rules, Diagnostic> {
    match untyped(v) {
        ValueView::Object(entries) => if 0 <= find_key(entries, KeyView::Str("default"@))
            < entries.len() {
            collected_conditions(rules, hash, entries, entries.len())
        } else {
            Err(diagnostic_of(Message::IllegalPropValue))
        },
        plain => match scalar_text(plain) {
            Some(text) => Ok(with_decl(rules, "default"@, property_decl(hash, text))),
            None => Err(diagnostic_of(Message::IllegalPropValue)),
        },
    }
}

/// The view of grouped declarations or a diagnostic.
pub open spec fn rules_outcome(r: Result<Vec<(String, String)>, Diagnostic>) -> Result<Rules, Diagnostic> {
    match r {
        Ok(rules) => Ok(rules_view(rules@)),
        Err(d) => Err(d),
    }
}

/// Adds a declaration under a condition.
pub fn add_decl(rules: &mut Vec<(String, String)>, condition: &str, decl: &Vec<char>)
    ensures
        rules_view(final(rules)@) == with_decl(rules_view(old(rules)@), condition@, decl@),
{
    let ghost all = rules_view(rules@);
    let mut i: usize = 0;
    assert(all.skip(0) =~= all);
    while i < rules.len()
        invariant
            i <= rules.len(),
            *rules == *old(rules),
            all == rules_view(rules@),
            key_index(all, condition@) == i + key_index(all.skip(i as int), condition@),
        decreases rules.len() - i,
    {
        assert(all.skip(i as int)[0] == all[i as int]);
        if str_eq(rules[i].0.as_str(), condition) {
            let (key, text) = rules.remove(i);
            let mut chars = to_chars(text.as_str());
            append_str(&mut chars, ";");
            append_chars(&mut chars, decl);
            rules.insert(i, (key, from_chars(&chars)));
            assert(rules_view(rules@) =~= with_decl(all, condition@, decl@));
            return ;
        }
        assert(all.skip(i as int).drop_first() =~= all.skip(i + 1));
        i += 1;
    }
    rules.push((condition.to_string(), from_chars(decl)));
    assert(rules_view(rules@) =~= with_decl(all, condition@, decl@));
}

/// The declaration that gives a custom property a value.
pub fn property_declaration(hash: &str, value: &str) -> (decl: Vec<char>)
    ensures
        decl@ == property_decl(hash@, value@),
{
    let mut decl: Vec<char> = Vec::new();
    append_str(&mut decl, "--");
    append_str(&mut decl, hash);
    append_str(&mut decl, ":");
    append_str(&mut decl, value);
    assert(decl@ =~= property_decl(hash@, value@));
    decl
}

/// Adds what one entry of a conditional value declares.
pub fn collect_condition(rules: &mut Vec<(String, String)>, hash: &str, entry: &MapEntry) -> (r: Result<
    (),
    Diagnostic,
>)
    ensures
        match collected_condition(rules_view(old(rules)@), hash@, entry@) {
            Ok(after) => r is Ok && rules_view(final(rules)@) == after,
            Err(d) => r == Err::<(), Diagnostic>(d),
        },
{
    match &entry.key {
        Key::Str(condition) => {
            let chars = to_chars(condition.as_str());
            let conditional = str_eq(condition.as_str(), "default") || (chars.len() > 0 && chars[0]
                == '@');
            if !conditional {
                return Err(Diagnostic::new(Message::InvalidPseudoOrAtRule));
            }
            match text_of_scalar(&entry.value) {
                Some(text) => {
                    let decl = property_declaration(hash, text.as_str());
                    add_decl(rules, condition.as_str(), &decl);
                    Ok(())
                },
                None => Err(Diagnostic::new(Message::IllegalPropValue)),
            }
        },
        Key::Num(_) => Err(Diagnostic::new(Message::InvalidPseudoOrAtRule)),
    }
}

/// Whether the entries have one under the text key.
pub fn has_text_key(entries: &Vec<MapEntry>, key: &str) -> (found: Option<usize>)
    ensures
        0 <= find_key(entries_view(entries@), KeyView::Str(key@)),
        match found {
            Some(i) => i < entries.len() && i == find_key(entries_view(entries@), KeyView::Str(key@)),
            None => find_key(entries_view(entries@), KeyView::Str(key@)) == entries.len(),
        },
{
    let ghost all = entries_view(entries@);
    let mut i: usize = 0;
    assert(all.skip(0) =~= all);
    while i < entries.len()
        invariant
            i <= entries.len(),
            all == entries_view(entries@),
            find_key(all, KeyView::Str(key@)) == i + find_key(all.skip(i as int), KeyView::Str(key@)),
        decreases entries.len() - i,
    {
        assert(all.skip(i as int)[0] == entries[i as int]@);
        let hit = match &entries[i].key {
            Key::Str(s) => str_eq(s.as_str(), key),
            Key::Num(_) => false,
        };
        if hit {
            return Some(i);
        }
        assert(all.skip(i as int).drop_first() =~= all.skip(i + 1));
        i += 1;
    }
    None
}

/// The value without the syntax it is declared to have.
pub fn untyped_value(v: &Value) -> (plain: &Value)
    ensures
        plain@ == untyped(v@),
{
    match v {
        Value::TypedCss { value, syntax } => &**value,
        _ => v,
    }
}

/// Adds what the value of one custom property declares.
pub fn collect_vars(rules: &mut Vec<(String, String)>, hash: &str, v: &Value) -> (r: Result<(), Diagnostic>)
    ensures
        match collected(rules_view(old(rules)@), hash@, v@) {
            Ok(after) => r is Ok && rules_view(final(rules)@) == after,
            Err(d) => r == Err::<(), Diagnostic>(d),
        },
{
    match untyped_value(v) {
        Value::Object(entries) => {
            proof {
                lemma_map_view(*entries);
            }
            if has_text_key(entries, "default").is_none() {
                return Err(Diagnostic::new(Message::IllegalPropValue));
            }
            let ghost all = entries_view(entries@);
            let ghost start = rules_view(rules@);
            let mut i: usize = 0;
            while i < entries.len()
                invariant
                    i <= entries.len(),
                    all == entries_view(entries@),
                    start == rules_view(old(rules)@),
                    untyped(v@) == ValueView::Object(all),
                    0 <= find_key(all, KeyView::Str("default"@)) < all.len(),
                    collected_conditions(start, hash@, all, i as nat) == Ok::<Rules, Diagnostic>(
                        rules_view(rules@),
                    ),
                decreases entries.len() - i,
            {
                assert(all[i as int] == entries[i as int]@);
                if let Err(d) = collect_condition(rules, hash, &entries[i]) {
                    proof {
                        lemma_collected_conditions_fail(start, hash@, all, (i + 1) as nat, entries.len() as nat);
                    }
                    return Err(d);
                }
                i += 1;
            }
            Ok(())
        },
        plain => match text_of_scalar(plain) {
            Some(text) => {
                let decl = property_declaration(hash, text.as_str());
                add_decl(rules, "default", &decl);
                Ok(())
            },
            None => Err(Diagnostic::new(Message::IllegalPropValue)),
        },
    }
}

/// Once the entries up to some place are rejected, all of them are, with
/// the same diagnostic.
proof fn lemma_collected_conditions_fail(rules: Rules, hash: Seq<char>, entries: Seq<MapEntryView>, i: nat, n: nat)
    requires
        i <= n <= entries.len(),
        collected_conditions(rules, hash, entries, i) is Err,
    ensures
        collected_conditions(rules, hash, entries, n) == collected_conditions(rules, hash, entries, i),
    decreases n,
{
    if i < n {
        lemma_collected_conditions_fail(rules, hash, entries, i, (n - 1) as nat);
    }
}

/// The class that stands for a theme: the prefix and the hash of the
/// theme's name.
pub open spec fn theme_class(theme_name: Seq<char>, prefix: Seq<char>) -> Seq<char> {
    prefix + hash_text(theme_name)
}

/// The name of the custom property of a variable of a theme, without its
/// two dashes: the prefix and the hash of the theme's name, a point and
/// the variable's key.
pub open spec fn variable_hash(theme_name: Seq<char>, key: Seq<char>, prefix: Seq<char>) -> Seq<char> {
    prefix + hash_text(theme_name + "."@ + key)
}

/// The reference to a custom property.
pub open spec fn var_reference(hash: Seq<char>) -> Seq<char> {
    "var(--"@ + hash + ")"@
}

/// What defining the variables returns: for each variable the reference
/// to its custom property, and the theme's class under `__themeName__`.
pub open spec fn defined_refs(vars: Seq<MapEntryView>, theme_name: Seq<char>, prefix: Seq<char>) -> Seq<
    MapEntryView,
> {
    Seq::new(
        vars.len(),
        |i: int|
            MapEntryView {
                key: KeyView::Str(key_text(vars[i].key)),
                value: ValueView::Str(
                    var_reference(variable_hash(theme_name, key_text(vars[i].key), prefix)),
                ),
            },
    ).push(
        MapEntryView {
            key: KeyView::Str("__themeName__"@),
            value: ValueView::Str(theme_class(theme_name, prefix)),
        },
    )
}

/// The declarations of the first `n` variables, by condition.
pub open spec fn defined_rules(vars: Seq<MapEntryView>, n: nat, theme_name: Seq<char>, prefix: Seq<char>) -> Result<
    Rules,
    Diagnostic,
>
    decreases n,
{
    if n == 0 || n > vars.len() {
        Ok(Seq::empty())
    } else {
        match defined_rules(vars, (n - 1) as nat, theme_name, prefix) {
            Ok(before) => collected(
                before,
                variable_hash(theme_name, key_text(vars[n - 1].key), prefix),
                vars[n - 1].value,
            ),
            Err(d) => Err(d),
        }
    }
}

/// The text of the value that a variable has by default.
pub open spec fn default_text(v: ValueView) -> Option<Seq<char>> {
    match untyped(v) {
        ValueView::Object(entries) => {
            let i = find_key(entries, KeyView::Str("default"@));
            if 0 <= i < entries.len() {
                scalar_text(entries[i].value)
            } else {
                None
            }
        },
        plain => scalar_text(plain),
    }
}

/// The rule that registers a custom property with its syntax.
pub open spec fn property_rule(hash: Seq<char>, syntax: Seq<char>, initial: Option<Seq<char>>) -> Seq<char> {
    "@property --"@ + hash + " { syntax: \""@ + syntax + "\"; inherits: true;"@ + match initial {
        Some(value) => " initial-value: "@ + value,
        None => Seq::empty(),
    } + " }"@
}

/// A style without a rule for right-to-left text.
pub open spec fn plain_style(ltr: Seq<char>, priority: u64) -> InjectableStyleView {
    InjectableStyleView { ltr, rtl: None, priority }
}

/// The styles that register the typed ones among the first `n`
/// variables.
pub open spec fn typed_styles(vars: Seq<MapEntryView>, n: nat, theme_name: Seq<char>, prefix: Seq<char>) -> Seq<
    ClassStyle,
>
    decreases n,
{
    if n == 0 || n > vars.len() {
        Seq::empty()
    } else {
        let head = typed_styles(vars, (n - 1) as nat, theme_name, prefix);
        match vars[n - 1].value {
            ValueView::TypedCss { value, syntax } => {
                let hash = variable_hash(theme_name, key_text(vars[n - 1].key), prefix);
                head.push(
                    (hash, plain_style(property_rule(hash, syntax, default_text(vars[n - 1].value)), 0)),
                )
            },
            _ => head,
        }
    }
}

/// The rule that gives the custom properties their values on the root:
/// inside the at-rule, where the condition is one.
pub open spec fn root_rule(condition: Seq<char>, decls: Seq<char>) -> Seq<char> {
    if condition == "default"@ {
        ":root{"@ + decls + "}"@
    } else {
        condition + "{:root{"@ + decls + "}}"@
    }
}

/// The style that anchors the declarations of one condition on the root:
/// under the theme's class, with the hash of the at-rule after it where
/// the condition is one.
pub open spec fn root_style(rule: (Seq<char>, Seq<char>), class_name: Seq<char>) -> ClassStyle {
    if rule.0 == "default"@ {
        (class_name, plain_style(root_rule(rule.0, rule.1), 0))
    } else {
        (class_name + "-"@ + hash_text(rule.0), plain_style(root_rule(rule.0, rule.1), 1))
    }
}

/// The styles that anchor the declarations on the root, one for each
/// condition.
pub open spec fn root_styles(rules: Rules, class_name: Seq<char>) -> Seq<ClassStyle> {
    Seq::new(rules.len(), |i: int| root_style(rules[i], class_name))
}

/// What defining the variables of a theme gives: what the call returns,
/// and the styles to inject, the typed properties first.
pub open spec fn defined_vars(variables: ValueView, theme_name: Seq<char>, prefix: Seq<char>) -> Result<
    (Seq<MapEntryView>, Seq<ClassStyle>),
    Diagnostic,
> {
    match variables {
        ValueView::Object(vars) => match defined_rules(vars, vars.len(), theme_name, prefix) {
            Ok(rules) => Ok(
                (
                    defined_refs(vars, theme_name, prefix),
                    typed_styles(vars, vars.len(), theme_name, prefix) + root_styles(
                        rules,
                        theme_class(theme_name, prefix),
                    ),
                ),
            ),
            Err(d) => Err(d),
        },
        _ => Err(diagnostic_of(Message::NonObjectForStylexCall)),
    }
}

/// The class made of a prefix and the hash of a text.
pub fn hashed(prefix: &str, text: &Vec<char>) -> (class_name: String)
    ensures
        class_name@ == prefix@ + hash_text(text@),
{
    let text_string = from_chars(text);
    let hash = create_hash(text_string.as_str());
    let mut out = to_chars(prefix);
    append_str(&mut out, hash.as_str());
    from_chars(&out)
}

/// The name of the custom property of a variable of a theme.
pub fn hash_variable(theme_name: &str, key: &str, prefix: &str) -> (hash: String)
    ensures
        hash@ == variable_hash(theme_name@, key@, prefix@),
{
    let mut text = to_chars(theme_name);
    append_str(&mut text, ".");
    append_str(&mut text, key);
    assert(text@ =~= theme_name@ + "."@ + key@);
    hashed(prefix, &text)
}

/// The text of the value that a variable has by default.
pub fn default_text_of(v: &Value) -> (text: Option<String>)
    ensures
        match default_text(v@) {
            Some(t) => text is Some && text->0@ == t,
            None => text is None,
        },
{
    match untyped_value(v) {
        Value::Object(entries) => {
            proof {
                lemma_map_view(*entries);
            }
            match has_text_key(entries, "default") {
                Some(i) => {
                    assert(entries_view(entries@)[i as int] == entries[i as int]@);
                    text_of_scalar(&entries[i].value)
                },
                None => None,
            }
        },
        plain => text_of_scalar(plain),
    }
}

/// The style that registers a custom property with its syntax.
pub fn property_style(hash: &String, syntax: &str, initial: &Option<String>) -> (style: (String, InjectableStyle))
    ensures
        style.0@ == hash@,
        style.1@ == plain_style(
            property_rule(
                hash@,
                syntax@,
                match initial {
                    Some(v) => Some(v@),
                    None => None,
                },
            ),
            0,
        ),
{
    let mut rule: Vec<char> = Vec::new();
    append_str(&mut rule, "@property --");
    append_str(&mut rule, hash.as_str());
    append_str(&mut rule, " { syntax: \"");
    append_str(&mut rule, syntax);
    append_str(&mut rule, "\"; inherits: true;");
    match initial {
        Some(value) => {
            append_str(&mut rule, " initial-value: ");
            append_str(&mut rule, value.as_str());
            append_str(&mut rule, " }");
            assert(rule@ =~= "@property --"@ + hash@ + " { syntax: \""@ + syntax@
                + "\"; inherits: true;"@ + (" initial-value: "@ + value@) + " }"@);
        },
        None => {
            append_str(&mut rule, " }");
            assert(rule@ =~= "@property --"@ + hash@ + " { syntax: \""@ + syntax@
                + "\"; inherits: true;"@ + Seq::<char>::empty() + " }"@);
        },
    }
    (hash.clone(), InjectableStyle { ltr: from_chars(&rule), rtl: None, priority: 0 })
}

/// The style that anchors the declarations of one condition on the root.
pub fn anchor_style(rule: &(String, String), class_name: &str) -> (style: (String, InjectableStyle))
    ensures
        (style.0@, style.1@) == root_style((rule.0@, rule.1@), class_name@),
{
    let mut ltr: Vec<char> = Vec::new();
    if str_eq(rule.0.as_str(), "default") {
        append_str(&mut ltr, ":root{");
        append_str(&mut ltr, rule.1.as_str());
        append_str(&mut ltr, "}");
        assert(ltr@ =~= ":root{"@ + rule.1@ + "}"@);
        (class_name.to_string(), InjectableStyle { ltr: from_chars(&ltr), rtl: None, priority: 0 })
    } else {
        append_str(&mut ltr, rule.0.as_str());
        append_str(&mut ltr, "{:root{");
        append_str(&mut ltr, rule.1.as_str());
        append_str(&mut ltr, "}}");
        assert(ltr@ =~= rule.0@ + "{:root{"@ + rule.1@ + "}}"@);
        let hash = create_hash(rule.0.as_str());
        let mut name = to_chars(class_name);
        append_str(&mut name, "-");
        append_str(&mut name, hash.as_str());
        assert(name@ =~= class_name@ + "-"@ + hash_text(rule.0@));
        (from_chars(&name), InjectableStyle { ltr: from_chars(&ltr), rtl: None, priority: 1 })
    }
}

/// Defines the variables of a theme: what the call returns, and the
/// styles to inject, by class.
pub fn stylex_define_vars(variables: &Value, theme_name: &str, prefix: &str) -> (r: Result<
    (Value, indexmap::IndexMap<String, InjectableStyle>),
    Diagnostic,
>)
    ensures
        match defined_vars(variables@, theme_name@, prefix@) {
            Ok((refs, styles)) => r is Ok && r->Ok_0.0@ == ValueView::Object(refs)
                && injected_entries(r->Ok_0.1) == first_of_each_class(styles),
            Err(d) => r is Err && r->Err_0 == d,
        },
{
    let vars = match variables {
        Value::Object(vars) => vars,
        _ => {
            return Err(Diagnostic::new(Message::NonObjectForStylexCall));
        },
    };
    proof {
        lemma_map_view(*vars);
    }
    let ghost all = entries_view(vars@);
    let mut refs: Vec<MapEntry> = Vec::new();
    let mut rules: Vec<(String, String)> = Vec::new();
    let mut styles: Vec<(String, InjectableStyle)> = Vec::new();
    assert(rules_view(rules@) =~= Seq::<(Seq<char>, Seq<char>)>::empty());
    assert(computed_views(styles@) =~= Seq::<ClassStyle>::empty());
    let mut i: usize = 0;
    while i < vars.len()
        invariant
            i <= vars.len(),
            all == entries_view(vars@),
            variables@ == ValueView::Object(all),
            refs.len() == i,
            forall|j: int|
                0 <= j < i ==> (#[trigger] refs[j])@ == defined_refs(all, theme_name@, prefix@)[j],
            defined_rules(all, i as nat, theme_name@, prefix@) == Ok::<Rules, Diagnostic>(
                rules_view(rules@),
            ),
            computed_views(styles@) == typed_styles(all, i as nat, theme_name@, prefix@),
        decreases vars.len() - i,
    {
        assert(all[i as int] == vars[i as int]@);
        let key = key_to_string(&vars[i].key);
        let hash = hash_variable(theme_name, key.as_str(), prefix);
        if let Err(d) = collect_vars(&mut rules, hash.as_str(), &vars[i].value) {
            proof {
                lemma_defined_rules_fail(all, (i + 1) as nat, vars.len() as nat, theme_name@, prefix@);
            }
            return Err(d);
        }
        match &vars[i].value {
            Value::TypedCss { value, syntax } => {
                let initial = default_text_of(&vars[i].value);
                let ghost before = computed_views(styles@);
                let style = property_style(&hash, syntax.as_str(), &initial);
                styles.push(style);
                assert(computed_views(styles@) =~= before.push((style.0@, style.1@)));
            },
            _ => {},
        }
        let mut reference: Vec<char> = Vec::new();
        append_str(&mut reference, "var(--");
        append_str(&mut reference, hash.as_str());
        append_str(&mut reference, ")");
        assert(reference@ =~= var_reference(hash@));
        refs.push(MapEntry { key: Key::Str(key), value: Value::Str(from_chars(&reference)) });
        i += 1;
    }
    let class_name = hashed(prefix, &to_chars(theme_name));
    refs.push(
        MapEntry { key: Key::Str("__themeName__".to_string()), value: Value::Str(class_name.clone()) },
    );
    assert(entries_view(refs@) =~= defined_refs(all, theme_name@, prefix@));
    let ghost typed = computed_views(styles@);
    let mut k: usize = 0;
    while k < rules.len()
        invariant
            k <= rules.len(),
            class_name@ == theme_class(theme_name@, prefix@),
            computed_views(styles@) == typed + root_styles(rules_view(rules@), class_name@).take(
                k as int,
            ),
        decreases rules.len() - k,
    {
        let ghost before = computed_views(styles@);
        let style = anchor_style(&rules[k], class_name.as_str());
        styles.push(style);
        assert(computed_views(styles@) =~= before.push((style.0@, style.1@)));
        assert(root_styles(rules_view(rules@), class_name@).take(k + 1) =~= root_styles(
            rules_view(rules@),
            class_name@,
        ).take(k as int).push(root_styles(rules_view(rules@), class_name@)[k as int]));
        k += 1;
    }
    assert(root_styles(rules_view(rules@), class_name@).take(k as int) =~= root_styles(
        rules_view(rules@),
        class_name@,
    ));
    let mut injected = injected_new();
    inject_all(&mut injected, &styles);
    proof {
        lemma_first_of_each_concat(Seq::<ClassStyle>::empty(), computed_views(styles@));
        assert(Seq::<ClassStyle>::empty() + computed_views(styles@) =~= computed_views(styles@));
        lemma_map_view(refs);
    }
    Ok((Value::Object(refs), injected))
}

/// Once the variables up to some place are rejected, all of them are,
/// with the same diagnostic.
proof fn lemma_defined_rules_fail(vars: Seq<MapEntryView>, i: nat, n: nat, theme_name: Seq<char>, prefix: Seq<char>)
    requires
        i <= n <= vars.len(),
        defined_rules(vars, i, theme_name, prefix) is Err,
    ensures
        defined_rules(vars, n, theme_name, prefix) == defined_rules(vars, i, theme_name, prefix),
    decreases n,
{
    if i < n {
        lemma_defined_rules_fail(vars, i, (n - 1) as nat, theme_name, prefix);
    }
}

/// The class of the theme that the value refers to: what a value
/// returned by the definition of a theme holds under `__themeName__`.
pub open spec fn theme_name_of(theme_vars: ValueView) -> Option<Seq<char>> {
    match theme_vars {
        ValueView::Object(entries) => {
            let i = find_key(entries, KeyView::Str("__themeName__"@));
            if 0 <= i < entries.len() {
                match entries[i].value {
                    ValueView::Str(name) => Some(name),
                    _ => None,
                }
            } else {
                None
            }
        },
        _ => None,
    }
}

/// The text is a reference to a custom property: `var(--` and `)` around
/// a name.
pub open spec fn is_reference(r: Seq<char>) -> bool {
    r.len() >= 7 && has_prefix(r, "var(--"@) && r[r.len() - 1] == ')'
}

/// The name that a reference refers to, without its two dashes.
pub open spec fn reference_hash(r: Seq<char>) -> Seq<char> {
    r.subrange(6, r.len() - 1)
}

/// The declarations of the overrides under the first `n` keys: each key
/// must be a variable of the theme, and its value is collected under the
/// variable's custom property.
pub open spec fn overridden(
    theme: Seq<MapEntryView>,
    overrides: Seq<MapEntryView>,
    keys: Seq<Seq<char>>,
    n: nat,
) -> Result<Rules, Diagnostic>
    decreases n,
{
    if n == 0 || n > keys.len() {
        Ok(Seq::empty())
    } else {
        match overridden(theme, overrides, keys, (n - 1) as nat) {
            Ok(before) => overridden_key(before, theme, overrides, keys[n - 1]),
            Err(d) => Err(d),
        }
    }
}

/// The declarations after the override under one key.
pub open spec fn overridden_key(
    rules: Rules,
    theme: Seq<MapEntryView>,
    overrides: Seq<MapEntryView>,
    key: Seq<char>,
) -> Result<Rules, Diagnostic> {
    let t = find_key(theme, KeyView::Str(key));
    let o = find_key(overrides, KeyView::Str(key));
    if 0 <= t < theme.len() && 0 <= o < overrides.len() {
        match theme[t].value {
            ValueView::Str(r) => if is_reference(r) {
                collected(rules, reference_hash(r), overrides[o].value)
            } else {
                Err(diagnostic_of(Message::IllegalPropValue))
            },
            _ => Err(diagnostic_of(Message::IllegalPropValue)),
        }
    } else {
        Err(diagnostic_of(Message::IllegalPropValue))
    }
}

/// The keys of the overrides in ascending order.
pub open spec fn override_keys(overrides: Seq<MapEntryView>) -> Seq<Seq<char>> {
    sort_texts(Seq::new(overrides.len(), |i: int| key_text(overrides[i].key)))
}

/// The at-rules among the first `n` conditions.
pub open spec fn at_rules_of(rules: Rules, n: nat) -> Seq<Seq<char>>
    decreases n,
{
    if n == 0 || n > rules.len() {
        Seq::empty()
    } else {
        let head = at_rules_of(rules, (n - 1) as nat);
        if rules[n - 1].0 == "default"@ {
            head
        } else {
            head.push(rules[n - 1].0)
        }
    }
}

/// The conditions in the order in which they enter the class name and
/// the styles: `default` first, the at-rules in ascending order.
pub open spec fn ordered_conditions(rules: Rules) -> Seq<Seq<char>> {
    let sorted = sort_texts(at_rules_of(rules, rules.len()));
    if 0 <= key_index(rules, "default"@) < rules.len() {
        seq!["default"@] + sorted
    } else {
        sorted
    }
}

/// The declarations under a condition; nothing where there are none.
pub open spec fn decls_under(rules: Rules, condition: Seq<char>) -> Seq<char> {
    let i = key_index(rules, condition);
    if 0 <= i < rules.len() {
        rules[i].1
    } else {
        Seq::empty()
    }
}

/// The declarations under a condition, inside the at-rule where the
/// condition is one.
pub open spec fn wrapped_decls(rules: Rules, condition: Seq<char>) -> Seq<char> {
    if condition == "default"@ {
        decls_under(rules, condition)
    } else {
        condition + "{"@ + decls_under(rules, condition) + "}"@
    }
}

/// The text that is hashed to name an override: the declarations of the
/// first `n` conditions, each inside its at-rule.
pub open spec fn hash_source(rules: Rules, conditions: Seq<Seq<char>>, n: nat) -> Seq<char>
    decreases n,
{
    if n == 0 || n > conditions.len() {
        Seq::empty()
    } else {
        hash_source(rules, conditions, (n - 1) as nat) + wrapped_decls(rules, conditions[n - 1])
    }
}

/// The class of an override.
pub open spec fn override_class(rules: Rules, prefix: Seq<char>) -> Seq<char> {
    prefix + hash_text(
        hash_source(rules, ordered_conditions(rules), ordered_conditions(rules).len()),
    )
}

/// The rule of an override: the declarations on the root that has the
/// override's class.
pub open spec fn override_rule(class_name: Seq<char>, decls: Seq<char>) -> Seq<char> {
    ":root."@ + class_name + "{"@ + decls + "}"@
}

/// The style of an override under one condition.
pub open spec fn override_style(rules: Rules, condition: Seq<char>, class_name: Seq<char>) -> ClassStyle {
    if condition == "default"@ {
        (class_name, plain_style(override_rule(class_name, decls_under(rules, condition)), 5))
    } else {
        (
            class_name + "-"@ + hash_text(condition),
            plain_style(
                condition + "{"@ + override_rule(class_name, decls_under(rules, condition)) + "}"@,
                9,
            ),
        )
    }
}

/// The styles of an override, one for each condition.
pub open spec fn override_styles(rules: Rules, class_name: Seq<char>) -> Seq<ClassStyle> {
    Seq::new(
        ordered_conditions(rules).len(),
        |i: int| override_style(rules, ordered_conditions(rules)[i], class_name),
    )
}

/// What creating a theme gives: the slots that the call returns, the
/// marker `$$css` and, under the theme's class, the class of the override
/// before the theme's; and the styles to inject.
pub open spec fn created_theme(theme_vars: ValueView, overrides: ValueView, prefix: Seq<char>) -> Result<
    (Seq<Slot>, Seq<ClassStyle>),
    Diagnostic,
> {
    match theme_name_of(theme_vars) {
        None => Err(diagnostic_of(Message::NotAThemeReference)),
        Some(name) => match overrides {
            ValueView::Object(entries) => match overridden(
                theme_vars->Object_0,
                entries,
                override_keys(entries),
                override_keys(entries).len(),
            ) {
                Ok(rules) => {
                    let class_name = override_class(rules, prefix);
                    Ok(
                        (
                            crate::create::put_slot(
                                seq![("$$css"@, FlatValueView::Bool(true))],
                                name,
                                FlatValueView::Text(class_name + " "@ + name),
                            ),
                            override_styles(rules, class_name),
                        ),
                    )
                },
                Err(d) => Err(d),
            },
            _ => Err(diagnostic_of(Message::NonObjectForStylexCall)),
        },
    }
}

/// The declarations under a condition.
pub fn decls_of(rules: &Vec<(String, String)>, condition: &str) -> (decls: String)
    ensures
        decls@ == decls_under(rules_view(rules@), condition@),
{
    let ghost all = rules_view(rules@);
    let mut i: usize = 0;
    assert(all.skip(0) =~= all);
    while i < rules.len()
        invariant
            i <= rules.len(),
            all == rules_view(rules@),
            key_index(all, condition@) == i + key_index(all.skip(i as int), condition@),
        decreases rules.len() - i,
    {
        assert(all.skip(i as int)[0] == all[i as int]);
        if str_eq(rules[i].0.as_str(), condition) {
            return rules[i].1.clone();
        }
        assert(all.skip(i as int).drop_first() =~= all.skip(i + 1));
        i += 1;
    }
    String::new()
}

/// The conditions in the order in which they enter the class name and
/// the styles.
pub fn conditions_in_order(rules: &Vec<(String, String)>) -> (conditions: Vec<String>)
    ensures
        views(conditions@) == ordered_conditions(rules_view(rules@)),
{
    let ghost all = rules_view(rules@);
    let mut names: Vec<String> = Vec::new();
    let mut has_default = false;
    let mut i: usize = 0;
    assert(views(names@) =~= Seq::<Seq<char>>::empty());
    assert(all.skip(0) =~= all);
    while i < rules.len()
        invariant
            i <= rules.len(),
            all == rules_view(rules@),
            views(names@) == at_rules_of(all, i as nat),
            has_default == (exists|j: int| 0 <= j < i && (#[trigger] all[j]).0 == "default"@),
        decreases rules.len() - i,
    {
        assert(all[i as int] == (rules[i as int].0@, rules[i as int].1@));
        if str_eq(rules[i].0.as_str(), "default") {
            has_default = true;
        } else {
            let ghost before = views(names@);
            names.push(rules[i].0.clone());
            assert(views(names@) =~= before.push(rules[i as int].0@));
        }
        i += 1;
    }
    proof {
        lemma_key_index(all, "default"@);
    }
    let sorted = sorted_texts(names.as_slice());
    let mut conditions: Vec<String> = Vec::new();
    if has_default {
        conditions.push("default".to_string());
    }
    let ghost head = views(conditions@);
    let mut k: usize = 0;
    while k < sorted.len()
        invariant
            k <= sorted.len(),
            views(conditions@) == head + chars_views(sorted@).take(k as int),
        decreases sorted.len() - k,
    {
        let ghost before = views(conditions@);
        conditions.push(from_chars(&sorted[k]));
        assert(views(conditions@) =~= before.push(sorted[k as int]@));
        assert(chars_views(sorted@).take(k + 1) =~= chars_views(sorted@).take(k as int).push(
            sorted[k as int]@,
        ));
        k += 1;
    }
    assert(chars_views(sorted@).take(k as int) =~= chars_views(sorted@));
    assert(head =~= if has_default {
        seq!["default"@]
    } else {
        Seq::<Seq<char>>::empty()
    });
    conditions
}

/// The class of an override, from its conditions in order.
pub fn class_of_override(rules: &Vec<(String, String)>, conditions: &Vec<String>, prefix: &str) -> (class_name:
    String)
    requires
        views(conditions@) == ordered_conditions(rules_view(rules@)),
    ensures
        class_name@ == override_class(rules_view(rules@), prefix@),
{
    let ghost all = rules_view(rules@);
    let ghost names = views(conditions@);
    let mut source: Vec<char> = Vec::new();
    let mut i: usize = 0;
    while i < conditions.len()
        invariant
            i <= conditions.len(),
            names == views(conditions@),
            all == rules_view(rules@),
            source@ == hash_source(all, names, i as nat),
        decreases conditions.len() - i,
    {
        let decls = decls_of(rules, conditions[i].as_str());
        let ghost before = source@;
        if str_eq(conditions[i].as_str(), "default") {
            append_str(&mut source, decls.as_str());
        } else {
            append_str(&mut source, conditions[i].as_str());
            append_str(&mut source, "{");
            append_str(&mut source, decls.as_str());
            append_str(&mut source, "}");
            assert(source@ =~= before + (conditions[i as int]@ + "{"@ + decls@ + "}"@));
        }
        i += 1;
    }
    hashed(prefix, &source)
}

/// The style of an override under one condition.
pub fn style_of_override(rules: &Vec<(String, String)>, condition: &str, class_name: &str) -> (style: (
    String,
    InjectableStyle,
))
    ensures
        (style.0@, style.1@) == override_style(rules_view(rules@), condition@, class_name@),
{
    let decls = decls_of(rules, condition);
    let mut rule: Vec<char> = Vec::new();
    append_str(&mut rule, ":root.");
    append_str(&mut rule, class_name);
    append_str(&mut rule, "{");
    append_str(&mut rule, decls.as_str());
    append_str(&mut rule, "}");
    assert(rule@ =~= override_rule(class_name@, decls@));
    if str_eq(condition, "default") {
        (class_name.to_string(), InjectableStyle { ltr: from_chars(&rule), rtl: None, priority: 5 })
    } else {
        let mut ltr = to_chars(condition);
        append_str(&mut ltr, "{");
        append_chars(&mut ltr, &rule);
        append_str(&mut ltr, "}");
        assert(ltr@ =~= condition@ + "{"@ + override_rule(class_name@, decls@) + "}"@);
        let hash = create_hash(condition);
        let mut name = to_chars(class_name);
        append_str(&mut name, "-");
        append_str(&mut name, hash.as_str());
        assert(name@ =~= class_name@ + "-"@ + hash_text(condition@));
        (from_chars(&name), InjectableStyle { ltr: from_chars(&ltr), rtl: None, priority: 9 })
    }
}

/// The class of the theme that a value refers to.
pub fn theme_name(theme_vars: &Value) -> (name: Option<String>)
    ensures
        match theme_name_of(theme_vars@) {
            Some(n) => name is Some && name->0@ == n,
            None => name is None,
        },
{
    match theme_vars {
        Value::Object(entries) => {
            proof {
                lemma_map_view(*entries);
            }
            match has_text_key(entries, "__themeName__") {
                Some(i) => {
                    assert(entries_view(entries@)[i as int] == entries[i as int]@);
                    match &entries[i].value {
                        Value::Str(name) => Some(name.clone()),
                        _ => None,
                    }
                },
                None => None,
            }
        },
        _ => None,
    }
}

/// Collects the override under one key.
pub fn override_key(rules: &mut Vec<(String, String)>, theme: &Vec<MapEntry>, overrides: &Vec<MapEntry>, key: &str) -> (r:
    Result<(), Diagnostic>)
    ensures
        match overridden_key(
            rules_view(old(rules)@),
            entries_view(theme@),
            entries_view(overrides@),
            key@,
        ) {
            Ok(after) => r is Ok && rules_view(final(rules)@) == after,
            Err(d) => r == Err::<(), Diagnostic>(d),
        },
{
    match (has_text_key(theme, key), has_text_key(overrides, key)) {
        (Some(t), Some(o)) => {
            assert(entries_view(theme@)[t as int] == theme[t as int]@);
            assert(entries_view(overrides@)[o as int] == overrides[o as int]@);
            match &theme[t].value {
                Value::Str(r) => {
                    let chars = to_chars(r.as_str());
                    let head = to_chars("var(--");
                    proof {
                        reveal_strlit("var(--");
                    }
                    if chars.len() >= 7 && starts_with(&chars, &head) && chars[chars.len() - 1]
                        == ')' {
                        let hash = slice_chars(&chars, 6, chars.len() - 1);
                        let hash_string = from_chars(&hash);
                        collect_vars(rules, hash_string.as_str(), &overrides[o].value)
                    } else {
                        Err(Diagnostic::new(Message::IllegalPropValue))
                    }
                },
                _ => Err(Diagnostic::new(Message::IllegalPropValue)),
            }
        },
        _ => Err(Diagnostic::new(Message::IllegalPropValue)),
    }
}

/// Creates a theme: a class under which the variables of a defined theme
/// have other values.
///
/// The first value must be what the definition of a theme returned; the
/// second an object of overrides, each under a variable of the theme.
pub fn stylex_create_theme(theme_vars: &Value, overrides: &Value, prefix: &str) -> (r: Result<
    (crate::create::FlatCompiledStyles, indexmap::IndexMap<String, InjectableStyle>),
    Diagnostic,
>)
    ensures
        match created_theme(theme_vars@, overrides@, prefix@) {
            Ok((slots, styles)) => r is Ok && r->Ok_0.0@ == slots && injected_entries(r->Ok_0.1)
                == first_of_each_class(styles),
            Err(d) => r is Err && r->Err_0 == d,
        },
{
    let name = match theme_name(theme_vars) {
        Some(name) => name,
        None => {
            return Err(Diagnostic::new(Message::NotAThemeReference));
        },
    };
    let theme = match theme_vars {
        Value::Object(entries) => entries,
        _ => {
            return Err(Diagnostic::new(Message::NotAThemeReference));
        },
    };
    let entries = match overrides {
        Value::Object(entries) => entries,
        _ => {
            return Err(Diagnostic::new(Message::NonObjectForStylexCall));
        },
    };
    proof {
        lemma_map_view(*theme);
        lemma_map_view(*entries);
    }
    let ghost all = entries_view(entries@);
    let mut key_texts: Vec<String> = Vec::new();
    let mut i: usize = 0;
    while i < entries.len()
        invariant
            i <= entries.len(),
            all == entries_view(entries@),
            key_texts.len() == i,
            forall|j: int| 0 <= j < i ==> (#[trigger] key_texts[j])@ == key_text(all[j].key),
        decreases entries.len() - i,
    {
        assert(all[i as int] == entries[i as int]@);
        key_texts.push(key_to_string(&entries[i].key));
        i += 1;
    }
    assert(views(key_texts@) =~= Seq::new(all.len(), |i: int| key_text(all[i].key)));
    let keys = sorted_texts(key_texts.as_slice());
    let mut rules: Vec<(String, String)> = Vec::new();
    assert(rules_view(rules@) =~= Seq::<(Seq<char>, Seq<char>)>::empty());
    let mut k: usize = 0;
    while k < keys.len()
        invariant
            k <= keys.len(),
            all == entries_view(entries@),
            chars_views(keys@) == override_keys(all),
            theme_vars@ == ValueView::Object(entries_view(theme@)),
            overrides@ == ValueView::Object(all),
            theme_name_of(theme_vars@) == Some(name@),
            overridden(entries_view(theme@), all, chars_views(keys@), k as nat) == Ok::<
                Rules,
                Diagnostic,
            >(rules_view(rules@)),
        decreases keys.len() - k,
    {
        assert(chars_views(keys@)[k as int] == keys[k as int]@);
        let key = from_chars(&keys[k]);
        if let Err(d) = override_key(&mut rules, theme, entries, key.as_str()) {
            proof {
                lemma_overridden_fail(entries_view(theme@), all, chars_views(keys@), (k + 1) as nat, keys.len() as nat);
            }
            return Err(d);
        }
        k += 1;
    }
    let conditions = conditions_in_order(&rules);
    let class_name = class_of_override(&rules, &conditions, prefix);
    let mut styles: Vec<(String, InjectableStyle)> = Vec::new();
    let ghost wanted = override_styles(rules_view(rules@), class_name@);
    let mut c: usize = 0;
    while c < conditions.len()
        invariant
            c <= conditions.len(),
            views(conditions@) == ordered_conditions(rules_view(rules@)),
            wanted == override_styles(rules_view(rules@), class_name@),
            styles.len() == c,
            forall|j: int| 0 <= j < c ==> ((#[trigger] styles[j]).0@, styles[j].1@) == wanted[j],
        decreases conditions.len() - c,
    {
        assert(views(conditions@)[c as int] == conditions[c as int]@);
        styles.push(style_of_override(&rules, conditions[c].as_str(), class_name.as_str()));
        c += 1;
    }
    assert(computed_views(styles@) =~= wanted);
    let mut injected = injected_new();
    inject_all(&mut injected, &styles);
    proof {
        lemma_first_of_each_concat(Seq::<ClassStyle>::empty(), computed_views(styles@));
        assert(Seq::<ClassStyle>::empty() + computed_views(styles@) =~= computed_views(styles@));
    }
    let mut both = to_chars(class_name.as_str());
    append_str(&mut both, " ");
    append_str(&mut both, name.as_str());
    assert(both@ =~= class_name@ + " "@ + name@);
    let mut compiled = crate::create::FlatCompiledStyles::new();
    crate::create::set_slot(
        &mut compiled,
        "$$css".to_string(),
        crate::create::FlatCompiledStylesValue::Bool(true),
    );
    assert(compiled@ =~= seq![("$$css"@, FlatValueView::Bool(true))]);
    crate::create::set_slot(
        &mut compiled,
        name,
        crate::create::FlatCompiledStylesValue::String(from_chars(&both)),
    );
    Ok((compiled, injected))
}

/// Once the overrides up to some key are rejected, all of them are, with
/// the same diagnostic.
proof fn lemma_overridden_fail(theme: Seq<MapEntryView>, overrides: Seq<MapEntryView>, keys: Seq<Seq<char>>, i: nat, n: nat)
    requires
        i <= n <= keys.len(),
        overridden(theme, overrides, keys, i) is Err,
    ensures
        overridden(theme, overrides, keys, n) == overridden(theme, overrides, keys, i),
    decreases n,
{
    if i < n {
        lemma_overridden_fail(theme, overrides, keys, i, (n - 1) as nat);
    }
}

} // verus!
