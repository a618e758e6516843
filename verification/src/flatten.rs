//! The style flattener: from a namespace of nested conditions to a flat,
//! ordered list of pre-rules.
use vstd::prelude::*;
use crate::decimal::{format_number, shown};
use crate::errors::{diagnostic_of, Diagnostic, Message};
use crate::pre_rule::{
    created, lemma_set_view, pre_rule_views, PreIncludedStylesRule, NullPreRule, PreRuleSet,
    PreRules, PreRulesView, StylesPreRule, StylesPreRuleView,
};
use crate::rule::{add_held, css_values, held, values_of, PreRuleValue, PreRuleValueView};
use crate::text::{
    append_chars, append_str, chars_views, clone_strings_of, from_chars, to_chars, views,
};
use crate::value::{
    clone_value, entries_view, lemma_list_view, lemma_map_view, values_view, Key, KeyView,
    MapEntry, MapEntryView, Value, ValueView,
};

verus! {

/// The conditions under which a value stands, and what its place adds to
/// the priority of its rules.
#[derive(Debug)]
pub struct Frame {
    pub pseudos: Vec<String>,
    pub at_rules: Vec<String>,
    /// Tenths of priority.
    pub bonus: u64,
}

pub ghost struct FrameView {
    pub pseudos: Seq<Seq<char>>,
    pub at_rules: Seq<Seq<char>>,
    pub bonus: u64,
}

impl View for Frame {
    type V = FrameView;

    open spec fn view(&self) -> FrameView {
        FrameView { pseudos: views(self.pseudos@), at_rules: views(self.at_rules@), bonus: self.bonus }
    }
}

/// The key opens a condition: it begins with `:` or `@`.
pub open spec fn is_condition(key: Seq<char>) -> bool {
    key.len() > 0 && (key[0] == ':' || key[0] == '@')
}

/// The frame under one more condition: a pseudo or an at-rule is added to
/// the conditions; `default` adds a tenth to the priority. There is no
/// frame under any other key.
pub open spec fn frame_under(frame: FrameView, condition: Seq<char>) -> Option<FrameView> {
    if condition == "default"@ {
        Some(
            FrameView {
                pseudos: frame.pseudos,
                at_rules: frame.at_rules,
                bonus: held((frame.bonus + 1) as nat),
            },
        )
    } else if condition.len() > 0 && condition[0] == ':' {
        Some(
            FrameView {
                pseudos: frame.pseudos.push(condition),
                at_rules: frame.at_rules,
                bonus: frame.bonus,
            },
        )
    } else if condition.len() > 0 && condition[0] == '@' {
        Some(
            FrameView {
                pseudos: frame.pseudos,
                at_rules: frame.at_rules.push(condition),
                bonus: frame.bonus,
            },
        )
    } else {
        None
    }
}

/// The text of a string, a number or a truth value.
pub open spec fn scalar_text(v: ValueView) -> Option<Seq<char>> {
    match v {
        ValueView::Str(s) => Some(s),
        ValueView::Num(n) => Some(shown(n)),
        ValueView::Bool(b) => Some(if b { "true"@ } else { "false"@ }),
        _ => None,
    }
}

/// The texts of the first `n` items, where each of them is a string, a
/// number or a truth value.
pub open spec fn scalar_texts(items: Seq<ValueView>, n: nat) -> Option<Seq<Seq<char>>>
    decreases n,
{
    if n == 0 || n > items.len() {
        Some(Seq::empty())
    } else {
        match (scalar_texts(items, (n - 1) as nat), scalar_text(items[n - 1])) {
            (Some(before), Some(text)) => Some(before.push(text)),
            _ => None,
        }
    }
}

/// The atomic rule of one value under a frame; `extra` tenths are added to
/// the frame's bonus.
pub open spec fn styles_rule(property: Seq<char>, text: Seq<char>, frame: FrameView, extra: nat) -> PreRulesView {
    PreRulesView::Styles(
        StylesPreRuleView {
            property,
            value: PreRuleValueView::One(text),
            pseudos: frame.pseudos,
            at_rules: frame.at_rules,
            bonus: held((frame.bonus + extra) as nat),
        },
    )
}

/// One atomic rule for each value of a list, each a tenth above the one
/// before it.
pub open spec fn list_rules(property: Seq<char>, values: Seq<Seq<char>>, frame: FrameView) -> Seq<
    PreRulesView,
> {
    Seq::new(values.len(), |i: int| styles_rule(property, values[i], frame, i as nat))
}

/// The pre-rule of a value that is not an object.
///
/// Null gives the null pre-rule; a string, a number or a truth value one
/// atomic rule; a list of them one rule for each of its values after
/// their references were folded into fallbacks; an included namespace
/// stays a reference. Any other value is illegal.
pub open spec fn leaf_rule(property: Seq<char>, v: ValueView, frame: FrameView) -> Result<
    PreRulesView,
    Diagnostic,
> {
    match v {
        ValueView::Null => Ok(PreRulesView::Null),
        ValueView::List(items) => match scalar_texts(items, items.len()) {
            Some(texts) => Ok(
                created(list_rules(property, css_values(property, PreRuleValueView::Many(texts)), frame)),
            ),
            None => Err(diagnostic_of(Message::IllegalPropArrayValue)),
        },
        ValueView::IncludedStyles(inner) => Ok(PreRulesView::Included(*inner)),
        _ => match scalar_text(v) {
            Some(text) => Ok(styles_rule(property, text, frame, 0)),
            None => Err(diagnostic_of(Message::IllegalPropValue)),
        },
    }
}

/// The pre-rule of the value of a property: for an object, whose keys are
/// conditions, the rules of its entries as one; for any other value its
/// leaf rule.
pub open spec fn value_rule(property: Seq<char>, v: ValueView, frame: FrameView) -> Result<
    PreRulesView,
    Diagnostic,
>
    decreases v,
{
    match v {
        ValueView::Object(entries) => match condition_rules(property, entries, entries.len(), frame) {
            Ok(rules) => Ok(created(rules)),
            Err(d) => Err(d),
        },
        _ => leaf_rule(property, v, frame),
    }
}

/// The pre-rules of the first `n` entries of an object of conditions. A
/// key that is neither `default`, a pseudo nor an at-rule is invalid.
pub open spec fn condition_rules(property: Seq<char>, entries: Seq<MapEntryView>, n: nat, frame: FrameView) -> Result<
    Seq<PreRulesView>,
    Diagnostic,
>
    decreases entries, n,
{
    if n == 0 || n > entries.len() {
        Ok(Seq::empty())
    } else {
        match condition_rules(property, entries, (n - 1) as nat, frame) {
            Ok(before) => match condition_rule(property, entries[n - 1], frame) {
                Ok(rule) => Ok(before.push(rule)),
                Err(d) => Err(d),
            },
            Err(d) => Err(d),
        }
    }
}

/// The pre-rule of one entry of an object of conditions.
pub open spec fn condition_rule(property: Seq<char>, entry: MapEntryView, frame: FrameView) -> Result<
    PreRulesView,
    Diagnostic,
>
    decreases entry,
{
    match entry.key {
        KeyView::Str(condition) => match frame_under(frame, condition) {
            Some(inner) => value_rule(property, entry.value, inner),
            None => Err(diagnostic_of(Message::InvalidPseudoOrAtRule)),
        },
        KeyView::Num(_) => Err(diagnostic_of(Message::InvalidPseudoOrAtRule)),
    }
}

/// The flat list that the first `n` entries of a namespace give: for each
/// property its key and pre-rule, in source order. An entry under a
/// condition gives the list of the object under it, each key with the
/// condition and `_` before it.
pub open spec fn flattened(entries: Seq<MapEntryView>, n: nat, key_prefix: Seq<char>, frame: FrameView) -> Result<
    Seq<(Seq<char>, PreRulesView)>,
    Diagnostic,
>
    decreases entries, n,
{
    if n == 0 || n > entries.len() {
        Ok(Seq::empty())
    } else {
        match flattened(entries, (n - 1) as nat, key_prefix, frame) {
            Ok(before) => match flattened_entry(entries[n - 1], key_prefix, frame) {
                Ok(more) => Ok(before + more),
                Err(d) => Err(d),
            },
            Err(d) => Err(d),
        }
    }
}

/// The flat list that one entry of a namespace gives.
pub open spec fn flattened_entry(entry: MapEntryView, key_prefix: Seq<char>, frame: FrameView) -> Result<
    Seq<(Seq<char>, PreRulesView)>,
    Diagnostic,
>
    decreases entry,
{
    match entry.key {
        KeyView::Str(key) => if is_condition(key) {
            match (entry.value, frame_under(frame, key)) {
                (ValueView::Object(inner), Some(under)) => flattened(
                    inner,
                    inner.len(),
                    key_prefix + key + "_"@,
                    under,
                ),
                _ => Err(diagnostic_of(Message::IllegalNamespaceValue)),
            }
        } else {
            match value_rule(key, entry.value, frame) {
                Ok(rule) => Ok(seq![(key_prefix + key, rule)]),
                Err(d) => Err(d),
            }
        },
        KeyView::Num(_) => Err(diagnostic_of(Message::IllegalPropValue)),
    }
}

/// The namespace flattened: no key before its keys, no condition around
/// it.
pub open spec fn flattened_namespace(entries: Seq<MapEntryView>) -> Result<
    Seq<(Seq<char>, PreRulesView)>,
    Diagnostic,
> {
    flattened(
        entries,
        entries.len(),
        Seq::empty(),
        FrameView { pseudos: Seq::empty(), at_rules: Seq::empty(), bonus: 0 },
    )
}

/// The views of a flat list.
pub open spec fn flat_views(flat: Seq<(String, PreRules)>) -> Seq<(Seq<char>, PreRulesView)> {
    Seq::new(flat.len(), |i: int| (flat[i].0@, flat[i].1@))
}

impl Frame {
    /// The frame of a namespace: no conditions, no bonus.
    pub fn root() -> (frame: Frame)
        ensures
            frame@ == (FrameView { pseudos: Seq::empty(), at_rules: Seq::empty(), bonus: 0 }),
    {
        let frame = Frame { pseudos: Vec::new(), at_rules: Vec::new(), bonus: 0 };
        assert(frame@.pseudos =~= Seq::<Seq<char>>::empty());
        assert(frame@.at_rules =~= Seq::<Seq<char>>::empty());
        frame
    }

    /// The frame under one more condition, where the key is one.
    pub fn under(&self, condition: &str) -> (inner: Option<Frame>)
        ensures
            match frame_under(self@, condition@) {
                Some(f) => inner is Some && inner->0@ == f,
                None => inner is None,
            },
    {
        let chars = to_chars(condition);
        if crate::text::str_eq(condition, "default") {
            let frame = Frame {
                pseudos: clone_strings_of(&self.pseudos),
                at_rules: clone_strings_of(&self.at_rules),
                bonus: add_held(self.bonus, 1),
            };
            Some(frame)
        } else if chars.len() > 0 && chars[0] == ':' {
            let mut pseudos = clone_strings_of(&self.pseudos);
            pseudos.push(condition.to_string());
            assert(views(pseudos@) =~= self@.pseudos.push(condition@));
            Some(Frame { pseudos, at_rules: clone_strings_of(&self.at_rules), bonus: self.bonus })
        } else if chars.len() > 0 && chars[0] == '@' {
            let mut at_rules = clone_strings_of(&self.at_rules);
            at_rules.push(condition.to_string());
            assert(views(at_rules@) =~= self@.at_rules.push(condition@));
            Some(Frame { pseudos: clone_strings_of(&self.pseudos), at_rules, bonus: self.bonus })
        } else {
            None
        }
    }
}

/// The text of a string, a number or a truth value.
pub fn text_of_scalar(v: &Value) -> (text: Option<String>)
    ensures
        match scalar_text(v@) {
            Some(t) => text is Some && text->0@ == t,
            None => text is None,
        },
{
    match v {
        Value::Str(s) => Some(s.clone()),
        Value::Num(n) => {
            let chars = format_number(*n);
            Some(from_chars(&chars))
        },
        Value::Bool(b) => Some(if *b { "true".to_string() } else { "false".to_string() }),
        _ => None,
    }
}

/// The texts of the items, where each is a string, a number or a truth
/// value.
pub fn texts_of_scalars(items: &Vec<Value>) -> (texts: Option<Vec<String>>)
    ensures
        match scalar_texts(values_view(items@), items.len() as nat) {
            Some(t) => texts is Some && views(texts->0@) == t,
            None => texts is None,
        },
{
    let ghost all = values_view(items@);
    let mut out: Vec<String> = Vec::new();
    let mut i: usize = 0;
    assert(views(out@) =~= Seq::<Seq<char>>::empty());
    while i < items.len()
        invariant
            i <= items.len(),
            all == values_view(items@),
            scalar_texts(all, i as nat) == Some(views(out@)),
        decreases items.len() - i,
    {
        assert(all[i as int] == items[i as int]@);
        let ghost before = views(out@);
        match text_of_scalar(&items[i]) {
            Some(text) => {
                out.push(text);
                assert(views(out@) =~= before.push(text@));
            },
            None => {
                proof {
                    lemma_scalar_texts_fail(all, (i + 1) as nat, items.len() as nat);
                }
                return None;
            },
        }
        i += 1;
    }
    Some(out)
}

/// Once some item is no scalar, the items have no texts.
proof fn lemma_scalar_texts_fail(items: Seq<ValueView>, i: nat, n: nat)
    requires
        i <= n <= items.len(),
        scalar_texts(items, i) is None,
    ensures
        scalar_texts(items, n) is None,
    decreases n,
{
    if i < n {
        lemma_scalar_texts_fail(items, i, (n - 1) as nat);
    }
}

/// The atomic rule of one value under a frame.
pub fn rule_for(property: &str, text: String, frame: &Frame, extra: u64) -> (rule: PreRules)
    ensures
        rule@ == styles_rule(property@, text@, frame@, extra as nat),
{
    PreRules::StylesPreRule(
        StylesPreRule {
            property: property.to_string(),
            value: PreRuleValue::String(text),
            pseudos: clone_strings_of(&frame.pseudos),
            at_rules: clone_strings_of(&frame.at_rules),
            bonus: add_held(frame.bonus, extra),
        },
    )
}

/// One atomic rule for each value of a list.
pub fn rules_for_list(property: &str, values: &Vec<Vec<char>>, frame: &Frame) -> (rules: Vec<PreRules>)
    ensures
        pre_rule_views(rules@) == list_rules(property@, chars_views(values@), frame@),
{
    let mut rules: Vec<PreRules> = Vec::new();
    let mut i: usize = 0;
    while i < values.len()
        invariant
            i <= values.len(),
            rules.len() == i,
            forall|j: int|
                0 <= j < i ==> (#[trigger] rules[j])@ == styles_rule(
                    property@,
                    values[j]@,
                    frame@,
                    j as nat,
                ),
        decreases values.len() - i,
    {
        rules.push(rule_for(property, from_chars(&values[i]), frame, i as u64));
        i += 1;
    }
    assert(pre_rule_views(rules@) =~= list_rules(property@, chars_views(values@), frame@));
    rules
}

/// The view of a pre-rule or a diagnostic.
pub open spec fn rule_outcome(r: Result<PreRules, Diagnostic>) -> Result<PreRulesView, Diagnostic> {
    match r {
        Ok(rule) => Ok(rule@),
        Err(d) => Err(d),
    }
}

/// The view of a list of pre-rules or a diagnostic.
pub open spec fn rules_outcome(r: Result<Vec<PreRules>, Diagnostic>) -> Result<
    Seq<PreRulesView>,
    Diagnostic,
> {
    match r {
        Ok(rules) => Ok(pre_rule_views(rules@)),
        Err(d) => Err(d),
    }
}

/// The view of a flat list or a diagnostic.
pub open spec fn flat_outcome(r: Result<Vec<(String, PreRules)>, Diagnostic>) -> Result<
    Seq<(Seq<char>, PreRulesView)>,
    Diagnostic,
> {
    match r {
        Ok(flat) => Ok(flat_views(flat@)),
        Err(d) => Err(d),
    }
}

/// The pre-rule of a value that is not an object.
pub fn leaf_pre_rule(property: &str, v: &Value, frame: &Frame) -> (r: Result<PreRules, Diagnostic>)
    ensures
        rule_outcome(r) == leaf_rule(property@, v@, frame@),
{
    match v {
        Value::Null => Ok(PreRules::NullPreRule(NullPreRule::new())),
        Value::List(items) => {
            proof {
                lemma_list_view(*items);
            }
            match texts_of_scalars(items) {
                Some(texts) => {
                    let values = values_of(property, &PreRuleValue::Vec(texts));
                    Ok(PreRuleSet::create(rules_for_list(property, &values, frame)))
                },
                None => Err(Diagnostic::new(Message::IllegalPropArrayValue)),
            }
        },
        Value::IncludedStyles(inner) => Ok(
            PreRules::PreIncludedStylesRule(
                PreIncludedStylesRule { included_styles: clone_value(inner) },
            ),
        ),
        _ => match text_of_scalar(v) {
            Some(text) => Ok(rule_for(property, text, frame, 0)),
            None => Err(Diagnostic::new(Message::IllegalPropValue)),
        },
    }
}

/// The pre-rule of the value of a property.
pub fn value_pre_rule(property: &str, v: &Value, frame: &Frame) -> (r: Result<PreRules, Diagnostic>)
    ensures
        rule_outcome(r) == value_rule(property@, v@, frame@),
    decreases v,
{
    match v {
        Value::Object(entries) => {
            proof {
                lemma_map_view(*entries);
            }
            match condition_pre_rules(property, entries, frame) {
                Ok(rules) => Ok(PreRuleSet::create(rules)),
                Err(d) => Err(d),
            }
        },
        _ => leaf_pre_rule(property, v, frame),
    }
}

/// The pre-rules of the entries of an object of conditions.
pub fn condition_pre_rules(property: &str, entries: &Vec<MapEntry>, frame: &Frame) -> (r: Result<
    Vec<PreRules>,
    Diagnostic,
>)
    ensures
        rules_outcome(r) == condition_rules(
            property@,
            entries_view(entries@),
            entries.len() as nat,
            frame@,
        ),
    decreases entries,
{
    let ghost all = entries_view(entries@);
    let mut rules: Vec<PreRules> = Vec::new();
    let mut i: usize = 0;
    assert(pre_rule_views(rules@) =~= Seq::<PreRulesView>::empty());
    while i < entries.len()
        invariant
            i <= entries.len(),
            all == entries_view(entries@),
            condition_rules(property@, all, i as nat, frame@) == Ok::<Seq<PreRulesView>, Diagnostic>(
                pre_rule_views(rules@),
            ),
        decreases entries.len() - i,
    {
        assert(all[i as int] == entries[i as int]@);
        let ghost before = pre_rule_views(rules@);
        match condition_pre_rule(property, &entries[i], frame) {
            Ok(rule) => {
                rules.push(rule);
                assert(pre_rule_views(rules@) =~= before.push(rule@));
            },
            Err(d) => {
                proof {
                    lemma_condition_rules_fail(property@, all, (i + 1) as nat, entries.len() as nat, frame@);
                }
                return Err(d);
            },
        }
        i += 1;
    }
    Ok(rules)
}

/// Once the entries up to some place have no rules, all of them have
/// none, and the diagnostic is the same.
proof fn lemma_condition_rules_fail(property: Seq<char>, entries: Seq<MapEntryView>, i: nat, n: nat, frame: FrameView)
    requires
        i <= n <= entries.len(),
        condition_rules(property, entries, i, frame) is Err,
    ensures
        condition_rules(property, entries, n, frame) == condition_rules(property, entries, i, frame),
    decreases n,
{
    if i < n {
        lemma_condition_rules_fail(property, entries, i, (n - 1) as nat, frame);
    }
}

/// The pre-rule of one entry of an object of conditions.
pub fn condition_pre_rule(property: &str, entry: &MapEntry, frame: &Frame) -> (r: Result<
    PreRules,
    Diagnostic,
>)
    ensures
        rule_outcome(r) == condition_rule(property@, entry@, frame@),
    decreases entry,
{
    match &entry.key {
        Key::Str(condition) => match frame.under(condition.as_str()) {
            Some(inner) => value_pre_rule(property, &entry.value, &inner),
            None => Err(Diagnostic::new(Message::InvalidPseudoOrAtRule)),
        },
        Key::Num(_) => Err(Diagnostic::new(Message::InvalidPseudoOrAtRule)),
    }
}

/// Flattens the entries of a namespace, or of an object under a
/// condition.
pub fn flatten_entries(entries: &Vec<MapEntry>, key_prefix: &Vec<char>, frame: &Frame) -> (r: Result<
    Vec<(String, PreRules)>,
    Diagnostic,
>)
    ensures
        flat_outcome(r) == flattened(
            entries_view(entries@),
            entries.len() as nat,
            key_prefix@,
            frame@,
        ),
    decreases entries,
{
    let ghost all = entries_view(entries@);
    let mut flat: Vec<(String, PreRules)> = Vec::new();
    let mut i: usize = 0;
    assert(flat_views(flat@) =~= Seq::<(Seq<char>, PreRulesView)>::empty());
    while i < entries.len()
        invariant
            i <= entries.len(),
            all == entries_view(entries@),
            flattened(all, i as nat, key_prefix@, frame@) == Ok::<
                Seq<(Seq<char>, PreRulesView)>,
                Diagnostic,
            >(flat_views(flat@)),
        decreases entries.len() - i,
    {
        assert(all[i as int] == entries[i as int]@);
        let ghost before = flat_views(flat@);
        match flatten_entry(&entries[i], key_prefix, frame) {
            Ok(more) => {
                let mut more = more;
                let ghost added = flat_views(more@);
                flat.append(&mut more);
                assert(flat_views(flat@) =~= before + added);
            },
            Err(d) => {
                proof {
                    lemma_flattened_fail(all, (i + 1) as nat, entries.len() as nat, key_prefix@, frame@);
                }
                return Err(d);
            },
        }
        i += 1;
    }
    Ok(flat)
}

/// Once the entries up to some place have no flat list, all of them have
/// none, and the diagnostic is the same.
proof fn lemma_flattened_fail(entries: Seq<MapEntryView>, i: nat, n: nat, key_prefix: Seq<char>, frame: FrameView)
    requires
        i <= n <= entries.len(),
        flattened(entries, i, key_prefix, frame) is Err,
    ensures
        flattened(entries, n, key_prefix, frame) == flattened(entries, i, key_prefix, frame),
    decreases n,
{
    if i < n {
        lemma_flattened_fail(entries, i, (n - 1) as nat, key_prefix, frame);
    }
}

/// Flattens one entry of a namespace.
pub fn flatten_entry(entry: &MapEntry, key_prefix: &Vec<char>, frame: &Frame) -> (r: Result<
    Vec<(String, PreRules)>,
    Diagnostic,
>)
    ensures
        flat_outcome(r) == flattened_entry(entry@, key_prefix@, frame@),
    decreases entry,
{
    match &entry.key {
        Key::Str(key) => {
            let chars = to_chars(key.as_str());
            let mut full: Vec<char> = Vec::new();
            append_chars(&mut full, key_prefix);
            append_chars(&mut full, &chars);
            assert(full@ =~= key_prefix@ + key@);
            if chars.len() > 0 && (chars[0] == ':' || chars[0] == '@') {
                match (&entry.value, frame.under(key.as_str())) {
                    (Value::Object(inner), Some(under)) => {
                        proof {
                            lemma_map_view(*inner);
                        }
                        append_str(&mut full, "_");
                        assert(full@ =~= key_prefix@ + key@ + "_"@);
                        flatten_entries(inner, &full, &under)
                    },
                    _ => Err(Diagnostic::new(Message::IllegalNamespaceValue)),
                }
            } else {
                match value_pre_rule(key.as_str(), &entry.value, frame) {
                    Ok(rule) => {
                        let mut flat: Vec<(String, PreRules)> = Vec::new();
                        flat.push((from_chars(&full), rule));
                        assert(flat_views(flat@) =~= seq![(key_prefix@ + key@, rule@)]);
                        Ok(flat)
                    },
                    Err(d) => Err(d),
                }
            }
        },
        Key::Num(_) => Err(Diagnostic::new(Message::IllegalPropValue)),
    }
}

/// Flattens a namespace into its properties and their pre-rules, in
/// source order.
pub fn flatten_raw_style_object(namespace: &Vec<MapEntry>) -> (r: Result<
    Vec<(String, PreRules)>,
    Diagnostic,
>)
    ensures
        flat_outcome(r) == flattened_namespace(entries_view(namespace@)),
{
    let frame = Frame::root();
    let key_prefix: Vec<char> = Vec::new();
    flatten_entries(namespace, &key_prefix, &frame)
}

} // verus!
