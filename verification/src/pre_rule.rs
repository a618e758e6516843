//! Pre-rules: what the flattener makes of a style object, before the
//! rules are compiled.
use vstd::prelude::*;
use crate::rule::{
    add_held, compile_rule, compiled_class, compiled_style, held, InjectableStyle,
    InjectableStyleView, PreRuleValue, PreRuleValueView,
};
use crate::text::{clone_strings_of, views};
use crate::value::{clone_value, Value, ValueView};

verus! {

/// The pre-rule of a slot that holds nothing.
#[derive(Debug)]
pub struct NullPreRule {}

impl NullPreRule {
    /// The one null pre-rule.
    pub fn new() -> NullPreRule {
        NullPreRule {  }
    }
}

/// One atomic rule to be: a property with its value under conditions.
#[derive(Debug)]
pub struct StylesPreRule {
    pub property: String,
    pub value: PreRuleValue,
    pub pseudos: Vec<String>,
    pub at_rules: Vec<String>,
    /// What the rule's place adds to its priority, in tenths.
    pub bonus: u64,
}

pub ghost struct StylesPreRuleView {
    pub property: Seq<char>,
    pub value: PreRuleValueView,
    pub pseudos: Seq<Seq<char>>,
    pub at_rules: Seq<Seq<char>>,
    pub bonus: u64,
}

impl View for StylesPreRule {
    type V = StylesPreRuleView;

    open spec fn view(&self) -> StylesPreRuleView {
        StylesPreRuleView {
            property: self.property@,
            value: self.value@,
            pseudos: views(self.pseudos@),
            at_rules: views(self.at_rules@),
            bonus: self.bonus,
        }
    }
}

/// A namespace that is included by reference and not flattened.
#[derive(Debug)]
pub struct PreIncludedStylesRule {
    pub included_styles: Value,
}

/// Several pre-rules for one slot, in the order in which their classes
/// are to be written.
#[derive(Debug)]
pub struct PreRuleSet {
    pub rules: Vec<PreRules>,
}

/// A pre-rule.
#[derive(Debug)]
pub enum PreRules {
    PreRuleSet(PreRuleSet),
    StylesPreRule(StylesPreRule),
    NullPreRule(NullPreRule),
    PreIncludedStylesRule(PreIncludedStylesRule),
}

pub ghost enum PreRulesView {
    Group(Seq<PreRulesView>),
    Styles(StylesPreRuleView),
    Null,
    Included(ValueView),
}

/// The view of a pre-rule.
pub open spec fn pre_rule_view(rule: PreRules) -> PreRulesView
    decreases rule,
{
    match rule {
        PreRules::PreRuleSet(set) => PreRulesView::Group(
            Seq::new(
                set.rules.len() as nat,
                |i: int|
                    if 0 <= i < set.rules.len() {
                        pre_rule_view(set.rules[i])
                    } else {
                        PreRulesView::Null
                    },
            ),
        ),
        PreRules::StylesPreRule(styles) => PreRulesView::Styles(styles@),
        PreRules::NullPreRule(_) => PreRulesView::Null,
        PreRules::PreIncludedStylesRule(included) => PreRulesView::Included(included.included_styles@),
    }
}

impl View for PreRules {
    type V = PreRulesView;

    open spec fn view(&self) -> PreRulesView {
        pre_rule_view(*self)
    }
}

/// The views of a list of pre-rules.
pub open spec fn pre_rule_views(rules: Seq<PreRules>) -> Seq<PreRulesView> {
    Seq::new(rules.len(), |i: int| rules[i]@)
}

impl View for PreRuleSet {
    type V = Seq<PreRulesView>;

    open spec fn view(&self) -> Seq<PreRulesView> {
        pre_rule_views(self.rules@)
    }
}

/// A set views as the group of its rules' views.
pub proof fn lemma_set_view(set: PreRuleSet)
    ensures
        PreRules::PreRuleSet(set)@ == PreRulesView::Group(set@),
{
    assert(PreRules::PreRuleSet(set)@->Group_0 =~= set@);
}

/// The rules with the members of every group among them in the group's
/// place.
pub open spec fn flat_rules(rules: Seq<PreRulesView>) -> Seq<PreRulesView>
    decreases rules.len(),
{
    if rules.len() == 0 {
        Seq::empty()
    } else {
        let head = flat_rules(rules.drop_last());
        match rules.last() {
            PreRulesView::Group(members) => head + members,
            other => head.push(other),
        }
    }
}

/// The one pre-rule that stands for the given rules: null for none, the
/// rule itself for one, and a group for more, after the members of every
/// group among them took the group's place.
pub open spec fn created(rules: Seq<PreRulesView>) -> PreRulesView {
    let flat = flat_rules(rules);
    if flat.len() == 0 {
        PreRulesView::Null
    } else if flat.len() == 1 {
        flat[0]
    } else {
        PreRulesView::Group(flat)
    }
}

/// What compiling a pre-rule gives.
#[derive(Debug)]
pub enum CompiledResult {
    Null,
    /// Class names with their CSS, in the order in which the classes are to
    /// be written.
    ComputedStyles(Vec<(String, InjectableStyle)>),
    IncludedStyle(Value),
}

pub ghost enum CompiledView {
    Null,
    Computed(Seq<(Seq<char>, InjectableStyleView)>),
    Included(ValueView),
}

/// The views of a list of classes with their CSS.
pub open spec fn computed_views(styles: Seq<(String, InjectableStyle)>) -> Seq<
    (Seq<char>, InjectableStyleView),
> {
    Seq::new(styles.len(), |i: int| (styles[i].0@, styles[i].1@))
}

impl View for CompiledResult {
    type V = CompiledView;

    open spec fn view(&self) -> CompiledView {
        match self {
            CompiledResult::Null => CompiledView::Null,
            CompiledResult::ComputedStyles(styles) => CompiledView::Computed(computed_views(styles@)),
            CompiledResult::IncludedStyle(v) => CompiledView::Included(v@),
        }
    }
}

/// The class and the CSS that one atomic rule compiles to: those of the
/// rule compiler, the priority raised by the rule's bonus.
pub open spec fn compiled_one(rule: StylesPreRuleView, prefix: Seq<char>) -> (
    Seq<char>,
    InjectableStyleView,
) {
    let style = compiled_style(rule.property, rule.value, rule.pseudos, rule.at_rules, prefix);
    (
        compiled_class(rule.property, rule.value, rule.pseudos, rule.at_rules, prefix),
        InjectableStyleView {
            ltr: style.ltr,
            rtl: style.rtl,
            priority: held((style.priority + rule.bonus) as nat),
        },
    )
}

/// The classes that the first `n` members of a group compile to: those
/// of each member that compiles to classes, one after another.
pub open spec fn compiled_members(members: Seq<PreRulesView>, n: nat, prefix: Seq<char>) -> Seq<
    (Seq<char>, InjectableStyleView),
>
    decreases members, n,
{
    if n == 0 || n > members.len() {
        Seq::empty()
    } else {
        let head = compiled_members(members, (n - 1) as nat, prefix);
        match compiled(members[n - 1], prefix) {
            CompiledView::Computed(styles) => head + styles,
            _ => head,
        }
    }
}

/// What a pre-rule compiles to under a class-name prefix.
pub open spec fn compiled(rule: PreRulesView, prefix: Seq<char>) -> CompiledView
    decreases rule,
{
    match rule {
        PreRulesView::Null => CompiledView::Null,
        PreRulesView::Styles(styles) => CompiledView::Computed(seq![compiled_one(styles, prefix)]),
        PreRulesView::Group(members) => CompiledView::Computed(
            compiled_members(members, members.len(), prefix),
        ),
        PreRulesView::Included(v) => CompiledView::Included(v),
    }
}

/// A copy of a list of strings.
fn copy_strings(v: &Vec<String>) -> (out: Vec<String>)
    ensures
        views(out@) == views(v@),
{
    clone_strings_of(v)
}

impl Clone for PreRuleValue {
    fn clone(&self) -> (copy: PreRuleValue)
        ensures
            copy@ == self@,
    {
        match self {
            PreRuleValue::String(s) => PreRuleValue::String(s.clone()),
            PreRuleValue::Vec(l) => PreRuleValue::Vec(copy_strings(l)),
        }
    }
}

impl Clone for StylesPreRule {
    fn clone(&self) -> (copy: StylesPreRule)
        ensures
            copy@ == self@,
    {
        StylesPreRule {
            property: self.property.clone(),
            value: self.value.clone(),
            pseudos: copy_strings(&self.pseudos),
            at_rules: copy_strings(&self.at_rules),
            bonus: self.bonus,
        }
    }
}

/// A copy of a pre-rule.
pub fn clone_pre_rule(rule: &PreRules) -> (copy: PreRules)
    ensures
        copy@ == rule@,
    decreases rule,
{
    match rule {
        PreRules::PreRuleSet(set) => {
            let out = clone_pre_rules(&set.rules);
            let copy = PreRuleSet { rules: out };
            proof {
                lemma_set_view(copy);
                lemma_set_view(*set);
            }
            PreRules::PreRuleSet(copy)
        },
        PreRules::StylesPreRule(styles) => PreRules::StylesPreRule(styles.clone()),
        PreRules::NullPreRule(_) => PreRules::NullPreRule(NullPreRule::new()),
        PreRules::PreIncludedStylesRule(included) => PreRules::PreIncludedStylesRule(
            PreIncludedStylesRule { included_styles: clone_value(&included.included_styles) },
        ),
    }
}

/// A copy of a list of pre-rules.
pub fn clone_pre_rules(rules: &Vec<PreRules>) -> (out: Vec<PreRules>)
    ensures
        pre_rule_views(out@) == pre_rule_views(rules@),
    decreases rules,
{
    let mut out: Vec<PreRules> = Vec::new();
    let mut i: usize = 0;
    while i < rules.len()
        invariant
            i <= rules.len(),
            out.len() == i,
            forall|j: int| 0 <= j < i ==> (#[trigger] out[j])@ == rules[j]@,
        decreases rules.len() - i,
    {
        out.push(clone_pre_rule(&rules[i]));
        i += 1;
    }
    assert(pre_rule_views(out@) =~= pre_rule_views(rules@));
    out
}

impl Clone for PreRules {
    fn clone(&self) -> (copy: PreRules)
        ensures
            copy@ == self@,
    {
        clone_pre_rule(self)
    }
}

impl PreRuleSet {
    /// A set without rules.
    pub fn new() -> (set: PreRuleSet)
        ensures
            set@ == Seq::<PreRulesView>::empty(),
    {
        let set = PreRuleSet { rules: Vec::new() };
        assert(set@ =~= Seq::<PreRulesView>::empty());
        set
    }

    /// The one pre-rule that stands for the given rules.
    pub fn create(rules: Vec<PreRules>) -> (rule: PreRules)
        ensures
            rule@ == created(pre_rule_views(rules@)),
    {
        let ghost all = pre_rule_views(rules@);
        let mut flat: Vec<PreRules> = Vec::new();
        let mut i: usize = 0;
        assert(all.take(0) =~= Seq::<PreRulesView>::empty());
        assert(pre_rule_views(flat@) =~= Seq::<PreRulesView>::empty());
        while i < rules.len()
            invariant
                i <= rules.len(),
                all == pre_rule_views(rules@),
                pre_rule_views(flat@) == flat_rules(all.take(i as int)),
            decreases rules.len() - i,
        {
            assert(all.take(i + 1).drop_last() =~= all.take(i as int));
            assert(all.take(i + 1).last() == rules[i as int]@);
            let ghost before = pre_rule_views(flat@);
            match &rules[i] {
                PreRules::PreRuleSet(set) => {
                    proof {
                        lemma_set_view(*set);
                    }
                    let mut j: usize = 0;
                    while j < set.rules.len()
                        invariant
                            j <= set.rules.len(),
                            pre_rule_views(flat@) == before + set@.take(j as int),
                        decreases set.rules.len() - j,
                    {
                        let ghost so_far = pre_rule_views(flat@);
                        flat.push(clone_pre_rule(&set.rules[j]));
                        assert(pre_rule_views(flat@) =~= so_far.push(set.rules[j as int]@));
                        assert(set@.take(j + 1) =~= set@.take(j as int).push(set.rules[j as int]@));
                        j += 1;
                    }
                    assert(set@.take(j as int) =~= set@);
                },
                other => {
                    flat.push(clone_pre_rule(other));
                    assert(pre_rule_views(flat@) =~= before.push(other@));
                },
            }
            i += 1;
        }
        assert(all.take(i as int) =~= all);
        if flat.len() == 0 {
            PreRules::NullPreRule(NullPreRule::new())
        } else if flat.len() == 1 {
            let one = clone_pre_rule(&flat[0]);
            assert(pre_rule_views(flat@)[0] == flat[0]@);
            one
        } else {
            let set = PreRuleSet { rules: flat };
            proof {
                lemma_set_view(set);
            }
            PreRules::PreRuleSet(set)
        }
    }
}

/// The value that a pre-rule gives to its property: that of a rule with
/// one value, and of the first member of a group; no value otherwise.
pub open spec fn value_of(rule: PreRulesView) -> Option<Seq<char>>
    decreases rule,
{
    match rule {
        PreRulesView::Styles(styles) => match styles.value {
            PreRuleValueView::One(v) => Some(v),
            PreRuleValueView::Many(_) => None,
        },
        PreRulesView::Group(members) => if members.len() > 0 {
            value_of(members[0])
        } else {
            None
        },
        _ => None,
    }
}

impl StylesPreRule {
    /// Compiles the rule to its class and CSS.
    pub fn compiled(&self, prefix: &str) -> (r: CompiledResult)
        ensures
            r@ == CompiledView::Computed(seq![compiled_one(self@, prefix@)]),
    {
        let (_, class_name, style) = compile_rule(
            self.property.as_str(),
            &self.value,
            self.pseudos.as_slice(),
            self.at_rules.as_slice(),
            prefix,
        );
        let raised = InjectableStyle {
            ltr: style.ltr,
            rtl: style.rtl,
            priority: add_held(style.priority, self.bonus),
        };
        let mut styles: Vec<(String, InjectableStyle)> = Vec::new();
        styles.push((class_name, raised));
        assert(computed_views(styles@) =~= seq![compiled_one(self@, prefix@)]);
        CompiledResult::ComputedStyles(styles)
    }

    /// The value of the rule, where it has one value.
    pub fn get_value(&self) -> (v: Option<String>)
        ensures
            match value_of(PreRulesView::Styles(self@)) {
                Some(text) => v is Some && v->0@ == text,
                None => v is None,
            },
    {
        match &self.value {
            PreRuleValue::String(s) => Some(s.clone()),
            PreRuleValue::Vec(_) => None,
        }
    }
}

/// Compiles a pre-rule.
pub fn compile_pre_rule(rule: &PreRules, prefix: &str) -> (r: CompiledResult)
    ensures
        r@ == compiled(rule@, prefix@),
    decreases rule,
{
    match rule {
        PreRules::PreRuleSet(set) => {
            proof {
                lemma_set_view(*set);
            }
            CompiledResult::ComputedStyles(compile_members(&set.rules, prefix))
        },
        PreRules::StylesPreRule(styles) => styles.compiled(prefix),
        PreRules::NullPreRule(_) => CompiledResult::Null,
        PreRules::PreIncludedStylesRule(included) => CompiledResult::IncludedStyle(
            clone_value(&included.included_styles),
        ),
    }
}

/// Compiles the members of a group.
pub fn compile_members(rules: &Vec<PreRules>, prefix: &str) -> (out: Vec<(String, InjectableStyle)>)
    ensures
        computed_views(out@) == compiled_members(
            pre_rule_views(rules@),
            rules.len() as nat,
            prefix@,
        ),
    decreases rules,
{
    let ghost all = pre_rule_views(rules@);
    let mut out: Vec<(String, InjectableStyle)> = Vec::new();
    let mut i: usize = 0;
    assert(computed_views(out@) =~= Seq::<(Seq<char>, InjectableStyleView)>::empty());
    while i < rules.len()
        invariant
            i <= rules.len(),
            all == pre_rule_views(rules@),
            computed_views(out@) == compiled_members(all, i as nat, prefix@),
        decreases rules.len() - i,
    {
        assert(all[i as int] == rules[i as int]@);
        match compile_pre_rule(&rules[i], prefix) {
            CompiledResult::ComputedStyles(styles) => {
                append_styles(&mut out, styles);
            },
            _ => {},
        }
        i += 1;
    }
    out
}

/// Moves the classes of `more` to the end of `out`.
pub fn append_styles(out: &mut Vec<(String, InjectableStyle)>, more: Vec<(String, InjectableStyle)>)
    ensures
        computed_views(final(out)@) == computed_views(old(out)@) + computed_views(more@),
{
    let mut more = more;
    let ghost added = more@;
    out.append(&mut more);
    assert(computed_views(out@) =~= computed_views(old(out)@) + computed_views(added));
}

impl PreRuleSet {
    /// Compiles the rules of the set, one after another.
    pub fn compiled(&self, prefix: &str) -> (r: CompiledResult)
        ensures
            r@ == compiled(PreRulesView::Group(self@), prefix@),
    {
        CompiledResult::ComputedStyles(compile_members(&self.rules, prefix))
    }

    /// The value of the first rule of the set.
    pub fn get_value(&self) -> (v: Option<String>)
        ensures
            match value_of(PreRulesView::Group(self@)) {
                Some(text) => v is Some && v->0@ == text,
                None => v is None,
            },
    {
        if self.rules.len() == 0 {
            None
        } else {
            assert(self@[0] == self.rules[0]@);
            get_rule_value(&self.rules[0])
        }
    }
}

/// The value that a pre-rule gives to its property.
pub fn get_rule_value(rule: &PreRules) -> (v: Option<String>)
    ensures
        match value_of(rule@) {
            Some(text) => v is Some && v->0@ == text,
            None => v is None,
        },
    decreases rule,
{
    match rule {
        PreRules::PreRuleSet(set) => {
            proof {
                lemma_set_view(*set);
            }
            if set.rules.len() == 0 {
                None
            } else {
                assert(set@[0] == set.rules[0]@);
                first_rule_value(&set.rules)
            }
        },
        PreRules::StylesPreRule(styles) => styles.get_value(),
        _ => None,
    }
}

/// The value of the first of the rules.
fn first_rule_value(rules: &Vec<PreRules>) -> (v: Option<String>)
    requires
        rules.len() > 0,
    ensures
        match value_of(rules[0]@) {
            Some(text) => v is Some && v->0@ == text,
            None => v is None,
        },
    decreases rules,
{
    get_rule_value(&rules[0])
}

} // verus!
