//! Structural checks on what a style definition may hold.
use vstd::prelude::*;
use crate::ast::{
    array_view, key_values_view, lemma_array_view, lemma_object_view, props_view, ArrayElem,
    ArrayElemView, Expr, ExprView, KeyValueProp, KeyValuePropView, Pat, PatView, PropName,
    PropNameView, PropOrSpread, PropOrSpreadView,
};
use crate::decimal::is_digit;
use crate::errors::{diagnostic_of, Diagnostic, Message};
use crate::factories::{get_key_values_from_object, key_values_of};
use crate::text::{clone_strings_of, has_prefix, starts_with, str_eq, to_chars, views};

verus! {

/// The key as text, where it is an identifier or a string.
pub open spec fn key_str(key: PropNameView) -> Option<Seq<char>> {
    match key {
        PropNameView::Ident(s) => Some(s),
        PropNameView::Str(s) => Some(s),
        _ => None,
    }
}

/// The key names a condition or the default: it begins with `:` or `@`,
/// or is `default`.
pub open spec fn is_conditional_key(key: Seq<char>) -> bool {
    (key.len() > 0 && (key[0] == ':' || key[0] == '@')) || key == "default"@
}

/// The key opens a condition: it begins with `:` or `@`.
pub open spec fn opens_condition(key: Seq<char>) -> bool {
    key.len() > 0 && (key[0] == ':' || key[0] == '@')
}

/// The key is one under which an included namespace is kept:
/// `__included_` and a number.
pub open spec fn is_included_key(key: Seq<char>) -> bool {
    &&& has_prefix(key, "__included_"@)
    &&& key.len() > "__included_"@.len()
    &&& forall|i: int| "__included_"@.len() <= i < key.len() ==> is_digit(#[trigger] key[i])
}

/// `conditions` holds `key`.
pub open spec fn holds(conditions: Seq<Seq<char>>, key: Seq<char>) -> bool {
    exists|i: int| 0 <= i < conditions.len() && #[trigger] conditions[i] == key
}

/// The first member among the first `n` that is neither `key: value` nor
/// a shorthand makes the object unusable: a spread is not supported, any
/// other member is no legal value.
pub open spec fn members_error(props: Seq<PropOrSpreadView>, n: nat) -> Option<Diagnostic>
    decreases n,
{
    if n == 0 || n > props.len() {
        None
    } else {
        match members_error(props, (n - 1) as nat) {
            Some(d) => Some(d),
            None => match props[n - 1] {
                PropOrSpreadView::Spread(_) => Some(diagnostic_of(Message::SpreadNotSupported)),
                PropOrSpreadView::Other => Some(diagnostic_of(Message::IllegalPropValue)),
                _ => None,
            },
        }
    }
}

/// What is wrong with the first `n` places of an array: a spread, where
/// spreads are looked for, or an element that is no literal.
pub open spec fn array_error(elems: Seq<ArrayElemView>, n: nat, spreads: bool, message: Message) -> Option<
    Diagnostic,
>
    decreases n,
{
    if n == 0 || n > elems.len() {
        None
    } else {
        match array_error(elems, (n - 1) as nat, spreads, message) {
            Some(d) => Some(d),
            None => match elems[n - 1] {
                ArrayElemView::Hole => None,
                ArrayElemView::Elem(x) => if spreads && x.spread {
                    Some(diagnostic_of(Message::SpreadNotSupported))
                } else if !(*x.expr is Lit) {
                    Some(diagnostic_of(message))
                } else {
                    None
                },
            },
        }
    }
}

/// What is wrong with a key of a namespace: a string key must name a
/// condition or the default, and any key must be an identifier or a
/// string.
pub open spec fn namespace_key_error(key: PropNameView) -> Option<Diagnostic> {
    match key {
        PropNameView::Ident(_) => None,
        PropNameView::Str(s) => if is_conditional_key(s) {
            None
        } else {
            Some(diagnostic_of(Message::InvalidPseudoOrAtRule))
        },
        _ => Some(diagnostic_of(Message::NonStaticValue)),
    }
}

/// What is wrong with an entry whose value is neither a literal, an array
/// nor an object: an included namespace may stand at the top level only.
pub open spec fn include_error(key: Seq<char>, conditions: Seq<Seq<char>>) -> Option<Diagnostic> {
    if is_included_key(key) && conditions.len() > 0 {
        Some(diagnostic_of(Message::OnlyTopLevelIncludes))
    } else {
        None
    }
}

/// What is wrong with a conditional key under the given conditions: it
/// must name a condition or the default, and no condition twice.
pub open spec fn conditional_key_error(key: Seq<char>, conditions: Seq<Seq<char>>) -> Option<Diagnostic> {
    if !is_conditional_key(key) {
        Some(diagnostic_of(Message::InvalidPseudoOrAtRule))
    } else if holds(conditions, key) {
        Some(diagnostic_of(Message::DuplicateConditional))
    } else {
        None
    }
}

/// What is wrong with one entry of a namespace under the given
/// conditions; nothing where the entry is valid.
pub open spec fn namespace_error(kv: KeyValuePropView, conditions: Seq<Seq<char>>) -> Option<Diagnostic>
    decreases kv,
{
    match namespace_key_error(kv.key) {
        Some(d) => Some(d),
        None => {
            let key = key_str(kv.key)->0;
            match *kv.value {
                ExprView::Lit(_) => None,
                ExprView::Array(elems) => array_error(
                    elems,
                    elems.len(),
                    true,
                    Message::IllegalPropArrayValue,
                ),
                ExprView::Object(props) => if opens_condition(key) {
                    if holds(conditions, key) {
                        Some(diagnostic_of(Message::DuplicateConditional))
                    } else {
                        match members_error(props, props.len()) {
                            Some(d) => Some(d),
                            None => members_namespace_error(props, props.len(), conditions.push(key)),
                        }
                    }
                } else {
                    match members_error(props, props.len()) {
                        Some(d) => Some(d),
                        None => members_conditional_error(props, props.len(), conditions),
                    }
                },
                _ => include_error(key, conditions),
            }
        },
    }
}

/// What is wrong with the first `n` members of an object read as entries
/// of a namespace.
pub open spec fn members_namespace_error(props: Seq<PropOrSpreadView>, n: nat, conditions: Seq<Seq<char>>) -> Option<
    Diagnostic,
>
    decreases props, n,
{
    if n == 0 || n > props.len() {
        None
    } else {
        match members_namespace_error(props, (n - 1) as nat, conditions) {
            Some(d) => Some(d),
            None => match props[n - 1] {
                PropOrSpreadView::KeyValue(kv) => namespace_error(kv, conditions),
                PropOrSpreadView::Shorthand(id) => include_error(id.0, conditions),
                _ => None,
            },
        }
    }
}

/// What is wrong with one conditional entry under the given conditions.
pub open spec fn conditional_error(kv: KeyValuePropView, conditions: Seq<Seq<char>>) -> Option<Diagnostic>
    decreases kv,
{
    match key_str(kv.key) {
        None => Some(diagnostic_of(Message::NonStaticValue)),
        Some(key) => match conditional_key_error(key, conditions) {
            Some(d) => Some(d),
            None => match *kv.value {
                ExprView::Lit(_) => None,
                ExprView::Array(elems) => array_error(
                    elems,
                    elems.len(),
                    false,
                    Message::IllegalPropValue,
                ),
                ExprView::Object(props) => match members_error(props, props.len()) {
                    Some(d) => Some(d),
                    None => members_conditional_error(props, props.len(), conditions.push(key)),
                },
                ExprView::Ident(_) => if is_included_key(key) {
                    Some(diagnostic_of(Message::OnlyTopLevelIncludes))
                } else {
                    None
                },
                _ => Some(diagnostic_of(Message::IllegalPropValue)),
            },
        },
    }
}

/// What is wrong with a shorthand member read as a conditional entry.
pub open spec fn shorthand_conditional_error(sym: Seq<char>, conditions: Seq<Seq<char>>) -> Option<
    Diagnostic,
> {
    match conditional_key_error(sym, conditions) {
        Some(d) => Some(d),
        None => if is_included_key(sym) {
            Some(diagnostic_of(Message::OnlyTopLevelIncludes))
        } else {
            None
        },
    }
}

/// What is wrong with the first `n` members of an object read as
/// conditional entries.
pub open spec fn members_conditional_error(props: Seq<PropOrSpreadView>, n: nat, conditions: Seq<Seq<char>>) -> Option<
    Diagnostic,
>
    decreases props, n,
{
    if n == 0 || n > props.len() {
        None
    } else {
        match members_conditional_error(props, (n - 1) as nat, conditions) {
            Some(d) => Some(d),
            None => match props[n - 1] {
                PropOrSpreadView::KeyValue(kv) => conditional_error(kv, conditions),
                PropOrSpreadView::Shorthand(id) => shorthand_conditional_error(id.0, conditions),
                _ => None,
            },
        }
    }
}

/// What is wrong with the first `n` of the given entries of a namespace.
pub open spec fn namespaces_error(namespaces: Seq<KeyValuePropView>, n: nat, conditions: Seq<Seq<char>>) -> Option<
    Diagnostic,
>
    decreases n,
{
    if n == 0 || n > namespaces.len() {
        None
    } else {
        match namespaces_error(namespaces, (n - 1) as nat, conditions) {
            Some(d) => Some(d),
            None => namespace_error(namespaces[n - 1], conditions),
        }
    }
}

/// What is wrong with the parameters of a dynamic style function: each
/// must be a plain name.
pub open spec fn params_error(params: Seq<PatView>) -> Option<Diagnostic> {
    if exists|i: int| 0 <= i < params.len() && !((#[trigger] params[i]) is Ident) {
        Some(diagnostic_of(Message::OnlyNamedParametersInDynamicStyleFunctions))
    } else {
        None
    }
}

/// What is wrong with a namespace that is written as an object literal:
/// its members must be `key: value` members or shorthands, and each must
/// be a valid entry of a namespace under no condition.
pub open spec fn namespace_body_error(body: Seq<PropOrSpreadView>) -> Option<Diagnostic> {
    match members_error(body, body.len()) {
        Some(d) => Some(d),
        None => namespaces_error(key_values_of(body), body.len(), Seq::empty()),
    }
}

/// What is wrong with the namespaces among the first `n` members of a
/// definition of styles: the first fault in source order. Only a
/// namespace that is written as an object literal is looked into.
pub open spec fn definition_error(props: Seq<PropOrSpreadView>, n: nat) -> Option<Diagnostic>
    decreases n,
{
    if n == 0 || n > props.len() {
        None
    } else {
        match definition_error(props, (n - 1) as nat) {
            Some(d) => Some(d),
            None => match props[n - 1] {
                PropOrSpreadView::KeyValue(kv) => match *kv.value {
                    ExprView::Object(body) => namespace_body_error(body),
                    _ => None,
                },
                _ => None,
            },
        }
    }
}

/// What is wrong with the argument of a call that creates styles, where
/// it is written as an object literal of namespaces.
pub open spec fn create_argument_error(arg: ExprView) -> Option<Diagnostic> {
    match arg {
        ExprView::Object(props) => definition_error(props, props.len()),
        _ => None,
    }
}

/// The diagnostic of a check, where it failed.
pub open spec fn error_of(r: Result<(), Diagnostic>) -> Option<Diagnostic> {
    match r {
        Ok(_) => None,
        Err(d) => Some(d),
    }
}

/// Whether the conditions hold the key.
pub fn contains_text(conditions: &Vec<String>, key: &str) -> (yes: bool)
    ensures
        yes == holds(views(conditions@), key@),
{
    let mut i: usize = 0;
    while i < conditions.len()
        invariant
            i <= conditions.len(),
            forall|j: int| 0 <= j < i ==> (#[trigger] views(conditions@)[j]) != key@,
        decreases conditions.len() - i,
    {
        if str_eq(conditions[i].as_str(), key) {
            assert(views(conditions@)[i as int] == key@);
            return true;
        }
        i += 1;
    }
    false
}

/// Whether the key names a condition or the default.
pub fn conditional_key(key: &str) -> (yes: bool)
    ensures
        yes == is_conditional_key(key@),
{
    let chars = to_chars(key);
    (chars.len() > 0 && (chars[0] == ':' || chars[0] == '@')) || str_eq(key, "default")
}

/// Whether the key opens a condition.
pub fn condition_key(key: &str) -> (yes: bool)
    ensures
        yes == opens_condition(key@),
{
    let chars = to_chars(key);
    chars.len() > 0 && (chars[0] == ':' || chars[0] == '@')
}

/// Whether the key is one under which an included namespace is kept.
pub fn included_key(key: &str) -> (yes: bool)
    ensures
        yes == is_included_key(key@),
{
    let chars = to_chars(key);
    let head = to_chars("__included_");
    if !starts_with(&chars, &head) || chars.len() <= head.len() {
        return false;
    }
    let mut i: usize = head.len();
    while i < chars.len()
        invariant
            head@ == "__included_"@,
            head.len() <= i <= chars.len(),
            chars@ == key@,
            forall|j: int| head.len() <= j < i ==> is_digit(#[trigger] chars@[j]),
        decreases chars.len() - i,
    {
        let c = chars[i];
        if !(c >= '0' && c <= '9') {
            assert(!is_digit(key@[i as int]));
            return false;
        }
        i += 1;
    }
    true
}

/// Checks that every member is `key: value` or a shorthand.
pub fn check_members(props: &Vec<PropOrSpread>) -> (r: Result<(), Diagnostic>)
    ensures
        error_of(r) == members_error(props_view(props@), props.len() as nat),
{
    let ghost all = props_view(props@);
    let mut i: usize = 0;
    while i < props.len()
        invariant
            i <= props.len(),
            all == props_view(props@),
            members_error(all, i as nat) is None,
        decreases props.len() - i,
    {
        assert(all[i as int] == props[i as int]@);
        let found = match &props[i] {
            PropOrSpread::Spread(_) => Some(Diagnostic::new(Message::SpreadNotSupported)),
            PropOrSpread::Other => Some(Diagnostic::new(Message::IllegalPropValue)),
            _ => None,
        };
        if let Some(d) = found {
            proof {
                lemma_members_error_stays(all, (i + 1) as nat, props.len() as nat);
            }
            return Err(d);
        }
        i += 1;
    }
    Ok(())
}

/// The first unusable member stays the first however many members
/// follow.
proof fn lemma_members_error_stays(props: Seq<PropOrSpreadView>, i: nat, n: nat)
    requires
        i <= n <= props.len(),
        members_error(props, i) is Some,
    ensures
        members_error(props, n) == members_error(props, i),
    decreases n,
{
    if i < n {
        lemma_members_error_stays(props, i, (n - 1) as nat);
    }
}

/// Checks the places of an array.
pub fn check_array(elems: &Vec<ArrayElem>, spreads: bool, message: Message) -> (r: Result<
    (),
    Diagnostic,
>)
    ensures
        error_of(r) == array_error(array_view(elems@), elems.len() as nat, spreads, message),
{
    let ghost all = array_view(elems@);
    let mut i: usize = 0;
    while i < elems.len()
        invariant
            i <= elems.len(),
            all == array_view(elems@),
            array_error(all, i as nat, spreads, message) is None,
        decreases elems.len() - i,
    {
        assert(all[i as int] == elems[i as int]@);
        let found = match &elems[i] {
            ArrayElem::Hole => None,
            ArrayElem::Elem(x) => {
                let literal = match &*x.expr {
                    Expr::Lit(_) => true,
                    _ => false,
                };
                if spreads && x.spread {
                    Some(Diagnostic::new(Message::SpreadNotSupported))
                } else if !literal {
                    Some(Diagnostic::new(message))
                } else {
                    None
                }
            },
        };
        if let Some(d) = found {
            proof {
                lemma_array_error_stays(all, (i + 1) as nat, elems.len() as nat, spreads, message);
            }
            return Err(d);
        }
        i += 1;
    }
    Ok(())
}

/// The first fault of an array stays the first however many places
/// follow.
proof fn lemma_array_error_stays(elems: Seq<ArrayElemView>, i: nat, n: nat, spreads: bool, message: Message)
    requires
        i <= n <= elems.len(),
        array_error(elems, i, spreads, message) is Some,
    ensures
        array_error(elems, n, spreads, message) == array_error(elems, i, spreads, message),
    decreases n,
{
    if i < n {
        lemma_array_error_stays(elems, i, (n - 1) as nat, spreads, message);
    }
}

/// The conditions with one more.
fn with_condition(conditions: &Vec<String>, key: &str) -> (out: Vec<String>)
    ensures
        views(out@) == views(conditions@).push(key@),
{
    let mut out = clone_strings_of(conditions);
    out.push(key.to_string());
    assert(views(out@) =~= views(conditions@).push(key@));
    out
}

/// Checks one entry of a namespace under the given conditions.
pub fn validate_namespace_entry(kv: &KeyValueProp, conditions: &Vec<String>) -> (r: Result<
    (),
    Diagnostic,
>)
    ensures
        error_of(r) == namespace_error(kv@, views(conditions@)),
    decreases kv,
{
    let key: &String = match &kv.key {
        PropName::Ident(s) => s,
        PropName::Str(s) => {
            if !conditional_key(s.as_str()) {
                return Err(Diagnostic::new(Message::InvalidPseudoOrAtRule));
            }
            s
        },
        _ => {
            return Err(Diagnostic::new(Message::NonStaticValue));
        },
    };
    match &*kv.value {
        Expr::Lit(_) => Ok(()),
        Expr::Array(elems) => {
            proof {
                lemma_array_view(*elems);
            }
            check_array(elems, true, Message::IllegalPropArrayValue)
        },
        Expr::Object(props) => {
            proof {
                lemma_object_view(*props);
            }
            if condition_key(key.as_str()) {
                if contains_text(conditions, key.as_str()) {
                    return Err(Diagnostic::new(Message::DuplicateConditional));
                }
                match check_members(props) {
                    Err(d) => Err(d),
                    Ok(()) => {
                        let extended = with_condition(conditions, key.as_str());
                        validate_members_as_namespace(props, &extended)
                    },
                }
            } else {
                match check_members(props) {
                    Err(d) => Err(d),
                    Ok(()) => validate_members_as_conditions(props, conditions),
                }
            }
        },
        _ => check_include(key.as_str(), conditions),
    }
}

/// Checks that an included namespace stands at the top level.
fn check_include(key: &str, conditions: &Vec<String>) -> (r: Result<(), Diagnostic>)
    ensures
        error_of(r) == include_error(key@, views(conditions@)),
{
    if included_key(key) && conditions.len() > 0 {
        Err(Diagnostic::new(Message::OnlyTopLevelIncludes))
    } else {
        Ok(())
    }
}

/// Checks the members of an object as entries of a namespace.
pub fn validate_members_as_namespace(props: &Vec<PropOrSpread>, conditions: &Vec<String>) -> (r:
    Result<(), Diagnostic>)
    ensures
        error_of(r) == members_namespace_error(
            props_view(props@),
            props.len() as nat,
            views(conditions@),
        ),
    decreases props,
{
    let ghost all = props_view(props@);
    let mut i: usize = 0;
    while i < props.len()
        invariant
            i <= props.len(),
            all == props_view(props@),
            members_namespace_error(all, i as nat, views(conditions@)) is None,
        decreases props.len() - i,
    {
        assert(all[i as int] == props[i as int]@);
        let step = match &props[i] {
            PropOrSpread::KeyValue(kv) => validate_namespace_entry(kv, conditions),
            PropOrSpread::Shorthand(id) => check_include(id.sym.as_str(), conditions),
            _ => Ok(()),
        };
        if let Err(d) = step {
            proof {
                lemma_members_namespace_error_stays(all, (i + 1) as nat, props.len() as nat, views(conditions@));
            }
            return Err(d);
        }
        i += 1;
    }
    Ok(())
}

/// The first fault among members read as entries of a namespace stays
/// the first however many members follow.
proof fn lemma_members_namespace_error_stays(props: Seq<PropOrSpreadView>, i: nat, n: nat, conditions: Seq<Seq<char>>)
    requires
        i <= n <= props.len(),
        members_namespace_error(props, i, conditions) is Some,
    ensures
        members_namespace_error(props, n, conditions) == members_namespace_error(props, i, conditions),
    decreases n,
{
    if i < n {
        lemma_members_namespace_error_stays(props, i, (n - 1) as nat, conditions);
    }
}

/// Checks a conditional key under the given conditions.
fn check_conditional_key(key: &str, conditions: &Vec<String>) -> (r: Result<(), Diagnostic>)
    ensures
        error_of(r) == conditional_key_error(key@, views(conditions@)),
{
    if !conditional_key(key) {
        Err(Diagnostic::new(Message::InvalidPseudoOrAtRule))
    } else if contains_text(conditions, key) {
        Err(Diagnostic::new(Message::DuplicateConditional))
    } else {
        Ok(())
    }
}

/// Checks one conditional entry: its key must name a condition or the
/// default and none twice; its value must be a literal, an array of
/// literals, an object of conditional entries, or a name.
pub fn validate_conditional_styles(inner_key_value: &KeyValueProp, conditions: &Vec<String>) -> (r:
    Result<(), Diagnostic>)
    ensures
        error_of(r) == conditional_error(inner_key_value@, views(conditions@)),
    decreases inner_key_value,
{
    let key: &String = match &inner_key_value.key {
        PropName::Ident(s) => s,
        PropName::Str(s) => s,
        _ => {
            return Err(Diagnostic::new(Message::NonStaticValue));
        },
    };
    if let Err(d) = check_conditional_key(key.as_str(), conditions) {
        return Err(d);
    }
    match &*inner_key_value.value {
        Expr::Lit(_) => Ok(()),
        Expr::Array(elems) => {
            proof {
                lemma_array_view(*elems);
            }
            check_array(elems, false, Message::IllegalPropValue)
        },
        Expr::Object(props) => {
            proof {
                lemma_object_view(*props);
            }
            match check_members(props) {
                Err(d) => Err(d),
                Ok(()) => {
                    let extended = with_condition(conditions, key.as_str());
                    validate_members_as_conditions(props, &extended)
                },
            }
        },
        Expr::Ident(_) => if included_key(key.as_str()) {
            Err(Diagnostic::new(Message::OnlyTopLevelIncludes))
        } else {
            Ok(())
        },
        _ => Err(Diagnostic::new(Message::IllegalPropValue)),
    }
}

/// Checks the members of an object as conditional entries.
pub fn validate_members_as_conditions(props: &Vec<PropOrSpread>, conditions: &Vec<String>) -> (r:
    Result<(), Diagnostic>)
    ensures
        error_of(r) == members_conditional_error(
            props_view(props@),
            props.len() as nat,
            views(conditions@),
        ),
    decreases props,
{
    let ghost all = props_view(props@);
    let mut i: usize = 0;
    while i < props.len()
        invariant
            i <= props.len(),
            all == props_view(props@),
            members_conditional_error(all, i as nat, views(conditions@)) is None,
        decreases props.len() - i,
    {
        assert(all[i as int] == props[i as int]@);
        let step = match &props[i] {
            PropOrSpread::KeyValue(kv) => validate_conditional_styles(kv, conditions),
            PropOrSpread::Shorthand(id) => {
                match check_conditional_key(id.sym.as_str(), conditions) {
                    Err(d) => Err(d),
                    Ok(()) => if included_key(id.sym.as_str()) {
                        Err(Diagnostic::new(Message::OnlyTopLevelIncludes))
                    } else {
                        Ok(())
                    },
                }
            },
            _ => Ok(()),
        };
        if let Err(d) = step {
            proof {
                lemma_members_conditional_error_stays(all, (i + 1) as nat, props.len() as nat, views(conditions@));
            }
            return Err(d);
        }
        i += 1;
    }
    Ok(())
}

/// The first fault among members read as conditional entries stays the
/// first however many members follow.
proof fn lemma_members_conditional_error_stays(props: Seq<PropOrSpreadView>, i: nat, n: nat, conditions: Seq<Seq<char>>)
    requires
        i <= n <= props.len(),
        members_conditional_error(props, i, conditions) is Some,
    ensures
        members_conditional_error(props, n, conditions) == members_conditional_error(props, i, conditions),
    decreases n,
{
    if i < n {
        lemma_members_conditional_error_stays(props, i, (n - 1) as nat, conditions);
    }
}

/// Checks the entries of a namespace under the given conditions: the
/// first fault in source order is reported.
pub fn validate_namespace(namespaces: &[KeyValueProp], conditions: &Vec<String>) -> (r: Result<
    (),
    Diagnostic,
>)
    ensures
        error_of(r) == namespaces_error(
            key_values_view(namespaces@),
            namespaces.len() as nat,
            views(conditions@),
        ),
{
    let ghost all = key_values_view(namespaces@);
    let mut i: usize = 0;
    while i < namespaces.len()
        invariant
            i <= namespaces.len(),
            all == key_values_view(namespaces@),
            namespaces_error(all, i as nat, views(conditions@)) is None,
        decreases namespaces.len() - i,
    {
        assert(all[i as int] == namespaces[i as int]@);
        if let Err(d) = validate_namespace_entry(&namespaces[i], conditions) {
            proof {
                lemma_namespaces_error_stays(all, (i + 1) as nat, namespaces.len() as nat, views(conditions@));
            }
            return Err(d);
        }
        i += 1;
    }
    Ok(())
}

/// The first fault among the entries stays the first however many
/// entries follow.
proof fn lemma_namespaces_error_stays(namespaces: Seq<KeyValuePropView>, i: nat, n: nat, conditions: Seq<Seq<char>>)
    requires
        i <= n <= namespaces.len(),
        namespaces_error(namespaces, i, conditions) is Some,
    ensures
        namespaces_error(namespaces, n, conditions) == namespaces_error(namespaces, i, conditions),
    decreases n,
{
    if i < n {
        lemma_namespaces_error_stays(namespaces, i, (n - 1) as nat, conditions);
    }
}

/// Checks that every parameter of a dynamic style function is a plain
/// name.
pub fn validate_dynamic_style_params(params: &Vec<Pat>) -> (r: Result<(), Diagnostic>)
    ensures
        error_of(r) == params_error(Seq::new(params.len() as nat, |i: int| params[i]@)),
{
    let ghost all = Seq::new(params.len() as nat, |i: int| params[i]@);
    let mut i: usize = 0;
    while i < params.len()
        invariant
            i <= params.len(),
            all == Seq::new(params.len() as nat, |i: int| params[i]@),
            forall|j: int| 0 <= j < i ==> (#[trigger] all[j]) is Ident,
        decreases params.len() - i,
    {
        match &params[i] {
            Pat::Ident(_) => {},
            Pat::Other => {
                assert(!(all[i as int] is Ident));
                return Err(Diagnostic::new(Message::OnlyNamedParametersInDynamicStyleFunctions));
            },
        }
        i += 1;
    }
    Ok(())
}

/// Checks a namespace that is written as an object literal.
pub fn validate_namespace_body(body: &Vec<PropOrSpread>) -> (r: Result<(), Diagnostic>)
    ensures
        error_of(r) == namespace_body_error(props_view(body@)),
{
    match get_key_values_from_object(body) {
        Err(d) => Err(d),
        Ok(entries) => {
            let conditions: Vec<String> = Vec::new();
            assert(views(conditions@) =~= Seq::<Seq<char>>::empty());
            validate_namespace(entries.as_slice(), &conditions)
        },
    }
}

/// Checks the argument of a call that creates styles: every namespace
/// that is written as an object literal is checked, and the first fault
/// in source order is reported.
pub fn validate_create_argument(arg: &Expr) -> (r: Result<(), Diagnostic>)
    ensures
        error_of(r) == create_argument_error(arg@),
{
    match arg {
        Expr::Object(props) => {
            proof {
                lemma_object_view(*props);
            }
            let ghost all = props_view(props@);
            assert(arg@ == ExprView::Object(all));
            let mut i: usize = 0;
            while i < props.len()
                invariant
                    i <= props.len(),
                    all == props_view(props@),
                    arg@ == ExprView::Object(all),
                    definition_error(all, i as nat) is None,
                decreases props.len() - i,
            {
                assert(all[i as int] == props[i as int]@);
                let step = match &props[i] {
                    PropOrSpread::KeyValue(kv) => {
                        assert(all[i as int] == PropOrSpreadView::KeyValue(kv@));
                        assert(*kv@.value == kv.value@);
                        match &*kv.value {
                            Expr::Object(body) => {
                                proof {
                                    lemma_object_view(*body);
                                }
                                validate_namespace_body(body)
                            },
                            _ => Ok(()),
                        }
                    },
                    _ => Ok(()),
                };
                assert(definition_error(all, (i + 1) as nat) == error_of(step));
                if let Err(d) = step {
                    proof {
                        lemma_definition_error_stays(all, (i + 1) as nat, props.len() as nat);
                    }
                    return Err(d);
                }
                i += 1;
            }
            Ok(())
        },
        _ => Ok(()),
    }
}

/// The first fault among the namespaces stays the first however many
/// members follow.
proof fn lemma_definition_error_stays(props: Seq<PropOrSpreadView>, i: nat, n: nat)
    requires
        i <= n <= props.len(),
        definition_error(props, i) is Some,
    ensures
        definition_error(props, n) == definition_error(props, i),
    decreases n,
{
    if i < n {
        lemma_definition_error_stays(props, i, (n - 1) as nat);
    }
}

} // verus!
