//! Building and reshaping pieces of the syntax tree.
use vstd::prelude::*;
use crate::ast::{
    clone_expr, clone_key_value, clone_prop, exprs_view, key_values_view, lemma_object_view,
    props_view, Expr, ExprOrSpread, ExprOrSpreadView, ExprView, Id, KeyValueProp,
    KeyValuePropView, Lit, LitView, Pat, PatView, PropName, PropNameView, PropOrSpread,
    PropOrSpreadView,
};
use crate::decimal::is_digit;
use crate::errors::{diagnostic_of, Diagnostic, Message};
use crate::number::Number;
use crate::text::{append_str, from_chars, str_eq, to_chars};
use crate::validators::{check_members, key_str, members_error};

verus! {

/// A character that may begin a name.
pub open spec fn is_name_start(c: char) -> bool {
    ('a' <= c && c <= 'z') || ('A' <= c && c <= 'Z') || c == '_' || c == '$'
}

/// The text can be written as a name: it begins with a letter, `_` or
/// `$`, and goes on with those and digits.
pub open spec fn is_identifier(s: Seq<char>) -> bool {
    &&& s.len() > 0
    &&& is_name_start(s[0])
    &&& forall|i: int| 1 <= i < s.len() ==> is_name_start(#[trigger] s[i]) || is_digit(s[i])
}

/// Whether the text can be written as a name.
pub fn can_be_identifier(s: &str) -> (yes: bool)
    ensures
        yes == is_identifier(s@),
{
    let chars = to_chars(s);
    if chars.len() == 0 {
        return false;
    }
    let first = chars[0];
    if !((first >= 'a' && first <= 'z') || (first >= 'A' && first <= 'Z') || first == '_' || first
        == '$') {
        return false;
    }
    let mut i: usize = 1;
    while i < chars.len()
        invariant
            1 <= i <= chars.len(),
            chars@ == s@,
            forall|j: int| 1 <= j < i ==> is_name_start(#[trigger] chars@[j]) || is_digit(chars@[j]),
        decreases chars.len() - i,
    {
        let c = chars[i];
        let ok = (c >= 'a' && c <= 'z') || (c >= 'A' && c <= 'Z') || c == '_' || c == '$' || (c
            >= '0' && c <= '9');
        if !ok {
            assert(!(is_name_start(chars@[i as int]) || is_digit(chars@[i as int])));
            return false;
        }
        i += 1;
    }
    true
}

/// The key that a text makes: a name where it can be written as one, a
/// string otherwise.
pub open spec fn prop_name_of(value: Seq<char>) -> PropNameView {
    if is_identifier(value) {
        PropNameView::Ident(value)
    } else {
        PropNameView::Str(value)
    }
}

/// The key that a text makes.
pub fn string_to_prop_name(value: String) -> (key: Option<PropName>)
    ensures
        key is Some,
        key->0@ == prop_name_of(value@),
{
    if can_be_identifier(value.as_str()) {
        Some(PropName::Ident(value))
    } else {
        Some(PropName::Str(value))
    }
}

/// The member `key: value`.
pub fn prop_or_spread_expression_creator(key: String, value: Expr) -> (member: PropOrSpread)
    ensures
        member@ == PropOrSpreadView::KeyValue(
            KeyValuePropView { key: prop_name_of(key@), value: Box::new(value@) },
        ),
{
    let name = match string_to_prop_name(key) {
        Some(name) => name,
        None => vstd::pervasive::unreached(),
    };
    let kv = KeyValueProp { key: name, value: Box::new(value) };
    assert(kv@ == KeyValuePropView { key: kv.key@, value: Box::new(kv.value@) });
    PropOrSpread::KeyValue(kv)
}

/// The member `key: "value"`.
pub fn prop_or_spread_string_creator(key: String, value: String) -> (member: PropOrSpread)
    ensures
        member@ == PropOrSpreadView::KeyValue(
            KeyValuePropView {
                key: prop_name_of(key@),
                value: Box::new(ExprView::Lit(LitView::Str(value@))),
            },
        ),
{
    prop_or_spread_expression_creator(key, Expr::Lit(Lit::Str(value)))
}

/// The member `key: value` for a truth value.
pub fn prop_or_spread_boolean_creator(key: String, value: Option<bool>) -> (member: PropOrSpread)
    requires
        value is Some,
    ensures
        member@ == PropOrSpreadView::KeyValue(
            KeyValuePropView {
                key: prop_name_of(key@),
                value: Box::new(ExprView::Lit(LitView::Bool(value->0))),
            },
        ),
{
    match value {
        Some(b) => prop_or_spread_expression_creator(key, Expr::Lit(Lit::Bool(b))),
        None => vstd::pervasive::unreached(),
    }
}

/// A string as an expression.
pub fn string_to_expression(value: String) -> (e: Option<Expr>)
    ensures
        e is Some,
        e->0@ == ExprView::Lit(LitView::Str(value@)),
{
    Some(Expr::Lit(Lit::Str(value)))
}

/// A number as an expression.
pub fn number_to_expression(value: Number) -> (e: Option<Expr>)
    ensures
        e is Some,
        e->0@ == ExprView::Lit(LitView::Num(value)),
{
    Some(Expr::Lit(Lit::Num(value)))
}

/// A string as an argument.
pub fn expr_or_spread_string_expression_creator(value: String) -> (arg: ExprOrSpread)
    ensures
        arg@ == (ExprOrSpreadView {
            spread: false,
            expr: Box::new(ExprView::Lit(LitView::Str(value@))),
        }),
{
    ExprOrSpread { spread: false, expr: Box::new(Expr::Lit(Lit::Str(value))) }
}

/// A number as an argument.
pub fn expr_or_spread_number_expression_creator(value: Number) -> (arg: ExprOrSpread)
    ensures
        arg@ == (ExprOrSpreadView {
            spread: false,
            expr: Box::new(ExprView::Lit(LitView::Num(value))),
        }),
{
    ExprOrSpread { spread: false, expr: Box::new(Expr::Lit(Lit::Num(value))) }
}

/// The key between double quotes, where asked for.
pub open spec fn quoted(key: Seq<char>, wrap: bool) -> Seq<char> {
    if wrap {
        seq!['"'] + key + seq!['"']
    } else {
        key
    }
}

/// The key, between double quotes where asked for.
pub fn wrap_key_in_quotes(key: &str, should_wrap_in_quotes: &bool) -> (text: String)
    ensures
        text@ == quoted(key@, *should_wrap_in_quotes),
{
    if *should_wrap_in_quotes {
        let mut out: Vec<char> = Vec::new();
        out.push('"');
        append_str(&mut out, key);
        out.push('"');
        assert(out@ =~= seq!['"'] + key@ + seq!['"']);
        from_chars(&out)
    } else {
        key.to_string()
    }
}

/// The key of a member as text, where it is a name or a string.
pub fn get_key_str(key_value: &KeyValueProp) -> (key: Option<String>)
    ensures
        match key_str(key_value@.key) {
            Some(k) => key is Some && key->0@ == k,
            None => key is None,
        },
{
    match &key_value.key {
        PropName::Ident(s) => Some(wrap_key_in_quotes(s.as_str(), &false)),
        PropName::Str(s) => Some(wrap_key_in_quotes(s.as_str(), &false)),
        _ => None,
    }
}

/// The name of a parameter, where it is a plain name.
pub fn get_pat_as_string(pat: &Pat) -> (name: Option<String>)
    ensures
        match pat@ {
            PatView::Ident(id) => name is Some && name->0@ == id.0,
            PatView::Other => name is None,
        },
{
    match pat {
        Pat::Ident(id) => Some(id.sym.clone()),
        Pat::Other => None,
    }
}

/// Two keys are the same key: both names, both strings, both numbers or
/// both big integers, and equal.
pub open spec fn same_key(a: PropNameView, b: PropNameView) -> bool {
    match (a, b) {
        (PropNameView::Ident(x), PropNameView::Ident(y)) => x == y,
        (PropNameView::Str(x), PropNameView::Str(y)) => x == y,
        (PropNameView::Num(x), PropNameView::Num(y)) => x == y,
        (PropNameView::BigInt(x), PropNameView::BigInt(y)) => x == y,
        _ => false,
    }
}

/// Whether two keys are the same key.
pub fn prop_name_eq(a: &PropName, b: &PropName) -> (same: bool)
    ensures
        same == same_key(a@, b@),
{
    match (a, b) {
        (PropName::Ident(x), PropName::Ident(y)) => *x == *y,
        (PropName::Str(x), PropName::Str(y)) => *x == *y,
        (PropName::Num(x), PropName::Num(y)) => x.num == y.num && x.den == y.den,
        (PropName::BigInt(x), PropName::BigInt(y)) => *x == *y,
        _ => false,
    }
}

/// The member as `key: value`: a shorthand `{ name }` written out as
/// `{ name: name }`; any other member as it is.
pub open spec fn written_out(prop: PropOrSpreadView) -> PropOrSpreadView {
    match prop {
        PropOrSpreadView::Shorthand(id) => PropOrSpreadView::KeyValue(
            KeyValuePropView {
                key: PropNameView::Ident(id.0),
                value: Box::new(ExprView::Ident(id)),
            },
        ),
        other => other,
    }
}

/// Writes a shorthand member out as `key: value`.
pub fn transform_shorthand_to_key_values(prop: &mut PropOrSpread)
    ensures
        final(prop)@ == written_out(old(prop)@),
{
    let written = match &*prop {
        PropOrSpread::Shorthand(id) => {
            let kv = KeyValueProp {
                key: PropName::Ident(id.sym.clone()),
                value: Box::new(Expr::Ident(id.clone())),
            };
            assert(kv@ == KeyValuePropView { key: kv.key@, value: Box::new(kv.value@) });
            Some(PropOrSpread::KeyValue(kv))
        },
        _ => None,
    };
    match written {
        Some(w) => {
            *prop = w;
        },
        None => {},
    }
}

/// The expression inside every pair of parentheses around it.
pub open spec fn unparenthesised(e: ExprView) -> ExprView
    decreases e,
{
    match e {
        ExprView::Paren(inner) => unparenthesised(*inner),
        _ => e,
    }
}

/// The expression inside every pair of parentheses around it.
pub fn normalize_expr(expr: &Expr) -> (inner: &Expr)
    ensures
        inner@ == unparenthesised(expr@),
    decreases expr,
{
    match expr {
        Expr::Paren(inner) => normalize_expr(inner),
        _ => expr,
    }
}

/// The name that identifies an export of a file, or a key of it.
pub open spec fn file_based_identifier(file_name: Seq<char>, export_name: Seq<char>, key: Option<Seq<char>>) -> Seq<char> {
    file_name + "//"@ + export_name + match key {
        Some(k) => "."@ + k,
        None => Seq::empty(),
    }
}

/// The name that identifies an export of a file, or a key of it:
/// `file//export`, or `file//export.key`.
pub fn gen_file_based_identifier(file_name: &str, export_name: &str, key: Option<&str>) -> (name: String)
    ensures
        name@ == file_based_identifier(
            file_name@,
            export_name@,
            match key {
                Some(k) => Some(k@),
                None => None,
            },
        ),
{
    let mut out = to_chars(file_name);
    append_str(&mut out, "//");
    append_str(&mut out, export_name);
    match key {
        Some(k) => {
            append_str(&mut out, ".");
            append_str(&mut out, k);
            assert(out@ =~= file_name@ + "//"@ + export_name@ + ("."@ + k@));
        },
        None => {
            assert(out@ =~= file_name@ + "//"@ + export_name@ + Seq::<char>::empty());
        },
    }
    from_chars(&out)
}

/// The members of an object as `key: value` members: each as it is, a
/// shorthand written out.
pub open spec fn key_values_of(props: Seq<PropOrSpreadView>) -> Seq<KeyValuePropView> {
    Seq::new(
        props.len(),
        |i: int|
            match written_out(props[i]) {
                PropOrSpreadView::KeyValue(kv) => kv,
                _ => KeyValuePropView {
                    key: PropNameView::Ident(Seq::empty()),
                    value: Box::new(ExprView::Other),
                },
            },
    )
}

/// The members of an object as `key: value` members. A spread is not
/// supported, and a getter, setter or method is no legal value.
pub fn get_key_values_from_object(props: &Vec<PropOrSpread>) -> (r: Result<Vec<KeyValueProp>, Diagnostic>)
    ensures
        match members_error(props_view(props@), props.len() as nat) {
            Some(d) => r == Err::<Vec<KeyValueProp>, Diagnostic>(d),
            None => r is Ok && key_values_view(r->Ok_0@) == key_values_of(props_view(props@)),
        },
{
    if let Err(d) = check_members(props) {
        return Err(d);
    }
    let ghost all = props_view(props@);
    let mut out: Vec<KeyValueProp> = Vec::new();
    let mut i: usize = 0;
    while i < props.len()
        invariant
            i <= props.len(),
            all == props_view(props@),
            members_error(all, props.len() as nat) is None,
            out.len() == i,
            forall|j: int| 0 <= j < i ==> (#[trigger] out[j])@ == key_values_of(all)[j],
        decreases props.len() - i,
    {
        assert(all[i as int] == props[i as int]@);
        proof {
            lemma_no_members_error(all, props.len() as nat, i as int);
        }
        let mut prop = clone_prop(&props[i]);
        transform_shorthand_to_key_values(&mut prop);
        match prop {
            PropOrSpread::KeyValue(kv) => {
                out.push(kv);
            },
            _ => {
                assert(false);
            },
        }
        i += 1;
    }
    assert(key_values_view(out@) =~= key_values_of(all));
    Ok(out)
}

/// Where the members have no fault, each is `key: value` or a shorthand.
proof fn lemma_no_members_error(props: Seq<PropOrSpreadView>, n: nat, i: int)
    requires
        0 <= i < n <= props.len(),
        members_error(props, n) is None,
    ensures
        props[i] is KeyValue || props[i] is Shorthand,
    decreases n,
{
    if i < n - 1 {
        lemma_no_members_error(props, (n - 1) as nat, i);
    }
}

/// The key by which a member is told from others: the name of a
/// shorthand, and the key of `key: value` where it is a name or a string.
pub open spec fn dedupe_key(prop: PropOrSpreadView) -> Option<Seq<char>> {
    match prop {
        PropOrSpreadView::Shorthand(id) => Some(id.0),
        PropOrSpreadView::KeyValue(kv) => key_str(kv.key),
        _ => None,
    }
}

/// The members without those under the key.
pub open spec fn without_key(props: Seq<PropOrSpreadView>, key: Seq<char>) -> Seq<PropOrSpreadView>
    decreases props.len(),
{
    if props.len() == 0 {
        Seq::empty()
    } else {
        let head = without_key(props.drop_last(), key);
        if dedupe_key(props.last()) == Some(key) {
            head
        } else {
            head.push(props.last())
        }
    }
}

/// The members that have a key, each key once: of the members under one
/// key the last stays, and the members that stay keep their order.
pub open spec fn deduplicated(props: Seq<PropOrSpreadView>) -> Seq<PropOrSpreadView>
    decreases props.len(),
{
    if props.len() == 0 {
        Seq::empty()
    } else {
        let head = deduplicated(props.drop_last());
        match dedupe_key(props.last()) {
            Some(key) => without_key(head, key).push(props.last()),
            None => head,
        }
    }
}

/// The key by which a member is told from others.
pub fn member_key(prop: &PropOrSpread) -> (key: Option<String>)
    ensures
        match dedupe_key(prop@) {
            Some(k) => key is Some && key->0@ == k,
            None => key is None,
        },
{
    match prop {
        PropOrSpread::Shorthand(id) => Some(id.sym.clone()),
        PropOrSpread::KeyValue(kv) => {
            assert(prop@ == PropOrSpreadView::KeyValue(kv@));
            get_key_str(kv)
        },
        _ => None,
    }
}

/// Copies of the members that are not under the key.
pub fn drop_key(props: &Vec<PropOrSpread>, key: &str) -> (out: Vec<PropOrSpread>)
    ensures
        props_view(out@) == without_key(props_view(props@), key@),
{
    let ghost all = props_view(props@);
    let mut out: Vec<PropOrSpread> = Vec::new();
    let mut i: usize = 0;
    assert(all.take(0) =~= Seq::<PropOrSpreadView>::empty());
    assert(props_view(out@) =~= Seq::<PropOrSpreadView>::empty());
    while i < props.len()
        invariant
            i <= props.len(),
            all == props_view(props@),
            props_view(out@) == without_key(all.take(i as int), key@),
        decreases props.len() - i,
    {
        assert(all.take(i + 1).drop_last() =~= all.take(i as int));
        assert(all.take(i + 1).last() == props[i as int]@);
        let ghost before = props_view(out@);
        let under = match member_key(&props[i]) {
            Some(k) => str_eq(k.as_str(), key),
            None => false,
        };
        if !under {
            out.push(clone_prop(&props[i]));
            assert(props_view(out@) =~= before.push(props[i as int]@));
        }
        i += 1;
    }
    assert(all.take(i as int) =~= all);
    out
}

/// The members that have a key, each key once: of the members under one
/// key the last stays.
pub fn remove_duplicates(props: Vec<PropOrSpread>) -> (out: Vec<PropOrSpread>)
    ensures
        props_view(out@) == deduplicated(props_view(props@)),
{
    let ghost all = props_view(props@);
    let mut out: Vec<PropOrSpread> = Vec::new();
    let mut i: usize = 0;
    assert(all.take(0) =~= Seq::<PropOrSpreadView>::empty());
    assert(props_view(out@) =~= Seq::<PropOrSpreadView>::empty());
    while i < props.len()
        invariant
            i <= props.len(),
            all == props_view(props@),
            props_view(out@) == deduplicated(all.take(i as int)),
        decreases props.len() - i,
    {
        assert(all.take(i + 1).drop_last() =~= all.take(i as int));
        assert(all.take(i + 1).last() == props[i as int]@);
        match member_key(&props[i]) {
            Some(key) => {
                let mut kept = drop_key(&out, key.as_str());
                let ghost before = props_view(kept@);
                kept.push(clone_prop(&props[i]));
                assert(props_view(kept@) =~= before.push(props[i as int]@));
                out = kept;
            },
            None => {},
        }
        i += 1;
    }
    assert(all.take(i as int) =~= all);
    out
}

/// One of the members is `key: value` under the same key.
pub open spec fn has_same_key(props: Seq<PropOrSpreadView>, key: PropNameView) -> bool {
    exists|i: int|
        0 <= i < props.len() && (#[trigger] props[i]) is KeyValue && same_key(
            key,
            props[i]->KeyValue_0.key,
        )
}

/// Whether one of the members is `key: value` under the same key.
pub fn contains_same_key(props: &Vec<PropOrSpread>, key: &PropName) -> (yes: bool)
    ensures
        yes == has_same_key(props_view(props@), key@),
{
    let ghost all = props_view(props@);
    let mut i: usize = 0;
    while i < props.len()
        invariant
            i <= props.len(),
            all == props_view(props@),
            forall|j: int|
                0 <= j < i ==> !((#[trigger] all[j]) is KeyValue && same_key(
                    key@,
                    all[j]->KeyValue_0.key,
                )),
        decreases props.len() - i,
    {
        assert(all[i as int] == props[i as int]@);
        match &props[i] {
            PropOrSpread::KeyValue(kv) => {
                assert(props[i as int]@ == PropOrSpreadView::KeyValue(kv@));
                assert(kv@.key == kv.key@);
                if prop_name_eq(key, &kv.key) {
                    return true;
                }
            },
            _ => {},
        }
        i += 1;
    }
    false
}

/// The new members after the first `n` of the old ones were merged into
/// them, one after another: a member that is not `key: value` is added;
/// so is one under a key that the members do not have yet; of one under a
/// key that they have, only an object is added again, merged with itself.
pub open spec fn merged_into(old_props: Seq<PropOrSpreadView>, n: nat, new_props: Seq<PropOrSpreadView>) -> Seq<
    PropOrSpreadView,
>
    decreases old_props, n,
{
    if n == 0 || n > old_props.len() {
        new_props
    } else {
        let acc = merged_into(old_props, (n - 1) as nat, new_props);
        match old_props[n - 1] {
            PropOrSpreadView::KeyValue(kv) => if has_same_key(acc, kv.key) {
                match *kv.value {
                    ExprView::Object(inner) => acc.push(
                        PropOrSpreadView::KeyValue(
                            KeyValuePropView {
                                key: kv.key,
                                value: Box::new(ExprView::Object(deep_merged(inner, inner))),
                            },
                        ),
                    ),
                    _ => acc,
                }
            } else {
                acc.push(old_props[n - 1])
            },
            other => acc.push(other),
        }
    }
}

/// The old members merged into the new ones: the merged members in
/// reverse, each key once.
pub open spec fn deep_merged(old_props: Seq<PropOrSpreadView>, new_props: Seq<PropOrSpreadView>) -> Seq<
    PropOrSpreadView,
>
    decreases old_props, old_props.len() + 1,
{
    deduplicated(merged_into(old_props, old_props.len(), new_props).reverse())
}

/// Copies of the members in reverse order.
pub fn reversed_props(props: &Vec<PropOrSpread>) -> (out: Vec<PropOrSpread>)
    ensures
        props_view(out@) == props_view(props@).reverse(),
{
    let mut out: Vec<PropOrSpread> = Vec::new();
    let n = props.len();
    let mut i: usize = 0;
    while i < n
        invariant
            i <= n,
            n == props.len(),
            out.len() == i,
            forall|j: int| 0 <= j < i ==> (#[trigger] out[j])@ == props[n - 1 - j]@,
        decreases n - i,
    {
        out.push(clone_prop(&props[n - 1 - i]));
        i += 1;
    }
    assert(props_view(out@) =~= props_view(props@).reverse());
    out
}

/// Merges the old members into the new ones.
pub fn deep_merge_props(old_props: &Vec<PropOrSpread>, new_props: Vec<PropOrSpread>) -> (out: Vec<
    PropOrSpread,
>)
    ensures
        props_view(out@) == deep_merged(props_view(old_props@), props_view(new_props@)),
    decreases old_props,
{
    let ghost all = props_view(old_props@);
    let ghost start = props_view(new_props@);
    let mut acc = new_props;
    let mut i: usize = 0;
    while i < old_props.len()
        invariant
            i <= old_props.len(),
            all == props_view(old_props@),
            props_view(acc@) == merged_into(all, i as nat, start),
        decreases old_props.len() - i,
    {
        assert(all[i as int] == old_props[i as int]@);
        let ghost before = props_view(acc@);
        match &old_props[i] {
            PropOrSpread::KeyValue(kv) => {
                assert(old_props[i as int]@ == PropOrSpreadView::KeyValue(kv@));
                assert(kv@ == KeyValuePropView { key: kv.key@, value: Box::new(kv.value@) });
                if contains_same_key(&acc, &kv.key) {
                    match &*kv.value {
                        Expr::Object(inner) => {
                            proof {
                                lemma_object_view(*inner);
                            }
                            let copy = crate::ast::clone_props(inner);
                            assert(props_view(copy@) =~= props_view(inner@));
                            let merged = deep_merge_props(inner, copy);
                            proof {
                                lemma_object_view(merged);
                            }
                            let again = KeyValueProp {
                                key: crate::ast::clone_prop_name(&kv.key),
                                value: Box::new(Expr::Object(merged)),
                            };
                            assert(again@ == KeyValuePropView {
                                key: again.key@,
                                value: Box::new(again.value@),
                            });
                            acc.push(PropOrSpread::KeyValue(again));
                            assert(props_view(acc@) =~= before.push(
                                PropOrSpreadView::KeyValue(again@),
                            ));
                        },
                        _ => {},
                    }
                } else {
                    acc.push(clone_prop(&old_props[i]));
                    assert(props_view(acc@) =~= before.push(old_props[i as int]@));
                }
            },
            other => {
                acc.push(clone_prop(other));
                assert(props_view(acc@) =~= before.push(other@));
            },
        }
        i += 1;
    }
    remove_duplicates(reversed_props(&acc))
}

/// The position of the first member under the name `name`; the length
/// where there is none.
pub open spec fn find_named(kvs: Seq<KeyValuePropView>, name: Seq<char>) -> int
    decreases kvs.len(),
{
    if kvs.len() == 0 {
        0
    } else if kvs[0].key == PropNameView::Ident(name) {
        0
    } else {
        1 + find_named(kvs.drop_first(), name)
    }
}

/// The value of a variable and, where it is declared with a syntax, the
/// object that declares it: for an object with a member `syntax` and a
/// member `value`, the value of the latter and the object; otherwise the
/// expression itself.
pub open spec fn css_value_of(value: ExprView) -> Result<(ExprView, Option<ExprView>), Diagnostic> {
    match value {
        ExprView::Object(props) => match members_error(props, props.len()) {
            Some(d) => Err(d),
            None => {
                let kvs = key_values_of(props);
                let s = find_named(kvs, "syntax"@);
                let v = find_named(kvs, "value"@);
                if 0 <= s < kvs.len() && 0 <= v < kvs.len() {
                    Ok((*kvs[v].value, Some(value)))
                } else {
                    Ok((value, None))
                }
            },
        },
        _ => Ok((value, None)),
    }
}

/// The first member under the name, by its position.
pub fn position_named(kvs: &Vec<KeyValueProp>, name: &str) -> (found: Option<usize>)
    ensures
        0 <= find_named(key_values_view(kvs@), name@),
        match found {
            Some(i) => i < kvs.len() && i == find_named(key_values_view(kvs@), name@),
            None => find_named(key_values_view(kvs@), name@) == kvs.len(),
        },
{
    let ghost all = key_values_view(kvs@);
    let mut i: usize = 0;
    assert(all.skip(0) =~= all);
    while i < kvs.len()
        invariant
            i <= kvs.len(),
            all == key_values_view(kvs@),
            find_named(all, name@) == i + find_named(all.skip(i as int), name@),
        decreases kvs.len() - i,
    {
        assert(all.skip(i as int)[0] == kvs[i as int]@);
        assert(kvs[i as int]@.key == kvs[i as int].key@);
        let hit = match &kvs[i].key {
            PropName::Ident(s) => str_eq(s.as_str(), name),
            _ => false,
        };
        if hit {
            return Some(i);
        }
        assert(all.skip(i as int).drop_first() =~= all.skip(i + 1));
        i += 1;
    }
    None
}

/// The value of a variable and, where it is declared with a syntax, the
/// object that declares it.
pub fn get_css_value(key_value: &KeyValueProp) -> (r: Result<(Expr, Option<Expr>), Diagnostic>)
    ensures
        match css_value_of(*key_value@.value) {
            Ok((value, typed)) => r is Ok && r->Ok_0.0@ == value && match typed {
                Some(t) => r->Ok_0.1 is Some && r->Ok_0.1->0@ == t,
                None => r->Ok_0.1 is None,
            },
            Err(d) => r == Err::<(Expr, Option<Expr>), Diagnostic>(d),
        },
{
    assert(key_value@ == KeyValuePropView { key: key_value.key@, value: Box::new(key_value.value@) });
    match &*key_value.value {
        Expr::Object(props) => {
            proof {
                lemma_object_view(*props);
            }
            match get_key_values_from_object(props) {
                Err(d) => Err(d),
                Ok(kvs) => {
                    match (position_named(&kvs, "syntax"), position_named(&kvs, "value")) {
                        (Some(_), Some(v)) => {
                            assert(key_values_view(kvs@)[v as int] == kvs[v as int]@);
                            assert(kvs[v as int]@ == KeyValuePropView {
                                key: kvs[v as int].key@,
                                value: Box::new(kvs[v as int].value@),
                            });
                            Ok((clone_expr(&kvs[v].value), Some(clone_expr(&key_value.value))))
                        },
                        _ => Ok((clone_expr(&key_value.value), None)),
                    }
                },
            }
        },
        other => Ok((clone_expr(other), None)),
    }
}

} // verus!
