//! From values back to syntax: what takes the place of a rewritten call.
use vstd::prelude::*;
use indexmap::IndexMap;
use crate::ast::{
    array_view, clone_expr, lemma_array_view, lemma_object_view, props_view, ArrayElem,
    ArrayElemView, Expr, ExprOrSpread, ExprOrSpreadView, ExprView, KeyValueProp,
    KeyValuePropView, Lit, LitView, PropName, PropNameView, PropOrSpread, PropOrSpreadView,
};
use crate::create::{
    namespace_views, namespaces_get_index, namespaces_len, FlatCompiledStyles,
    FlatCompiledStylesValue, FlatValueView, Namespace, Slot,
};
use crate::factories::{can_be_identifier, prop_name_of};
use crate::value::{
    entries_view, lemma_list_view, lemma_map_view, values_view, Key, KeyView, MapEntry,
    MapEntryView, Value, ValueView,
};

verus! {

/// The member `key: value`.
pub open spec fn member(key: PropNameView, value: ExprView) -> PropOrSpreadView {
    PropOrSpreadView::KeyValue(KeyValuePropView { key, value: Box::new(value) })
}

/// The key of an entry as the key of a member.
pub open spec fn key_name(key: KeyView) -> PropNameView {
    match key {
        KeyView::Str(s) => prop_name_of(s),
        KeyView::Num(n) => PropNameView::Num(n),
    }
}

/// The expression that writes a value: a literal for a scalar, an array
/// or object literal for a list or a map, the expression itself for one
/// that was kept; the name for a reference to a theme; what they hold for
/// an included namespace and a typed value. A function has no expression
/// of a known shape.
pub open spec fn value_expr(v: ValueView) -> ExprView
    decreases v,
{
    match v {
        ValueView::Str(s) => ExprView::Lit(LitView::Str(s)),
        ValueView::Num(n) => ExprView::Lit(LitView::Num(n)),
        ValueView::Bool(b) => ExprView::Lit(LitView::Bool(b)),
        ValueView::Null => ExprView::Lit(LitView::Null),
        ValueView::List(items) => ExprView::Array(
            Seq::new(
                items.len(),
                |i: int|
                    if 0 <= i < items.len() {
                        ArrayElemView::Elem(
                            ExprOrSpreadView { spread: false, expr: Box::new(value_expr(items[i])) },
                        )
                    } else {
                        ArrayElemView::Hole
                    },
            ),
        ),
        ValueView::Object(entries) => ExprView::Object(
            Seq::new(
                entries.len(),
                |i: int|
                    if 0 <= i < entries.len() {
                        member(key_name(entries[i].key), value_expr(entries[i].value))
                    } else {
                        PropOrSpreadView::Other
                    },
            ),
        ),
        ValueView::Expr(e) => e,
        ValueView::Callable(_) => ExprView::Other,
        ValueView::ThemeRef(name) => ExprView::Lit(LitView::Str(name)),
        ValueView::IncludedStyles(inner) => value_expr(*inner),
        ValueView::TypedCss { value, syntax } => value_expr(*value),
    }
}

/// A member `key: value` from its parts.
pub fn make_member(key: PropName, value: Expr) -> (m: PropOrSpread)
    ensures
        m@ == member(key@, value@),
{
    let kv = KeyValueProp { key, value: Box::new(value) };
    assert(kv@ == KeyValuePropView { key: kv.key@, value: Box::new(kv.value@) });
    PropOrSpread::KeyValue(kv)
}

/// The key that a text makes.
pub fn name_of(text: &String) -> (key: PropName)
    ensures
        key@ == prop_name_of(text@),
{
    if can_be_identifier(text.as_str()) {
        PropName::Ident(text.clone())
    } else {
        PropName::Str(text.clone())
    }
}

/// The expression that writes a value.
pub fn value_to_expr(v: &Value) -> (e: Expr)
    ensures
        e@ == value_expr(v@),
    decreases v,
{
    match v {
        Value::Str(s) => Expr::Lit(Lit::Str(s.clone())),
        Value::Num(n) => Expr::Lit(Lit::Num(*n)),
        Value::Bool(b) => Expr::Lit(Lit::Bool(*b)),
        Value::Null => Expr::Lit(Lit::Null),
        Value::List(items) => {
            proof {
                lemma_list_view(*items);
            }
            let elems = values_to_elems(items);
            proof {
                lemma_array_view(elems);
                assert(array_view(elems@) =~= value_expr(v@)->Array_0);
            }
            Expr::Array(elems)
        },
        Value::Object(entries) => {
            proof {
                lemma_map_view(*entries);
            }
            let props = entries_to_props(entries);
            proof {
                lemma_object_view(props);
                assert(props_view(props@) =~= value_expr(v@)->Object_0);
            }
            Expr::Object(props)
        },
        Value::Expr(e) => clone_expr(e),
        Value::Callable(_) => Expr::Other,
        Value::ThemeRef(name) => Expr::Lit(Lit::Str(name.clone())),
        Value::IncludedStyles(inner) => value_to_expr(inner),
        Value::TypedCss { value, syntax } => value_to_expr(value),
    }
}

/// The places of the array literal that writes the values.
pub fn values_to_elems(items: &Vec<Value>) -> (elems: Vec<ArrayElem>)
    ensures
        elems.len() == items.len(),
        forall|j: int|
            0 <= j < items.len() ==> (#[trigger] elems[j])@ == ArrayElemView::Elem(
                ExprOrSpreadView { spread: false, expr: Box::new(value_expr(items[j]@)) },
            ),
    decreases items,
{
    let mut elems: Vec<ArrayElem> = Vec::new();
    let mut i: usize = 0;
    while i < items.len()
        invariant
            i <= items.len(),
            elems.len() == i,
            forall|j: int|
                0 <= j < i ==> (#[trigger] elems[j])@ == ArrayElemView::Elem(
                    ExprOrSpreadView { spread: false, expr: Box::new(value_expr(items[j]@)) },
                ),
        decreases items.len() - i,
    {
        elems.push(
            ArrayElem::Elem(ExprOrSpread { spread: false, expr: Box::new(value_to_expr(&items[i])) }),
        );
        i += 1;
    }
    elems
}

/// The members of the object literal that writes the entries.
pub fn entries_to_props(entries: &Vec<MapEntry>) -> (props: Vec<PropOrSpread>)
    ensures
        props.len() == entries.len(),
        forall|j: int|
            0 <= j < entries.len() ==> (#[trigger] props[j])@ == member(
                key_name(entries[j]@.key),
                value_expr(entries[j]@.value),
            ),
    decreases entries,
{
    let mut props: Vec<PropOrSpread> = Vec::new();
    let mut i: usize = 0;
    while i < entries.len()
        invariant
            i <= entries.len(),
            props.len() == i,
            forall|j: int|
                0 <= j < i ==> (#[trigger] props[j])@ == member(
                    key_name(entries[j]@.key),
                    value_expr(entries[j]@.value),
                ),
        decreases entries.len() - i,
    {
        let key = match &entries[i].key {
            Key::Str(s) => name_of(s),
            Key::Num(n) => PropName::Num(*n),
        };
        props.push(make_member(key, value_to_expr(&entries[i].value)));
        i += 1;
    }
    props
}

/// The expression in the slot of a compiled namespace.
pub open spec fn slot_expr(v: FlatValueView) -> ExprView {
    match v {
        FlatValueView::Text(s) => ExprView::Lit(LitView::Str(s)),
        FlatValueView::Null => ExprView::Lit(LitView::Null),
        FlatValueView::Bool(b) => ExprView::Lit(LitView::Bool(b)),
        FlatValueView::Included(inner) => value_expr(inner),
    }
}

/// The object literal of a compiled namespace: a member for each slot.
pub open spec fn slots_expr(slots: Seq<Slot>) -> ExprView {
    ExprView::Object(
        Seq::new(
            slots.len(),
            |i: int| member(prop_name_of(slots[i].0), slot_expr(slots[i].1)),
        ),
    )
}

/// The object literal of the compiled namespaces: a member for each
/// namespace.
pub open spec fn namespaces_expr(namespaces: Seq<Namespace>) -> ExprView {
    ExprView::Object(
        Seq::new(
            namespaces.len(),
            |i: int| member(prop_name_of(namespaces[i].0), slots_expr(namespaces[i].1)),
        ),
    )
}

/// The object literal of a compiled namespace.
pub fn slots_to_ast(styles: &FlatCompiledStyles) -> (e: Expr)
    ensures
        e@ == slots_expr(styles@),
{
    let mut props: Vec<PropOrSpread> = Vec::new();
    let n = styles.len();
    let mut i: usize = 0;
    while i < n
        invariant
            i <= n,
            n == styles@.len(),
            props.len() == i,
            forall|j: int|
                0 <= j < i ==> (#[trigger] props[j])@ == member(
                    prop_name_of(styles@[j].0),
                    slot_expr(styles@[j].1),
                ),
        decreases n - i,
    {
        match styles.get_index(i) {
            Some((key, given)) => {
                let value = match given {
                    FlatCompiledStylesValue::String(s) => Expr::Lit(Lit::Str(s.clone())),
                    FlatCompiledStylesValue::Null => Expr::Lit(Lit::Null),
                    FlatCompiledStylesValue::Bool(b) => Expr::Lit(Lit::Bool(*b)),
                    FlatCompiledStylesValue::IncludedStyle(v) => value_to_expr(v),
                };
                props.push(make_member(name_of(key), value));
            },
            None => {},
        }
        i += 1;
    }
    proof {
        lemma_object_view(props);
        assert(props_view(props@) =~= slots_expr(styles@)->Object_0);
    }
    Expr::Object(props)
}

/// The object literal of the compiled namespaces.
pub fn convert_object_to_ast(namespaces: &IndexMap<String, FlatCompiledStyles>) -> (e: Expr)
    ensures
        e@ == namespaces_expr(namespace_views(*namespaces)),
{
    let ghost all = namespace_views(*namespaces);
    let mut props: Vec<PropOrSpread> = Vec::new();
    let n = namespaces_len(namespaces);
    let mut i: usize = 0;
    while i < n
        invariant
            i <= n,
            n == all.len(),
            all == namespace_views(*namespaces),
            props.len() == i,
            forall|j: int|
                0 <= j < i ==> (#[trigger] props[j])@ == member(
                    prop_name_of(all[j].0),
                    slots_expr(all[j].1),
                ),
        decreases n - i,
    {
        match namespaces_get_index(namespaces, i) {
            Some((name, styles)) => {
                props.push(make_member(name_of(name), slots_to_ast(styles)));
            },
            None => {},
        }
        i += 1;
    }
    proof {
        lemma_object_view(props);
        assert(props_view(props@) =~= namespaces_expr(all)->Object_0);
    }
    Expr::Object(props)
}

} // verus!
