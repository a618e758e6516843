//! Static values: what an expression reduces to when it can be reduced.
use vstd::prelude::*;
use crate::ast::{clone_expr, Expr, ExprView};
use crate::number::Number;

verus! {

/// A function of the styling library that the evaluator can call.
#[derive(Debug)]
pub enum Function {
    /// Keeps its arguments as a list of fallbacks.
    FirstThatWorks,
    /// Marks a namespace as included by reference.
    Include,
    /// Yields the expression it was registered with, whatever it is called
    /// with.
    Mapper(Box<Expr>),
    /// Declares its argument to have the given CSS syntax.
    Types(String),
}

pub ghost enum FunctionView {
    FirstThatWorks,
    Include,
    Mapper(ExprView),
    Types(Seq<char>),
}

impl View for Function {
    type V = FunctionView;

    open spec fn view(&self) -> FunctionView {
        match self {
            Function::FirstThatWorks => FunctionView::FirstThatWorks,
            Function::Include => FunctionView::Include,
            Function::Mapper(e) => FunctionView::Mapper(e@),
            Function::Types(syntax) => FunctionView::Types(syntax@),
        }
    }
}

impl Clone for Function {
    fn clone(&self) -> (copy: Function)
        ensures
            copy@ == self@,
    {
        match self {
            Function::FirstThatWorks => Function::FirstThatWorks,
            Function::Include => Function::Include,
            Function::Mapper(e) => Function::Mapper(Box::new(clone_expr(e))),
            Function::Types(syntax) => Function::Types(syntax.clone()),
        }
    }
}

/// The key of an entry of a map value.
#[derive(Debug)]
pub enum Key {
    Str(String),
    Num(Number),
}

pub ghost enum KeyView {
    Str(Seq<char>),
    Num(Number),
}

impl View for Key {
    type V = KeyView;

    open spec fn view(&self) -> KeyView {
        match self {
            Key::Str(s) => KeyView::Str(s@),
            Key::Num(n) => KeyView::Num(*n),
        }
    }
}

impl Clone for Key {
    fn clone(&self) -> (copy: Key)
        ensures
            copy@ == self@,
    {
        match self {
            Key::Str(s) => Key::Str(s.clone()),
            Key::Num(n) => Key::Num(*n),
        }
    }
}

impl Key {
    /// Whether two keys are the same key.
    pub fn same(&self, other: &Key) -> (same: bool)
        ensures
            same == (self@ == other@),
    {
        match (self, other) {
            (Key::Str(a), Key::Str(b)) => *a == *b,
            (Key::Num(a), Key::Num(b)) => a.num == b.num && a.den == b.den,
            _ => false,
        }
    }
}

/// An entry of a map value.
#[derive(Debug)]
pub struct MapEntry {
    pub key: Key,
    pub value: Value,
}

/// A static value.
#[derive(Debug)]
pub enum Value {
    Str(String),
    Num(Number),
    Bool(bool),
    /// Null; it also stands for the undefined value.
    Null,
    List(Vec<Value>),
    /// A map in the order in which its keys were first inserted.
    Object(Vec<MapEntry>),
    /// An expression kept as it is.
    Expr(Box<Expr>),
    Callable(Function),
    /// A reference to the variables of a theme, by the theme's name.
    ThemeRef(String),
    /// A namespace included by reference.
    IncludedStyles(Box<Value>),
    /// A value with the CSS syntax it is declared to have.
    TypedCss { value: Box<Value>, syntax: String },
}

pub ghost struct MapEntryView {
    pub key: KeyView,
    pub value: ValueView,
}

pub ghost enum ValueView {
    Str(Seq<char>),
    Num(Number),
    Bool(bool),
    Null,
    List(Seq<ValueView>),
    Object(Seq<MapEntryView>),
    Expr(ExprView),
    Callable(FunctionView),
    ThemeRef(Seq<char>),
    IncludedStyles(Box<ValueView>),
    TypedCss { value: Box<ValueView>, syntax: Seq<char> },
}

/// The view of a value.
pub open spec fn value_view(v: Value) -> ValueView
    decreases v,
{
    match v {
        Value::Str(s) => ValueView::Str(s@),
        Value::Num(n) => ValueView::Num(n),
        Value::Bool(b) => ValueView::Bool(b),
        Value::Null => ValueView::Null,
        Value::List(items) => ValueView::List(
            Seq::new(
                items.len() as nat,
                |i: int|
                    if 0 <= i < items.len() {
                        value_view(items[i])
                    } else {
                        ValueView::Null
                    },
            ),
        ),
        Value::Object(entries) => ValueView::Object(
            Seq::new(
                entries.len() as nat,
                |i: int|
                    if 0 <= i < entries.len() {
                        entry_view(entries[i])
                    } else {
                        MapEntryView { key: KeyView::Str(Seq::empty()), value: ValueView::Null }
                    },
            ),
        ),
        Value::Expr(e) => ValueView::Expr(e@),
        Value::Callable(f) => ValueView::Callable(f@),
        Value::ThemeRef(name) => ValueView::ThemeRef(name@),
        Value::IncludedStyles(inner) => ValueView::IncludedStyles(Box::new(value_view(*inner))),
        Value::TypedCss { value, syntax } => ValueView::TypedCss {
            value: Box::new(value_view(*value)),
            syntax: syntax@,
        },
    }
}

/// The view of an entry.
pub open spec fn entry_view(entry: MapEntry) -> MapEntryView
    decreases entry,
{
    MapEntryView { key: entry.key@, value: value_view(entry.value) }
}

impl View for Value {
    type V = ValueView;

    open spec fn view(&self) -> ValueView {
        value_view(*self)
    }
}

impl View for MapEntry {
    type V = MapEntryView;

    open spec fn view(&self) -> MapEntryView {
        entry_view(*self)
    }
}

/// The views of a list of values.
pub open spec fn values_view(items: Seq<Value>) -> Seq<ValueView> {
    Seq::new(items.len(), |i: int| items[i]@)
}

/// The views of a list of entries.
pub open spec fn entries_view(entries: Seq<MapEntry>) -> Seq<MapEntryView> {
    Seq::new(entries.len(), |i: int| entries[i]@)
}

/// A list value views as the list of its items' views.
pub proof fn lemma_list_view(items: Vec<Value>)
    ensures
        Value::List(items)@ == ValueView::List(values_view(items@)),
{
    assert(Value::List(items)@->List_0 =~= values_view(items@));
}

/// A map value views as the list of its entries' views.
pub proof fn lemma_map_view(entries: Vec<MapEntry>)
    ensures
        Value::Object(entries)@ == ValueView::Object(entries_view(entries@)),
{
    assert(Value::Object(entries)@->Object_0 =~= entries_view(entries@));
}

/// A copy of a value.
pub fn clone_value(v: &Value) -> (copy: Value)
    ensures
        copy@ == v@,
    decreases v,
{
    match v {
        Value::Str(s) => Value::Str(s.clone()),
        Value::Num(n) => Value::Num(*n),
        Value::Bool(b) => Value::Bool(*b),
        Value::Null => Value::Null,
        Value::List(items) => {
            let out = clone_values(items);
            proof {
                lemma_list_view(out);
                lemma_list_view(*items);
                assert(values_view(out@) =~= values_view(items@));
            }
            Value::List(out)
        },
        Value::Object(entries) => {
            let out = clone_entries(entries);
            proof {
                lemma_map_view(out);
                lemma_map_view(*entries);
                assert(entries_view(out@) =~= entries_view(entries@));
            }
            Value::Object(out)
        },
        Value::Expr(e) => Value::Expr(Box::new(clone_expr(e))),
        Value::Callable(f) => Value::Callable(f.clone()),
        Value::ThemeRef(name) => Value::ThemeRef(name.clone()),
        Value::IncludedStyles(inner) => Value::IncludedStyles(Box::new(clone_value(inner))),
        Value::TypedCss { value, syntax } => Value::TypedCss {
            value: Box::new(clone_value(value)),
            syntax: syntax.clone(),
        },
    }
}

/// A copy of a list of values.
pub fn clone_values(items: &Vec<Value>) -> (copy: Vec<Value>)
    ensures
        values_view(copy@) == values_view(items@),
    decreases items,
{
    let mut out: Vec<Value> = Vec::new();
    let mut i: usize = 0;
    while i < items.len()
        invariant
            i <= items.len(),
            out.len() == i,
            forall|j: int| 0 <= j < i ==> (#[trigger] out[j])@ == items[j]@,
        decreases items.len() - i,
    {
        out.push(clone_value(&items[i]));
        i += 1;
    }
    assert(values_view(out@) =~= values_view(items@));
    out
}

/// A copy of a list of entries.
pub fn clone_entries(entries: &Vec<MapEntry>) -> (copy: Vec<MapEntry>)
    ensures
        entries_view(copy@) == entries_view(entries@),
    decreases entries,
{
    let mut out: Vec<MapEntry> = Vec::new();
    let mut i: usize = 0;
    while i < entries.len()
        invariant
            i <= entries.len(),
            out.len() == i,
            forall|j: int| 0 <= j < i ==> (#[trigger] out[j])@ == entries[j]@,
        decreases entries.len() - i,
    {
        let entry = &entries[i];
        out.push(MapEntry { key: entry.key.clone(), value: clone_value(&entry.value) });
        i += 1;
    }
    assert(entries_view(out@) =~= entries_view(entries@));
    out
}

impl Clone for Value {
    fn clone(&self) -> (copy: Value)
        ensures
            copy@ == self@,
    {
        clone_value(self)
    }
}

impl Clone for MapEntry {
    fn clone(&self) -> (copy: MapEntry)
        ensures
            copy@ == self@,
    {
        MapEntry { key: self.key.clone(), value: clone_value(&self.value) }
    }
}

} // verus!
