//! Compiling the namespaces of a style definition: each property slot to
//! its class names, and every atomic rule, once, to its CSS.
use vstd::prelude::*;
use indexmap::IndexMap;
use crate::decimal::{format_number, shown};
use crate::errors::{diagnostic_of, Diagnostic, Message};
use crate::flatten::{flat_views, flatten_raw_style_object, flattened_namespace};
use crate::injected::{
    class_index, first_of_each_class, has_class, injected_contains, injected_entries,
    injected_insert, injected_new, with_class, ClassStyle,
};
use crate::pre_rule::{
    compile_pre_rule, compiled, computed_views, CompiledResult, CompiledView, PreRules,
    PreRulesView,
};
use crate::rule::{InjectableStyle, InjectableStyleView};
use crate::shorthands::{expand_shorthands, expanded, table_view, Shorthand, ShorthandView};
use crate::text::{append_str, from_chars, join_with, str_eq, to_chars};
use crate::value::{
    entries_view, lemma_map_view, Key, KeyView, MapEntry, MapEntryView, Value, ValueView,
};

verus! {

/// What a property slot of a compiled namespace holds.
#[derive(Debug)]
pub enum FlatCompiledStylesValue {
    /// Class names with a space between each two.
    String(String),
    /// Nothing: the slot's value was null.
    Null,
    Bool(bool),
    /// A namespace included by reference.
    IncludedStyle(Value),
}

pub ghost enum FlatValueView {
    Text(Seq<char>),
    Null,
    Bool(bool),
    Included(ValueView),
}

impl View for FlatCompiledStylesValue {
    type V = FlatValueView;

    open spec fn view(&self) -> FlatValueView {
        match self {
            FlatCompiledStylesValue::String(s) => FlatValueView::Text(s@),
            FlatCompiledStylesValue::Null => FlatValueView::Null,
            FlatCompiledStylesValue::Bool(b) => FlatValueView::Bool(*b),
            FlatCompiledStylesValue::IncludedStyle(v) => FlatValueView::Included(v@),
        }
    }
}

/// A slot by its key.
pub type Slot = (Seq<char>, FlatValueView);

/// What a map of slots holds: its keys, each with what is under it, in
/// the order of the map.
pub uninterp spec fn slot_entries(m: IndexMap<String, FlatCompiledStylesValue>) -> Seq<
    (Seq<char>, FlatValueView),
>;

/// A compiled namespace: its property slots in source order, no key
/// twice.
#[derive(Debug)]
pub struct FlatCompiledStyles {
    pub entries: IndexMap<String, FlatCompiledStylesValue>,
}

impl View for FlatCompiledStyles {
    type V = Seq<Slot>;

    open spec fn view(&self) -> Seq<Slot> {
        slot_entries(self.entries)
    }
}

/// The position of the first slot under `key`; the length where there is
/// none.
pub open spec fn slot_index(slots: Seq<Slot>, key: Seq<char>) -> int
    decreases slots.len(),
{
    if slots.len() == 0 {
        0
    } else if slots[0].0 == key {
        0
    } else {
        1 + slot_index(slots.drop_first(), key)
    }
}

/// The slots with `value` under `key`: in the place of the slot that was
/// under the key, or at the end where there was none.
pub open spec fn put_slot(slots: Seq<Slot>, key: Seq<char>, value: FlatValueView) -> Seq<Slot> {
    let i = slot_index(slots, key);
    if 0 <= i < slots.len() {
        slots.update(i, (key, value))
    } else {
        slots.push((key, value))
    }
}

/// The class names of the styles with a space between each two.
pub open spec fn class_names(styles: Seq<ClassStyle>) -> Seq<char> {
    join_with(Seq::new(styles.len(), |i: int| styles[i].0), " "@)
}

/// What the slot of a compiled pre-rule holds.
pub open spec fn slot_value(c: CompiledView) -> FlatValueView {
    match c {
        CompiledView::Null => FlatValueView::Null,
        CompiledView::Computed(styles) => FlatValueView::Text(class_names(styles)),
        CompiledView::Included(v) => FlatValueView::Included(v),
    }
}

/// The styles that a compiled pre-rule brings.
pub open spec fn styles_in(c: CompiledView) -> Seq<ClassStyle> {
    match c {
        CompiledView::Computed(styles) => styles,
        _ => Seq::empty(),
    }
}

/// The slots of the first `n` properties of a flat namespace.
pub open spec fn namespace_slots(flat: Seq<(Seq<char>, PreRulesView)>, n: nat, prefix: Seq<char>) -> Seq<
    Slot,
>
    decreases n,
{
    if n == 0 || n > flat.len() {
        Seq::empty()
    } else {
        put_slot(
            namespace_slots(flat, (n - 1) as nat, prefix),
            flat[n - 1].0,
            slot_value(compiled(flat[n - 1].1, prefix)),
        )
    }
}

/// The styles of the first `n` properties of a flat namespace, one after
/// another.
pub open spec fn namespace_styles(flat: Seq<(Seq<char>, PreRulesView)>, n: nat, prefix: Seq<char>) -> Seq<
    ClassStyle,
>
    decreases n,
{
    if n == 0 || n > flat.len() {
        Seq::empty()
    } else {
        namespace_styles(flat, (n - 1) as nat, prefix) + styles_in(compiled(flat[n - 1].1, prefix))
    }
}

/// The compiled namespace: its slots, and the marker `$$css` set to true.
pub open spec fn namespace_object(flat: Seq<(Seq<char>, PreRulesView)>, prefix: Seq<char>) -> Seq<Slot> {
    put_slot(namespace_slots(flat, flat.len(), prefix), "$$css"@, FlatValueView::Bool(true))
}

/// The entries after each of `more` was brought in, in order.
pub open spec fn with_classes(entries: Seq<ClassStyle>, more: Seq<ClassStyle>) -> Seq<ClassStyle>
    decreases more.len(),
{
    if more.len() == 0 {
        entries
    } else {
        with_class(with_classes(entries, more.drop_last()), more.last())
    }
}

/// The first of each class of two lists is what bringing the second list
/// into the firsts of the first list gives.
pub proof fn lemma_first_of_each_concat(a: Seq<ClassStyle>, b: Seq<ClassStyle>)
    ensures
        first_of_each_class(a + b) == with_classes(first_of_each_class(a), b),
    decreases b.len(),
{
    if b.len() == 0 {
        assert(a + b =~= a);
    } else {
        lemma_first_of_each_concat(a, b.drop_last());
        assert((a + b).drop_last() =~= a + b.drop_last());
        assert((a + b).last() == b.last());
    }
}

/// `IndexMap::new`: a map that holds nothing.
#[verifier::external_body]
pub(crate) fn slots_new() -> (m: IndexMap<String, FlatCompiledStylesValue>)
    ensures
        slot_entries(m) == Seq::<Slot>::empty(),
{
    IndexMap::new()
}

/// `IndexMap::len`: the number of entries.
#[verifier::external_body]
pub(crate) fn slots_len(m: &IndexMap<String, FlatCompiledStylesValue>) -> (n: usize)
    ensures
        n == slot_entries(*m).len(),
{
    m.len()
}

/// `IndexMap::get_index`: the entry at a position of the order, where the
/// position is below the number of entries. No entry before it has its
/// key: a map holds a key once.
#[verifier::external_body]
pub(crate) fn slots_get_index(m: &IndexMap<String, FlatCompiledStylesValue>, index: usize) -> (entry: Option<
    (&String, &FlatCompiledStylesValue),
>)
    ensures
        match entry {
            Some((key, value)) => index < slot_entries(*m).len() && key@ == slot_entries(
                *m,
            )[index as int].0 && value@ == slot_entries(*m)[index as int].1 && slot_index(
                slot_entries(*m),
                key@,
            ) == index,
            None => index >= slot_entries(*m).len(),
        },
{
    m.get_index(index)
}

/// `IndexMap::insert`: where no entry has the key, the new entry comes
/// last; where one has it, that entry stays in its place with the new
/// value.
#[verifier::external_body]
pub(crate) fn slots_insert(m: &mut IndexMap<String, FlatCompiledStylesValue>, key: String, value: FlatCompiledStylesValue)
    ensures
        slot_entries(*final(m)) == put_slot(slot_entries(*old(m)), key@, value@),
{
    m.insert(key, value);
}

/// Before the first slot under a key no slot is under it.
pub proof fn lemma_slot_index_take(slots: Seq<Slot>, key: Seq<char>, i: int)
    requires
        0 <= i <= slots.len(),
        slot_index(slots, key) >= i,
    ensures
        slot_index(slots.take(i), key) == i,
    decreases i,
{
    if i == 0 {
        assert(slots.take(0) =~= Seq::<Slot>::empty());
    } else {
        lemma_slot_index_take(slots.drop_first(), key, i - 1);
        assert(slots.take(i).drop_first() =~= slots.drop_first().take(i - 1));
    }
}

impl FlatCompiledStyles {
    /// A namespace without slots.
    pub fn new() -> (styles: FlatCompiledStyles)
        ensures
            styles@ == Seq::<Slot>::empty(),
    {
        FlatCompiledStyles { entries: slots_new() }
    }

    /// The number of slots.
    pub fn len(&self) -> (n: usize)
        ensures
            n == self@.len(),
    {
        slots_len(&self.entries)
    }

    /// The slot at a place, where the place is below the number of
    /// slots; no slot before it has its key.
    pub fn get_index(&self, index: usize) -> (entry: Option<(&String, &FlatCompiledStylesValue)>)
        ensures
            match entry {
                Some((key, value)) => index < self@.len() && key@ == self@[index as int].0 && value@
                    == self@[index as int].1 && slot_index(self@, key@) == index,
                None => index >= self@.len(),
            },
    {
        slots_get_index(&self.entries, index)
    }
}

/// Puts `value` under `key`.
pub fn set_slot(styles: &mut FlatCompiledStyles, key: String, value: FlatCompiledStylesValue)
    ensures
        final(styles)@ == put_slot(old(styles)@, key@, value@),
{
    slots_insert(&mut styles.entries, key, value);
}

/// The class names of the styles with a space between each two.
pub fn join_class_names(styles: &Vec<(String, InjectableStyle)>) -> (names: String)
    ensures
        names@ == class_names(computed_views(styles@)),
{
    let ghost all = Seq::new(styles.len() as nat, |i: int| styles[i].0@);
    let mut out: Vec<char> = Vec::new();
    let mut i: usize = 0;
    assert(all.take(0) =~= Seq::<Seq<char>>::empty());
    while i < styles.len()
        invariant
            i <= styles.len(),
            all == Seq::new(styles.len() as nat, |i: int| styles[i].0@),
            out@ == join_with(all.take(i as int), " "@),
        decreases styles.len() - i,
    {
        assert(all.take(i + 1).drop_last() =~= all.take(i as int));
        assert(all.take(i + 1).last() == styles[i as int].0@);
        if i > 0 {
            append_str(&mut out, " ");
        } else {
            assert(all.take(1)[0] == styles[0].0@);
        }
        append_str(&mut out, styles[i].0.as_str());
        assert(out@ =~= join_with(all.take(i + 1), " "@));
        i += 1;
    }
    assert(all.take(i as int) =~= all);
    assert(all =~= Seq::new(
        computed_views(styles@).len(),
        |i: int| computed_views(styles@)[i].0,
    ));
    from_chars(&out)
}

/// Brings each style into the map whose class the map does not hold yet.
pub fn inject_all(injected: &mut IndexMap<String, InjectableStyle>, styles: &Vec<(String, InjectableStyle)>)
    ensures
        injected_entries(*final(injected)) == with_classes(
            injected_entries(*old(injected)),
            computed_views(styles@),
        ),
{
    let ghost all = computed_views(styles@);
    let ghost start = injected_entries(*injected);
    let mut i: usize = 0;
    assert(all.take(0) =~= Seq::<ClassStyle>::empty());
    while i < styles.len()
        invariant
            i <= styles.len(),
            all == computed_views(styles@),
            injected_entries(*injected) == with_classes(start, all.take(i as int)),
        decreases styles.len() - i,
    {
        assert(all.take(i + 1).drop_last() =~= all.take(i as int));
        assert(all.take(i + 1).last() == (styles[i as int].0@, styles[i as int].1@));
        if !injected_contains(injected, styles[i].0.as_str()) {
            injected_insert(injected, styles[i].0.clone(), styles[i].1.clone());
        }
        i += 1;
    }
    assert(all.take(i as int) =~= all);
}

/// Compiles a flat namespace: its slots, and into the map every style
/// whose class the map does not hold yet.
pub fn compile_namespace(
    flat: &Vec<(String, PreRules)>,
    prefix: &str,
    injected: &mut IndexMap<String, InjectableStyle>,
) -> (styles: FlatCompiledStyles)
    ensures
        styles@ == namespace_object(flat_views(flat@), prefix@),
        injected_entries(*final(injected)) == with_classes(
            injected_entries(*old(injected)),
            namespace_styles(flat_views(flat@), flat.len() as nat, prefix@),
        ),
{
    let ghost all = flat_views(flat@);
    let ghost start = injected_entries(*injected);
    let mut styles = FlatCompiledStyles::new();
    let mut i: usize = 0;
    while i < flat.len()
        invariant
            i <= flat.len(),
            all == flat_views(flat@),
            styles@ == namespace_slots(all, i as nat, prefix@),
            injected_entries(*injected) == with_classes(
                start,
                namespace_styles(all, i as nat, prefix@),
            ),
        decreases flat.len() - i,
    {
        assert(all[i as int] == (flat[i as int].0@, flat[i as int].1@));
        let ghost before = namespace_styles(all, i as nat, prefix@);
        let value = match compile_pre_rule(&flat[i].1, prefix) {
            CompiledResult::Null => FlatCompiledStylesValue::Null,
            CompiledResult::ComputedStyles(computed) => {
                proof {
                    lemma_with_classes_concat(start, before, computed_views(computed@));
                }
                inject_all(injected, &computed);
                FlatCompiledStylesValue::String(join_class_names(&computed))
            },
            CompiledResult::IncludedStyle(v) => FlatCompiledStylesValue::IncludedStyle(v),
        };
        assert(before + Seq::<ClassStyle>::empty() =~= before);
        set_slot(&mut styles, flat[i].0.clone(), value);
        i += 1;
    }
    set_slot(&mut styles, "$$css".to_string(), FlatCompiledStylesValue::Bool(true));
    styles
}

/// Bringing in two lists one after the other is bringing in both as one.
pub proof fn lemma_with_classes_concat(entries: Seq<ClassStyle>, a: Seq<ClassStyle>, b: Seq<ClassStyle>)
    ensures
        with_classes(with_classes(entries, a), b) == with_classes(entries, a + b),
    decreases b.len(),
{
    if b.len() == 0 {
        assert(a + b =~= a);
    } else {
        lemma_with_classes_concat(entries, a, b.drop_last());
        assert((a + b).drop_last() =~= a + b.drop_last());
        assert((a + b).last() == b.last());
    }
}

/// A compiled namespace by its name.
pub type Namespace = (Seq<char>, Seq<Slot>);

/// What a map of compiled namespaces holds: the names, each with the
/// slots of the namespace under it, in the order of the map.
pub uninterp spec fn namespace_entries(m: IndexMap<String, FlatCompiledStyles>) -> Seq<
    (Seq<char>, Seq<(Seq<char>, FlatValueView)>),
>;

/// The compiled namespaces by name, in their order.
pub open spec fn namespace_views(namespaces: IndexMap<String, FlatCompiledStyles>) -> Seq<Namespace> {
    namespace_entries(namespaces)
}

/// The position of the first namespace called `name`; the length where
/// there is none.
pub open spec fn namespace_index(namespaces: Seq<Namespace>, name: Seq<char>) -> int
    decreases namespaces.len(),
{
    if namespaces.len() == 0 {
        0
    } else if namespaces[0].0 == name {
        0
    } else {
        1 + namespace_index(namespaces.drop_first(), name)
    }
}

/// The namespaces with `slots` under `name`: in the place of the
/// namespace that had the name, or at the end where none had it.
pub open spec fn put_namespace(namespaces: Seq<Namespace>, name: Seq<char>, slots: Seq<Slot>) -> Seq<
    Namespace,
> {
    let i = namespace_index(namespaces, name);
    if 0 <= i < namespaces.len() {
        namespaces.update(i, (name, slots))
    } else {
        namespaces.push((name, slots))
    }
}

/// The text of a key.
pub open spec fn key_text(key: KeyView) -> Seq<char> {
    match key {
        KeyView::Str(s) => s,
        KeyView::Num(n) => shown(n),
    }
}

/// What a style definition compiles to: its namespaces in source order,
/// and the styles of their atomic rules, one after another as the rules
/// come up.
pub ghost struct CreatedView {
    pub namespaces: Seq<Namespace>,
    pub styles: Seq<ClassStyle>,
}

/// What the first `n` namespaces of a style definition compile to. A
/// namespace must be an object; its shorthand properties are expanded by
/// the table, and its flattening must succeed.
pub open spec fn created_set(
    namespaces: Seq<MapEntryView>,
    n: nat,
    prefix: Seq<char>,
    table: Seq<ShorthandView>,
) -> Result<
    CreatedView,
    Diagnostic,
>
    decreases n,
{
    if n == 0 || n > namespaces.len() {
        Ok(CreatedView { namespaces: Seq::empty(), styles: Seq::empty() })
    } else {
        match created_set(namespaces, (n - 1) as nat, prefix, table) {
            Ok(before) => match namespaces[n - 1].value {
                ValueView::Object(entries) => match flattened_namespace(
                    expanded(table, entries, entries.len()),
                ) {
                    Ok(flat) => Ok(
                        CreatedView {
                            namespaces: put_namespace(
                                before.namespaces,
                                key_text(namespaces[n - 1].key),
                                namespace_object(flat, prefix),
                            ),
                            styles: before.styles + namespace_styles(flat, flat.len(), prefix),
                        },
                    ),
                    Err(d) => Err(d),
                },
                _ => Err(diagnostic_of(Message::IllegalNamespaceValue)),
            },
            Err(d) => Err(d),
        }
    }
}

/// What a style definition compiles to. The definition must be an object.
pub open spec fn created_styles(definition: ValueView, prefix: Seq<char>, table: Seq<ShorthandView>) -> Result<
    CreatedView,
    Diagnostic,
> {
    match definition {
        ValueView::Object(namespaces) => created_set(namespaces, namespaces.len(), prefix, table),
        _ => Err(diagnostic_of(Message::NonObjectForStylexCall)),
    }
}

/// Once the namespaces up to some place do not compile, all of them do
/// not, and the diagnostic is the same.
proof fn lemma_created_set_fail(
    namespaces: Seq<MapEntryView>,
    i: nat,
    n: nat,
    prefix: Seq<char>,
    table: Seq<ShorthandView>,
)
    requires
        i <= n <= namespaces.len(),
        created_set(namespaces, i, prefix, table) is Err,
    ensures
        created_set(namespaces, n, prefix, table) == created_set(namespaces, i, prefix, table),
    decreases n,
{
    if i < n {
        lemma_created_set_fail(namespaces, i, (n - 1) as nat, prefix, table);
    }
}

/// The text of a key.
pub fn key_to_string(key: &Key) -> (text: String)
    ensures
        text@ == key_text(key@),
{
    match key {
        Key::Str(s) => s.clone(),
        Key::Num(n) => {
            let chars = format_number(*n);
            from_chars(&chars)
        },
    }
}

/// `IndexMap::new`: a map that holds nothing.
#[verifier::external_body]
pub(crate) fn namespaces_new() -> (m: IndexMap<String, FlatCompiledStyles>)
    ensures
        namespace_entries(m) == Seq::<Namespace>::empty(),
{
    IndexMap::new()
}

/// `IndexMap::len`: the number of entries.
#[verifier::external_body]
pub(crate) fn namespaces_len(m: &IndexMap<String, FlatCompiledStyles>) -> (n: usize)
    ensures
        n == namespace_entries(*m).len(),
{
    m.len()
}

/// `IndexMap::get_index`: the entry at a position of the order, where the
/// position is below the number of entries.
#[verifier::external_body]
pub(crate) fn namespaces_get_index(m: &IndexMap<String, FlatCompiledStyles>, index: usize) -> (entry: Option<
    (&String, &FlatCompiledStyles),
>)
    ensures
        match entry {
            Some((name, styles)) => index < namespace_entries(*m).len() && name@
                == namespace_entries(*m)[index as int].0 && styles@ == namespace_entries(
                *m,
            )[index as int].1,
            None => index >= namespace_entries(*m).len(),
        },
{
    m.get_index(index)
}

/// `IndexMap::get_index_of`: the position of the entry that has the key,
/// where one has it.
#[verifier::external_body]
pub(crate) fn namespaces_index_of(m: &IndexMap<String, FlatCompiledStyles>, name: &str) -> (at: Option<usize>)
    ensures
        match at {
            Some(j) => j < namespace_entries(*m).len() && j == namespace_index(
                namespace_entries(*m),
                name@,
            ),
            None => namespace_index(namespace_entries(*m), name@) == namespace_entries(*m).len(),
        },
{
    m.get_index_of(name)
}

/// `IndexMap::insert`: where no entry has the key, the new entry comes
/// last; where one has it, that entry stays in its place with the new
/// value.
#[verifier::external_body]
pub(crate) fn namespaces_insert(m: &mut IndexMap<String, FlatCompiledStyles>, name: String, styles: FlatCompiledStyles)
    ensures
        namespace_entries(*final(m)) == put_namespace(namespace_entries(*old(m)), name@, styles@),
{
    m.insert(name, styles);
}

/// Puts the compiled namespace under its name.
pub fn set_namespace(namespaces: &mut IndexMap<String, FlatCompiledStyles>, name: String, styles: FlatCompiledStyles)
    ensures
        namespace_views(*final(namespaces)) == put_namespace(
            namespace_views(*old(namespaces)),
            name@,
            styles@,
        ),
{
    namespaces_insert(namespaces, name, styles);
}

/// Compiles a style definition: each namespace, its shorthand properties
/// expanded, to its property slots with their class names, and each
/// atomic rule to its CSS, by class name.
///
/// No class occurs twice among the styles to inject: of the rules that
/// compile to one class, the style of the first is kept.
pub fn stylex_create_set(namespaces: &Value, prefix: &str, shorthands: &Vec<Shorthand>) -> (r: Result<
    (IndexMap<String, FlatCompiledStyles>, IndexMap<String, InjectableStyle>),
    Diagnostic,
>)
    ensures
        match created_styles(namespaces@, prefix@, table_view(shorthands@)) {
            Ok(c) => r is Ok && namespace_views(r->Ok_0.0) == c.namespaces && injected_entries(
                r->Ok_0.1,
            ) == first_of_each_class(c.styles),
            Err(d) => r == Err::<
                (IndexMap<String, FlatCompiledStyles>, IndexMap<String, InjectableStyle>),
                Diagnostic,
            >(d),
        },
{
    let entries = match namespaces {
        Value::Object(entries) => entries,
        _ => {
            return Err(Diagnostic::new(Message::NonObjectForStylexCall));
        },
    };
    proof {
        lemma_map_view(*entries);
    }
    let ghost all = entries_view(entries@);
    let mut resolved = namespaces_new();
    let mut injected = injected_new();
    let ghost mut styles: Seq<ClassStyle> = Seq::empty();
    let mut i: usize = 0;
    while i < entries.len()
        invariant
            i <= entries.len(),
            all == entries_view(entries@),
            namespaces@ == ValueView::Object(all),
            created_set(all, i as nat, prefix@, table_view(shorthands@)) == Ok::<
                CreatedView,
                Diagnostic,
            >(
                CreatedView { namespaces: namespace_views(resolved), styles },
            ),
            injected_entries(injected) == first_of_each_class(styles),
        decreases entries.len() - i,
    {
        assert(all[i as int] == entries[i as int]@);
        let inner = match &entries[i].value {
            Value::Object(inner) => inner,
            _ => {
                proof {
                    lemma_created_set_fail(
                        all,
                        (i + 1) as nat,
                        entries.len() as nat,
                        prefix@,
                        table_view(shorthands@),
                    );
                }
                return Err(Diagnostic::new(Message::IllegalNamespaceValue));
            },
        };
        proof {
            lemma_map_view(*inner);
        }
        let expanded_inner = expand_shorthands(shorthands, inner);
        let flat = match flatten_raw_style_object(&expanded_inner) {
            Ok(flat) => flat,
            Err(d) => {
                proof {
                    lemma_created_set_fail(
                        all,
                        (i + 1) as nat,
                        entries.len() as nat,
                        prefix@,
                        table_view(shorthands@),
                    );
                }
                return Err(d);
            },
        };
        let compiled = compile_namespace(&flat, prefix, &mut injected);
        proof {
            let more = namespace_styles(flat_views(flat@), flat.len() as nat, prefix@);
            lemma_first_of_each_concat(styles, more);
            styles = styles + more;
        }
        set_namespace(&mut resolved, key_to_string(&entries[i].key), compiled);
        i += 1;
    }
    Ok((resolved, injected))
}

} // verus!
