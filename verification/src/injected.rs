//! The styles to inject, by class name, in the order in which their
//! classes first came up.
use vstd::prelude::*;
use indexmap::IndexMap;
use crate::collections::{key_index, put_pair};
use crate::rule::{InjectableStyle, InjectableStyleView};
use crate::state::{metadata_views, MetaData};

verus! {

#[verifier::external_type_specification]
#[verifier::external_body]
#[verifier::reject_recursive_types(K)]
#[verifier::reject_recursive_types(V)]
#[verifier::reject_recursive_types(S)]
pub struct ExIndexMap<K, V, S>(IndexMap<K, V, S>);

/// A class name with its style.
pub type ClassStyle = (Seq<char>, InjectableStyleView);

/// What the map holds: its class names with their styles, in the order of
/// the map.
pub uninterp spec fn injected_entries(m: IndexMap<String, InjectableStyle>) -> Seq<ClassStyle>;

/// The position of the first entry of the class; the length where there
/// is none.
pub open spec fn class_index(entries: Seq<ClassStyle>, class_name: Seq<char>) -> int
    decreases entries.len(),
{
    if entries.len() == 0 {
        0
    } else if entries[0].0 == class_name {
        0
    } else {
        1 + class_index(entries.drop_first(), class_name)
    }
}

/// The entries hold the class.
pub open spec fn has_class(entries: Seq<ClassStyle>, class_name: Seq<char>) -> bool {
    0 <= class_index(entries, class_name) < entries.len()
}

/// The entries with the class among them: as they are where they hold
/// the class already, with the new entry at their end where they do not.
pub open spec fn with_class(entries: Seq<ClassStyle>, entry: ClassStyle) -> Seq<ClassStyle> {
    if has_class(entries, entry.0) {
        entries
    } else {
        entries.push(entry)
    }
}

/// The entries without those whose class an earlier entry has.
pub open spec fn first_of_each_class(entries: Seq<ClassStyle>) -> Seq<ClassStyle>
    decreases entries.len(),
{
    if entries.len() == 0 {
        Seq::empty()
    } else {
        with_class(first_of_each_class(entries.drop_last()), entries.last())
    }
}

/// `IndexMap::new`: a map that holds nothing.
#[verifier::external_body]
pub(crate) fn injected_new() -> (m: IndexMap<String, InjectableStyle>)
    ensures
        injected_entries(m) == Seq::<ClassStyle>::empty(),
{
    IndexMap::new()
}

/// `IndexMap::len`: the number of entries.
#[verifier::external_body]
pub(crate) fn injected_len(m: &IndexMap<String, InjectableStyle>) -> (n: usize)
    ensures
        n == injected_entries(*m).len(),
{
    m.len()
}

/// `IndexMap::contains_key`: whether an entry has the key.
#[verifier::external_body]
pub(crate) fn injected_contains(m: &IndexMap<String, InjectableStyle>, class_name: &str) -> (yes: bool)
    ensures
        yes == has_class(injected_entries(*m), class_name@),
{
    m.contains_key(class_name)
}

/// `IndexMap::insert`: where no entry has the key, the new entry comes
/// last and nothing is returned; where one has it, that entry stays in its
/// place with the new value, and the value it had is returned.
#[verifier::external_body]
pub(crate) fn injected_insert(
    m: &mut IndexMap<String, InjectableStyle>,
    class_name: String,
    style: InjectableStyle,
) -> (previous: Option<InjectableStyle>)
    ensures
        ({
            let before = injected_entries(*old(m));
            let i = class_index(before, class_name@);
            if has_class(before, class_name@) {
                &&& injected_entries(*final(m)) == before.update(i, (before[i].0, style@))
                &&& previous is Some
                &&& previous->0@ == before[i].1
            } else {
                &&& injected_entries(*final(m)) == before.push((class_name@, style@))
                &&& previous is None
            }
        }),
{
    m.insert(class_name, style)
}

/// `IndexMap::get_index`: the entry at a position of the order, where the
/// position is below the number of entries.
#[verifier::external_body]
pub(crate) fn injected_get_index(m: &IndexMap<String, InjectableStyle>, index: usize) -> (entry: Option<
    (&String, &InjectableStyle),
>)
    ensures
        match entry {
            Some((class_name, style)) => index < injected_entries(*m).len() && class_name@
                == injected_entries(*m)[index as int].0 && style@ == injected_entries(
                *m,
            )[index as int].1,
            None => index >= injected_entries(*m).len(),
        },
{
    m.get_index(index)
}

/// What a map of styles by variable holds: the names of the variables,
/// each with the styles under it, in the order of the map.
pub uninterp spec fn styles_by_variable(m: IndexMap<String, Vec<MetaData>>) -> Seq<
    (Seq<char>, Seq<ClassStyle>),
>;

/// `IndexMap::new`: a map that holds nothing.
#[verifier::external_body]
pub(crate) fn metadata_new() -> (m: IndexMap<String, Vec<MetaData>>)
    ensures
        styles_by_variable(m) == Seq::<(Seq<char>, Seq<ClassStyle>)>::empty(),
{
    IndexMap::new()
}

/// `IndexMap::len`: the number of entries.
#[verifier::external_body]
pub(crate) fn metadata_len(m: &IndexMap<String, Vec<MetaData>>) -> (n: usize)
    ensures
        n == styles_by_variable(*m).len(),
{
    m.len()
}

/// `IndexMap::get_index_of`: the position of the entry that has the key,
/// where one has it.
#[verifier::external_body]
pub(crate) fn metadata_index_of(m: &IndexMap<String, Vec<MetaData>>, var_name: &str) -> (at: Option<usize>)
    ensures
        match at {
            Some(i) => i < styles_by_variable(*m).len() && i == key_index(
                styles_by_variable(*m),
                var_name@,
            ),
            None => key_index(styles_by_variable(*m), var_name@) == styles_by_variable(*m).len(),
        },
{
    m.get_index_of(var_name)
}

/// `IndexMap::get_index`: the entry at a position of the order, where the
/// position is below the number of entries.
#[verifier::external_body]
pub(crate) fn metadata_get_index(m: &IndexMap<String, Vec<MetaData>>, index: usize) -> (entry: Option<
    (&String, &Vec<MetaData>),
>)
    ensures
        match entry {
            Some((var_name, styles)) => index < styles_by_variable(*m).len() && var_name@
                == styles_by_variable(*m)[index as int].0 && metadata_views(styles@)
                == styles_by_variable(*m)[index as int].1,
            None => index >= styles_by_variable(*m).len(),
        },
{
    m.get_index(index)
}

/// `IndexMap::insert`: where no entry has the key, the new entry comes
/// last; where one has it, that entry stays in its place with the new
/// value.
#[verifier::external_body]
pub(crate) fn metadata_insert(m: &mut IndexMap<String, Vec<MetaData>>, var_name: String, styles: Vec<MetaData>)
    ensures
        styles_by_variable(*final(m)) == put_pair(
            styles_by_variable(*old(m)),
            var_name@,
            metadata_views(styles@),
        ),
{
    m.insert(var_name, styles);
}

/// No class occurs twice among the entries.
pub open spec fn distinct_classes(entries: Seq<ClassStyle>) -> bool {
    forall|i: int, j: int|
        0 <= i < j < entries.len() ==> (#[trigger] entries[i]).0 != (#[trigger] entries[j]).0
}

/// The class index lies within the entries or at their end; no earlier
/// entry has the class, and the entry at the index has it.
pub proof fn lemma_class_index(entries: Seq<ClassStyle>, class_name: Seq<char>)
    ensures
        0 <= class_index(entries, class_name) <= entries.len(),
        forall|j: int| 0 <= j < class_index(entries, class_name) ==> (#[trigger] entries[j]).0 != class_name,
        class_index(entries, class_name) < entries.len() ==> entries[class_index(
            entries,
            class_name,
        )].0 == class_name,
    decreases entries.len(),
{
    if entries.len() > 0 && entries[0].0 != class_name {
        let rest = entries.drop_first();
        lemma_class_index(rest, class_name);
        assert forall|j: int| 0 <= j < class_index(entries, class_name) implies (#[trigger] entries[j]).0
            != class_name by {
            if j > 0 {
                assert(entries[j] == rest[j - 1]);
            }
        }
        assert(class_index(entries, class_name) < entries.len() ==> entries[class_index(
            entries,
            class_name,
        )] == rest[class_index(rest, class_name)]);
    }
}

/// Deduplication: among the first of each class no class occurs twice,
/// and a class occurs among them exactly where it occurs among all.
pub proof fn lemma_deduplication(entries: Seq<ClassStyle>)
    ensures
        distinct_classes(first_of_each_class(entries)),
        forall|class_name: Seq<char>|
            has_class(first_of_each_class(entries), class_name) <==> has_class(entries, class_name),
    decreases entries.len(),
{
    if entries.len() > 0 {
        let head = entries.drop_last();
        let kept = first_of_each_class(head);
        let last = entries.last();
        lemma_deduplication(head);
        lemma_class_index(kept, last.0);
        assert forall|class_name: Seq<char>|
            has_class(first_of_each_class(entries), class_name) <==> has_class(
                entries,
                class_name,
            ) by {
            lemma_has_class_push(head, last, class_name);
            if has_class(kept, last.0) {
            } else {
                lemma_has_class_push(kept, last, class_name);
            }
            assert(head.push(last) =~= entries);
        }
    }
}

/// With one more entry the classes are those before and the new one.
pub proof fn lemma_has_class_push(entries: Seq<ClassStyle>, entry: ClassStyle, class_name: Seq<char>)
    ensures
        has_class(entries.push(entry), class_name) <==> (has_class(entries, class_name) || entry.0
            == class_name),
    decreases entries.len(),
{
    let longer = entries.push(entry);
    lemma_class_index(longer, class_name);
    lemma_class_index(entries, class_name);
    if entries.len() == 0 {
        assert(longer.drop_first() =~= Seq::<ClassStyle>::empty());
        assert(longer[0] == entry);
    } else {
        assert(longer.drop_first() =~= entries.drop_first().push(entry));
        assert(longer[0] == entries[0]);
        if entries[0].0 != class_name {
            lemma_has_class_push(entries.drop_first(), entry, class_name);
            lemma_class_index(entries.drop_first(), class_name);
            lemma_class_index(entries.drop_first().push(entry), class_name);
        }
    }
}

} // verus!
