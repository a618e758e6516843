//! Shorthand properties: the table of what each stands for, and the
//! expansion of a namespace by it.
use vstd::prelude::*;
use crate::evaluate::find_key;
use crate::flatten::is_condition;
use crate::text::{str_eq, to_chars, views};
use crate::value::{
    clone_value, entries_view, lemma_map_view, Key, KeyView, MapEntry, MapEntryView, Value,
    ValueView,
};

verus! {

/// A shorthand property with the properties that it stands for.
#[derive(Debug)]
pub struct Shorthand {
    pub name: String,
    pub longhands: Vec<String>,
}

pub ghost struct ShorthandView {
    pub name: Seq<char>,
    pub longhands: Seq<Seq<char>>,
}

impl View for Shorthand {
    type V = ShorthandView;

    open spec fn view(&self) -> ShorthandView {
        ShorthandView { name: self.name@, longhands: views(self.longhands@) }
    }
}

impl Clone for Shorthand {
    fn clone(&self) -> (copy: Shorthand)
        ensures
            copy@ == self@,
    {
        Shorthand { name: self.name.clone(), longhands: crate::text::clone_strings_of(&self.longhands) }
    }
}

/// The views of a table.
pub open spec fn table_view(table: Seq<Shorthand>) -> Seq<ShorthandView> {
    Seq::new(table.len(), |i: int| table[i]@)
}

/// The position of the first entry of the table for the property; the
/// length where there is none.
pub open spec fn find_shorthand(table: Seq<ShorthandView>, name: Seq<char>) -> int
    decreases table.len(),
{
    if table.len() == 0 {
        0
    } else if table[0].name == name {
        0
    } else {
        1 + find_shorthand(table.drop_first(), name)
    }
}

/// The properties that a property stands for, after every shorthand
/// among them was expanded in turn, at most `fuel` deep: the property
/// itself where the table has no entry for it.
pub open spec fn expanded_key(table: Seq<ShorthandView>, key: Seq<char>, fuel: nat) -> Seq<Seq<char>>
    decreases fuel, 0nat,
{
    let i = find_shorthand(table, key);
    if fuel > 0 && 0 <= i < table.len() {
        expanded_keys(table, table[i].longhands, table[i].longhands.len(), (fuel - 1) as nat)
    } else {
        seq![key]
    }
}

/// The expansions of the first `n` properties, one after another.
pub open spec fn expanded_keys(table: Seq<ShorthandView>, keys: Seq<Seq<char>>, n: nat, fuel: nat) -> Seq<
    Seq<char>,
>
    decreases fuel, 1nat + n,
{
    if n == 0 || n > keys.len() {
        Seq::empty()
    } else {
        expanded_keys(table, keys, (n - 1) as nat, fuel) + expanded_key(table, keys[n - 1], fuel)
    }
}

/// One entry under each of the keys, all with the same value.
pub open spec fn entries_under(keys: Seq<Seq<char>>, value: ValueView) -> Seq<MapEntryView> {
    Seq::new(keys.len(), |i: int| MapEntryView { key: KeyView::Str(keys[i]), value })
}

/// What an entry of a namespace expands to: under a condition, the entry
/// with its object expanded; under a property, one entry for each
/// property that the property stands for.
pub open spec fn expanded_entry(table: Seq<ShorthandView>, entry: MapEntryView) -> Seq<MapEntryView>
    decreases entry,
{
    match entry.key {
        KeyView::Str(key) => if is_condition(key) {
            match entry.value {
                ValueView::Object(inner) => seq![
                    MapEntryView {
                        key: entry.key,
                        value: ValueView::Object(expanded(table, inner, inner.len())),
                    },
                ],
                _ => seq![entry],
            }
        } else {
            entries_under(expanded_key(table, key, table.len()), entry.value)
        },
        KeyView::Num(_) => seq![entry],
    }
}

/// The entries without those under the key.
pub open spec fn without_entry(entries: Seq<MapEntryView>, key: KeyView) -> Seq<MapEntryView>
    decreases entries.len(),
{
    if entries.len() == 0 {
        Seq::empty()
    } else {
        let head = without_entry(entries.drop_last(), key);
        if entries.last().key == key {
            head
        } else {
            head.push(entries.last())
        }
    }
}

/// The entries after each of `more` was added in turn, an entry added
/// later taking the place of one under the same key at the end.
pub open spec fn added_last(entries: Seq<MapEntryView>, more: Seq<MapEntryView>) -> Seq<MapEntryView>
    decreases more.len(),
{
    if more.len() == 0 {
        entries
    } else {
        without_entry(added_last(entries, more.drop_last()), more.last().key).push(more.last())
    }
}

/// What the first `n` entries of a namespace expand to: each key once,
/// and of two entries under one key the later.
pub open spec fn expanded(table: Seq<ShorthandView>, entries: Seq<MapEntryView>, n: nat) -> Seq<MapEntryView>
    decreases entries, n,
{
    if n == 0 || n > entries.len() {
        Seq::empty()
    } else {
        added_last(expanded(table, entries, (n - 1) as nat), expanded_entry(table, entries[n - 1]))
    }
}

/// The first entry of the table for the property.
pub fn lookup_shorthand<'a>(table: &'a Vec<Shorthand>, name: &str) -> (found: Option<&'a Shorthand>)
    ensures
        0 <= find_shorthand(table_view(table@), name@),
        match found {
            Some(s) => find_shorthand(table_view(table@), name@) < table.len() && s@ == table_view(
                table@,
            )[find_shorthand(table_view(table@), name@)],
            None => find_shorthand(table_view(table@), name@) == table.len(),
        },
{
    let ghost all = table_view(table@);
    let mut i: usize = 0;
    assert(all.skip(0) =~= all);
    while i < table.len()
        invariant
            i <= table.len(),
            all == table_view(table@),
            find_shorthand(all, name@) == i + find_shorthand(all.skip(i as int), name@),
        decreases table.len() - i,
    {
        assert(all.skip(i as int)[0] == table[i as int]@);
        if str_eq(table[i].name.as_str(), name) {
            return Some(&table[i]);
        }
        assert(all.skip(i as int).drop_first() =~= all.skip(i + 1));
        i += 1;
    }
    None
}

/// Appends the properties that a property stands for.
pub fn expand_key(out: &mut Vec<String>, table: &Vec<Shorthand>, key: &str, fuel: usize)
    ensures
        views(final(out)@) == views(old(out)@) + expanded_key(table_view(table@), key@, fuel as nat),
    decreases fuel, 0nat,
{
    let ghost start = views(out@);
    match lookup_shorthand(table, key) {
        Some(shorthand) => {
            if fuel > 0 {
                expand_keys(out, table, &shorthand.longhands, fuel - 1);
                return ;
            }
        },
        None => {},
    }
    out.push(key.to_string());
    assert(views(out@) =~= start + seq![key@]);
}

/// Appends the expansions of the properties, one after another.
pub fn expand_keys(out: &mut Vec<String>, table: &Vec<Shorthand>, keys: &Vec<String>, fuel: usize)
    ensures
        views(final(out)@) == views(old(out)@) + expanded_keys(
            table_view(table@),
            views(keys@),
            keys.len() as nat,
            fuel as nat,
        ),
    decreases fuel, 1nat + keys.len(),
{
    let ghost start = views(out@);
    let ghost all = views(keys@);
    let mut i: usize = 0;
    assert(start + Seq::<Seq<char>>::empty() =~= start);
    while i < keys.len()
        invariant
            i <= keys.len(),
            all == views(keys@),
            views(out@) == start + expanded_keys(table_view(table@), all, i as nat, fuel as nat),
        decreases keys.len() - i,
    {
        assert(all[i as int] == keys[i as int]@);
        let ghost before = views(out@);
        expand_key(out, table, keys[i].as_str(), fuel);
        assert(views(out@) =~= start + (expanded_keys(table_view(table@), all, i as nat, fuel as nat)
            + expanded_key(table_view(table@), all[i as int], fuel as nat)));
        i += 1;
    }
}

/// Copies of the entries that are not under the key.
pub fn drop_entry(entries: &Vec<MapEntry>, key: &Key) -> (out: Vec<MapEntry>)
    ensures
        entries_view(out@) == without_entry(entries_view(entries@), key@),
{
    let ghost all = entries_view(entries@);
    let mut out: Vec<MapEntry> = Vec::new();
    let mut i: usize = 0;
    assert(all.take(0) =~= Seq::<MapEntryView>::empty());
    assert(entries_view(out@) =~= Seq::<MapEntryView>::empty());
    while i < entries.len()
        invariant
            i <= entries.len(),
            all == entries_view(entries@),
            entries_view(out@) == without_entry(all.take(i as int), key@),
        decreases entries.len() - i,
    {
        assert(all.take(i + 1).drop_last() =~= all.take(i as int));
        assert(all.take(i + 1).last() == entries[i as int]@);
        if !entries[i].key.same(key) {
            let ghost before = entries_view(out@);
            out.push(entries[i].clone());
            assert(entries_view(out@) =~= before.push(entries[i as int]@));
        }
        i += 1;
    }
    assert(all.take(i as int) =~= all);
    out
}

/// Adds each entry in turn, an entry added later taking the place of one
/// under the same key at the end.
pub fn add_last(entries: Vec<MapEntry>, more: &Vec<MapEntry>) -> (out: Vec<MapEntry>)
    ensures
        entries_view(out@) == added_last(entries_view(entries@), entries_view(more@)),
{
    let ghost all = entries_view(more@);
    let mut out = entries;
    let mut i: usize = 0;
    assert(all.take(0) =~= Seq::<MapEntryView>::empty());
    while i < more.len()
        invariant
            i <= more.len(),
            all == entries_view(more@),
            entries_view(out@) == added_last(entries_view(entries@), all.take(i as int)),
        decreases more.len() - i,
    {
        assert(all.take(i + 1).drop_last() =~= all.take(i as int));
        assert(all.take(i + 1).last() == more[i as int]@);
        let mut kept = drop_entry(&out, &more[i].key);
        let ghost before = entries_view(kept@);
        kept.push(more[i].clone());
        assert(entries_view(kept@) =~= before.push(more[i as int]@));
        out = kept;
        i += 1;
    }
    assert(all.take(i as int) =~= all);
    out
}

/// What an entry of a namespace expands to.
pub fn expand_entry(table: &Vec<Shorthand>, entry: &MapEntry) -> (out: Vec<MapEntry>)
    ensures
        entries_view(out@) == expanded_entry(table_view(table@), entry@),
    decreases entry,
{
    let mut out: Vec<MapEntry> = Vec::new();
    match &entry.key {
        Key::Str(key) => {
            let chars = to_chars(key.as_str());
            if chars.len() > 0 && (chars[0] == ':' || chars[0] == '@') {
                match &entry.value {
                    Value::Object(inner) => {
                        proof {
                            lemma_map_view(*inner);
                        }
                        let expanded_inner = expand_shorthands(table, inner);
                        proof {
                            lemma_map_view(expanded_inner);
                        }
                        out.push(MapEntry { key: entry.key.clone(), value: Value::Object(expanded_inner) });
                        assert(entries_view(out@) =~= expanded_entry(table_view(table@), entry@));
                    },
                    _ => {
                        out.push(entry.clone());
                        assert(entries_view(out@) =~= seq![entry@]);
                    },
                }
            } else {
                let mut keys: Vec<String> = Vec::new();
                assert(views(keys@) =~= Seq::<Seq<char>>::empty());
                expand_key(&mut keys, table, key.as_str(), table.len());
                assert(views(keys@) =~= expanded_key(table_view(table@), key@, table.len() as nat));
                let mut i: usize = 0;
                while i < keys.len()
                    invariant
                        i <= keys.len(),
                        out.len() == i,
                        forall|j: int|
                            0 <= j < i ==> (#[trigger] out[j])@ == (MapEntryView {
                                key: KeyView::Str(keys[j]@),
                                value: entry.value@,
                            }),
                    decreases keys.len() - i,
                {
                    out.push(MapEntry { key: Key::Str(keys[i].clone()), value: clone_value(&entry.value) });
                    i += 1;
                }
                assert(entries_view(out@) =~= entries_under(views(keys@), entry.value@));
            }
        },
        Key::Num(_) => {
            out.push(entry.clone());
            assert(entries_view(out@) =~= seq![entry@]);
        },
    }
    out
}

/// Expands the shorthand properties of a namespace by the table.
pub fn expand_shorthands(table: &Vec<Shorthand>, entries: &Vec<MapEntry>) -> (out: Vec<MapEntry>)
    ensures
        entries_view(out@) == expanded(
            table_view(table@),
            entries_view(entries@),
            entries.len() as nat,
        ),
    decreases entries,
{
    let ghost all = entries_view(entries@);
    let mut out: Vec<MapEntry> = Vec::new();
    let mut i: usize = 0;
    assert(entries_view(out@) =~= Seq::<MapEntryView>::empty());
    while i < entries.len()
        invariant
            i <= entries.len(),
            all == entries_view(entries@),
            entries_view(out@) == expanded(table_view(table@), all, i as nat),
        decreases entries.len() - i,
    {
        assert(all[i as int] == entries[i as int]@);
        let more = expand_entry(table, &entries[i]);
        out = add_last(out, &more);
        i += 1;
    }
    out
}

} // verus!
