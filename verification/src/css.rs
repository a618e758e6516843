//! CSS text: property names, values, and the fallbacks of a value list.
use vstd::prelude::*;
use crate::common::text_number;
use crate::decimal::{format_number, is_digit, parse_number, shown};
use crate::text::{
    append_chars, append_str, chars_views, from_chars, same_chars, slice_chars, str_eq, to_chars,
};

verus! {

/// An upper-case letter of the basic Latin alphabet.
pub open spec fn is_upper(c: char) -> bool {
    'A' <= c && c <= 'Z'
}

/// A lower-case letter of the basic Latin alphabet.
pub open spec fn is_lower(c: char) -> bool {
    'a' <= c && c <= 'z'
}

/// The lower-case form of a basic Latin letter; any other character as it
/// is.
pub open spec fn lower(c: char) -> char {
    if is_upper(c) {
        ((c as u8) + 32) as char
    } else {
        c
    }
}

/// The property name `s` written with dashes: every upper-case letter
/// that begins the name or follows a lower-case letter gets a dash before
/// it, and every letter is lowered. Only the basic Latin letters `A` to
/// `Z` count as upper-case letters, as the names of CSS properties hold no
/// others; every other character stays as it is.
pub open spec fn dashed(s: Seq<char>) -> Seq<char>
    decreases s.len(),
{
    if s.len() == 0 {
        Seq::empty()
    } else {
        let head = dashed(s.drop_last());
        let c = s.last();
        if is_upper(c) && (s.len() == 1 || is_lower(s[s.len() - 2])) {
            head.push('-').push(lower(c))
        } else {
            head.push(lower(c))
        }
    }
}

/// Writes a camel-case property name with dashes. Only the basic Latin
/// letters are lowered; a letter of another script stays as it is.
pub fn dashify(s: &str) -> (out: String)
    ensures
        out@ == dashed(s@),
{
    let chars = to_chars(s);
    let mut out: Vec<char> = Vec::new();
    let mut i: usize = 0;
    assert(chars@.take(0) =~= Seq::<char>::empty());
    while i < chars.len()
        invariant
            i <= chars.len(),
            out@ == dashed(chars@.take(i as int)),
        decreases chars.len() - i,
    {
        let c = chars[i];
        assert(chars@.take(i + 1).drop_last() =~= chars@.take(i as int));
        assert(chars@.take(i + 1).last() == c);
        if i > 0 {
            assert(chars@.take(i + 1)[i - 1] == chars@[i - 1]);
        }
        let upper = c >= 'A' && c <= 'Z';
        if upper && (i == 0 || (chars[i - 1] >= 'a' && chars[i - 1] <= 'z')) {
            out.push('-');
        }
        if upper {
            out.push(((c as u8) + 32) as char);
        } else {
            out.push(c);
        }
        i += 1;
    }
    assert(chars@.take(i as int) =~= chars@);
    from_chars(&out)
}

/// The properties whose numbers are written without a unit.
pub open spec fn unitless(key: Seq<char>) -> bool {
    key == "opacity"@ || key == "zIndex"@ || key == "flex"@ || key == "flexGrow"@ || key
        == "flexShrink"@ || key == "order"@ || key == "fontWeight"@ || key == "lineHeight"@ || key
        == "lineClamp"@ || key == "WebkitLineClamp"@ || key == "columnCount"@ || key == "orphans"@
        || key == "widows"@ || key == "tabSize"@ || key == "zoom"@ || key == "aspectRatio"@ || key
        == "animationIterationCount"@ || key == "gridRow"@ || key == "gridColumn"@ || key
        == "fillOpacity"@ || key == "strokeOpacity"@ || key == "stopOpacity"@ || key
        == "floodOpacity"@
}

/// Whether the property's numbers are written without a unit.
pub fn is_unitless(key: &str) -> (yes: bool)
    ensures
        yes == unitless(key@),
{
    str_eq(key, "opacity") || str_eq(key, "zIndex") || str_eq(key, "flex") || str_eq(key, "flexGrow")
        || str_eq(key, "flexShrink") || str_eq(key, "order") || str_eq(key, "fontWeight") || str_eq(
        key,
        "lineHeight",
    ) || str_eq(key, "lineClamp") || str_eq(key, "WebkitLineClamp") || str_eq(key, "columnCount")
        || str_eq(key, "orphans") || str_eq(key, "widows") || str_eq(key, "tabSize") || str_eq(
        key,
        "zoom",
    ) || str_eq(key, "aspectRatio") || str_eq(key, "animationIterationCount") || str_eq(
        key,
        "gridRow",
    ) || str_eq(key, "gridColumn") || str_eq(key, "fillOpacity") || str_eq(key, "strokeOpacity")
        || str_eq(key, "stopOpacity") || str_eq(key, "floodOpacity")
}

/// The unit that a bare number gets under the property `key`.
pub open spec fn number_suffix(key: Seq<char>) -> Seq<char> {
    if unitless(key) {
        Seq::empty()
    } else {
        "px"@
    }
}

/// A letter of the basic Latin alphabet.
pub open spec fn is_letter(c: char) -> bool {
    is_upper(c) || is_lower(c)
}

/// The value without the zero before its decimal point: `0.25` becomes
/// `.25` and `-0.25` becomes `-.25`.
pub open spec fn without_leading_zero(v: Seq<char>) -> Seq<char> {
    if v.len() >= 3 && v[0] == '0' && v[1] == '.' && is_digit(v[2]) {
        v.skip(1)
    } else if v.len() >= 4 && v[0] == '-' && v[1] == '0' && v[2] == '.' && is_digit(v[3]) {
        seq!['-'] + v.skip(2)
    } else {
        v
    }
}

/// The value is a zero followed by a unit made of letters.
pub open spec fn is_zero_with_unit(v: Seq<char>) -> bool {
    v.len() >= 2 && v[0] == '0' && forall|i: int| 1 <= i < v.len() ==> is_letter(#[trigger] v[i])
}

/// The value with a zero length written as plain `0`; a zero percentage
/// keeps its sign.
pub open spec fn without_zero_unit(v: Seq<char>) -> Seq<char> {
    if is_zero_with_unit(v) {
        seq!['0']
    } else {
        v
    }
}

/// The value in its canonical form.
pub open spec fn normalized(v: Seq<char>) -> Seq<char> {
    without_zero_unit(without_leading_zero(v))
}

/// The CSS text of the raw value `raw` under the property `key`: a
/// numeral is written as its number with the property's unit; the text is
/// then brought into canonical form.
pub open spec fn transformed(key: Seq<char>, raw: Seq<char>) -> Seq<char> {
    match text_number(raw) {
        Some(n) => normalized(shown(n) + number_suffix(key)),
        None => normalized(raw),
    }
}

/// Brings a value into canonical form.
pub fn normalize(v: &Vec<char>) -> (out: Vec<char>)
    ensures
        out@ == normalized(v@),
{
    let n = v.len();
    let stripped: Vec<char> = if n >= 3 && v[0] == '0' && v[1] == '.' && v[2] >= '0' && v[2]
        <= '9' {
        slice_chars(v, 1, n)
    } else if n >= 4 && v[0] == '-' && v[1] == '0' && v[2] == '.' && v[3] >= '0' && v[3] <= '9' {
        let mut s: Vec<char> = Vec::new();
        s.push('-');
        let rest = slice_chars(v, 2, n);
        append_chars(&mut s, &rest);
        s
    } else {
        slice_chars(v, 0, n)
    };
    assert(stripped@ =~= without_leading_zero(v@));
    let m = stripped.len();
    if m >= 2 && stripped[0] == '0' {
        let mut i: usize = 1;
        while i < m
            invariant
                1 <= i <= m,
                m == stripped.len(),
                stripped@ == without_leading_zero(v@),
                forall|j: int| 1 <= j < i ==> is_letter(#[trigger] stripped@[j]),
            decreases m - i,
        {
            let c = stripped[i];
            if !((c >= 'a' && c <= 'z') || (c >= 'A' && c <= 'Z')) {
                assert(!is_letter(stripped@[i as int]));
                return stripped;
            }
            i += 1;
        }
        let mut zero: Vec<char> = Vec::new();
        zero.push('0');
        assert(zero@ =~= seq!['0']);
        zero
    } else {
        stripped
    }
}

/// The CSS text of a raw value under a property.
pub fn transform_value(key: &str, raw: &str) -> (out: Vec<char>)
    ensures
        out@ == transformed(key@, raw@),
{
    let chars = to_chars(raw);
    match parse_number(&chars) {
        Some(n) => {
            let mut text = format_number(n);
            if !is_unitless(key) {
                append_str(&mut text, "px");
            }
            assert(text@ =~= shown(n) + number_suffix(key@));
            normalize(&text)
        },
        None => normalize(&chars),
    }
}

/// A character of the name of a custom property.
pub open spec fn is_name_char(c: char) -> bool {
    is_letter(c) || is_digit(c) || c == '-' || c == '_'
}

/// The value is a reference to a custom property and nothing else:
/// `var(--name)`.
pub open spec fn is_var(v: Seq<char>) -> bool {
    &&& v.len() >= 8
    &&& v[0] == 'v' && v[1] == 'a' && v[2] == 'r' && v[3] == '(' && v[4] == '-' && v[5] == '-'
    &&& v[v.len() - 1] == ')'
    &&& forall|i: int| 6 <= i < v.len() - 1 ==> is_name_char(#[trigger] v[i])
}

/// The name of the custom property that `var(--name)` refers to, with its
/// two dashes.
pub open spec fn var_name(v: Seq<char>) -> Seq<char> {
    v.subrange(4, v.len() - 1)
}

/// The position of the first reference among the values; their number
/// where there is none.
pub open spec fn first_var(values: Seq<Seq<char>>) -> int
    decreases values.len(),
{
    if values.len() == 0 {
        0
    } else if is_var(values[0]) {
        0
    } else {
        1 + first_var(values.drop_first())
    }
}

/// The position of the last reference among the values; `-1` where there
/// is none.
pub open spec fn last_var(values: Seq<Seq<char>>) -> int
    decreases values.len(),
{
    if values.len() == 0 {
        -1
    } else if is_var(values.last()) {
        values.len() - 1
    } else {
        last_var(values.drop_last())
    }
}

/// The `n` references from position `from` on as one nested reference:
/// the last of them outermost, each falling back to the one before it, and
/// the first to `tail`, where there is one.
pub open spec fn chain(values: Seq<Seq<char>>, from: int, n: nat, tail: Option<Seq<char>>) -> Seq<char>
    decreases n,
{
    if n == 0 {
        match tail {
            Some(t) => t,
            None => Seq::empty(),
        }
    } else {
        let name = var_name(values[from + n - 1]);
        if n == 1 && tail is None {
            "var("@ + name + ")"@
        } else {
            "var("@ + name + ","@ + chain(values, from, (n - 1) as nat, tail) + ")"@
        }
    }
}

/// The values with their references folded into fallbacks.
///
/// Where the references stand next to each other, every value before
/// them becomes the innermost fallback of a copy of their chain; the
/// references themselves give way to those chains, or to their chain
/// alone where nothing stands before them; the values after them stay.
/// Where there is no reference, or another value stands between two
/// references, the values stay as they are.
pub open spec fn with_fallbacks(values: Seq<Seq<char>>) -> Seq<Seq<char>> {
    let f = first_var(values);
    let l = last_var(values);
    if f >= values.len() || exists|k: int| f <= k <= l && !is_var(#[trigger] values[k]) {
        values
    } else {
        let n = (l - f + 1) as nat;
        let head = if f > 0 {
            Seq::new(f as nat, |i: int| chain(values, f, n, Some(values[i])))
        } else {
            seq![chain(values, f, n, None)]
        };
        head + values.skip(l + 1)
    }
}

/// Whether a value is a reference to a custom property.
pub fn value_is_var(v: &Vec<char>) -> (yes: bool)
    ensures
        yes == is_var(v@),
{
    let n = v.len();
    if n < 8 {
        return false;
    }
    if !(v[0] == 'v' && v[1] == 'a' && v[2] == 'r' && v[3] == '(' && v[4] == '-' && v[5] == '-'
        && v[n - 1] == ')') {
        return false;
    }
    let mut i: usize = 6;
    while i < n - 1
        invariant
            6 <= i <= n - 1,
            n == v.len(),
            forall|j: int| 6 <= j < i ==> is_name_char(#[trigger] v@[j]),
        decreases n - i,
    {
        let c = v[i];
        let ok = (c >= 'a' && c <= 'z') || (c >= 'A' && c <= 'Z') || (c >= '0' && c <= '9') || c
            == '-' || c == '_';
        if !ok {
            assert(!is_name_char(v@[i as int]));
            return false;
        }
        i += 1;
    }
    true
}

/// Appends the chain of the `n` references from `from` on.
fn push_chain(out: &mut Vec<char>, values: &Vec<Vec<char>>, from: usize, n: usize, tail: Option<&Vec<char>>)
    requires
        from + n <= values.len(),
        forall|k: int| from <= k < from + n ==> is_var(#[trigger] values[k]@),
    ensures
        final(out)@ == old(out)@ + chain(
            chars_views(values@),
            from as int,
            n as nat,
            match tail {
                Some(t) => Some(t@),
                None => None,
            },
        ),
    decreases n,
{
    let ghost start = out@;
    let ghost all = chars_views(values@);
    let ghost t = match tail {
        Some(t) => Some(t@),
        None => None,
    };
    if n == 0 {
        match tail {
            Some(t) => {
                append_chars(out, t);
            },
            None => {},
        }
        assert(out@ =~= start + chain(all, from as int, 0, t));
    } else {
        let v = &values[from + n - 1];
        assert(all[from + n - 1] == v@);
        let name = slice_chars(v, 4, v.len() - 1);
        append_str(out, "var(");
        append_chars(out, &name);
        if n == 1 && tail.is_none() {
            append_str(out, ")");
            assert(out@ =~= start + ("var("@ + var_name(v@) + ")"@));
        } else {
            append_str(out, ",");
            push_chain(out, values, from, n - 1, tail);
            append_str(out, ")");
            assert(out@ =~= start + ("var("@ + var_name(v@) + ","@ + chain(
                all,
                from as int,
                (n - 1) as nat,
                t,
            ) + ")"@));
        }
    }
}

/// The position of the first reference; the number of values where there
/// is none.
fn find_first_var(values: &Vec<Vec<char>>) -> (f: usize)
    ensures
        f == first_var(chars_views(values@)),
        f <= values.len(),
        f < values.len() ==> is_var(values[f as int]@),
{
    let ghost all = chars_views(values@);
    let n = values.len();
    let mut f: usize = 0;
    assert(all.skip(0) =~= all);
    while f < n && !value_is_var(&values[f])
        invariant
            f <= n,
            n == values.len(),
            all == chars_views(values@),
            first_var(all) == f + first_var(all.skip(f as int)),
        decreases n - f,
    {
        assert(all.skip(f as int)[0] == values[f as int]@);
        assert(all.skip(f as int).drop_first() =~= all.skip(f + 1));
        f += 1;
    }
    if f < n {
        assert(all.skip(f as int)[0] == values[f as int]@);
    }
    f
}

/// One more than the position of the last reference; zero where there is
/// none.
fn find_vars_end(values: &Vec<Vec<char>>) -> (e: usize)
    ensures
        e == last_var(chars_views(values@)) + 1,
        e <= values.len(),
{
    let ghost all = chars_views(values@);
    let n = values.len();
    let mut e: usize = n;
    assert(all.take(n as int) =~= all);
    while e > 0 && !value_is_var(&values[e - 1])
        invariant
            e <= n,
            n == values.len(),
            all == chars_views(values@),
            last_var(all) == last_var(all.take(e as int)),
        decreases e,
    {
        assert(all.take(e as int).last() == values[e - 1]@);
        assert(all.take(e as int).drop_last() =~= all.take(e - 1));
        e -= 1;
    }
    if e > 0 {
        assert(all.take(e as int).last() == values[e - 1]@);
    }
    e
}

/// Whether every value from `f` up to `e` is a reference.
fn only_vars(values: &Vec<Vec<char>>, f: usize, e: usize) -> (yes: bool)
    requires
        f <= e <= values.len(),
    ensures
        yes == forall|k: int| f <= k < e ==> is_var(#[trigger] chars_views(values@)[k]),
{
    let ghost all = chars_views(values@);
    let mut k: usize = f;
    while k < e
        invariant
            f <= k <= e <= values.len(),
            all == chars_views(values@),
            forall|j: int| f <= j < k ==> is_var(#[trigger] all[j]),
        decreases e - k,
    {
        assert(all[k as int] == values[k as int]@);
        if !value_is_var(&values[k]) {
            return false;
        }
        k += 1;
    }
    true
}

/// The chains that take the place of the values before the references and
/// of the references themselves.
fn fold_head(values: &Vec<Vec<char>>, f: usize, e: usize) -> (out: Vec<Vec<char>>)
    requires
        f < e <= values.len(),
        forall|k: int| f <= k < e ==> is_var(#[trigger] chars_views(values@)[k]),
    ensures
        chars_views(out@) == if f > 0 {
            Seq::new(
                f as nat,
                |i: int|
                    chain(
                        chars_views(values@),
                        f as int,
                        (e - f) as nat,
                        Some(chars_views(values@)[i]),
                    ),
            )
        } else {
            seq![chain(chars_views(values@), f as int, (e - f) as nat, None)]
        },
{
    let ghost all = chars_views(values@);
    let count: usize = e - f;
    assert forall|j: int| f <= j < f + count implies is_var(#[trigger] values[j]@) by {
        assert(all[j] == values[j]@);
    }
    let mut out: Vec<Vec<char>> = Vec::new();
    if f > 0 {
        let mut i: usize = 0;
        while i < f
            invariant
                i <= f < e <= values.len(),
                count == e - f,
                all == chars_views(values@),
                forall|j: int| f <= j < f + count ==> is_var(#[trigger] values[j]@),
                out.len() == i,
                forall|j: int|
                    0 <= j < i ==> (#[trigger] out[j])@ == chain(
                        all,
                        f as int,
                        count as nat,
                        Some(all[j]),
                    ),
            decreases f - i,
        {
            let mut text: Vec<char> = Vec::new();
            push_chain(&mut text, values, f, count, Some(&values[i]));
            assert(all[i as int] == values[i as int]@);
            assert(text@ =~= chain(all, f as int, count as nat, Some(all[i as int])));
            out.push(text);
            i += 1;
        }
        assert(chars_views(out@) =~= Seq::new(
            f as nat,
            |i: int| chain(all, f as int, count as nat, Some(all[i])),
        ));
    } else {
        let mut text: Vec<char> = Vec::new();
        push_chain(&mut text, values, f, count, None);
        assert(text@ =~= chain(all, f as int, count as nat, None));
        out.push(text);
        assert(chars_views(out@) =~= seq![chain(all, f as int, count as nat, None)]);
    }
    out
}

/// Appends copies of the values from `e` on.
fn append_rest(out: &mut Vec<Vec<char>>, values: &Vec<Vec<char>>, e: usize)
    requires
        e <= values.len(),
    ensures
        chars_views(final(out)@) == chars_views(old(out)@) + chars_views(values@).skip(e as int),
{
    let ghost head = chars_views(out@);
    let ghost all = chars_views(values@);
    let n = values.len();
    let mut j: usize = e;
    while j < n
        invariant
            e <= j <= n,
            n == values.len(),
            all == chars_views(values@),
            out.len() == head.len() + (j - e),
            forall|i: int| 0 <= i < head.len() ==> (#[trigger] out[i])@ == head[i],
            forall|i: int| 0 <= i < j - e ==> (#[trigger] out[head.len() + i])@ == all[e + i],
        decreases n - j,
    {
        let copy = slice_chars(&values[j], 0, values[j].len());
        assert(copy@ =~= values[j as int]@);
        assert(all[j as int] == values[j as int]@);
        out.push(copy);
        j += 1;
    }
    assert forall|i: int| 0 <= i < out.len() implies chars_views(out@)[i] == (head + all.skip(
        e as int,
    ))[i] by {
        if i >= head.len() {
            assert(out[head.len() + (i - head.len())]@ == all[e + (i - head.len())]);
        }
    }
    assert(chars_views(out@) =~= head + all.skip(e as int));
}

/// Folds the references among the values into fallbacks.
pub fn variable_fallbacks(values: Vec<Vec<char>>) -> (out: Vec<Vec<char>>)
    ensures
        chars_views(out@) == with_fallbacks(chars_views(values@)),
{
    let ghost all = chars_views(values@);
    let f = find_first_var(&values);
    if f >= values.len() {
        return values;
    }
    let e = find_vars_end(&values);
    proof {
        assert(all[f as int] == values[f as int]@);
        lemma_last_var_bound(all, f as int);
    }
    if !only_vars(&values, f, e) {
        return values;
    }
    let mut out = fold_head(&values, f, e);
    append_rest(&mut out, &values, e);
    out
}

/// No reference stands after the last one.
proof fn lemma_last_var_bound(values: Seq<Seq<char>>, k: int)
    requires
        0 <= k < values.len(),
        is_var(values[k]),
    ensures
        last_var(values) >= k,
    decreases values.len(),
{
    if !is_var(values.last()) {
        lemma_last_var_bound(values.drop_last(), k);
    }
}

} // verus!
