//! File paths as text: names, extensions, and paths relative to a root.
use vstd::prelude::*;
use crate::text::{
    append_chars, append_str, ends_with, from_chars, has_prefix, has_suffix, slice_chars,
    starts_with, to_chars,
};

verus! {

/// The position of the last `c` in `s`; `-1` where it has none.
pub open spec fn last_index(s: Seq<char>, c: char) -> int
    decreases s.len(),
{
    if s.len() == 0 {
        -1
    } else if s.last() == c {
        s.len() - 1
    } else {
        last_index(s.drop_last(), c)
    }
}

/// The last index lies within the sequence or is `-1`.
pub proof fn lemma_last_index(s: Seq<char>, c: char)
    ensures
        -1 <= last_index(s, c) < s.len(),
    decreases s.len(),
{
    if s.len() > 0 && s.last() != c {
        lemma_last_index(s.drop_last(), c);
    }
}

/// The name of the file of a path: what follows its last `/`.
pub open spec fn file_name(path: Seq<char>) -> Seq<char> {
    path.skip(last_index(path, '/') + 1)
}

/// The extension of the file of a path: what follows the last `.` of the
/// file's name, where the name has a `.` after its first character.
pub open spec fn extension(path: Seq<char>) -> Option<Seq<char>> {
    let name = file_name(path);
    let k = last_index(name, '.');
    if k <= 0 {
        None
    } else {
        Some(name.skip(k + 1))
    }
}

/// The name of the file of a path without its extension.
pub open spec fn file_stem(path: Seq<char>) -> Seq<char> {
    let name = file_name(path);
    let k = last_index(name, '.');
    if k <= 0 {
        name
    } else {
        name.take(k)
    }
}

/// The name ends in the suffix, alone or before one of the extensions of
/// source files.
pub open spec fn suffix_matches(allowed_suffix: Seq<char>, filename: Seq<char>) -> bool {
    has_suffix(filename, allowed_suffix + ".js"@) || has_suffix(filename, allowed_suffix + ".ts"@)
        || has_suffix(filename, allowed_suffix + ".tsx"@) || has_suffix(
        filename,
        allowed_suffix + ".jsx"@,
    ) || has_suffix(filename, allowed_suffix + ".mdx"@) || has_suffix(
        filename,
        allowed_suffix + ".md"@,
    ) || has_suffix(filename, allowed_suffix + ".mjs"@) || has_suffix(
        filename,
        allowed_suffix + ".cjs"@,
    ) || has_suffix(filename, allowed_suffix)
}

/// The path ends in one of the extensions of source files.
pub open spec fn has_source_extension(path: Seq<char>) -> bool {
    has_suffix(path, ".tsx"@) || has_suffix(path, ".ts"@) || has_suffix(path, ".jsx"@)
        || has_suffix(path, ".js"@) || has_suffix(path, ".mjs"@) || has_suffix(path, ".cjs"@)
        || has_suffix(path, ".mdx"@) || has_suffix(path, ".md"@)
}

/// The imported path with the extension of the importing file, where it
/// has none of its own.
pub open spec fn with_file_extension(imported: Seq<char>, source_file: Seq<char>) -> Seq<char> {
    if has_source_extension(imported) {
        imported
    } else {
        imported + "."@ + match extension(source_file) {
            Some(e) => e,
            None => Seq::empty(),
        }
    }
}

/// The path begins at the root of the file system.
pub open spec fn is_absolute(path: Seq<char>) -> bool {
    path.len() > 0 && path[0] == '/'
}

/// The components of the text `s`: what stands between its `/`, without
/// what is empty and without `.`. Where `head` holds, `s` begins a
/// relative path, and a `.` at its head is a component.
pub open spec fn components_from(s: Seq<char>, head: bool) -> Seq<Seq<char>>
    decreases s.len(),
{
    let k = crate::text::first_index(s, '/');
    let part = if 0 <= k <= s.len() { s.take(k) } else { s };
    let here = if part.len() == 0 || (part == "."@ && !head) {
        Seq::<Seq<char>>::empty()
    } else {
        seq![part]
    };
    if 0 <= k < s.len() {
        here + components_from(s.skip(k + 1), false)
    } else {
        here
    }
}

/// The components of a path. Several `/` in a row count as one, and a
/// `/` at the end counts for nothing.
pub open spec fn components(path: Seq<char>) -> Seq<Seq<char>> {
    components_from(path, !is_absolute(path))
}

/// The path relative to the root. Where both begin at the root of the
/// file system or both do not, and the components of the root are the
/// first components of the path, what is left is the other components of
/// the path with a `/` between each two; nothing is left where the path
/// is the root. Otherwise, and under an empty root, the path stays as it
/// is.
pub open spec fn relative_to(root: Seq<char>, path: Seq<char>) -> Seq<char> {
    let r = components(root);
    let p = components(path);
    if root.len() > 0 && is_absolute(root) == is_absolute(path) && r.len() <= p.len() && p.take(
        r.len() as int,
    ) == r {
        crate::text::join_with(p.skip(r.len() as int), "/"@)
    } else {
        path
    }
}

/// The position of the last `c`, where there is one.
pub fn find_last_char(s: &Vec<char>, c: char) -> (found: Option<usize>)
    ensures
        match found {
            Some(k) => k == last_index(s@, c) && k < s.len(),
            None => last_index(s@, c) == -1,
        },
{
    let mut e: usize = s.len();
    assert(s@.take(e as int) =~= s@);
    while e > 0 && s[e - 1] != c
        invariant
            e <= s.len(),
            last_index(s@, c) == last_index(s@.take(e as int), c),
        decreases e,
    {
        assert(s@.take(e as int).last() == s@[e - 1]);
        assert(s@.take(e as int).drop_last() =~= s@.take(e - 1));
        e -= 1;
    }
    if e > 0 {
        assert(s@.take(e as int).last() == s@[e - 1]);
        Some(e - 1)
    } else {
        None
    }
}

/// The name of the file of a path.
pub fn file_name_of(path: &Vec<char>) -> (name: Vec<char>)
    ensures
        name@ == file_name(path@),
{
    let from = match find_last_char(path, '/') {
        Some(k) => k + 1,
        None => 0,
    };
    let name = slice_chars(path, from, path.len());
    assert(name@ =~= path@.skip(from as int));
    name
}

/// The extension of the file of a path, where it has one.
pub fn extension_of(path: &Vec<char>) -> (ext: Option<Vec<char>>)
    ensures
        match extension(path@) {
            Some(e) => ext is Some && ext->0@ == e,
            None => ext is None,
        },
{
    let name = file_name_of(path);
    match find_last_char(&name, '.') {
        Some(k) => if k == 0 {
            None
        } else {
            let ext = slice_chars(&name, k + 1, name.len());
            assert(ext@ =~= name@.skip(k + 1));
            Some(ext)
        },
        None => None,
    }
}

/// The name of the file of a path without its extension.
pub fn file_stem_of(path: &Vec<char>) -> (stem: Vec<char>)
    ensures
        stem@ == file_stem(path@),
{
    let name = file_name_of(path);
    match find_last_char(&name, '.') {
        Some(k) => if k == 0 {
            name
        } else {
            let stem = slice_chars(&name, 0, k);
            assert(stem@ =~= name@.take(k as int));
            stem
        },
        None => name,
    }
}

/// Whether `s` ends with `a` followed by `b`.
fn ends_with_both(s: &Vec<char>, a: &Vec<char>, b: &str) -> (yes: bool)
    ensures
        yes == has_suffix(s@, a@ + b@),
{
    let mut both: Vec<char> = Vec::new();
    append_chars(&mut both, a);
    append_str(&mut both, b);
    assert(both@ =~= a@ + b@);
    ends_with(s, &both)
}

/// Whether the file's name ends in the suffix, alone or before one of
/// the extensions of source files.
pub fn matches_file_suffix(allowed_suffix: &str, filename: &str) -> (yes: bool)
    ensures
        yes == suffix_matches(allowed_suffix@, filename@),
{
    let name = to_chars(filename);
    let suffix = to_chars(allowed_suffix);
    ends_with_both(&name, &suffix, ".js") || ends_with_both(&name, &suffix, ".ts")
        || ends_with_both(&name, &suffix, ".tsx") || ends_with_both(&name, &suffix, ".jsx")
        || ends_with_both(&name, &suffix, ".mdx") || ends_with_both(&name, &suffix, ".md")
        || ends_with_both(&name, &suffix, ".mjs") || ends_with_both(&name, &suffix, ".cjs")
        || ends_with(&name, &suffix)
}

/// Whether `s` ends with the text.
fn ends_with_str(s: &Vec<char>, tail: &str) -> (yes: bool)
    ensures
        yes == has_suffix(s@, tail@),
{
    let t = to_chars(tail);
    ends_with(s, &t)
}

/// Whether the path ends in one of the extensions of source files.
pub fn ends_in_source_extension(path: &Vec<char>) -> (yes: bool)
    ensures
        yes == has_source_extension(path@),
{
    ends_with_str(path, ".tsx") || ends_with_str(path, ".ts") || ends_with_str(path, ".jsx")
        || ends_with_str(path, ".js") || ends_with_str(path, ".mjs") || ends_with_str(path, ".cjs")
        || ends_with_str(path, ".mdx") || ends_with_str(path, ".md")
}

/// The imported path with the extension of the importing file, where it
/// has none of its own.
pub fn add_file_extension(imported_file_path: &str, source_file: &str) -> (path: String)
    ensures
        path@ == with_file_extension(imported_file_path@, source_file@),
{
    let mut imported = to_chars(imported_file_path);
    if ends_in_source_extension(&imported) {
        return imported_file_path.to_string();
    }
    let source = to_chars(source_file);
    append_str(&mut imported, ".");
    match extension_of(&source) {
        Some(ext) => {
            append_chars(&mut imported, &ext);
        },
        None => {
            assert(imported@ =~= imported_file_path@ + "."@ + Seq::<char>::empty());
        },
    }
    from_chars(&imported)
}

/// The components of a path.
pub fn components_of(path: &Vec<char>) -> (out: Vec<Vec<char>>)
    ensures
        crate::text::chars_views(out@) == components(path@),
{
    let mut out: Vec<Vec<char>> = Vec::new();
    let mut from: usize = 0;
    let mut head = !(path.len() > 0 && path[0] == '/');
    let mut done = false;
    proof {
        reveal_strlit(".");
    }
    assert(path@.skip(0) =~= path@);
    assert(crate::text::chars_views(out@) + components_from(path@.skip(0), head) =~= components(path@));
    while !done
        invariant
            from <= path.len(),
            "."@.len() == 1,
            "."@[0] == '.',
            !done ==> crate::text::chars_views(out@) + components_from(path@.skip(from as int), head)
                == components(path@),
            done ==> crate::text::chars_views(out@) == components(path@),
        decreases (path.len() - from) + (if done { 0int } else { 1int }),
    {
        let ghost rest = path@.skip(from as int);
        let ghost before = crate::text::chars_views(out@);
        let k = crate::text::find_char(path, from, '/');
        let part = slice_chars(path, from, k);
        assert(part@ =~= rest.take(k - from));
        let dot = part.len() == 1 && part[0] == '.';
        assert(dot == (part@ == "."@)) by {
            if dot {
                assert(part@ =~= "."@);
            }
        }
        let ghost here = if part@.len() == 0 || (part@ == "."@ && !head) {
            Seq::<Seq<char>>::empty()
        } else {
            seq![part@]
        };
        if part.len() > 0 && !(dot && !head) {
            out.push(part);
        }
        assert(crate::text::chars_views(out@) =~= before + here);
        if k < path.len() {
            assert(rest.skip(k - from + 1) =~= path@.skip(k + 1));
            assert(before + (here + components_from(path@.skip(k + 1), false)) =~= (before + here)
                + components_from(path@.skip(k + 1), false));
            from = k + 1;
            head = false;
        } else {
            done = true;
        }
    }
    out
}

/// Whether the first lists are the first of the second.
fn begins_with(first: &Vec<Vec<char>>, all: &Vec<Vec<char>>) -> (yes: bool)
    requires
        first.len() <= all.len(),
    ensures
        yes == (crate::text::chars_views(all@).take(first.len() as int) == crate::text::chars_views(
            first@,
        )),
{
    let ghost a = crate::text::chars_views(all@).take(first.len() as int);
    let ghost f = crate::text::chars_views(first@);
    let mut i: usize = 0;
    while i < first.len()
        invariant
            i <= first.len() <= all.len(),
            a == crate::text::chars_views(all@).take(first.len() as int),
            f == crate::text::chars_views(first@),
            forall|j: int| 0 <= j < i ==> a[j] == f[j],
        decreases first.len() - i,
    {
        if !crate::text::same_chars(&first[i], &all[i]) {
            assert(a[i as int] != f[i as int]);
            return false;
        }
        i += 1;
    }
    assert(a =~= f);
    true
}

/// The path relative to the root.
pub fn relative_path(root: &str, file_path: &str) -> (rel: String)
    ensures
        rel@ == relative_to(root@, file_path@),
{
    let root_chars = to_chars(root);
    let path = to_chars(file_path);
    if root_chars.len() == 0 {
        return file_path.to_string();
    }
    let root_absolute = root_chars[0] == '/';
    let path_absolute = path.len() > 0 && path[0] == '/';
    let r = components_of(&root_chars);
    let p = components_of(&path);
    if root_absolute != path_absolute || r.len() > p.len() || !begins_with(&r, &p) {
        return file_path.to_string();
    }
    let mut rest: Vec<Vec<char>> = Vec::new();
    let mut i: usize = r.len();
    let ghost all = crate::text::chars_views(p@);
    assert(all.skip(r.len() as int).take(0) =~= Seq::<Seq<char>>::empty());
    while i < p.len()
        invariant
            r.len() <= i <= p.len(),
            all == crate::text::chars_views(p@),
            crate::text::chars_views(rest@) == all.skip(r.len() as int).take(i - r.len()),
        decreases p.len() - i,
    {
        let ghost before = crate::text::chars_views(rest@);
        rest.push(slice_chars(&p[i], 0, p[i].len()));
        assert(p[i as int]@.subrange(0, p[i as int]@.len() as int) =~= p[i as int]@);
        assert(crate::text::chars_views(rest@) =~= before.push(all[i as int]));
        assert(all.skip(r.len() as int).take(i + 1 - r.len()) =~= all.skip(r.len() as int).take(
            i - r.len(),
        ).push(all[i as int]));
        i += 1;
    }
    assert(all.skip(r.len() as int).take(p.len() - r.len()) =~= all.skip(r.len() as int));
    let mut out: Vec<char> = Vec::new();
    crate::text::append_joined(&mut out, &rest, "/");
    assert(out@ =~= crate::text::join_with(all.skip(r.len() as int), "/"@));
    from_chars(&out)
}

/// The name that stands for a file that is not known.
pub open spec fn unknown_file() -> Seq<char> {
    "UnknownFile"@
}

/// The name of the file without its extension; `UnknownFile` where no
/// file is known.
pub fn extract_filename_from_path(path: &Option<String>) -> (name: String)
    ensures
        name@ == match path {
            Some(p) => file_stem(p@),
            None => unknown_file(),
        },
{
    match path {
        Some(p) => {
            let chars = to_chars(p.as_str());
            from_chars(&file_stem_of(&chars))
        },
        None => "UnknownFile".to_string(),
    }
}

/// The path of the file; `UnknownFile` where no file is known.
pub fn extract_path(path: &Option<String>) -> (text: String)
    ensures
        text@ == match path {
            Some(p) => p@,
            None => unknown_file(),
        },
{
    match path {
        Some(p) => p.clone(),
        None => "UnknownFile".to_string(),
    }
}

/// The name of the file with its extension, where a file is known.
pub fn extract_filename_with_ext_from_path(path: &Option<String>) -> (name: Option<String>)
    ensures
        match path {
            Some(p) => name is Some && name->0@ == file_name(p@),
            None => name is None,
        },
{
    match path {
        Some(p) => {
            let chars = to_chars(p.as_str());
            Some(from_chars(&file_name_of(&chars)))
        },
        None => None,
    }
}

} // verus!
