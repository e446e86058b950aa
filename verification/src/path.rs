//! The parts of a path that placeholders stand for.
use vstd::prelude::*;

use crate::text::{chars_of, string_of};

verus! {

/// Where the text after the last slash starts.
pub open spec fn last_part_start(s: Seq<char>) -> nat
    decreases s.len(),
{
    if s.len() == 0 || s.last() == '/' {
        s.len()
    } else {
        last_part_start(s.drop_last())
    }
}

/// The last part of a path that is neither empty nor a single dot, unless it is
/// two dots.
pub open spec fn file_name(s: Seq<char>) -> Option<Seq<char>>
    decreases s.len(),
{
    let start = last_part_start(s);
    let part = s.skip(start as int);
    if part.len() == 0 || part == seq!['.'] {
        if start == 0 {
            None
        } else {
            proof {
                last_part_has_no_slash(s);
            }
            file_name(s.take(start - 1))
        }
    } else if part == seq!['.', '.'] {
        None
    } else {
        Some(part)
    }
}

/// The last part of a path follows a slash or starts the path, and holds no slash.
pub proof fn last_part_has_no_slash(s: Seq<char>)
    ensures
        last_part_start(s) <= s.len(),
        last_part_start(s) > 0 ==> s[last_part_start(s) - 1] == '/',
        forall|i: int| last_part_start(s) <= i < s.len() ==> s[i] != '/',
    decreases s.len(),
{
    if s.len() > 0 && s.last() != '/' {
        last_part_has_no_slash(s.drop_last());
        assert forall|i: int| last_part_start(s) <= i < s.len() implies s[i] != '/' by {
            if i < s.len() - 1 {
                assert(s.drop_last()[i] == s[i]);
            }
        }
    }
}

/// Where the last dot stands that has something before it.
pub open spec fn suffix_dot(name: Seq<char>) -> Option<nat>
    decreases name.len(),
{
    if name.len() <= 1 {
        None
    } else if name.last() == '.' {
        Some((name.len() - 1) as nat)
    } else {
        suffix_dot(name.drop_last())
    }
}

/// A file name without its extension.
pub open spec fn stem(name: Seq<char>) -> Seq<char> {
    match suffix_dot(name) {
        Some(k) => name.take(k as int),
        None => name,
    }
}

/// The extension of a file name with its dot, empty where there is none.
pub open spec fn dotted_extension(name: Seq<char>) -> Seq<char> {
    match suffix_dot(name) {
        Some(k) => name.skip(k as int),
        None => Seq::empty(),
    }
}

/// The file name of a path, empty where there is none.
pub open spec fn name_or_empty(path: Seq<char>) -> Seq<char> {
    match file_name(path) {
        Some(name) => name,
        None => Seq::empty(),
    }
}

proof fn suffix_dot_bound(name: Seq<char>)
    ensures
        suffix_dot(name) matches Some(k) ==> 0 < k < name.len() && name[k as int] == '.',
    decreases name.len(),
{
    if name.len() > 1 && name.last() != '.' {
        suffix_dot_bound(name.drop_last());
    }
}

/// The file name of a path, empty where there is none.
pub fn path_name(path: &str) -> (name: String)
    ensures
        name@ == name_or_empty(path@),
{
    let v: Vec<char> = chars_of(path);
    let mut end: usize = v.len();
    assert(v@.take(end as int) == v@);
    loop
        invariant
            end <= v@.len(),
            v@ == path@,
            file_name(path@) == file_name(v@.take(end as int)),
        decreases end,
    {
        let ghost s = v@.take(end as int);
        let mut start: usize = end;
        assert(s.take(start as int) == s);
        while start > 0 && v[start - 1] != '/'
            invariant
                start <= end <= v@.len(),
                s == v@.take(end as int),
                last_part_start(s) == last_part_start(s.take(start as int)),
            decreases start,
        {
            assert(s.take(start as int).drop_last() == s.take(start - 1));
            start -= 1;
        }
        assert(last_part_start(s) == start);
        let part: String = string_of(&v, start, end);
        assert(part@ == s.skip(start as int));
        let plain: Vec<char> = chars_of(part.as_str());
        if plain.len() == 0 || (plain.len() == 1 && plain[0] == '.') {
            assert(part@.len() == 0 || part@ =~= seq!['.']);
            if start == 0 {
                return String::new();
            }
            assert(s.take(start - 1) == v@.take(start - 1));
            end = start - 1;
        } else if plain.len() == 2 && plain[0] == '.' && plain[1] == '.' {
            assert(part@ =~= seq!['.', '.']);
            return String::new();
        } else {
            return part;
        }
    }
}

/// Where the last dot stands that has something before it, or the length.
fn find_suffix_dot(v: &Vec<char>) -> (k: usize)
    ensures
        match suffix_dot(v@) {
            Some(d) => k == d && k <= v@.len(),
            None => k == v@.len(),
        },
{
    let mut n: usize = v.len();
    assert(v@.take(n as int) == v@);
    while n > 1
        invariant
            n <= v@.len(),
            suffix_dot(v@) == suffix_dot(v@.take(n as int)),
        decreases n,
    {
        if v[n - 1] == '.' {
            return n - 1;
        }
        assert(v@.take(n as int).drop_last() == v@.take(n - 1));
        n -= 1;
    }
    v.len()
}

/// A file name without its extension.
pub fn name_stem(name: &str) -> (r: String)
    ensures
        r@ == stem(name@),
{
    let v: Vec<char> = chars_of(name);
    let k: usize = find_suffix_dot(&v);
    string_of(&v, 0, k)
}

/// The extension of a file name with its dot, empty where there is none.
pub fn name_extension(name: &str) -> (r: String)
    ensures
        r@ == dotted_extension(name@),
{
    let v: Vec<char> = chars_of(name);
    let k: usize = find_suffix_dot(&v);
    string_of(&v, k, v.len())
}

/// Stem and extension together are the file name.
pub proof fn stem_and_extension_are_the_name(name: Seq<char>)
    ensures
        stem(name) + dotted_extension(name) == name,
{
    suffix_dot_bound(name);
}

/// An extension starts with its dot and holds no other.
pub proof fn extension_has_one_dot(name: Seq<char>)
    requires
        dotted_extension(name).len() > 0,
    ensures
        dotted_extension(name)[0] == '.',
        !dotted_extension(name).skip(1).contains('.'),
{
    suffix_dot_bound(name);
    no_dot_after(name);
}

proof fn no_dot_after(name: Seq<char>)
    ensures
        suffix_dot(name) matches Some(k) ==> forall|i: int| k < i < name.len() ==> name[i] != '.',
    decreases name.len(),
{
    if name.len() > 1 && name.last() != '.' {
        no_dot_after(name.drop_last());
        if let Some(k) = suffix_dot(name) {
            assert forall|i: int| k < i < name.len() implies name[i] != '.' by {
                if i < name.len() - 1 {
                    assert(name.drop_last()[i] == name[i]);
                }
            }
        }
    }
}

/// A file name holds no slash, and is neither empty nor made of one or two dots alone.
pub proof fn file_name_is_one_part(path: Seq<char>)
    ensures
        file_name(path) matches Some(name) ==> {
            &&& name.len() > 0
            &&& !name.contains('/')
            &&& name != seq!['.']
            &&& name != seq!['.', '.']
        },
    decreases path.len(),
{
    last_part_has_no_slash(path);
    let start = last_part_start(path);
    let part = path.skip(start as int);
    if part.len() == 0 || part == seq!['.'] {
        if start > 0 {
            file_name_is_one_part(path.take(start - 1));
        }
    } else if file_name(path) is Some {
        assert(file_name(path) == Some(part));
        assert(!part.contains('/')) by {
            if part.contains('/') {
                let i = choose|i: int| 0 <= i < part.len() && part[i] == '/';
                assert(path[start + i] == '/');
            }
        }
    }
}

/// The path of an entry is the directory, a slash and a name; the file name of
/// that path is the name.
pub proof fn file_name_of_an_entry(dir: Seq<char>, name: Seq<char>)
    requires
        name.len() > 0,
        !name.contains('/'),
        name != seq!['.'],
        name != seq!['.', '.'],
    ensures
        file_name(dir + seq!['/'] + name) == Some(name),
{
    let s = dir + seq!['/'] + name;
    last_part_has_no_slash(s);
    let start = last_part_start(s);
    if start < dir.len() + 1 {
        assert(s[dir.len() as int] == '/');
    }
    if start > dir.len() + 1 {
        assert(s[start - 1] == name[start - 1 - dir.len() - 1]);
    }
    assert(s.skip(start as int) =~= name);
}

/// A name of one part is its own file name, without a directory.
pub proof fn file_name_without_a_directory(name: Seq<char>)
    requires
        name.len() > 0,
        !name.contains('/'),
        name != seq!['.'],
        name != seq!['.', '.'],
    ensures
        file_name(name) == Some(name),
{
    last_part_has_no_slash(name);
    let start = last_part_start(name);
    if start > 0 {
        assert(name.contains(name[start - 1]));
    }
    assert(name.skip(0) =~= name);
}

/// A slash, or a slash and a dot, at the end of a path does not change its file name;
/// nor does a path that ends with two dots have one.
pub proof fn file_name_before_slashes_and_dots(path: Seq<char>)
    ensures
        file_name(path + seq!['/']) == file_name(path),
        file_name(path + seq!['/', '.']) == file_name(path),
        file_name(path + seq!['/', '.', '.']) is None,
        file_name(Seq::empty()) is None,
        file_name(seq!['.']) is None,
        file_name(seq!['.', '.']) is None,
{
    ends_after_slash(path, Seq::empty());
    ends_after_slash(path, seq!['.']);
    ends_after_slash(path, seq!['.', '.']);
    assert(path + seq!['/'] + Seq::<char>::empty() =~= path + seq!['/']);
    assert(path + seq!['/'] + seq!['.'] =~= path + seq!['/', '.']);
    assert(path + seq!['/'] + seq!['.', '.'] =~= path + seq!['/', '.', '.']);
    let one = seq!['.'];
    let two = seq!['.', '.'];
    last_part_has_no_slash(one);
    last_part_has_no_slash(two);
    assert(one.skip(0) =~= one);
    assert(two.skip(0) =~= two);
    assert(Seq::<char>::empty().skip(0) =~= Seq::<char>::empty());
}

/// Where the last part of a path starts whose last slash is followed by `part`.
proof fn ends_after_slash(path: Seq<char>, part: Seq<char>)
    requires
        !part.contains('/'),
    ensures
        last_part_start(path + seq!['/'] + part) == path.len() + 1,
        (path + seq!['/'] + part).skip(path.len() as int + 1) == part,
        (path + seq!['/'] + part).take(path.len() as int) == path,
{
    let s = path + seq!['/'] + part;
    last_part_has_no_slash(s);
    let start = last_part_start(s);
    assert(s[path.len() as int] == '/');
    if start > path.len() + 1 {
        assert(s[start - 1] == part[start - 1 - path.len() - 1]);
        assert(part.contains(part[start - 2 - path.len()]));
    }
    assert(s.skip(path.len() as int + 1) =~= part);
    assert(s.take(path.len() as int) =~= path);
}

/// A name splits at its last dot, if there is one that does not come first: what is
/// before it is the stem, the dot and what is after it the extension.
pub proof fn name_splits_at_its_last_dot(before: Seq<char>, after: Seq<char>)
    requires
        before.len() > 0,
        !after.contains('.'),
    ensures
        stem(before + seq!['.'] + after) == before,
        dotted_extension(before + seq!['.'] + after) == seq!['.'] + after,
{
    let name = before + seq!['.'] + after;
    dot_is_last(before, after);
    assert(name.take(before.len() as int) =~= before);
    assert(name.skip(before.len() as int) =~= seq!['.'] + after);
}

proof fn dot_is_last(before: Seq<char>, after: Seq<char>)
    requires
        before.len() > 0,
        !after.contains('.'),
    ensures
        suffix_dot(before + seq!['.'] + after) == Some(before.len()),
    decreases after.len(),
{
    let name = before + seq!['.'] + after;
    if after.len() > 0 {
        let f = after.drop_last();
        assert(after.contains(after.last()));
        assert(!f.contains('.')) by {
            if f.contains('.') {
                let i = choose|i: int| 0 <= i < f.len() && f[i] == '.';
                assert(after[i] == '.');
            }
        }
        dot_is_last(before, f);
        assert(name.drop_last() =~= before + seq!['.'] + f);
    }
}

/// A name without a dot, or with none but its first character, has no extension and
/// is its own stem.
pub proof fn name_without_a_dot_is_its_stem(name: Seq<char>)
    requires
        forall|i: int| 0 < i < name.len() ==> name[i] != '.',
    ensures
        stem(name) == name,
        dotted_extension(name) == Seq::<char>::empty(),
{
    suffix_dot_bound(name);
}

} // verus!
