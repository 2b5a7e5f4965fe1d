//! Windows-style paths as text: components, file names, stems and
//! extensions (`\\` and `/` both separate components).
use vstd::prelude::*;

use crate::lxsource::opt_view;
use crate::text::{
    class_has, in_class, keep_len, keep_len_exec, lemma_keep_len_bound, CharClass,
};

verus! {

/// Where the last component of a Windows path ends: trailing separators
/// are dropped, and so are `.` components that follow a separator (a `.`
/// at the very start is kept, as `Path::components` keeps it).
pub open spec fn name_end(path: Seq<char>) -> nat
    decreases path.len(),
{
    let k = keep_len(path, CharClass::PathSeparator);
    if k >= 2 && path[k - 1] == '.' && in_class(path[k - 2], CharClass::PathSeparator) {
        proof {
            lemma_keep_len_bound(path, CharClass::PathSeparator);
        }
        name_end(path.take(k - 1))
    } else {
        k
    }
}

/// The last component of a Windows path (`\` and `/` separate components;
/// trailing separators and `.` components are ignored).
pub open spec fn last_component(path: Seq<char>) -> Seq<char> {
    after_last_sep(path.take(name_end(path) as int))
}

pub proof fn lemma_name_end_bound(path: Seq<char>)
    ensures
        name_end(path) <= path.len(),
    decreases path.len(),
{
    lemma_keep_len_bound(path, CharClass::PathSeparator);
    let k = keep_len(path, CharClass::PathSeparator);
    if k >= 2 && path[k - 1] == '.' && in_class(path[k - 2], CharClass::PathSeparator) {
        lemma_name_end_bound(path.take(k - 1));
    }
}

pub fn name_end_exec(path: &Vec<char>) -> (r: usize)
    ensures
        r == name_end(path@),
        r <= path.len(),
{
    let mut end = path.len();
    assert(path@.take(end as int) =~= path@);
    loop
        invariant
            end <= path.len(),
            name_end(path@) == name_end(path@.take(end as int)),
        decreases end,
    {
        let k = keep_len_exec(path, end, CharClass::PathSeparator);
        let ghost t = path@.take(end as int);
        if k >= 2 && path[k - 1] == '.' && class_has(CharClass::PathSeparator, path[k - 2]) {
            assert(t[k - 1] == path@[k - 1] && t[k - 2] == path@[k - 2]);
            assert(t.take(k - 1) =~= path@.take(k - 1));
            end = k - 1;
        } else {
            proof {
                if k >= 2 {
                    assert(t[k - 1] == path@[k - 1] && t[k - 2] == path@[k - 2]);
                }
            }
            return k;
        }
    }
}

/// The text before the end of the last component (see `name_end`).
pub fn name_part(path: &Vec<char>) -> (r: Vec<char>)
    ensures
        r@ == path@.take(name_end(path@) as int),
{
    let e = name_end_exec(path);
    let r = crate::text::slice_of(path, 0, e);
    assert(r@ =~= path@.take(e as int));
    r
}

/// The text after the last separator.
pub open spec fn after_last_sep(p: Seq<char>) -> Seq<char>
    decreases p.len(),
{
    if p.len() == 0 {
        p
    } else if in_class(p.last(), CharClass::PathSeparator) {
        Seq::<char>::empty()
    } else {
        after_last_sep(p.drop_last()).push(p.last())
    }
}

/// The part of `name` before its last `.`, when that `.` is not the first
/// character.
pub open spec fn before_last_dot(name: Seq<char>) -> Option<Seq<char>>
    decreases name.len(),
{
    if name.len() == 0 {
        None
    } else if name.last() == '.' {
        if name.len() > 1 {
            Some(name.drop_last())
        } else {
            None
        }
    } else {
        before_last_dot(name.drop_last())
    }
}

/// `Path::file_stem` of a Windows path: the file name without its
/// extension; `None` when the path ends in no file name (empty, `.`, `..`).
pub open spec fn file_stem_of(path: Seq<char>) -> Option<Seq<char>> {
    let name = last_component(path);
    if name.len() == 0 || name == seq!['.'] || name == seq!['.', '.'] {
        None
    } else {
        match before_last_dot(name) {
            Some(b) => Some(b),
            None => Some(name),
        }
    }
}

pub fn after_last_sep_exec(p: &Vec<char>) -> (r: Vec<char>)
    ensures
        r@ == after_last_sep(p@),
{
    let mut j = p.len();
    assert(p@.take(j as int) =~= p@);
    assert(p@.skip(j as int) =~= Seq::<char>::empty());
    assert(after_last_sep(p@) + Seq::<char>::empty() =~= after_last_sep(p@));
    while j > 0 && !class_has(CharClass::PathSeparator, p[j - 1])
        invariant
            j <= p.len(),
            after_last_sep(p@) == after_last_sep(p@.take(j as int)) + p@.skip(j as int),
        decreases j,
    {
        let ghost t = p@.take(j as int);
        assert(t.drop_last() =~= p@.take(j - 1));
        assert(t.last() == p@[j - 1]);
        assert(p@.skip(j - 1) =~= seq![p@[j - 1]] + p@.skip(j as int));
        assert(after_last_sep(t) == after_last_sep(p@.take(j - 1)).push(p@[j - 1]));
        assert(after_last_sep(p@.take(j - 1)).push(p@[j - 1]) + p@.skip(j as int)
            =~= after_last_sep(p@.take(j - 1)) + p@.skip(j - 1));
        j = j - 1;
    }
    proof {
        let t = p@.take(j as int);
        if j > 0 {
            assert(t.last() == p@[j - 1]);
        }
        assert(after_last_sep(t) =~= Seq::<char>::empty());
        assert(Seq::<char>::empty() + p@.skip(j as int) =~= p@.skip(j as int));
        assert(p@.take(p.len() as int) =~= p@);
    }
    crate::text::slice_of(p, j, p.len())
}

pub fn before_last_dot_exec(name: &Vec<char>) -> (r: Option<Vec<char>>)
    ensures
        crate::lxsource::opt_view(r) == before_last_dot(name@),
{
    let mut j = name.len();
    assert(name@.take(name.len() as int) =~= name@);
    while j > 0 && name[j - 1] != '.'
        invariant
            j <= name.len(),
            before_last_dot(name@) == before_last_dot(name@.take(j as int)),
        decreases j,
    {
        let ghost t = name@.take(j as int);
        assert(t.drop_last() =~= name@.take(j - 1));
        assert(t.last() == name@[j - 1]);
        j = j - 1;
    }
    if j == 0 {
        return None;
    }
    let ghost t = name@.take(j as int);
    assert(t.last() == name@[j - 1]);
    if j > 1 {
        assert(t.drop_last() =~= name@.take(j - 1));
        Some(crate::text::slice_of(name, 0, j - 1))
    } else {
        None
    }
}

pub fn file_stem(path: &Vec<char>) -> (r: Option<Vec<char>>)
    ensures
        crate::lxsource::opt_view(r) == file_stem_of(path@),
{
    let p = name_part(path);
    let name = after_last_sep_exec(&p);
    let mut dot: Vec<char> = Vec::new();
    dot.push('.');
    let mut dots: Vec<char> = Vec::new();
    dots.push('.');
    dots.push('.');
    assert(dot@ =~= seq!['.']);
    assert(dots@ =~= seq!['.', '.']);
    if name.len() == 0 || crate::text::eq_chars(&name, &dot) || crate::text::eq_chars(&name, &dots) {
        return None;
    }
    match before_last_dot_exec(&name) {
        Some(b) => Some(b),
        None => Some(name),
    }
}

/// `Path::extension` of a Windows path: what follows the last `.` of the
/// file name, when that `.` is not its first character; `None` when the
/// path ends in no file name or the name has no such `.`.
pub open spec fn extension_of(path: Seq<char>) -> Option<Seq<char>> {
    let name = last_component(path);
    if name.len() == 0 || name == seq!['.'] || name == seq!['.', '.'] {
        None
    } else {
        match before_last_dot(name) {
            Some(b) => Some(name.skip(b.len() + 1int)),
            None => None,
        }
    }
}

proof fn lemma_before_last_dot_len(name: Seq<char>)
    ensures
        before_last_dot(name) matches Some(b) ==> b.len() + 1 <= name.len() && b
            == name.take(b.len() as int),
    decreases name.len(),
{
    if name.len() > 0 && name.last() != '.' {
        lemma_before_last_dot_len(name.drop_last());
        if let Some(b) = before_last_dot(name.drop_last()) {
            assert(name.drop_last().take(b.len() as int) =~= name.take(b.len() as int));
        }
    }
}

pub fn extension(path: &Vec<char>) -> (r: Option<Vec<char>>)
    ensures
        opt_view(r) == extension_of(path@),
{
    let p = name_part(path);
    let name = after_last_sep_exec(&p);
    let mut dot: Vec<char> = Vec::new();
    dot.push('.');
    let mut dots: Vec<char> = Vec::new();
    dots.push('.');
    dots.push('.');
    assert(dot@ =~= seq!['.']);
    assert(dots@ =~= seq!['.', '.']);
    if name.len() == 0 || crate::text::eq_chars(&name, &dot) || crate::text::eq_chars(&name, &dots) {
        return None;
    }
    proof {
        lemma_before_last_dot_len(name@);
    }
    match before_last_dot_exec(&name) {
        Some(b) => Some(crate::text::slice_of(&name, b.len() + 1, name.len())),
        None => None,
    }
}

} // verus!
