//! Automatic updates from GitHub releases: version comparison, choice of the
//! installer asset, download bookkeeping and the PowerShell helper script
//! that installs and restarts the application.
use vstd::prelude::*;

use crate::json::{
    get_arr, get_arr_exec, get_str, get_str_exec, get_str_or_empty, get_u64, get_u64_exec,
    str_or_empty, JsonValue,
};
use crate::net::HttpFailure;
use crate::paths::{file_stem, file_stem_of};
use crate::text::{
    decimal, u64_to_chars, before_class, before_class_exec, chars_of, contains, contains_str, ends_with, ends_with_str,
    is_ascii_alnum, lower_chars, lowercase, parse_radix, parse_radix_exec, push_all, push_str,
    replace, replace_exec, split_by, split_exec, string_of, trim, trim_by, trim_end_by,
    trim_end_by_exec, trim_exec, trim_start_by, trim_start_by_exec, views, CharClass,
    all_digits, digit_value, digits_value, first_match, in_class, keep_len, lemma_first_match_at, lemma_keep_len_at,
    lemma_first_match_bound, lemma_first_match_concat, lemma_keep_len_bound,
    lemma_keep_len_concat, lemma_keep_len_covers_first,
};

verus! {

// ---------------------------------------------------------------------------
// Versions
// ---------------------------------------------------------------------------

/// A dotted component as a number: `str::parse::<u64>`, 0 when it fails.
pub open spec fn component_value(p: Seq<char>) -> u64 {
    match parse_radix(p, 10, 0xFFFF_FFFF_FFFF_FFFF) {
        Some(x) => x as u64,
        None => 0,
    }
}

/// The numeric part of a version text: trimmed, leading `v`/`V` removed,
/// cut at the first `-` or `+`.
pub open spec fn version_core(v: Seq<char>) -> Seq<char> {
    before_class(trim_start_by(trim(v), CharClass::LetterV), CharClass::DashOrPlus)
}

/// `"v0.1.2"` / `"0.1.2-beta.1"` → `[0, 1, 2]`; a component that does not
/// parse counts as 0.
pub open spec fn version_tuple_of(v: Seq<char>) -> Seq<u64> {
    split_by(version_core(v), CharClass::Is('.')).map_values(|p: Seq<char>| component_value(p))
}

pub fn version_tuple(v: &str) -> (r: Vec<u64>)
    ensures
        r@ == version_tuple_of(v@),
{
    let raw = chars_of(v);
    let t = trim_exec(&raw);
    let s = trim_start_by_exec(&t, CharClass::LetterV);
    let core = before_class_exec(&s, CharClass::DashOrPlus);
    let parts = split_exec(&core, CharClass::Is('.'));
    let ghost pv = split_by(core@, CharClass::Is('.'));
    let mut out: Vec<u64> = Vec::new();
    let mut i: usize = 0;
    while i < parts.len()
        invariant
            i <= parts.len(),
            views(parts@) == pv,
            pv == split_by(version_core(v@), CharClass::Is('.')),
            out@ == version_tuple_of(v@).take(i as int),
        decreases parts.len() - i,
    {
        assert(views(parts@)[i as int] == parts@[i as int]@);
        let x = match parse_radix_exec(&parts[i], 10, 0xFFFF_FFFF_FFFF_FFFF) {
            Some(x) => x,
            None => 0,
        };
        out.push(x);
        assert(out@ =~= version_tuple_of(v@).take(i + 1));
        i = i + 1;
    }
    assert(version_tuple_of(v@).take(parts.len() as int) =~= version_tuple_of(v@));
    out
}

/// Component `i` of a version, 0 beyond its end.
pub open spec fn component_at(a: Seq<u64>, i: int) -> u64 {
    if 0 <= i < a.len() {
        a[i]
    } else {
        0
    }
}

/// Whether `a` is newer than `b` when compared from component `i` on
/// (missing components count as 0).
pub open spec fn newer_from(a: Seq<u64>, b: Seq<u64>, i: int) -> bool
    decreases a.len() + b.len() - i,
{
    if i < 0 || (i >= a.len() && i >= b.len()) {
        false
    } else if component_at(a, i) != component_at(b, i) {
        component_at(a, i) > component_at(b, i)
    } else {
        newer_from(a, b, i + 1)
    }
}

/// Whether version text `latest` is strictly newer than `current`.
pub open spec fn version_newer(latest: Seq<char>, current: Seq<char>) -> bool {
    newer_from(version_tuple_of(latest), version_tuple_of(current), 0)
}

pub fn is_newer(latest: &str, current: &str) -> (r: bool)
    ensures
        r == version_newer(latest@, current@),
{
    let a = version_tuple(latest);
    let b = version_tuple(current);
    let n = if a.len() > b.len() {
        a.len()
    } else {
        b.len()
    };
    let mut i: usize = 0;
    while i < n
        invariant
            i <= n,
            n == (if a.len() > b.len() {
                a.len()
            } else {
                b.len()
            }),
            a@ == version_tuple_of(latest@),
            b@ == version_tuple_of(current@),
            newer_from(a@, b@, 0) == newer_from(a@, b@, i as int),
        decreases n - i,
    {
        let x = if i < a.len() {
            a[i]
        } else {
            0
        };
        let y = if i < b.len() {
            b[i]
        } else {
            0
        };
        assert(x == component_at(a@, i as int) && y == component_at(b@, i as int));
        if x != y {
            return x > y;
        }
        i = i + 1;
    }
    false
}

proof fn lemma_newer_irreflexive(a: Seq<u64>, i: int)
    ensures
        !newer_from(a, a, i),
    decreases a.len() + a.len() - i,
{
    if !(i < 0 || i >= a.len()) {
        lemma_newer_irreflexive(a, i + 1);
    }
}

proof fn lemma_newer_asymmetric(a: Seq<u64>, b: Seq<u64>, i: int)
    ensures
        newer_from(a, b, i) ==> !newer_from(b, a, i),
    decreases a.len() + b.len() - i,
{
    if !(i < 0 || (i >= a.len() && i >= b.len())) && component_at(a, i) == component_at(b, i) {
        lemma_newer_asymmetric(a, b, i + 1);
    }
}

proof fn lemma_newer_transitive(a: Seq<u64>, b: Seq<u64>, c: Seq<u64>, i: int)
    requires
        i >= 0,
    ensures
        newer_from(a, b, i) && newer_from(b, c, i) ==> newer_from(a, c, i),
    decreases a.len() + b.len() + c.len() - i,
{
    if newer_from(a, b, i) && newer_from(b, c, i) {
        if component_at(a, i) == component_at(b, i) && component_at(b, i) == component_at(c, i) {
            lemma_newer_transitive(a, b, c, i + 1);
            assert(i < a.len() || i < b.len());
            assert(i < b.len() || i < c.len());
        }
    }
}

proof fn lemma_newer_total(a: Seq<u64>, b: Seq<u64>, i: int)
    requires
        i >= 0,
    ensures
        newer_from(a, b, i) || newer_from(b, a, i) || forall|k: int|
            k >= i ==> component_at(a, k) == component_at(b, k),
    decreases a.len() + b.len() - i,
{
    if i >= a.len() && i >= b.len() {
        assert forall|k: int| k >= i implies component_at(a, k) == component_at(b, k) by {}
    } else if component_at(a, i) == component_at(b, i) {
        lemma_newer_total(a, b, i + 1);
        if !newer_from(a, b, i + 1) && !newer_from(b, a, i + 1) {
            assert forall|k: int| k >= i implies component_at(a, k) == component_at(b, k) by {
                if k > i {
                }
            }
        }
    }
}

proof fn lemma_newer_equal_components(a: Seq<u64>, b: Seq<u64>, i: int)
    requires
        forall|k: int| k >= i ==> component_at(a, k) == component_at(b, k),
    ensures
        !newer_from(a, b, i),
    decreases a.len() + b.len() - i,
{
    if !(i < 0 || (i >= a.len() && i >= b.len())) {
        if i >= 0 {
            assert(component_at(a, i) == component_at(b, i));
        }
        lemma_newer_equal_components(a, b, i + 1);
    }
}

proof fn lemma_newer_same_components(x: Seq<u64>, x2: Seq<u64>, y: Seq<u64>, i: int)
    requires
        i >= 0,
        forall|k: int| k >= i ==> component_at(x, k) == component_at(x2, k),
    ensures
        newer_from(x, y, i) == newer_from(x2, y, i),
        newer_from(y, x, i) == newer_from(y, x2, i),
    decreases x.len() + x2.len() + y.len() - i,
{
    if i >= x.len() && i >= y.len() {
        assert forall|k: int| k >= i implies component_at(x2, k) == component_at(y, k) by {
            assert(component_at(x, k) == component_at(x2, k));
        }
        lemma_newer_equal_components(x2, y, i);
        lemma_newer_equal_components(y, x2, i);
    } else if i >= x2.len() && i >= y.len() {
        assert forall|k: int| k >= i implies component_at(x, k) == component_at(y, k) by {
            assert(component_at(x, k) == component_at(x2, k));
        }
        lemma_newer_equal_components(x, y, i);
        lemma_newer_equal_components(y, x, i);
    } else {
        assert(component_at(x, i) == component_at(x2, i));
        lemma_newer_same_components(x, x2, y, i + 1);
    }
}

/// Versions are compared by their numeric components, a missing component
/// counting as 0: two versions with the same components compare alike
/// against any third.
pub proof fn is_newer_by_components(a: Seq<char>, a2: Seq<char>, c: Seq<char>)
    requires
        forall|k: int| component_at(version_tuple_of(a), k) == component_at(version_tuple_of(a2), k),
    ensures
        version_newer(a, c) == version_newer(a2, c),
        version_newer(c, a) == version_newer(c, a2),
{
    lemma_newer_same_components(version_tuple_of(a), version_tuple_of(a2), version_tuple_of(c), 0);
}

/// The core of a version text followed by `y` (which starts with neither
/// whitespace nor `v`): the core of the text, then what the cut at `-`/`+`
/// keeps of `y` once trimmed at its end.
proof fn lemma_core_append(a: Seq<char>, y: Seq<char>)
    requires
        forall|k: int| 0 <= k < a.len() ==> !in_class(#[trigger] a[k], CharClass::DashOrPlus),
        a.len() == 0 || !in_class(a.last(), CharClass::Whitespace),
        y.len() > 0,
        !in_class(y[0], CharClass::Whitespace),
        !in_class(y[0], CharClass::LetterV),
    ensures
        version_core(a + y) == version_core(a) + before_class(
            trim_end_by(y, CharClass::Whitespace),
            CharClass::DashOrPlus,
        ),
{
    let ws = CharClass::Whitespace;
    let fa = first_match(a, ws, false);
    lemma_first_match_bound(a, ws, false);
    let x = a.skip(fa as int);
    // Leading whitespace.
    lemma_first_match_concat(a, y, ws, false);
    assert(first_match(y, ws, false) == 0);
    assert((a + y).skip(first_match(a + y, ws, false) as int) =~= x + y);
    // Trailing whitespace.
    lemma_keep_len_covers_first(y, ws);
    lemma_keep_len_concat(x, y, ws);
    let ky = keep_len(y, ws);
    lemma_keep_len_bound(y, ws);
    let yy = y.take(ky as int);
    assert((x + y).take((x.len() + ky) as int) =~= x + yy);
    assert(trim(a + y) == x + yy);
    assert(keep_len(x, ws) == x.len()) by {
        if x.len() > 0 {
            assert(x.last() == a.last());
        }
    }
    assert(x.take(x.len() as int) =~= x);
    assert(trim(a) == x);
    // Leading `v`s.
    let v = CharClass::LetterV;
    assert(yy[0] == y[0]);
    lemma_first_match_concat(x, yy, v, false);
    let fx = first_match(x, v, false);
    lemma_first_match_bound(x, v, false);
    let z = x.skip(fx as int);
    assert((x + yy).skip(first_match(x + yy, v, false) as int) =~= z + yy);
    // The cut at `-` / `+`.
    let dp = CharClass::DashOrPlus;
    assert forall|k: int| 0 <= k < z.len() implies !in_class(#[trigger] z[k], dp) by {
        assert(z[k] == a[fa + fx + k]);
    }
    lemma_first_match_at(z, dp, true, z.len() as int);
    lemma_first_match_concat(z, yy, dp, true);
    lemma_first_match_bound(yy, dp, true);
    assert((z + yy).take((z.len() + first_match(yy, dp, true)) as int) =~= z + yy.take(
        first_match(yy, dp, true) as int,
    ));
    assert(z.take(z.len() as int) =~= z);
}

/// `component_value` of `0`.
proof fn lemma_zero_component()
    ensures
        component_value(seq!['0']) == 0,
{
    let z = seq!['0'];
    let e = Seq::<char>::empty();
    assert(z[0] == '0');
    assert(z.last() == '0');
    assert(digit_value('0', 10) == Some(0nat));
    assert(z.drop_last() =~= e);
    assert(digits_value(e, 10) == 0);
    assert(digits_value(z, 10) == digits_value(e, 10) * 10 + 0);
    assert(all_digits(z, 10));
    assert(parse_radix(z, 10, 0xFFFF_FFFF_FFFF_FFFF) == Some(0nat));
}

/// A leading `v` or `V` does not change how a version compares, when the
/// rest does not start with whitespace.
pub proof fn is_newer_ignores_v_prefix(a: Seq<char>, c: Seq<char>, p: char)
    requires
        p == 'v' || p == 'V',
        a.len() == 0 || !in_class(a[0], CharClass::Whitespace),
    ensures
        version_newer(seq![p] + a, c) == version_newer(a, c),
        version_newer(c, seq![p] + a) == version_newer(c, a),
{
    let ws = CharClass::Whitespace;
    let w = seq![p] + a;
    assert(w[0] == p);
    assert(first_match(w, ws, false) == 0);
    assert(w.skip(0) =~= w);
    if a.len() > 0 {
        assert(first_match(a, ws, false) == 0);
    }
    assert(a.skip(first_match(a, ws, false) as int) =~= a);
    lemma_keep_len_concat(seq![p], a, ws);
    lemma_keep_len_bound(a, ws);
    let ka = keep_len(a, ws);
    assert(keep_len(seq![p], ws) == 1) by {
        assert(seq![p].drop_last() =~= Seq::<char>::empty());
    }
    assert(trim(w) =~= seq![p] + a.take(ka as int));
    assert(trim(a) =~= a.take(ka as int));
    let t = a.take(ka as int);
    lemma_first_match_concat(seq![p], t, CharClass::LetterV, false);
    assert(first_match(seq![p], CharClass::LetterV, false) == 1) by {
        assert(seq![p][0] == p);
        assert(in_class(seq![p][0], CharClass::LetterV));
        assert(seq![p].drop_first() =~= Seq::<char>::empty());
        assert(first_match(Seq::<char>::empty(), CharClass::LetterV, false) == 0);
    }
    lemma_first_match_bound(t, CharClass::LetterV, false);
    assert((seq![p] + t).skip((1 + first_match(t, CharClass::LetterV, false)) as int) =~= t.skip(
        first_match(t, CharClass::LetterV, false) as int,
    ));
    assert(version_core(w) == version_core(a));
}

/// Nothing after the first `-` or `+` of a version text reaches its core.
proof fn lemma_core_dash_end(t: Seq<char>, u: Seq<char>)
    requires
        t.len() > 0,
        in_class(t.last(), CharClass::DashOrPlus),
        forall|k: int| 0 <= k < t.len() - 1 ==> !in_class(#[trigger] t[k], CharClass::DashOrPlus),
    ensures
        version_core(t + u) == version_core(t),
{
    let ws = CharClass::Whitespace;
    let v = CharClass::LetterV;
    let dp = CharClass::DashOrPlus;
    let n = t.len() as int;
    assert(!in_class(t[n - 1], ws));
    assert(!in_class(t[n - 1], v));
    // Leading whitespace ends inside `t`.
    lemma_first_match_bound(t, ws, false);
    let f = first_match(t, ws, false);
    assert(f <= n - 1);
    lemma_first_match_concat(t, u, ws, false);
    let tf = t.skip(f as int);
    assert((t + u).skip(f as int) =~= tf + u);
    assert(tf[tf.len() - 1] == t[n - 1]);
    // Trailing whitespace never reaches into `t`.
    lemma_keep_len_at(tf, ws, tf.len() as int);
    lemma_keep_len_concat(tf, u, ws);
    lemma_keep_len_bound(u, ws);
    let ku = keep_len(u, ws);
    let u2 = u.take(ku as int);
    assert((tf + u).take(keep_len(tf + u, ws) as int) =~= tf + u2);
    assert(trim(t + u) == tf + u2);
    assert(tf.take(tf.len() as int) =~= tf);
    assert(trim(t) == tf);
    // Leading `v`s end inside `t`.
    lemma_first_match_bound(tf, v, false);
    let fv = first_match(tf, v, false);
    assert(fv < tf.len());
    lemma_first_match_concat(tf, u2, v, false);
    let z = tf.skip(fv as int);
    assert((tf + u2).skip(fv as int) =~= z + u2);
    // The cut falls on the last character of `t`.
    assert forall|k: int| 0 <= k < z.len() - 1 implies !in_class(#[trigger] z[k], dp) by {
        assert(z[k] == t[f + fv + k]);
    }
    assert(z[z.len() - 1] == t[n - 1]);
    lemma_first_match_at(z, dp, true, z.len() - 1);
    lemma_first_match_concat(z, u2, dp, true);
    assert((z + u2).take(z.len() - 1) =~= z.take(z.len() - 1));
}

/// A version text that has a `-` or `+` keeps its core whatever follows.
proof fn lemma_core_after_dash(a: Seq<char>, r: Seq<char>)
    requires
        exists|k: int| 0 <= k < a.len() && in_class(#[trigger] a[k], CharClass::DashOrPlus),
    ensures
        version_core(a + r) == version_core(a),
{
    let dp = CharClass::DashOrPlus;
    let w = choose|k: int| 0 <= k < a.len() && in_class(#[trigger] a[k], dp);
    lemma_first_match_bound(a, dp, true);
    let d = first_match(a, dp, true) as int;
    assert(d <= w);
    let t = a.take(d + 1);
    assert(t.last() == a[d]);
    assert forall|k: int| 0 <= k < t.len() - 1 implies !in_class(#[trigger] t[k], dp) by {
        assert(t[k] == a[k]);
    }
    let rest = a.skip(d + 1);
    lemma_core_dash_end(t, rest + r);
    lemma_core_dash_end(t, rest);
    assert(a + r =~= t + (rest + r));
    assert(a =~= t + rest);
}

/// A `-pre` or `+build` suffix does not change how a version compares, nor
/// does a trailing `.0` component, when the version already has a suffix
/// of its own or does not end with whitespace.
pub proof fn is_newer_ignores_suffix_and_zero(a: Seq<char>, s: Seq<char>, d: char, c: Seq<char>)
    requires
        d == '-' || d == '+',
        (exists|k: int| 0 <= k < a.len() && in_class(#[trigger] a[k], CharClass::DashOrPlus))
            || a.len() == 0 || !in_class(a.last(), CharClass::Whitespace),
    ensures
        version_newer(a + seq![d] + s, c) == version_newer(a, c),
        version_newer(c, a + seq![d] + s) == version_newer(c, a),
        version_newer(a + seq!['.', '0'], c) == version_newer(a, c),
        version_newer(c, a + seq!['.', '0']) == version_newer(c, a),
{
    if exists|k: int| 0 <= k < a.len() && in_class(#[trigger] a[k], CharClass::DashOrPlus) {
        assert(a + seq![d] + s =~= a + (seq![d] + s));
        lemma_core_after_dash(a, seq![d] + s);
        lemma_core_after_dash(a, seq!['.', '0']);
    } else {
        lemma_suffix_and_zero_plain(a, s, d, c);
    }
}

proof fn lemma_suffix_and_zero_plain(a: Seq<char>, s: Seq<char>, d: char, c: Seq<char>)
    requires
        d == '-' || d == '+',
        forall|k: int| 0 <= k < a.len() ==> !in_class(#[trigger] a[k], CharClass::DashOrPlus),
        a.len() == 0 || !in_class(a.last(), CharClass::Whitespace),
    ensures
        version_newer(a + seq![d] + s, c) == version_newer(a, c),
        version_newer(c, a + seq![d] + s) == version_newer(c, a),
        version_newer(a + seq!['.', '0'], c) == version_newer(a, c),
        version_newer(c, a + seq!['.', '0']) == version_newer(c, a),
{
    let ws = CharClass::Whitespace;
    let dp = CharClass::DashOrPlus;
    // The suffix is cut off.
    let y = seq![d] + s;
    assert(a + seq![d] + s =~= a + y);
    lemma_core_append(a, y);
    lemma_keep_len_covers_first(y, ws);
    lemma_keep_len_bound(y, ws);
    assert(trim_end_by(y, ws)[0] == d);
    assert(first_match(trim_end_by(y, ws), dp, true) == 0);
    assert(version_core(a + y) =~= version_core(a));
    // A trailing `.0` adds a zero component.
    let z = seq!['.', '0'];
    lemma_core_append(a, z);
    assert(keep_len(z, ws) == 2);
    assert(z.take(2) =~= z);
    assert(first_match(z, dp, true) == 2) by {
        let o = seq!['0'];
        assert(z[0] == '.');
        assert(o[0] == '0');
        assert(z.drop_first() =~= o);
        assert(o.drop_first() =~= Seq::<char>::empty());
        assert(first_match(Seq::<char>::empty(), dp, true) == 0);
        assert(first_match(o, dp, true) == 1);
    }
    let core = version_core(a);
    assert(version_core(a + z) =~= core + z);
    let dot = CharClass::Is('.');
    assert((core + z).drop_last() =~= core + seq!['.']);
    assert((core + seq!['.']).drop_last() =~= core);
    assert(split_by(core + seq!['.'], dot) == split_by(core, dot).push(Seq::<char>::empty()));
    let parts = split_by(core, dot).push(seq!['0']);
    assert(Seq::<char>::empty().push('0') =~= seq!['0']);
    assert(split_by(core + z, dot) =~= parts);
    lemma_zero_component();
    let ta = version_tuple_of(a);
    let tz = version_tuple_of(a + z);
    assert(tz =~= ta.push(0));
    assert forall|k: int| component_at(tz, k) == component_at(ta, k) by {}
    is_newer_by_components(a + z, a, c);
}

/// No version is newer than itself.
pub proof fn is_newer_irreflexive(v: Seq<char>)
    ensures
        !version_newer(v, v),
{
    lemma_newer_irreflexive(version_tuple_of(v), 0);
}

/// Of two versions, at most one is newer than the other.
pub proof fn is_newer_asymmetric(a: Seq<char>, b: Seq<char>)
    ensures
        version_newer(a, b) ==> !version_newer(b, a),
{
    lemma_newer_asymmetric(version_tuple_of(a), version_tuple_of(b), 0);
}

/// Newer-than is transitive.
pub proof fn is_newer_transitive(a: Seq<char>, b: Seq<char>, c: Seq<char>)
    ensures
        version_newer(a, b) && version_newer(b, c) ==> version_newer(a, c),
{
    lemma_newer_transitive(version_tuple_of(a), version_tuple_of(b), version_tuple_of(c), 0);
}

/// Two versions are either ordered one way or the other, or they agree on
/// every component once missing components count as 0; versions that agree
/// in that sense (such as `0.1.2.0` and `0.1.2`) are never newer than each
/// other.
pub proof fn is_newer_total(a: Seq<char>, b: Seq<char>)
    ensures
        version_newer(a, b) || version_newer(b, a) || forall|k: int|
            component_at(version_tuple_of(a), k) == component_at(version_tuple_of(b), k),
        (forall|k: int|
            component_at(version_tuple_of(a), k) == component_at(version_tuple_of(b), k))
            ==> !version_newer(a, b) && !version_newer(b, a),
{
    let x = version_tuple_of(a);
    let y = version_tuple_of(b);
    lemma_newer_total(x, y, 0);
    if !newer_from(x, y, 0) && !newer_from(y, x, 0) {
        assert forall|k: int| component_at(x, k) == component_at(y, k) by {
            if k < 0 {
            }
        }
    }
    if forall|k: int| component_at(x, k) == component_at(y, k) {
        lemma_newer_equal_components(x, y, 0);
        lemma_newer_equal_components(y, x, 0);
    }
}


// ---------------------------------------------------------------------------
// PowerShell helper script
// ---------------------------------------------------------------------------

/// Body of a PowerShell single-quoted literal: every `'` doubled.
pub open spec fn ps_escaped(s: Seq<char>) -> Seq<char> {
    replace(s, seq!['\''], seq!['\'', '\''])
}

/// A PowerShell single-quoted string literal holding `s`.
pub open spec fn ps_quoted(s: Seq<char>) -> Seq<char> {
    seq!['\''] + ps_escaped(s) + seq!['\'']
}

/// Reading the body of a single-quoted literal back: `''` stands for `'`.
pub open spec fn ps_unescape(t: Seq<char>) -> Seq<char>
    decreases t.len(),
{
    if t.len() == 0 {
        t
    } else if t.len() >= 2 && t[0] == '\'' && t[1] == '\'' {
        seq!['\''] + ps_unescape(t.skip(2))
    } else {
        seq![t[0]] + ps_unescape(t.drop_first())
    }
}

/// Quotes a path for a PowerShell script: `'…'` with each `'` doubled.
pub fn ps_quote(s: &str) -> (r: String)
    ensures
        r@ == ps_quoted(s@),
{
    let v = chars_of(s);
    let q = ps_quote_chars(&v);
    string_of(&q)
}

fn ps_quote_chars(v: &Vec<char>) -> (r: Vec<char>)
    ensures
        r@ == ps_quoted(v@),
{
    let mut one: Vec<char> = Vec::new();
    one.push('\'');
    let mut two: Vec<char> = Vec::new();
    two.push('\'');
    two.push('\'');
    assert(one@ =~= seq!['\'']);
    assert(two@ =~= seq!['\'', '\'']);
    let body = replace_exec(v, &one, &two);
    let mut out: Vec<char> = Vec::new();
    out.push('\'');
    push_all(&mut out, &body);
    out.push('\'');
    assert(out@ =~= ps_quoted(v@));
    out
}

/// Reading a quoted literal back gives the text that was quoted: the quoting is
/// lossless, so no path can end the literal early.
pub proof fn ps_quote_roundtrip(s: Seq<char>)
    ensures
        ps_unescape(ps_escaped(s)) == s,
        ps_quoted(s).len() >= 2,
        ps_quoted(s)[0] == '\'',
        ps_quoted(s).last() == '\'',
        ps_quoted(s).subrange(1, ps_quoted(s).len() - 1) == ps_escaped(s),
    decreases s.len(),
{
    if s.len() > 0 {
        ps_quote_roundtrip(s.drop_first());
        let e = ps_escaped(s);
        let p = seq!['\''];
        let q = seq!['\'', '\''];
        if s[0] == '\'' {
            assert(s.take(1) =~= p);
            assert(s.skip(1) =~= s.drop_first());
            assert(e == q + ps_escaped(s.drop_first()));
            assert((q + ps_escaped(s.drop_first())).skip(2) =~= ps_escaped(s.drop_first()));
        } else {
            assert(!(s.take(1) =~= p)) by {
                assert(s.take(1)[0] == s[0]);
            }
            assert(e == seq![s[0]] + ps_escaped(s.drop_first()));
            assert((seq![s[0]] + ps_escaped(s.drop_first())).drop_first() =~= ps_escaped(
                s.drop_first(),
            ));
        }
        assert(seq![s[0]] + s.drop_first() =~= s);
    }
    let qs = ps_quoted(s);
    assert(qs.subrange(1, qs.len() - 1) =~= ps_escaped(s));
}


pub const SCRIPT_HEAD: &'static str =
    "$ErrorActionPreference = 'SilentlyContinue'\nStart-Sleep -Seconds 2\n$setup = ";

pub const SCRIPT_DIR: &'static str = "\n$dir = ";

pub const SCRIPT_EXE: &'static str = "\n$exe = ";

pub const SCRIPT_INSTALL: &'static str =
    "\nStart-Process -FilePath $setup -ArgumentList @('/VERYSILENT','/NORESTART','/SUPPRESSMSGBOXES',('/DIR=\"' + $dir + '\"'))\nwhile (Get-Process -Name ";

pub const SCRIPT_TAIL: &'static str =
    " -ErrorAction SilentlyContinue) { Start-Sleep -Milliseconds 500 }\nStart-Sleep -Milliseconds 500\nStart-Process -FilePath $exe\nStart-Sleep -Seconds 2\nRemove-Item -LiteralPath $setup -Force\nRemove-Item -LiteralPath $PSCommandPath -Force\n";

pub const DEFAULT_SETUP_STEM: &'static str = "yimai-setup";

/// The helper script: wait for the application to exit, run the installer
/// silently into the current directory, wait for the installer process
/// (named after the installer's file stem) to end, restart the application,
/// then remove the installer and the script itself.
pub open spec fn update_script(setup: Seq<char>, dir: Seq<char>, exe: Seq<char>) -> Seq<char> {
    let stem = match file_stem_of(setup) {
        Some(s) => s,
        None => DEFAULT_SETUP_STEM@,
    };
    SCRIPT_HEAD@ + ps_quoted(setup) + SCRIPT_DIR@ + ps_quoted(dir) + SCRIPT_EXE@ + ps_quoted(exe)
        + SCRIPT_INSTALL@ + ps_quoted(stem) + SCRIPT_TAIL@
}

/// Builds the PowerShell helper script for `setup` (installer), `dir`
/// (installation directory) and `exe` (application to restart).
pub fn build_update_script(setup: &str, dir: &str, exe: &str) -> (r: String)
    ensures
        r@ == update_script(setup@, dir@, exe@),
{
    let sv = chars_of(setup);
    let dv = chars_of(dir);
    let ev = chars_of(exe);
    let stem = match file_stem(&sv) {
        Some(s) => s,
        None => chars_of(DEFAULT_SETUP_STEM),
    };
    let mut out = chars_of(SCRIPT_HEAD);
    push_all(&mut out, &ps_quote_chars(&sv));
    push_str(&mut out, SCRIPT_DIR);
    push_all(&mut out, &ps_quote_chars(&dv));
    push_str(&mut out, SCRIPT_EXE);
    push_all(&mut out, &ps_quote_chars(&ev));
    push_str(&mut out, SCRIPT_INSTALL);
    push_all(&mut out, &ps_quote_chars(&stem));
    push_str(&mut out, SCRIPT_TAIL);
    string_of(&out)
}


// ---------------------------------------------------------------------------
// Latest release
// ---------------------------------------------------------------------------

/// GitHub repository (owner/name) whose releases are followed.
pub const GITHUB_REPO: &'static str = "jiuge613/YimaiMusic";

/// The GitHub API address of the latest release.
pub const LATEST_RELEASE_URL: &'static str =
    "https://api.github.com/repos/jiuge613/YimaiMusic/releases/latest";

/// An available update.
#[derive(Debug)]
pub struct UpdateInfo {
    /// Latest version without its `v` prefix (e.g. "0.1.2").
    pub version: String,
    /// Release notes (markdown).
    pub notes: String,
    pub asset_name: String,
    pub asset_url: String,
    pub asset_size: u64,
    pub published_at: String,
}

/// Mathematical model of an [`UpdateInfo`].
pub struct UpdateView {
    pub version: Seq<char>,
    pub notes: Seq<char>,
    pub asset_name: Seq<char>,
    pub asset_url: Seq<char>,
    pub asset_size: u64,
    pub published_at: Seq<char>,
}

impl View for UpdateInfo {
    type V = UpdateView;

    open spec fn view(&self) -> UpdateView {
        UpdateView {
            version: self.version@,
            notes: self.notes@,
            asset_name: self.asset_name@,
            asset_url: self.asset_url@,
            asset_size: self.asset_size,
            published_at: self.published_at@,
        }
    }
}

/// An asset as `(name, url, size)` when it has a name and a download URL
/// and its lower-cased name ends in `.exe`.
pub open spec fn exe_asset(a: JsonValue) -> Option<(Seq<char>, Seq<char>, u64)> {
    match (get_str(a, "name"@), get_str(a, "browser_download_url"@)) {
        (Some(n), Some(u)) => if ends_with(lowercase(n), ".exe"@) {
            Some(
                (
                    n,
                    u,
                    match get_u64(a, "size"@) {
                        Some(x) => x,
                        None => 0,
                    },
                ),
            )
        } else {
            None
        },
        _ => None,
    }
}

/// Whether an asset is an `.exe` whose lower-cased name contains `setup`.
pub open spec fn setup_asset(a: JsonValue) -> bool {
    match exe_asset(a) {
        Some((name, _, _)) => contains(lowercase(name), "setup"@),
        None => false,
    }
}

/// The first installer (`*setup*.exe`) asset.
pub open spec fn first_setup(assets: Seq<JsonValue>) -> Option<(Seq<char>, Seq<char>, u64)>
    decreases assets.len(),
{
    if assets.len() == 0 {
        None
    } else if setup_asset(assets[0]) {
        exe_asset(assets[0])
    } else {
        first_setup(assets.drop_first())
    }
}

/// The first `.exe` asset.
pub open spec fn first_exe(assets: Seq<JsonValue>) -> Option<(Seq<char>, Seq<char>, u64)>
    decreases assets.len(),
{
    if assets.len() == 0 {
        None
    } else if exe_asset(assets[0]) is Some {
        exe_asset(assets[0])
    } else {
        first_exe(assets.drop_first())
    }
}

/// The Windows installer of a release: the first `*setup*.exe`, else the
/// first `.exe`.
pub open spec fn chosen_asset(assets: Seq<JsonValue>) -> Option<(Seq<char>, Seq<char>, u64)> {
    pick_from(assets, None)
}

pub open spec fn pick_from(
    assets: Seq<JsonValue>,
    fallback: Option<(Seq<char>, Seq<char>, u64)>,
) -> Option<(Seq<char>, Seq<char>, u64)> {
    match first_setup(assets) {
        Some(x) => Some(x),
        None => match fallback {
            Some(f) => Some(f),
            None => first_exe(assets),
        },
    }
}

pub open spec fn asset_view(o: Option<(Vec<char>, Vec<char>, u64)>) -> Option<
    (Seq<char>, Seq<char>, u64),
> {
    match o {
        Some((n, u, sz)) => Some((n@, u@, sz)),
        None => None,
    }
}

/// Picks the Windows installer among the assets of a release.
pub fn pick_setup_asset(assets: &Vec<JsonValue>) -> (r: Option<(Vec<char>, Vec<char>, u64)>)
    ensures
        asset_view(r) == chosen_asset(assets@),
{
    let mut fallback: Option<(Vec<char>, Vec<char>, u64)> = None;
    let mut i: usize = 0;
    assert(assets@.skip(0) =~= assets@);
    while i < assets.len()
        invariant
            i <= assets.len(),
            chosen_asset(assets@) == pick_from(assets@.skip(i as int), asset_view(fallback)),
        decreases assets.len() - i,
    {
        let a = &assets[i];
        let ghost s = assets@.skip(i as int);
        assert(s[0] == assets@[i as int]);
        assert(s.drop_first() =~= assets@.skip(i + 1));
        let name = get_str_exec(a, "name");
        let url = get_str_exec(a, "browser_download_url");
        match (name, url) {
            (Some(n), Some(u)) => {
                let lower = lower_chars(&n);
                if ends_with_str(&lower, ".exe") {
                    let size = match get_u64_exec(a, "size") {
                        Some(x) => x,
                        None => 0,
                    };
                    if contains_str(&lower, "setup") {
                        return Some((n, u, size));
                    }
                    if fallback.is_none() {
                        fallback = Some((n, u, size));
                    }
                }
            },
            _ => {},
        }
        i = i + 1;
    }
    fallback
}

pub const MSG_NO_RELEASE: &'static str = "仓库还没有发布版本";

pub const MSG_NO_ASSETS: &'static str = "发布信息缺少附件";

pub const MSG_NO_INSTALLER_PREFIX: &'static str = "新版本 ";

pub const MSG_NO_INSTALLER_SUFFIX: &'static str = " 未提供 Windows 安装包，请到 GitHub 发布页手动下载";

/// What the latest-release document means for the running `current`
/// version: an error when it has no tag, no update when its tag is not
/// newer, otherwise the installer asset (an error when there is none).
pub open spec fn release_outcome(release: JsonValue, current: Seq<char>) -> Result<
    Option<UpdateView>,
    Seq<char>,
> {
    let tag = str_or_empty(get_str(release, "tag_name"@));
    if tag.len() == 0 {
        Err(MSG_NO_RELEASE@)
    } else if !version_newer(tag, current) {
        Ok(None)
    } else {
        match get_arr(release, "assets"@) {
            None => Err(MSG_NO_ASSETS@),
            Some(assets) => match chosen_asset(assets) {
                None => Err(MSG_NO_INSTALLER_PREFIX@ + tag + MSG_NO_INSTALLER_SUFFIX@),
                Some((n, u, sz)) => Ok(
                    Some(
                        UpdateView {
                            version: trim_start_by(trim(tag), CharClass::LetterV),
                            notes: str_or_empty(get_str(release, "body"@)),
                            asset_name: n,
                            asset_url: u,
                            asset_size: sz,
                            published_at: str_or_empty(get_str(release, "published_at"@)),
                        },
                    ),
                ),
            },
        }
    }
}

pub open spec fn release_result_view(r: Result<Option<UpdateInfo>, String>) -> Result<
    Option<UpdateView>,
    Seq<char>,
> {
    match r {
        Ok(Some(u)) => Ok(Some(u@)),
        Ok(None) => Ok(None),
        Err(e) => Err(e@),
    }
}

/// Reads the latest-release document of GitHub against the running
/// version (see [`release_outcome`]).
pub fn latest_release_info(release: &JsonValue, current: &str) -> (r: Result<
    Option<UpdateInfo>,
    String,
>)
    ensures
        release_result_view(r) == release_outcome(*release, current@),
{
    let tag = get_str_or_empty(release, "tag_name");
    if tag.len() == 0 {
        return Err(MSG_NO_RELEASE.to_owned());
    }
    let tag_s = string_of(&tag);
    if !is_newer(tag_s.as_str(), current) {
        return Ok(None);
    }
    let assets = match get_arr_exec(release, "assets") {
        Some(a) => a,
        None => {
            return Err(MSG_NO_ASSETS.to_owned());
        },
    };
    match pick_setup_asset(assets) {
        None => {
            let mut msg = chars_of(MSG_NO_INSTALLER_PREFIX);
            push_all(&mut msg, &tag);
            push_str(&mut msg, MSG_NO_INSTALLER_SUFFIX);
            Err(string_of(&msg))
        },
        Some((n, u, sz)) => {
            let t = trim_exec(&tag);
            let version = trim_start_by_exec(&t, CharClass::LetterV);
            let notes = get_str_or_empty(release, "body");
            let published = get_str_or_empty(release, "published_at");
            Ok(
                Some(
                    UpdateInfo {
                        version: string_of(&version),
                        notes: string_of(&notes),
                        asset_name: string_of(&n),
                        asset_url: string_of(&u),
                        asset_size: sz,
                        published_at: string_of(&published),
                    },
                ),
            )
        },
    }
}

/// Message for a failed request to the GitHub API.
pub open spec fn github_error_text(e: HttpFailure) -> Seq<char> {
    match e {
        HttpFailure::Status(code) => if code == 404 {
            MSG_NO_RELEASE@
        } else {
            "GitHub 返回状态 "@ + decimal(code as nat)
        },
        HttpFailure::Transport { kind, message } => "无法连接 GitHub："@ + message@,
    }
}

pub fn github_error(e: &HttpFailure) -> (r: String)
    ensures
        r@ == github_error_text(*e),
{
    match e {
        HttpFailure::Status(code) => {
            if *code == 404 {
                MSG_NO_RELEASE.to_owned()
            } else {
                let mut out = chars_of("GitHub 返回状态 ");
                push_all(&mut out, &u64_to_chars(*code as u64));
                string_of(&out)
            }
        },
        HttpFailure::Transport { kind: _, message } => {
            let mut out = chars_of("无法连接 GitHub：");
            push_str(&mut out, message.as_str());
            string_of(&out)
        },
    }
}

// ---------------------------------------------------------------------------
// Installer download
// ---------------------------------------------------------------------------

/// Characters kept in an installer file name.
pub open spec fn file_name_char(c: char) -> bool {
    is_ascii_alnum(c) || c == '.' || c == '-' || c == '_' || c == '(' || c == ')'
}

/// The characters of `s` allowed in a file name, in order.
pub open spec fn safe_chars(s: Seq<char>) -> Seq<char>
    decreases s.len(),
{
    if s.len() == 0 {
        s
    } else if file_name_char(s.last()) {
        safe_chars(s.drop_last()).push(s.last())
    } else {
        safe_chars(s.drop_last())
    }
}

pub const MSG_BAD_INSTALLER_NAME: &'static str = "安装包文件名无效";

/// File name under which the installer is saved: only ASCII letters,
/// digits and `.-_()` are kept, so that it can be embedded in the helper
/// script; an error when nothing is left.
pub fn safe_installer_name(name: &str) -> (r: Result<String, String>)
    ensures
        match r {
            Ok(n) => n@ == safe_chars(name@) && safe_chars(name@).len() > 0,
            Err(e) => e@ == MSG_BAD_INSTALLER_NAME@ && safe_chars(name@).len() == 0,
        },
{
    let v = chars_of(name);
    let mut out: Vec<char> = Vec::new();
    let mut i: usize = 0;
    assert(v@.take(0) =~= Seq::<char>::empty());
    while i < v.len()
        invariant
            i <= v.len(),
            out@ == safe_chars(v@.take(i as int)),
        decreases v.len() - i,
    {
        let c = v[i];
        assert(v@.take(i + 1).drop_last() =~= v@.take(i as int));
        assert(v@.take(i + 1).last() == c);
        let ok = ('0' <= c && c <= '9') || ('a' <= c && c <= 'z') || ('A' <= c && c <= 'Z') || c
            == '.' || c == '-' || c == '_' || c == '(' || c == ')';
        if ok {
            out.push(c);
        }
        i = i + 1;
    }
    assert(v@.take(v.len() as int) =~= v@);
    if out.len() == 0 {
        Err(MSG_BAD_INSTALLER_NAME.to_owned())
    } else {
        Ok(string_of(&out))
    }
}

/// Size the download is checked against: the size the release declared;
/// when it declared none (0), the `Content-Length` header when it parses as
/// a number, else 0 (nothing to check).
pub open spec fn expected_total(header: Option<Seq<char>>, declared: u64) -> u64 {
    if declared > 0 {
        declared
    } else {
        match header {
            Some(h) => match parse_radix(h, 10, 0xFFFF_FFFF_FFFF_FFFF) {
                Some(x) => x as u64,
                None => 0,
            },
            None => 0,
        }
    }
}

/// Progress of an installer download.
pub struct DownloadProgress {
    pub received: u64,
    pub total: u64,
}

/// What happened since the last step of a download.
pub enum DownloadEvent {
    /// The user cancelled the download.
    Cancelled,
    /// `n` more bytes were read and written.
    Chunk(u64),
    /// The body ended.
    End,
    /// Reading failed; the error as displayed.
    Failed(String),
}

/// What the download loop does next.
pub enum DownloadStep {
    Continue,
    /// Stop, remove the partial file and report the message.
    Abort(String),
    /// The file is complete.
    Done,
}

pub const MSG_DOWNLOAD_CANCELLED: &'static str = "已取消下载";

pub const MSG_DOWNLOAD_INTERRUPTED: &'static str = "下载中断：";

pub const MSG_DOWNLOAD_INCOMPLETE: &'static str = "下载不完整，请重试";

/// A release that declares a size is held to it: the download is checked
/// against that size whatever the server's `Content-Length` says, so a
/// download ends as complete only with exactly the declared bytes.
pub proof fn declared_size_is_checked(header: Option<Seq<char>>, declared: u64, received: u64)
    requires
        declared > 0,
    ensures
        expected_total(header, declared) == declared,
        (expected_total(header, declared) > 0 && received != expected_total(header, declared))
            <==> received != declared,
{
}

/// Starts the bookkeeping of a download.
pub fn download_start(content_length: Option<&str>, declared: u64) -> (r: DownloadProgress)
    ensures
        r.received == 0,
        r.total == expected_total(crate::lxsource::opt_str_view(content_length), declared),
{
    let total = if declared > 0 {
        declared
    } else {
        match content_length {
            Some(h) => {
                let hv = chars_of(h);
                match parse_radix_exec(&hv, 10, 0xFFFF_FFFF_FFFF_FFFF) {
                    Some(x) => x,
                    None => 0,
                }
            },
            None => 0,
        }
    };
    DownloadProgress { received: 0, total }
}

/// One step of the download loop: a cancellation or a read error aborts;
/// a chunk is counted; at the end the file is complete unless a known size
/// was not met.
pub fn download_step(p: &mut DownloadProgress, ev: DownloadEvent) -> (r: DownloadStep)
    requires
        ev matches DownloadEvent::Chunk(n) ==> old(p).received + n <= u64::MAX,
    ensures
        final(p).total == old(p).total,
        match ev {
            DownloadEvent::Cancelled => final(p).received == old(p).received && (r matches DownloadStep::Abort(m) && m@
                == MSG_DOWNLOAD_CANCELLED@),
            DownloadEvent::Failed(e) => final(p).received == old(p).received && (r matches DownloadStep::Abort(m) && m@
                == MSG_DOWNLOAD_INTERRUPTED@ + e@),
            DownloadEvent::Chunk(n) => final(p).received == old(p).received + n && r is Continue,
            DownloadEvent::End => final(p).received == old(p).received && if old(p).total > 0
                && old(p).received != old(p).total {
                r matches DownloadStep::Abort(m) && m@ == MSG_DOWNLOAD_INCOMPLETE@
            } else {
                r is Done
            },
        },
{
    match ev {
        DownloadEvent::Cancelled => DownloadStep::Abort(MSG_DOWNLOAD_CANCELLED.to_owned()),
        DownloadEvent::Failed(e) => {
            let mut m = chars_of(MSG_DOWNLOAD_INTERRUPTED);
            push_str(&mut m, e.as_str());
            DownloadStep::Abort(string_of(&m))
        },
        DownloadEvent::Chunk(n) => {
            p.received = p.received + n;
            DownloadStep::Continue
        },
        DownloadEvent::End => {
            if p.total > 0 && p.received != p.total {
                DownloadStep::Abort(MSG_DOWNLOAD_INCOMPLETE.to_owned())
            } else {
                DownloadStep::Done
            }
        },
    }
}

/// Message for a failed installer request.
pub open spec fn download_error_text(e: HttpFailure) -> Seq<char> {
    match e {
        HttpFailure::Status(code) => "下载失败（HTTP "@ + decimal(code as nat) + "）"@,
        HttpFailure::Transport { kind, message } => "下载失败："@ + message@,
    }
}

pub fn download_error(e: &HttpFailure) -> (r: String)
    ensures
        r@ == download_error_text(*e),
{
    match e {
        HttpFailure::Status(code) => {
            let mut out = chars_of("下载失败（HTTP ");
            push_all(&mut out, &u64_to_chars(*code as u64));
            push_str(&mut out, "）");
            string_of(&out)
        },
        HttpFailure::Transport { kind: _, message } => {
            let mut out = chars_of("下载失败：");
            push_str(&mut out, message.as_str());
            string_of(&out)
        },
    }
}

} // verus!
