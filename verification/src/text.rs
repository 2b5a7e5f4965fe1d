//! Character-level text operations on `Seq<char>` with executable
//! counterparts on `Vec<char>`.
use vstd::prelude::*;

verus! {

broadcast use vstd::string::group_string_axioms;

// ---------------------------------------------------------------------------
// Conversions between `str` / `String` and character vectors
// ---------------------------------------------------------------------------

/// The characters of a string slice, in order.
pub fn chars_of(s: &str) -> (r: Vec<char>)
    ensures
        r@ == s@,
{
    let mut out: Vec<char> = Vec::new();
    for c in it: s.chars()
        invariant
            out@ == it.seq().take(it.index() as int),
    {
        out.push(c);
    }
    assert(out@ == s@);
    out
}

/// Collects characters into a `String` (`String: FromIterator<char>`).
#[verifier::external_body]
pub(crate) fn string_of(v: &Vec<char>) -> (r: String)
    ensures
        r@ == v@,
{
    v.iter().collect()
}

/// Lower-cased form of a string as computed by `str::to_lowercase`
/// (Unicode `Lowercase` mapping).
pub uninterp spec fn lowercase(s: Seq<char>) -> Seq<char>;

/// Whether every character is ASCII.
pub open spec fn ascii_text(s: Seq<char>) -> bool {
    forall|i: int| 0 <= i < s.len() ==> (#[trigger] s[i] as u32) < 128
}

/// ASCII lower-casing of each character.
pub open spec fn ascii_lowered(s: Seq<char>) -> Seq<char> {
    s.map_values(|c: char| ascii_lower(c))
}

/// ASCII upper-casing of a single character.
pub open spec fn ascii_upper(c: char) -> char {
    if 'a' <= c <= 'z' {
        ((c as u32) - 32) as char
    } else {
        c
    }
}

/// ASCII upper-casing of each character.
pub open spec fn ascii_uppered(s: Seq<char>) -> Seq<char> {
    s.map_values(|c: char| ascii_upper(c))
}

/// `str::to_lowercase`: the result is named `lowercase` of the input; its
/// Unicode case tables are not restated here, except that on ASCII text it
/// lower-cases `A`-`Z` and keeps every other character (the ASCII part of
/// the Unicode mapping).
#[verifier::external_body]
pub(crate) fn str_to_lowercase(s: &str) -> (r: String)
    ensures
        r@ == lowercase(s@),
        ascii_text(s@) ==> r@ == ascii_lowered(s@),
{
    s.to_lowercase()
}

/// Lower-cased characters of a character vector.
pub fn lower_chars(v: &Vec<char>) -> (r: Vec<char>)
    ensures
        r@ == lowercase(v@),
        ascii_text(v@) ==> r@ == ascii_lowered(v@),
{
    let s = string_of(v);
    let l = str_to_lowercase(s.as_str());
    chars_of(l.as_str())
}

/// Upper-cased form of a string as computed by `str::to_uppercase`.
pub uninterp spec fn uppercase(s: Seq<char>) -> Seq<char>;

/// `str::to_uppercase`: the result is named `uppercase` of the input; on
/// ASCII text it upper-cases `a`-`z` and keeps every other character.
#[verifier::external_body]
pub(crate) fn str_to_uppercase(s: &str) -> (r: String)
    ensures
        r@ == uppercase(s@),
        ascii_text(s@) ==> r@ == ascii_uppered(s@),
{
    s.to_uppercase()
}

/// Copies `s[i..j]` into a new vector.
pub fn slice_of(s: &Vec<char>, i: usize, j: usize) -> (r: Vec<char>)
    requires
        i <= j <= s.len(),
    ensures
        r@ == s@.subrange(i as int, j as int),
{
    let mut out: Vec<char> = Vec::new();
    let mut k = i;
    while k < j
        invariant
            i <= k <= j <= s.len(),
            out@ == s@.subrange(i as int, k as int),
        decreases j - k,
    {
        out.push(s[k]);
        k = k + 1;
        assert(out@ =~= s@.subrange(i as int, k as int));
    }
    out
}

/// Appends all characters of `b` to `a`.
pub fn push_all(a: &mut Vec<char>, b: &Vec<char>)
    ensures
        final(a)@ == old(a)@ + b@,
{
    let mut k: usize = 0;
    let ghost a0 = a@;
    while k < b.len()
        invariant
            k <= b.len(),
            a@ == a0 + b@.take(k as int),
        decreases b.len() - k,
    {
        a.push(b[k]);
        k = k + 1;
        assert(a@ =~= a0 + b@.take(k as int));
    }
    assert(b@.take(b.len() as int) =~= b@);
}

/// Appends the characters of a string slice.
pub fn push_str(a: &mut Vec<char>, s: &str)
    ensures
        final(a)@ == old(a)@ + s@,
{
    let v = chars_of(s);
    push_all(a, &v);
}

/// Concatenation of two character vectors.
pub fn concat(a: &Vec<char>, b: &Vec<char>) -> (r: Vec<char>)
    ensures
        r@ == a@ + b@,
{
    let mut out = a.clone();
    assert(out@ == a@);
    push_all(&mut out, b);
    out
}

/// Equality of two character vectors.
pub fn eq_chars(a: &Vec<char>, b: &Vec<char>) -> (r: bool)
    ensures
        r == (a@ == b@),
{
    if a.len() != b.len() {
        return false;
    }
    let mut k: usize = 0;
    while k < a.len()
        invariant
            a.len() == b.len(),
            k <= a.len(),
            forall|j: int| 0 <= j < k ==> a@[j] == b@[j],
        decreases a.len() - k,
    {
        if a[k] != b[k] {
            return false;
        }
        k = k + 1;
    }
    assert(a@ =~= b@);
    true
}

/// Equality of a character vector with a string slice.
pub fn eq_str(a: &Vec<char>, s: &str) -> (r: bool)
    ensures
        r == (a@ == s@),
{
    let b = chars_of(s);
    eq_chars(a, &b)
}

// ---------------------------------------------------------------------------
// Character classes
// ---------------------------------------------------------------------------

/// Sets of characters that the text operations below match against.
#[derive(Clone, Copy)]
pub enum CharClass {
    /// Unicode `White_Space` (what `char::is_whitespace` accepts).
    Whitespace,
    /// `'`, `"` or a space.
    QuoteOrSpace,
    /// `v` or `V`.
    LetterV,
    /// `-` or `+`.
    DashOrPlus,
    /// `\` or `/`.
    PathSeparator,
    /// Exactly this character.
    Is(char),
}

/// Unicode `White_Space` characters.
pub open spec fn is_ws(c: char) -> bool {
    let x = c as u32;
    (0x09 <= x <= 0x0D) || x == 0x20 || x == 0x85 || x == 0xA0 || x == 0x1680 || (0x2000 <= x
        <= 0x200A) || x == 0x2028 || x == 0x2029 || x == 0x202F || x == 0x205F || x == 0x3000
}

pub open spec fn in_class(c: char, cls: CharClass) -> bool {
    match cls {
        CharClass::Whitespace => is_ws(c),
        CharClass::QuoteOrSpace => c == '\'' || c == '"' || c == ' ',
        CharClass::LetterV => c == 'v' || c == 'V',
        CharClass::DashOrPlus => c == '-' || c == '+',
        CharClass::PathSeparator => c == '\\' || c == '/',
        CharClass::Is(d) => c == d,
    }
}

pub fn class_has(cls: CharClass, c: char) -> (r: bool)
    ensures
        r == in_class(c, cls),
{
    match cls {
        CharClass::Whitespace => {
            let x = c as u32;
            (0x09 <= x && x <= 0x0D) || x == 0x20 || x == 0x85 || x == 0xA0 || x == 0x1680 || (
            0x2000 <= x && x <= 0x200A) || x == 0x2028 || x == 0x2029 || x == 0x202F || x
                == 0x205F || x == 0x3000
        },
        CharClass::QuoteOrSpace => c == '\'' || c == '"' || c == ' ',
        CharClass::LetterV => c == 'v' || c == 'V',
        CharClass::DashOrPlus => c == '-' || c == '+',
        CharClass::PathSeparator => c == '\\' || c == '/',
        CharClass::Is(d) => c == d,
    }
}

// ---------------------------------------------------------------------------
// First match / trimming
// ---------------------------------------------------------------------------

/// Index of the first character whose membership in `cls` equals `want`
/// (the length when there is none).
pub open spec fn first_match(s: Seq<char>, cls: CharClass, want: bool) -> nat
    decreases s.len(),
{
    if s.len() == 0 {
        0
    } else if in_class(s[0], cls) == want {
        0
    } else {
        1 + first_match(s.drop_first(), cls, want)
    }
}

/// Length of `s` once trailing characters of `cls` are removed.
pub open spec fn keep_len(s: Seq<char>, cls: CharClass) -> nat
    decreases s.len(),
{
    if s.len() > 0 && in_class(s.last(), cls) {
        keep_len(s.drop_last(), cls)
    } else {
        s.len()
    }
}

pub open spec fn trim_start_by(s: Seq<char>, cls: CharClass) -> Seq<char> {
    s.skip(first_match(s, cls, false) as int)
}

pub open spec fn trim_end_by(s: Seq<char>, cls: CharClass) -> Seq<char> {
    s.take(keep_len(s, cls) as int)
}

/// `str::trim_matches` with a character predicate.
pub open spec fn trim_by(s: Seq<char>, cls: CharClass) -> Seq<char> {
    trim_end_by(trim_start_by(s, cls), cls)
}

/// `str::trim`.
pub open spec fn trim(s: Seq<char>) -> Seq<char> {
    trim_by(s, CharClass::Whitespace)
}

/// The prefix of `s` before the first character of `cls` (all of `s` when
/// there is none): what `split(..).next()` yields.
pub open spec fn before_class(s: Seq<char>, cls: CharClass) -> Seq<char> {
    s.take(first_match(s, cls, true) as int)
}

pub proof fn lemma_first_match_bound(s: Seq<char>, cls: CharClass, want: bool)
    ensures
        first_match(s, cls, want) <= s.len(),
        first_match(s, cls, want) < s.len() ==> in_class(
            s[first_match(s, cls, want) as int],
            cls,
        ) == want,
        forall|k: int| 0 <= k < first_match(s, cls, want) ==> in_class(s[k], cls) != want,
    decreases s.len(),
{
    if s.len() > 0 && in_class(s[0], cls) != want {
        lemma_first_match_bound(s.drop_first(), cls, want);
        assert forall|k: int| 0 <= k < first_match(s, cls, want) implies in_class(s[k], cls)
            != want by {
            if k > 0 {
                assert(s[k] == s.drop_first()[k - 1]);
            }
        }
    }
}

pub proof fn lemma_first_match_at(s: Seq<char>, cls: CharClass, want: bool, i: int)
    requires
        0 <= i <= s.len(),
        forall|k: int| 0 <= k < i ==> in_class(s[k], cls) != want,
        i == s.len() || in_class(s[i], cls) == want,
    ensures
        first_match(s, cls, want) == i,
    decreases i,
{
    if i > 0 {
        assert(in_class(s[0], cls) != want);
        assert forall|k: int| 0 <= k < i - 1 implies in_class(s.drop_first()[k], cls)
            != want by {
            assert(s.drop_first()[k] == s[k + 1]);
        }
        if i < s.len() {
            assert(s.drop_first()[i - 1] == s[i]);
        }
        lemma_first_match_at(s.drop_first(), cls, want, i - 1);
    }
}

pub proof fn lemma_keep_len_at(s: Seq<char>, cls: CharClass, j: int)
    requires
        0 <= j <= s.len(),
        forall|k: int| j <= k < s.len() ==> in_class(s[k], cls),
        j == 0 || !in_class(s[j - 1], cls),
    ensures
        keep_len(s, cls) == j,
    decreases s.len() - j,
{
    if j < s.len() {
        assert(in_class(s.last(), cls));
        let t = s.drop_last();
        assert forall|k: int| j <= k < t.len() implies in_class(t[k], cls) by {
            assert(t[k] == s[k]);
        }
        if j > 0 {
            assert(t[j - 1] == s[j - 1]);
        }
        lemma_keep_len_at(t, cls, j);
    }
}

pub proof fn lemma_keep_len_bound(s: Seq<char>, cls: CharClass)
    ensures
        keep_len(s, cls) <= s.len(),
        keep_len(s, cls) > 0 ==> !in_class(s[keep_len(s, cls) - 1], cls),
    decreases s.len(),
{
    if s.len() > 0 && in_class(s.last(), cls) {
        lemma_keep_len_bound(s.drop_last(), cls);
    }
}

pub proof fn lemma_first_match_concat(x: Seq<char>, y: Seq<char>, cls: CharClass, want: bool)
    ensures
        first_match(x + y, cls, want) == if first_match(x, cls, want) < x.len() {
            first_match(x, cls, want)
        } else {
            x.len() + first_match(y, cls, want)
        },
    decreases x.len(),
{
    lemma_first_match_bound(x, cls, want);
    if x.len() == 0 {
        assert(x + y =~= y);
    } else {
        assert((x + y)[0] == x[0]);
        if in_class(x[0], cls) != want {
            assert((x + y).drop_first() =~= x.drop_first() + y);
            lemma_first_match_concat(x.drop_first(), y, cls, want);
        }
    }
}

pub proof fn lemma_keep_len_concat(x: Seq<char>, y: Seq<char>, cls: CharClass)
    ensures
        keep_len(y, cls) > 0 ==> keep_len(x + y, cls) == x.len() + keep_len(y, cls),
        keep_len(y, cls) == 0 ==> keep_len(x + y, cls) == keep_len(x, cls),
    decreases y.len(),
{
    if y.len() == 0 {
        assert(x + y =~= x);
    } else {
        assert((x + y).last() == y.last());
        assert((x + y).drop_last() =~= x + y.drop_last());
        if in_class(y.last(), cls) {
            lemma_keep_len_concat(x, y.drop_last(), cls);
        }
    }
}

/// The kept length reaches past the first character when that character
/// is not of the class.
pub proof fn lemma_keep_len_covers_first(y: Seq<char>, cls: CharClass)
    requires
        y.len() > 0,
        !in_class(y[0], cls),
    ensures
        keep_len(y, cls) >= 1,
    decreases y.len(),
{
    if in_class(y.last(), cls) {
        assert(y.len() > 1);
        assert(y.drop_last()[0] == y[0]);
        lemma_keep_len_covers_first(y.drop_last(), cls);
    }
}

/// Index of the first character of `s[from..]` whose membership in `cls`
/// equals `want`, counted from the start of `s`.
pub fn find_first(s: &Vec<char>, from: usize, cls: CharClass, want: bool) -> (r: usize)
    requires
        from <= s.len(),
    ensures
        r == from + first_match(s@.skip(from as int), cls, want),
        from <= r <= s.len(),
{
    let mut i = from;
    while i < s.len() && class_has(cls, s[i]) != want
        invariant
            from <= i <= s.len(),
            forall|k: int| from <= k < i ==> in_class(s@[k], cls) != want,
        decreases s.len() - i,
    {
        i = i + 1;
    }
    proof {
        let t = s@.skip(from as int);
        assert forall|k: int| 0 <= k < i - from implies in_class(t[k], cls) != want by {
            assert(t[k] == s@[k + from]);
        }
        if i < s.len() {
            assert(t[i - from] == s@[i as int]);
        }
        lemma_first_match_at(t, cls, want, i - from);
    }
    i
}

/// Length kept once trailing characters of `cls` are removed from `s[..end]`.
pub fn keep_len_exec(s: &Vec<char>, end: usize, cls: CharClass) -> (r: usize)
    requires
        end <= s.len(),
    ensures
        r == keep_len(s@.take(end as int), cls),
        r <= end,
{
    let mut j = end;
    while j > 0 && class_has(cls, s[j - 1])
        invariant
            j <= end <= s.len(),
            forall|k: int| j <= k < end ==> in_class(s@[k], cls),
        decreases j,
    {
        j = j - 1;
    }
    proof {
        let t = s@.take(end as int);
        assert forall|k: int| j <= k < t.len() implies in_class(t[k], cls) by {
            assert(t[k] == s@[k]);
        }
        if j > 0 {
            assert(t[j - 1] == s@[j - 1]);
        }
        lemma_keep_len_at(t, cls, j as int);
    }
    j
}

/// `trim_matches` with a character class.
pub fn trim_by_exec(s: &Vec<char>, cls: CharClass) -> (r: Vec<char>)
    ensures
        r@ == trim_by(s@, cls),
{
    let i = find_first(s, 0, cls, false);
    assert(s@.skip(0) =~= s@);
    let t = slice_of(s, i, s.len());
    assert(t@ =~= trim_start_by(s@, cls));
    let j = keep_len_exec(&t, t.len(), cls);
    assert(t@.take(t.len() as int) =~= t@);
    slice_of(&t, 0, j)
}

/// `str::trim`.
pub fn trim_exec(s: &Vec<char>) -> (r: Vec<char>)
    ensures
        r@ == trim(s@),
{
    trim_by_exec(s, CharClass::Whitespace)
}

/// `trim_start_matches` with a character class.
pub fn trim_start_by_exec(s: &Vec<char>, cls: CharClass) -> (r: Vec<char>)
    ensures
        r@ == trim_start_by(s@, cls),
{
    let i = find_first(s, 0, cls, false);
    assert(s@.skip(0) =~= s@);
    slice_of(s, i, s.len())
}

/// `trim_end_matches` with a character class.
pub fn trim_end_by_exec(s: &Vec<char>, cls: CharClass) -> (r: Vec<char>)
    ensures
        r@ == trim_end_by(s@, cls),
{
    let j = keep_len_exec(s, s.len(), cls);
    assert(s@.take(s.len() as int) =~= s@);
    slice_of(s, 0, j)
}

/// The prefix before the first character of `cls`.
pub fn before_class_exec(s: &Vec<char>, cls: CharClass) -> (r: Vec<char>)
    ensures
        r@ == before_class(s@, cls),
{
    let i = find_first(s, 0, cls, true);
    assert(s@.skip(0) =~= s@);
    slice_of(s, 0, i)
}

/// Whether some character of `s` is in `cls`.
pub open spec fn has_class(s: Seq<char>, cls: CharClass) -> bool {
    exists|k: int| 0 <= k < s.len() && in_class(#[trigger] s[k], cls)
}

pub proof fn lemma_has_class(s: Seq<char>, cls: CharClass)
    ensures
        has_class(s, cls) <==> first_match(s, cls, true) < s.len(),
{
    lemma_first_match_bound(s, cls, true);
    if has_class(s, cls) {
        let k = choose|k: int| 0 <= k < s.len() && in_class(#[trigger] s[k], cls);
        assert(first_match(s, cls, true) <= k);
    }
    if first_match(s, cls, true) < s.len() {
        assert(in_class(s[first_match(s, cls, true) as int], cls));
    }
}

pub fn has_class_exec(s: &Vec<char>, cls: CharClass) -> (r: bool)
    ensures
        r == has_class(s@, cls),
{
    let i = find_first(s, 0, cls, true);
    proof {
        assert(s@.skip(0) =~= s@);
        lemma_has_class(s@, cls);
    }
    i < s.len()
}

// ---------------------------------------------------------------------------
// Prefixes, suffixes, substrings
// ---------------------------------------------------------------------------

pub open spec fn starts_with(s: Seq<char>, p: Seq<char>) -> bool {
    p.len() <= s.len() && s.take(p.len() as int) == p
}

pub open spec fn ends_with(s: Seq<char>, p: Seq<char>) -> bool {
    p.len() <= s.len() && s.skip(s.len() - p.len()) == p
}

pub open spec fn occurs_at(s: Seq<char>, p: Seq<char>, i: int) -> bool {
    0 <= i && i + p.len() <= s.len() && s.subrange(i, i + p.len()) == p
}

/// `str::contains` with a string pattern.
pub open spec fn contains(s: Seq<char>, p: Seq<char>) -> bool {
    exists|i: int| occurs_at(s, p, i)
}

/// Whether `p` occurs in `s` at index `i`.
pub fn matches_at(s: &Vec<char>, p: &Vec<char>, i: usize) -> (r: bool)
    requires
        i <= s.len(),
    ensures
        r == occurs_at(s@, p@, i as int),
{
    if p.len() > s.len() - i {
        return false;
    }
    let mut k: usize = 0;
    while k < p.len()
        invariant
            i + p.len() <= s.len(),
            k <= p.len(),
            forall|j: int| 0 <= j < k ==> s@[i + j] == p@[j],
        decreases p.len() - k,
    {
        if s[i + k] != p[k] {
            assert(s@.subrange(i as int, i + p.len())[k as int] != p@[k as int]);
            return false;
        }
        k = k + 1;
    }
    assert(s@.subrange(i as int, i + p.len()) =~= p@);
    true
}

pub fn starts_with_exec(s: &Vec<char>, p: &Vec<char>) -> (r: bool)
    ensures
        r == starts_with(s@, p@),
{
    let r = matches_at(s, p, 0);
    assert(s@.take(p.len() as int) =~= s@.subrange(0, p.len() as int));
    r
}

pub fn starts_with_str(s: &Vec<char>, p: &str) -> (r: bool)
    ensures
        r == starts_with(s@, p@),
{
    let pv = chars_of(p);
    starts_with_exec(s, &pv)
}

pub fn ends_with_exec(s: &Vec<char>, p: &Vec<char>) -> (r: bool)
    ensures
        r == ends_with(s@, p@),
{
    if p.len() > s.len() {
        return false;
    }
    let r = matches_at(s, p, s.len() - p.len());
    assert(s@.skip(s.len() - p.len()) =~= s@.subrange(s.len() - p.len(), s.len() as int));
    r
}

pub fn ends_with_str(s: &Vec<char>, p: &str) -> (r: bool)
    ensures
        r == ends_with(s@, p@),
{
    let pv = chars_of(p);
    ends_with_exec(s, &pv)
}

pub fn contains_exec(s: &Vec<char>, p: &Vec<char>) -> (r: bool)
    ensures
        r == contains(s@, p@),
{
    if p.len() > s.len() {
        assert forall|i: int| !occurs_at(s@, p@, i) by {}
        return false;
    }
    let last = s.len() - p.len();
    let mut i: usize = 0;
    loop
        invariant
            last == s.len() - p.len(),
            p.len() <= s.len(),
            i <= last,
            forall|j: int| 0 <= j < i ==> !occurs_at(s@, p@, j),
        decreases last - i,
    {
        if matches_at(s, p, i) {
            return true;
        }
        if i == last {
            assert forall|j: int| !occurs_at(s@, p@, j) by {
                if 0 <= j && j + p.len() <= s.len() {
                    assert(j <= i);
                }
            }
            return false;
        }
        i = i + 1;
    }
}

pub fn contains_str(s: &Vec<char>, p: &str) -> (r: bool)
    ensures
        r == contains(s@, p@),
{
    let pv = chars_of(p);
    contains_exec(s, &pv)
}

/// `str::replace`: non-overlapping occurrences of `p`, scanned from the
/// left, are replaced by `q` (`p` non-empty).
pub open spec fn replace(s: Seq<char>, p: Seq<char>, q: Seq<char>) -> Seq<char>
    decreases s.len(),
{
    if s.len() == 0 || p.len() == 0 {
        s
    } else if starts_with(s, p) {
        q + replace(s.skip(p.len() as int), p, q)
    } else {
        seq![s[0]] + replace(s.drop_first(), p, q)
    }
}

pub fn replace_exec(s: &Vec<char>, p: &Vec<char>, q: &Vec<char>) -> (r: Vec<char>)
    ensures
        r@ == replace(s@, p@, q@),
{
    if p.len() == 0 {
        return s.clone();
    }
    let mut out: Vec<char> = Vec::new();
    let mut i: usize = 0;
    assert(s@.skip(0) =~= s@);
    assert(out@ + replace(s@, p@, q@) =~= replace(s@, p@, q@));
    while i < s.len()
        invariant
            p.len() > 0,
            i <= s.len(),
            replace(s@, p@, q@) == out@ + replace(s@.skip(i as int), p@, q@),
        decreases s.len() - i,
    {
        let ghost rest = s@.skip(i as int);
        if matches_at(s, p, i) {
            assert(rest.take(p.len() as int) =~= s@.subrange(i as int, i + p.len()));
            assert(rest.skip(p.len() as int) =~= s@.skip(i + p.len()));
            let ghost out0 = out@;
            push_all(&mut out, q);
            i = i + p.len();
            assert(out0 + (q@ + replace(s@.skip(i as int), p@, q@)) =~= out@ + replace(
                s@.skip(i as int),
                p@,
                q@,
            ));
        } else {
            assert(!starts_with(rest, p@)) by {
                if starts_with(rest, p@) {
                    assert(rest.take(p.len() as int) =~= s@.subrange(i as int, i + p.len()));
                }
            }
            assert(rest.drop_first() =~= s@.skip(i + 1));
            out.push(s[i]);
            i = i + 1;
        }
    }
    assert(s@.skip(s.len() as int) =~= Seq::<char>::empty());
    assert(out@ + Seq::<char>::empty() =~= out@);
    out
}


/// `trim_start_matches` with a string pattern: every leading copy of `p`
/// is removed.
pub open spec fn strip_prefixes(s: Seq<char>, p: Seq<char>) -> Seq<char>
    decreases s.len(),
{
    if p.len() > 0 && starts_with(s, p) {
        strip_prefixes(s.skip(p.len() as int), p)
    } else {
        s
    }
}

pub fn strip_prefixes_exec(s: &Vec<char>, p: &Vec<char>) -> (r: Vec<char>)
    ensures
        r@ == strip_prefixes(s@, p@),
{
    let mut i: usize = 0;
    assert(s@.skip(0) =~= s@);
    while i < s.len() && p.len() > 0 && matches_at(s, p, i)
        invariant
            i <= s.len(),
            strip_prefixes(s@, p@) == strip_prefixes(s@.skip(i as int), p@),
        decreases s.len() - i,
    {
        let ghost rest = s@.skip(i as int);
        assert(rest.take(p.len() as int) =~= s@.subrange(i as int, i + p.len()));
        assert(rest.skip(p.len() as int) =~= s@.skip(i + p.len()));
        i = i + p.len();
    }
    proof {
        let rest = s@.skip(i as int);
        if i < s.len() && p.len() > 0 {
            assert(!starts_with(rest, p@)) by {
                if starts_with(rest, p@) {
                    assert(rest.take(p.len() as int) =~= s@.subrange(i as int, i + p.len()));
                }
            }
        }
        if i == s.len() {
            assert(rest.len() == 0);
            assert(!starts_with(rest, p@) || p.len() == 0);
        }
    }
    slice_of(s, i, s.len())
}

pub fn strip_prefixes_str(s: &Vec<char>, p: &str) -> (r: Vec<char>)
    ensures
        r@ == strip_prefixes(s@, p@),
{
    let pv = chars_of(p);
    strip_prefixes_exec(s, &pv)
}

/// `str::split` on a character class: the pieces between separators.
pub open spec fn split_by(s: Seq<char>, cls: CharClass) -> Seq<Seq<char>>
    decreases s.len(),
{
    if s.len() == 0 {
        seq![Seq::<char>::empty()]
    } else {
        let r = split_by(s.drop_last(), cls);
        if in_class(s.last(), cls) {
            r.push(Seq::<char>::empty())
        } else {
            r.update(r.len() - 1, r.last().push(s.last()))
        }
    }
}

pub proof fn lemma_split_nonempty(s: Seq<char>, cls: CharClass)
    ensures
        split_by(s, cls).len() >= 1,
    decreases s.len(),
{
    if s.len() > 0 {
        lemma_split_nonempty(s.drop_last(), cls);
    }
}

/// The views of a sequence of character vectors.
pub open spec fn views(v: Seq<Vec<char>>) -> Seq<Seq<char>> {
    v.map_values(|x: Vec<char>| x@)
}

pub fn split_exec(s: &Vec<char>, cls: CharClass) -> (r: Vec<Vec<char>>)
    ensures
        views(r@) == split_by(s@, cls),
{
    let mut pieces: Vec<Vec<char>> = Vec::new();
    let mut cur: Vec<char> = Vec::new();
    let mut i: usize = 0;
    assert(s@.take(0) =~= Seq::<char>::empty());
    assert(views(pieces@).push(cur@) =~= split_by(s@.take(0), cls));
    while i < s.len()
        invariant
            i <= s.len(),
            views(pieces@).push(cur@) == split_by(s@.take(i as int), cls),
        decreases s.len() - i,
    {
        let c = s[i];
        let ghost prev = s@.take(i as int);
        assert(s@.take(i + 1).drop_last() =~= prev);
        assert(s@.take(i + 1).last() == c);
        proof {
            lemma_split_nonempty(prev, cls);
        }
        if class_has(cls, c) {
            let ghost pv = views(pieces@);
            let ghost cv = cur@;
            pieces.push(cur);
            cur = Vec::new();
            assert(views(pieces@) =~= pv.push(cv));
            assert(views(pieces@).push(cur@) =~= split_by(s@.take(i + 1), cls));
        } else {
            let ghost pv = views(pieces@);
            let ghost old_cur = cur@;
            cur.push(c);
            assert(views(pieces@).push(cur@) =~= pv.push(old_cur).update(
                pv.len() as int,
                old_cur.push(c),
            ));
        }
        i = i + 1;
    }
    assert(s@.take(s.len() as int) =~= s@);
    let ghost pv = views(pieces@);
    let ghost cv = cur@;
    pieces.push(cur);
    assert(views(pieces@) =~= pv.push(cv));
    pieces
}

// ---------------------------------------------------------------------------
// Numbers
// ---------------------------------------------------------------------------

pub open spec fn digit_char(d: nat) -> char {
    ((48 + d) as u8) as char
}

/// Decimal representation of a natural number (no leading zeros).
pub open spec fn decimal(n: nat) -> Seq<char>
    decreases n,
{
    if n < 10 {
        seq![digit_char(n)]
    } else {
        decimal(n / 10).push(digit_char(n % 10))
    }
}

/// Decimal representation of an integer, with a leading `-` when negative.
pub open spec fn decimal_int(n: int) -> Seq<char> {
    if n < 0 {
        seq!['-'] + decimal((-n) as nat)
    } else {
        decimal(n as nat)
    }
}

/// `u64::to_string`.
pub fn u64_to_chars(n: u64) -> (r: Vec<char>)
    ensures
        r@ == decimal(n as nat),
    decreases n,
{
    let d = ((n % 10) as u8 + 48u8) as char;
    assert(d == digit_char((n % 10) as nat));
    if n < 10 {
        let mut v: Vec<char> = Vec::new();
        v.push(d);
        assert(v@ =~= seq![digit_char(n as nat)]);
        v
    } else {
        let mut v = u64_to_chars(n / 10);
        v.push(d);
        v
    }
}

/// `i64::to_string`.
pub fn i64_to_chars(n: i64) -> (r: Vec<char>)
    ensures
        r@ == decimal_int(n as int),
{
    if n < 0 {
        let m: u64 = ((-(n + 1)) as u64) + 1;
        assert(m == -n);
        let digits = u64_to_chars(m);
        let mut v: Vec<char> = Vec::new();
        v.push('-');
        push_all(&mut v, &digits);
        v
    } else {
        u64_to_chars(n as u64)
    }
}

/// Value of a digit character in the given radix (10 or 16).
pub open spec fn digit_value(c: char, radix: nat) -> Option<nat> {
    let x = c as u32;
    if 48 <= x <= 57 {
        Some((x - 48) as nat)
    } else if radix == 16 && 97 <= x <= 102 {
        Some((x - 87) as nat)
    } else if radix == 16 && 65 <= x <= 70 {
        Some((x - 55) as nat)
    } else {
        None
    }
}

pub open spec fn all_digits(s: Seq<char>, radix: nat) -> bool {
    forall|k: int| 0 <= k < s.len() ==> (#[trigger] digit_value(s[k], radix)) is Some
}

pub open spec fn digits_value(s: Seq<char>, radix: nat) -> nat
    decreases s.len(),
{
    if s.len() == 0 {
        0
    } else {
        digits_value(s.drop_last(), radix) * radix + match digit_value(s.last(), radix) {
            Some(d) => d,
            None => 0,
        }
    }
}

/// `from_str_radix` for an unsigned type whose maximum is `max`: an
/// optional `+` followed by at least one digit, the value at most `max`.
pub open spec fn parse_radix(s: Seq<char>, radix: nat, max: nat) -> Option<nat> {
    let d = if s.len() > 0 && s[0] == '+' {
        s.drop_first()
    } else {
        s
    };
    if d.len() == 0 {
        None
    } else if all_digits(d, radix) && digits_value(d, radix) <= max {
        Some(digits_value(d, radix))
    } else {
        None
    }
}

pub proof fn lemma_digits_value_prefix(s: Seq<char>, radix: nat, k: int)
    requires
        0 <= k <= s.len(),
        radix >= 2,
    ensures
        digits_value(s.take(k), radix) <= digits_value(s, radix),
    decreases s.len() - k,
{
    if k < s.len() {
        lemma_digits_value_prefix(s.drop_last(), radix, k);
        assert(s.drop_last().take(k) =~= s.take(k));
        assert(digits_value(s.drop_last(), radix) <= digits_value(s.drop_last(), radix) * radix)
            by (nonlinear_arith)
            requires
                radix >= 2,
        ;
    } else {
        assert(s.take(k) =~= s);
    }
}

pub fn digit_value_exec(c: char, radix: u64) -> (r: Option<u64>)
    requires
        radix == 10 || radix == 16,
    ensures
        match digit_value(c, radix as nat) {
            Some(d) => r == Some(d as u64),
            None => r is None,
        },
{
    let x = c as u32;
    if 48 <= x && x <= 57 {
        Some((x - 48) as u64)
    } else if radix == 16 && 97 <= x && x <= 102 {
        Some((x - 87) as u64)
    } else if radix == 16 && 65 <= x && x <= 70 {
        Some((x - 55) as u64)
    } else {
        None
    }
}

/// `u64::from_str_radix` / `str::parse` for unsigned values bounded by `max`.
pub fn parse_radix_exec(s: &Vec<char>, radix: u64, max: u64) -> (r: Option<u64>)
    requires
        radix == 10 || radix == 16,
    ensures
        match parse_radix(s@, radix as nat, max as nat) {
            Some(v) => r == Some(v as u64),
            None => r is None,
        },
{
    let start: usize = if s.len() > 0 && s[0] == '+' {
        1
    } else {
        0
    };
    let ghost d = if s@.len() > 0 && s@[0] == '+' {
        s@.drop_first()
    } else {
        s@
    };
    assert(d =~= s@.skip(start as int));
    if start == s.len() {
        return None;
    }
    let mut v: u64 = 0;
    let mut i: usize = start;
    assert(d.take(0) =~= Seq::<char>::empty());
    while i < s.len()
        invariant
            start <= i <= s.len(),
            d == s@.skip(start as int),
            d == (if s@.len() > 0 && s@[0] == '+' {
                s@.drop_first()
            } else {
                s@
            }),
            d.len() > 0,
            radix == 10 || radix == 16,
            v as nat == digits_value(d.take(i - start), radix as nat),
            v <= max,
            all_digits(d.take(i - start), radix as nat),
        decreases s.len() - i,
    {
        let k = i - start;
        let ghost pre = d.take(k as int);
        let ghost pre1 = d.take(k + 1);
        assert(pre1.drop_last() =~= pre);
        assert(pre1.last() == s@[i as int]);
        match digit_value_exec(s[i], radix) {
            None => {
                assert(!all_digits(d, radix as nat)) by {
                    assert(d[k as int] == s@[i as int]);
                    assert(digit_value(d[k as int], radix as nat) is None);
                }
                return None;
            },
            Some(dv) => {
                let prod = v.checked_mul(radix);
                let next = match prod {
                    Some(p) => p.checked_add(dv),
                    None => None,
                };
                match next {
                    Some(n) if n <= max => {
                        v = n;
                        assert forall|j: int| 0 <= j < pre1.len() implies (#[trigger] digit_value(
                            pre1[j],
                            radix as nat,
                        )) is Some by {
                            if j < pre.len() {
                                assert(pre1[j] == pre[j]);
                            }
                        }
                    },
                    _ => {
                        proof {
                            lemma_digits_value_prefix(d, radix as nat, k + 1);
                            assert(digits_value(pre1, radix as nat) == digits_value(
                                pre,
                                radix as nat,
                            ) * radix + dv);
                            assert(digits_value(pre1, radix as nat) > max);
                        }
                        return None;
                    },
                }
            },
        }
        i = i + 1;
    }
    assert(d.take(s.len() - start) =~= d);
    Some(v)
}

/// `i64::from_str`: an optional sign (`+` or `-`) followed by at least one
/// decimal digit, the value within the range of `i64`.
pub open spec fn parse_i64(s: Seq<char>) -> Option<int> {
    if s.len() > 0 && s[0] == '-' {
        let d = s.drop_first();
        if d.len() > 0 && all_digits(d, 10) && digits_value(d, 10) <= 0x8000_0000_0000_0000 {
            Some(-digits_value(d, 10))
        } else {
            None
        }
    } else {
        match parse_radix(s, 10, 0x7fff_ffff_ffff_ffff) {
            Some(v) => Some(v as int),
            None => None,
        }
    }
}

/// `str::parse::<i64>` on a character vector.
pub fn parse_i64_exec(s: &Vec<char>) -> (r: Option<i64>)
    ensures
        match parse_i64(s@) {
            Some(v) => r == Some(v as i64),
            None => r is None,
        },
{
    if s.len() > 0 && s[0] == '-' {
        let rest = slice_of(s, 1, s.len());
        assert(rest@ =~= s@.drop_first());
        if rest.len() > 0 && rest[0] == '+' {
            assert(digit_value(rest@[0], 10) is None);
            return None;
        }
        assert(parse_radix(rest@, 10, 0x8000_0000_0000_0000) == if rest@.len() > 0 && all_digits(
            rest@,
            10,
        ) && digits_value(rest@, 10) <= 0x8000_0000_0000_0000 {
            Some(digits_value(rest@, 10))
        } else {
            None
        });
        match parse_radix_exec(&rest, 10, 0x8000_0000_0000_0000) {
            Some(v) => {
                if v == 0x8000_0000_0000_0000 {
                    Some(i64::MIN)
                } else {
                    Some(-(v as i64))
                }
            },
            None => None,
        }
    } else {
        match parse_radix_exec(s, 10, 0x7fff_ffff_ffff_ffff) {
            Some(v) => Some(v as i64),
            None => None,
        }
    }
}

/// Whether `c` is an ASCII letter or digit.
pub open spec fn is_ascii_alnum(c: char) -> bool {
    ('0' <= c <= '9') || ('a' <= c <= 'z') || ('A' <= c <= 'Z')
}

/// ASCII lower-casing of a single character.
pub open spec fn ascii_lower(c: char) -> char {
    if 'A' <= c <= 'Z' {
        ((c as u32) + 32) as char
    } else {
        c
    }
}

/// `str::eq_ignore_ascii_case`.
pub open spec fn eq_ignore_ascii_case(a: Seq<char>, b: Seq<char>) -> bool {
    a.len() == b.len() && forall|k: int| 0 <= k < a.len() ==> ascii_lower(#[trigger] a[k])
        == ascii_lower(b[k])
}

pub fn eq_ignore_ascii_case_exec(a: &Vec<char>, b: &Vec<char>) -> (r: bool)
    ensures
        r == eq_ignore_ascii_case(a@, b@),
{
    if a.len() != b.len() {
        return false;
    }
    let mut k: usize = 0;
    while k < a.len()
        invariant
            a.len() == b.len(),
            k <= a.len(),
            forall|j: int| 0 <= j < k ==> ascii_lower(#[trigger] a@[j]) == ascii_lower(b@[j]),
        decreases a.len() - k,
    {
        let x = a[k] as u32;
        let y = b[k] as u32;
        let lx = if 65 <= x && x <= 90 {
            x + 32
        } else {
            x
        };
        let ly = if 65 <= y && y <= 90 {
            y + 32
        } else {
            y
        };
        if lx != ly {
            assert(ascii_lower(a@[k as int]) != ascii_lower(b@[k as int]));
            return false;
        }
        k = k + 1;
    }
    true
}


/// Number of bytes of the UTF-8 encoding of a character.
pub open spec fn utf8_width(c: char) -> nat {
    let x = c as u32;
    if x < 0x80 {
        1
    } else if x < 0x800 {
        2
    } else if x < 0x10000 {
        3
    } else {
        4
    }
}

/// Number of characters of the shortest prefix of `s` whose UTF-8 encoding
/// has at least `n` bytes (all of `s` when there is none): the character
/// index of `ceil_char_boundary(min(n, len))`.
pub open spec fn head_len(s: Seq<char>, n: int) -> nat
    decreases s.len(),
{
    if n <= 0 || s.len() == 0 {
        0
    } else {
        1 + head_len(s.drop_first(), n - utf8_width(s[0]))
    }
}

pub fn head_len_exec(s: &Vec<char>, n: u64) -> (r: usize)
    ensures
        r == head_len(s@, n as int),
        r <= s.len(),
{
    let mut i: usize = 0;
    let mut rem: u64 = n;
    assert(s@.skip(0) =~= s@);
    while rem > 0 && i < s.len()
        invariant
            i <= s.len(),
            head_len(s@, n as int) == i + head_len(s@.skip(i as int), rem as int),
        decreases s.len() - i,
    {
        let x = s[i] as u32;
        let w: u64 = if x < 0x80 {
            1
        } else if x < 0x800 {
            2
        } else if x < 0x10000 {
            3
        } else {
            4
        };
        assert(w == utf8_width(s@[i as int]));
        let ghost t = s@.skip(i as int);
        assert(t[0] == s@[i as int]);
        assert(t.drop_first() =~= s@.skip(i + 1));
        assert(head_len(t, rem as int) == 1 + head_len(t.drop_first(), rem - w));
        assert(head_len(t.drop_first(), rem - w) == head_len(
            s@.skip(i + 1),
            if w >= rem {
                0
            } else {
                rem - w
            },
        ));
        rem = if w >= rem {
            0
        } else {
            rem - w
        };
        i = i + 1;
    }
    i
}

/// `char::from_u32`: `Some` exactly for Unicode scalar values.
#[verifier::external_body]
pub(crate) fn char_from_u32(v: u32) -> (r: Option<char>)
    ensures
        vstd::utf8::is_scalar(v) ==> r == Some(v as char),
        !vstd::utf8::is_scalar(v) ==> r is None,
{
    char::from_u32(v)
}

} // verus!
