//! Source scripts (imported / `.js` subscriptions) and HTTP API sources.
//!
//! No JavaScript runtime is embedded: the contract of a source script (its
//! API base and its platform / quality declarations) is extracted statically
//! when the script is imported, and the requests it would make are made
//! natively.
use vstd::prelude::*;
use vstd::utf8::is_scalar;

use crate::json::{
    get_arr, get_arr_exec, get_str, get_str_exec, get_str_or_empty, jarr, jget, ji64, json_arr,
    json_get, json_i64, json_str, json_text_is_valid, json_u64, jstr, ju64,
    json_text_valid, str_or_empty, JsonValue,
};
use crate::models::{
    opt_string_view, platform_views, song_views, string_views, LxPlatform, LxSearchSong, PlatformView, SongView,
};
use crate::patterns::{
    captures, captures_all, group, group_exec, is_match, regex_captures, regex_captures_all,
    regex_matches, regex_split, split,
};
use crate::text::{
    ends_with, ends_with_str, char_from_u32, contains, contains_str, decimal_int, digit_value, i64_to_chars, head_len, head_len_exec, lower_chars, lowercase,
    parse_radix, parse_radix_exec, push_all, push_str, slice_of, trim_start_by, trim_start_by_exec,
    before_class, before_class_exec, chars_of, eq_str, has_class, has_class_exec, replace,
    replace_exec, split_by, split_exec, starts_with, starts_with_str, string_of, strip_prefixes,
    strip_prefixes_str, trim, trim_by, trim_by_exec, trim_end_by, trim_end_by_exec, trim_exec,
    views, CharClass,
};

verus! {

// ---------------------------------------------------------------------------
// Patterns of the script grammar
// ---------------------------------------------------------------------------

/// Declaration of an API base constant.
pub const BASE_CONST_PATTERN: &'static str =
    r#"(?i)(?:const|let|var)\s+(?:API_BASE|API_HOST|BASE_URL|BASEURL|APIBASE|API_URL)\s*="#;

/// A platform declaration block such as `wy: { … }`.
pub const PLATFORM_PATTERN: &'static str =
    r#"(?m)^\s*(wy|tx|kw|kg|mg|joox|xm|bd)\s*:\s*\{([^{}]*)\}"#;

/// An API base constant assigned a quoted literal.
pub const BASE_ASSIGN_PATTERN: &'static str =
    r#"(?i)(?:const|let|var)\s+(?:API_BASE|API_HOST|BASE_URL|BASEURL|APIBASE|API_URL|apiBase|baseUrl)\s*=\s*['"]([^'"]+)['"]"#;

/// `apiUrl` of a server-pushed script configuration.
pub const API_URL_PATTERN: &'static str = r#"(?i)apiurl["']?\s*[:=]\s*['"]([^'"]+)['"]"#;

/// A quoted http(s) literal.
pub const URL_LITERAL_PATTERN: &'static str = r#"['"](https?://[^'"\s]+)['"]"#;

/// The `@name` metadata of a script header.
pub const NAME_META_PATTERN: &'static str = r"@name\s+([^\r\n*]+)";

/// The `name:` field of a platform block.
pub const NAME_FIELD_PATTERN: &'static str = r#"(?i)\bname\s*:\s*['"]([^'"]*)['"]"#;

/// The `qualitys:` / `qualities:` list of a platform block.
pub const QUALITIES_PATTERN: &'static str = r#"(?i)\bqualit(?:y|ie)s?\s*:\s*\[([^\]]*)\]"#;

/// The `actions:` list of a platform block.
pub const ACTIONS_PATTERN: &'static str = r#"(?i)\bactions\s*:\s*\[([^\]]*)\]"#;

/// A JavaScript `\uXXXX` (or `\u{XXXX}`) escape.
pub const UNICODE_ESCAPE_PATTERN: &'static str = r"\\u\{?([0-9a-fA-F]{4})\}?";

// ---------------------------------------------------------------------------
// Small helpers
// ---------------------------------------------------------------------------

pub open spec fn opt_view(o: Option<Vec<char>>) -> Option<Seq<char>> {
    match o {
        Some(v) => Some(v@),
        None => None,
    }
}

/// Known platform code → display name (used when a declaration gives none).
pub open spec fn platform_display_name(code: Seq<char>) -> Seq<char> {
    if code == "wy"@ {
        "网易云"@
    } else if code == "tx"@ {
        "QQ"@
    } else if code == "kw"@ {
        "酷我"@
    } else if code == "kg"@ {
        "酷狗"@
    } else if code == "mg"@ {
        "咪咕"@
    } else if code == "joox"@ {
        "JOOX"@
    } else if code == "xm"@ {
        "小咪"@
    } else if code == "bd"@ {
        "百度"@
    } else {
        code
    }
}

pub fn platform_name(code: &Vec<char>) -> (r: Vec<char>)
    ensures
        r@ == platform_display_name(code@),
{
    if eq_str(code, "wy") {
        chars_of("网易云")
    } else if eq_str(code, "tx") {
        chars_of("QQ")
    } else if eq_str(code, "kw") {
        chars_of("酷我")
    } else if eq_str(code, "kg") {
        chars_of("酷狗")
    } else if eq_str(code, "mg") {
        chars_of("咪咕")
    } else if eq_str(code, "joox") {
        chars_of("JOOX")
    } else if eq_str(code, "xm") {
        chars_of("小咪")
    } else if eq_str(code, "bd") {
        chars_of("百度")
    } else {
        code.clone()
    }
}

// ---------------------------------------------------------------------------
// API base
// ---------------------------------------------------------------------------

/// Host part of an API base: the scheme prefixes removed, up to the first `/`.
pub open spec fn host_part(base: Seq<char>) -> Seq<char> {
    before_class(
        strip_prefixes(strip_prefixes(base, "https://"@), "http://"@),
        CharClass::Is('/'),
    )
}

pub fn host_of_chars(base: &Vec<char>) -> (r: Vec<char>)
    ensures
        r@ == host_part(base@),
{
    let a = strip_prefixes_str(base, "https://");
    let b = strip_prefixes_str(&a, "http://");
    before_class_exec(&b, CharClass::Is('/'))
}

/// Host of an API base (`https://music.example.com/x` → `music.example.com`).
pub fn host_of(base: &str) -> (r: String)
    ensures
        r@ == host_part(base@),
{
    let b = chars_of(base);
    let h = host_of_chars(&b);
    string_of(&h)
}

/// Normalised API base: escaped slashes (`\/`) restored, a query string and
/// trailing slashes removed; it must be http(s) with a host that contains a
/// dot.
pub open spec fn normalized_base(raw: Seq<char>) -> Option<Seq<char>> {
    let s = replace(trim(raw), "\\/"@, "/"@);
    if starts_with(s, "http://"@) || starts_with(s, "https://"@) {
        let t = before_class(s, CharClass::Is('?'));
        let u = trim_end_by(t, CharClass::Is('/'));
        if has_class(host_part(u), CharClass::Is('.')) {
            Some(u)
        } else {
            None
        }
    } else {
        None
    }
}

/// A normalized API base carries no query string, does not end with `/`,
/// and its host name holds a `.`.
pub proof fn normalized_base_is_clean(raw: Seq<char>)
    ensures
        normalized_base(raw) matches Some(u) ==> {
            &&& !has_class(u, CharClass::Is('?'))
            &&& !ends_with(u, "/"@)
            &&& has_class(host_part(u), CharClass::Is('.'))
        },
{
    let s = replace(trim(raw), "\\/"@, "/"@);
    if starts_with(s, "http://"@) || starts_with(s, "https://"@) {
        let t = before_class(s, CharClass::Is('?'));
        crate::text::lemma_first_match_bound(s, CharClass::Is('?'), true);
        let u = trim_end_by(t, CharClass::Is('/'));
        crate::text::lemma_keep_len_bound(t, CharClass::Is('/'));
        let n = crate::text::keep_len(t, CharClass::Is('/'));
        assert forall|k: int| 0 <= k < u.len() implies !crate::text::in_class(
            u[k],
            CharClass::Is('?'),
        ) by {
            assert(u[k] == s[k]);
        }
        crate::text::lemma_has_class(u, CharClass::Is('?'));
        reveal_strlit("/");
        if ends_with(u, "/"@) {
            assert(u[u.len() - 1] == u.subrange(u.len() - 1, u.len() as int)[0]);
            assert(u[n - 1] == t[n - 1]);
        }
    }
}

proof fn lemma_keep_len_tail(t: Seq<char>, cls: CharClass)
    ensures
        forall|k: int| crate::text::keep_len(t, cls) <= k < t.len() ==> crate::text::in_class(
            #[trigger] t[k],
            cls,
        ),
    decreases t.len(),
{
    if t.len() > 0 && crate::text::in_class(t.last(), cls) {
        let p = t.drop_last();
        lemma_keep_len_tail(p, cls);
        crate::text::lemma_keep_len_bound(p, cls);
        assert forall|k: int| crate::text::keep_len(t, cls) <= k < t.len() implies crate::text::in_class(
            #[trigger] t[k],
            cls,
        ) by {
            if k < p.len() {
                assert(t[k] == p[k]);
            }
        }
    }
}

/// The text has no character of `cls`.
pub open spec fn free_of(s: Seq<char>, cls: CharClass) -> bool {
    forall|k: int| 0 <= k < s.len() ==> !crate::text::in_class(#[trigger] s[k], cls)
}

proof fn lemma_replace_identity(s: Seq<char>)
    requires
        free_of(s, CharClass::Is('\\')),
    ensures
        replace(s, "\\/"@, "/"@) == s,
    decreases s.len(),
{
    reveal_strlit("\\/");
    if s.len() > 0 {
        let d = s.drop_first();
        assert forall|k: int| 0 <= k < d.len() implies !crate::text::in_class(#[trigger] d[k], CharClass::Is('\\')) by {
            assert(d[k] == s[k + 1]);
        }
        lemma_replace_identity(d);
        assert(!starts_with(s, "\\/"@)) by {
            if starts_with(s, "\\/"@) {
                assert(s.subrange(0, 2)[0] == s[0]);
            }
        }
        assert(seq![s[0]] + d =~= s);
    }
}

proof fn lemma_trim_identity(s: Seq<char>)
    requires
        free_of(s, CharClass::Whitespace),
    ensures
        trim(s) == s,
{
    crate::text::lemma_first_match_at(s, CharClass::Whitespace, false, 0);
    assert(s.skip(0) =~= s);
    crate::text::lemma_keep_len_at(s, CharClass::Whitespace, s.len() as int);
    assert(s.take(s.len() as int) =~= s);
}

/// The parts of [`normalized_base`], for a text `s` already trimmed and
/// unescaped: the part before any `?`, without trailing `/`.
pub open spec fn base_part(s: Seq<char>) -> Seq<char> {
    trim_end_by(before_class(s, CharClass::Is('?')), CharClass::Is('/'))
}

proof fn lemma_base_part_prefix(s: Seq<char>)
    ensures
        base_part(s).len() <= s.len(),
        forall|k: int| 0 <= k < base_part(s).len() ==> #[trigger] base_part(s)[k] == s[k],
{
    crate::text::lemma_first_match_bound(s, CharClass::Is('?'), true);
    let t = before_class(s, CharClass::Is('?'));
    crate::text::lemma_keep_len_bound(t, CharClass::Is('/'));
}

proof fn lemma_scheme_kept(s: Seq<char>, scheme: Seq<char>)
    requires
        scheme == "http://"@ || scheme == "https://"@,
        starts_with(s, scheme),
        has_class(host_part(base_part(s)), CharClass::Is('.')),
    ensures
        starts_with(base_part(s), scheme),
{
    reveal_strlit("http://");
    reveal_strlit("https://");
    let l = scheme.len() as int;
    let fm = crate::text::first_match(s, CharClass::Is('?'), true);
    crate::text::lemma_first_match_bound(s, CharClass::Is('?'), true);
    assert forall|k: int| 0 <= k < l implies s[k] == scheme[k] by {
        assert(s.subrange(0, l)[k] == s[k]);
    }
    assert(fm >= l) by {
        if fm < l {
            assert(s[fm as int] == scheme[fm as int]);
        }
    }
    let t = before_class(s, CharClass::Is('?'));
    let n = crate::text::keep_len(t, CharClass::Is('/'));
    crate::text::lemma_keep_len_bound(t, CharClass::Is('/'));
    lemma_keep_len_tail(t, CharClass::Is('/'));
    let u = t.take(n as int);
    assert forall|k: int| 0 <= k < l implies t[k] == scheme[k] by {}
    if n >= l {
        assert(u.subrange(0, l) =~= scheme);
    } else {
        // The cut falls inside the scheme, after its `:`: what is left has
        // no `.`, so its host cannot hold one.
        let c = l - 3;
        assert(t[c] == ':');
        assert(n > c);
        assert forall|k: int| 0 <= k < u.len() implies u[k] != '.' by {
            assert(u[k] == scheme[k]);
        }
        assert(!starts_with(u, "https://"@));
        assert(!starts_with(u, "http://"@));
        assert(strip_prefixes(u, "https://"@) == u);
        assert(strip_prefixes(u, "http://"@) == u);
        let h = host_part(u);
        crate::text::lemma_first_match_bound(u, CharClass::Is('/'), true);
        assert forall|k: int| 0 <= k < h.len() implies !crate::text::in_class(#[trigger] h[k], CharClass::Is('.')) by {
            assert(h[k] == u[k]);
        }
    }
}

/// A normalized API base is an `http://` or `https://` address; and
/// normalizing it again gives it back whenever the raw text held no
/// whitespace and no `\`.
pub proof fn normalized_base_stable(raw: Seq<char>)
    ensures
        normalized_base(raw) matches Some(u) ==> starts_with(u, "http://"@) || starts_with(
            u,
            "https://"@,
        ),
        normalized_base(raw) matches Some(u) ==> (free_of(raw, CharClass::Whitespace) && free_of(
            raw,
            CharClass::Is('\\'),
        ) ==> normalized_base(u) == Some(u)),
{
    let s = replace(trim(raw), "\\/"@, "/"@);
    if let Some(u) = normalized_base(raw) {
        assert(u == base_part(s));
        let scheme = if starts_with(s, "http://"@) {
            "http://"@
        } else {
            "https://"@
        };
        lemma_scheme_kept(s, scheme);
        if free_of(raw, CharClass::Whitespace) && free_of(raw, CharClass::Is('\\')) {
            lemma_trim_identity(raw);
            lemma_replace_identity(raw);
            assert(s == raw);
            lemma_base_part_prefix(s);
            assert(free_of(u, CharClass::Whitespace)) by {
                assert forall|k: int| 0 <= k < u.len() implies !crate::text::in_class(#[trigger] u[k], CharClass::Whitespace) by {
                    assert(u[k] == s[k]);
                }
            }
            assert(free_of(u, CharClass::Is('\\'))) by {
                assert forall|k: int| 0 <= k < u.len() implies !crate::text::in_class(#[trigger] u[k], CharClass::Is('\\')) by {
                    assert(u[k] == s[k]);
                }
            }
            lemma_trim_identity(u);
            lemma_replace_identity(u);
            normalized_base_is_clean(raw);
            crate::text::lemma_has_class(u, CharClass::Is('?'));
            crate::text::lemma_first_match_bound(u, CharClass::Is('?'), true);
            assert(before_class(u, CharClass::Is('?')) =~= u);
            reveal_strlit("/");
            if u.len() > 0 {
                assert(u.subrange(u.len() - 1, u.len() as int) =~= seq![u[u.len() - 1]]);
                assert(u[u.len() - 1] != '/') by {
                    if u[u.len() - 1] == '/' {
                        assert(u.subrange(u.len() - 1, u.len() as int) =~= "/"@);
                        assert(ends_with(u, "/"@));
                    }
                }
            }
            crate::text::lemma_keep_len_at(u, CharClass::Is('/'), u.len() as int);
            assert(u.take(u.len() as int) =~= u);
            assert(base_part(u) == u);
        }
    }
}

pub fn normalize_base_chars(raw: &Vec<char>) -> (r: Option<Vec<char>>)
    ensures
        opt_view(r) == normalized_base(raw@),
{
    let t0 = trim_exec(raw);
    let from = chars_of("\\/");
    let to = chars_of("/");
    let s = replace_exec(&t0, &from, &to);
    if starts_with_str(&s, "http://") || starts_with_str(&s, "https://") {
        let t = before_class_exec(&s, CharClass::Is('?'));
        let u = trim_end_by_exec(&t, CharClass::Is('/'));
        let host = host_of_chars(&u);
        if has_class_exec(&host, CharClass::Is('.')) {
            Some(u)
        } else {
            None
        }
    } else {
        None
    }
}

/// Normalises an API base (see [`normalized_base`]).
pub fn normalize_base(raw: &str) -> (r: Option<String>)
    ensures
        opt_string_view(r) == normalized_base(raw@),
{
    let v = chars_of(raw);
    match normalize_base_chars(&v) {
        Some(u) => Some(string_of(&u)),
        None => None,
    }
}

// ---------------------------------------------------------------------------
// Lists such as `['128k', "320k", flac]`
// ---------------------------------------------------------------------------

/// One list item: surrounding whitespace, then quotes and spaces, removed.
pub open spec fn clean_item(seg: Seq<char>) -> Seq<char> {
    trim_by(trim(seg), CharClass::QuoteOrSpace)
}

pub open spec fn clean_items(segs: Seq<Seq<char>>) -> Seq<Seq<char>> {
    segs.map_values(|seg: Seq<char>| clean_item(seg))
}

/// The non-empty items of a sequence, in order.
pub open spec fn keep_nonempty(s: Seq<Seq<char>>) -> Seq<Seq<char>>
    decreases s.len(),
{
    if s.len() == 0 {
        s
    } else {
        let r = keep_nonempty(s.drop_last());
        if s.last().len() > 0 {
            r.push(s.last())
        } else {
            r
        }
    }
}

/// The items of a JS array literal body, split at commas and cleaned.
pub open spec fn list_items(body: Seq<char>) -> Seq<Seq<char>> {
    keep_nonempty(clean_items(split_by(body, CharClass::Is(','))))
}

pub fn split_list_chars(body: &Vec<char>) -> (r: Vec<String>)
    ensures
        string_views(r@) == list_items(body@),
{
    let segs = split_exec(body, CharClass::Is(','));
    let ghost all = clean_items(split_by(body@, CharClass::Is(',')));
    let mut out: Vec<String> = Vec::new();
    let mut i: usize = 0;
    assert(all.take(0) =~= Seq::<Seq<char>>::empty());
    assert(string_views(out@) =~= keep_nonempty(all.take(0)));
    while i < segs.len()
        invariant
            i <= segs.len(),
            views(segs@) == split_by(body@, CharClass::Is(',')),
            all == clean_items(split_by(body@, CharClass::Is(','))),
            all.len() == segs.len(),
            string_views(out@) == keep_nonempty(all.take(i as int)),
        decreases segs.len() - i,
    {
        let t = trim_exec(&segs[i]);
        let item = trim_by_exec(&t, CharClass::QuoteOrSpace);
        assert(views(segs@)[i as int] == segs@[i as int]@);
        assert(item@ == all[i as int]);
        assert(all.take(i + 1).drop_last() =~= all.take(i as int));
        assert(all.take(i + 1).last() == all[i as int]);
        if item.len() > 0 {
            let ghost before = string_views(out@);
            out.push(string_of(&item));
            assert(string_views(out@) =~= before.push(item@));
        }
        i = i + 1;
    }
    assert(all.take(segs.len() as int) =~= all);
    out
}

/// Splits `['128k', "320k", flac]`-style list bodies into clean items.
pub fn split_list(body: &str) -> (r: Vec<String>)
    ensures
        string_views(r@) == list_items(body@),
{
    let b = chars_of(body);
    split_list_chars(&b)
}

/// The items of a list body are never empty and neither start nor end
/// with a quote or a space.
pub proof fn list_items_clean(body: Seq<char>)
    ensures
        forall|k: int|
            0 <= k < list_items(body).len() ==> {
                let it = #[trigger] list_items(body)[k];
                &&& it.len() > 0
                &&& !crate::text::in_class(it[0], CharClass::QuoteOrSpace)
                &&& !crate::text::in_class(it.last(), CharClass::QuoteOrSpace)
            },
{
    let c = clean_items(split_by(body, CharClass::Is(',')));
    assert forall|k: int| 0 <= k < c.len() implies {
        let it = #[trigger] c[k];
        it.len() > 0 ==> !crate::text::in_class(it[0], CharClass::QuoteOrSpace)
            && !crate::text::in_class(it.last(), CharClass::QuoteOrSpace)
    } by {
        lemma_trim_by_ends(trim(split_by(body, CharClass::Is(','))[k]), CharClass::QuoteOrSpace);
    }
    lemma_keep_nonempty_items(c);
}

proof fn lemma_trim_by_ends(x: Seq<char>, cls: CharClass)
    ensures
        trim_by(x, cls).len() > 0 ==> !crate::text::in_class(trim_by(x, cls)[0], cls)
            && !crate::text::in_class(trim_by(x, cls).last(), cls),
{
    let a = crate::text::first_match(x, cls, false);
    crate::text::lemma_first_match_bound(x, cls, false);
    let t = x.skip(a as int);
    let n = crate::text::keep_len(t, cls);
    crate::text::lemma_keep_len_bound(t, cls);
    let r = t.take(n as int);
    if r.len() > 0 {
        assert(r[0] == x[a as int]);
        assert(r.last() == t[n - 1]);
    }
}

proof fn lemma_keep_nonempty_items(s: Seq<Seq<char>>)
    requires
        forall|k: int|
            0 <= k < s.len() ==> {
                let it = #[trigger] s[k];
                it.len() > 0 ==> !crate::text::in_class(it[0], CharClass::QuoteOrSpace)
                    && !crate::text::in_class(it.last(), CharClass::QuoteOrSpace)
            },
    ensures
        forall|k: int|
            0 <= k < keep_nonempty(s).len() ==> {
                let it = #[trigger] keep_nonempty(s)[k];
                &&& it.len() > 0
                &&& !crate::text::in_class(it[0], CharClass::QuoteOrSpace)
                &&& !crate::text::in_class(it.last(), CharClass::QuoteOrSpace)
            },
    decreases s.len(),
{
    if s.len() > 0 {
        let p = s.drop_last();
        assert forall|k: int| 0 <= k < p.len() implies {
            let it = #[trigger] p[k];
            it.len() > 0 ==> !crate::text::in_class(it[0], CharClass::QuoteOrSpace)
                && !crate::text::in_class(it.last(), CharClass::QuoteOrSpace)
        } by {
            assert(p[k] == s[k]);
        }
        lemma_keep_nonempty_items(p);
        let r = keep_nonempty(p);
        if s.last().len() > 0 {
            assert(s.last() == s[s.len() - 1]);
            assert forall|k: int| 0 <= k < r.push(s.last()).len() implies {
                let it = #[trigger] r.push(s.last())[k];
                &&& it.len() > 0
                &&& !crate::text::in_class(it[0], CharClass::QuoteOrSpace)
                &&& !crate::text::in_class(it.last(), CharClass::QuoteOrSpace)
            } by {
                if k < r.len() {
                    assert(r.push(s.last())[k] == r[k]);
                }
            }
        }
    }
}


// ---------------------------------------------------------------------------
// JavaScript `\uXXXX` escapes
// ---------------------------------------------------------------------------

/// Replacement of one escape match: the character it encodes, or the match
/// itself when the digits do not denote a Unicode scalar value.
pub open spec fn escape_replacement(caps: Seq<Option<Seq<char>>>) -> Seq<char> {
    match parse_radix(group(caps, 1), 16, 0xFFFF_FFFF) {
        Some(v) => if is_scalar(v as u32) {
            seq![(v as u32) as char]
        } else {
            group(caps, 0)
        },
        None => group(caps, 0),
    }
}

/// The pieces between matches with each match replaced, in order.
pub open spec fn interleave(
    pieces: Seq<Seq<char>>,
    caps: Seq<Seq<Option<Seq<char>>>>,
) -> Seq<char>
    decreases pieces.len(),
{
    if pieces.len() == 0 {
        Seq::<char>::empty()
    } else if pieces.len() == 1 {
        pieces[0]
    } else {
        let k = pieces.len() - 2;
        interleave(pieces.drop_last(), caps) + (if k < caps.len() {
            escape_replacement(caps[k])
        } else {
            Seq::<char>::empty()
        }) + pieces.last()
    }
}

/// Text with its `\uXXXX` escapes decoded; unchanged when it holds no `\u`.
pub open spec fn decoded_escapes(s: Seq<char>) -> Seq<char> {
    if !contains(s, "\\u"@) {
        s
    } else {
        interleave(
            regex_split(UNICODE_ESCAPE_PATTERN@, s),
            regex_captures_all(UNICODE_ESCAPE_PATTERN@, s),
        )
    }
}

fn escape_replacement_exec(caps: &Vec<Option<String>>) -> (r: Vec<char>)
    ensures
        r@ == escape_replacement(caps.deep_view()),
{
    let digits = group_exec(caps, 1);
    match parse_radix_exec(&digits, 16, 0xFFFF_FFFF) {
        Some(v) => {
            match char_from_u32(v as u32) {
                Some(c) => {
                    let mut out: Vec<char> = Vec::new();
                    out.push(c);
                    assert(out@ =~= seq![(v as u32) as char]);
                    out
                },
                None => group_exec(caps, 0),
            }
        },
        None => group_exec(caps, 0),
    }
}

pub fn decode_js_escapes_chars(s: &Vec<char>) -> (r: Vec<char>)
    ensures
        r@ == decoded_escapes(s@),
{
    if !contains_str(s, "\\u") {
        return s.clone();
    }
    let text = string_of(s);
    let pieces = split(UNICODE_ESCAPE_PATTERN, text.as_str());
    let caps = captures_all(UNICODE_ESCAPE_PATTERN, text.as_str());
    let ghost pv = pieces.deep_view();
    let ghost cv = caps.deep_view();
    let mut out: Vec<char> = Vec::new();
    let mut i: usize = 0;
    assert(pv.take(0) =~= Seq::<Seq<char>>::empty());
    while i < pieces.len()
        invariant
            i <= pieces.len(),
            pv == pieces.deep_view(),
            cv == caps.deep_view(),
            out@ == interleave(pv.take(i as int), cv),
        decreases pieces.len() - i,
    {
        assert(pv.take(i + 1).drop_last() =~= pv.take(i as int));
        assert(pv.take(i + 1).last() == pieces@[i as int]@);
        if i > 0 {
            let rep = if i - 1 < caps.len() {
                assert(cv[i - 1] == caps@[i - 1].deep_view());
                escape_replacement_exec(&caps[i - 1])
            } else {
                Vec::new()
            };
            push_all(&mut out, &rep);
        } else {
            assert(out@ =~= Seq::<char>::empty());
        }
        let piece = chars_of(pieces[i].as_str());
        push_all(&mut out, &piece);
        i = i + 1;
    }
    assert(pv.take(pieces.len() as int) =~= pv);
    out
}

/// Decodes JavaScript `\uXXXX` escapes (`'\u7f51\u6613'` → `网易`).
pub fn decode_js_escapes(s: &str) -> (r: String)
    ensures
        r@ == decoded_escapes(s@),
{
    let v = chars_of(s);
    let d = decode_js_escapes_chars(&v);
    string_of(&d)
}

// ---------------------------------------------------------------------------
// Script recognition
// ---------------------------------------------------------------------------

/// Kind of an obvious non-script document (HTML / XML / JSON), judged from
/// its first 512 bytes and, for JSON, from whether the whole text parses.
pub open spec fn document_kind_of(text: Seq<char>) -> Option<Seq<char>> {
    let head = trim_start_by(lowercase(text.take(head_len(text, 512) as int)), CharClass::Whitespace);
    if starts_with(head, "<!doctype"@) || starts_with(head, "<html"@) {
        Some("HTML 网页"@)
    } else if starts_with(head, "<?xml"@) {
        Some("XML 数据"@)
    } else if (starts_with(text, "{"@) || starts_with(text, "["@)) && json_text_valid(text) {
        Some("JSON 数据"@)
    } else {
        None
    }
}

pub fn document_kind(text: &Vec<char>) -> (r: Option<Vec<char>>)
    ensures
        opt_view(r) == document_kind_of(text@),
{
    let n = head_len_exec(text, 512);
    let head0 = slice_of(text, 0, n);
    assert(head0@ =~= text@.take(n as int));
    let lower = lower_chars(&head0);
    let head = trim_start_by_exec(&lower, CharClass::Whitespace);
    if starts_with_str(&head, "<!doctype") || starts_with_str(&head, "<html") {
        return Some(chars_of("HTML 网页"));
    }
    if starts_with_str(&head, "<?xml") {
        return Some(chars_of("XML 数据"));
    }
    if starts_with_str(text, "{") || starts_with_str(text, "[") {
        let whole = string_of(text);
        if json_text_is_valid(whole.as_str()) {
            return Some(chars_of("JSON 数据"));
        }
    }
    None
}

/// Signature of a server-pushed (packed) LX script.
pub open spec fn lx_server_signature(lower: Seq<char>) -> bool {
    contains(lower, "server_script_config"@) && contains(lower, "apiurl"@)
}

/// Whether the text shows any feature of a source script: a link-fetching
/// method name, an API path, a platform declaration, an API base constant,
/// the LX host object or a server-pushed configuration. Markers other than
/// the patterns are looked for in the lower-cased text.
pub open spec fn has_source_marker_of(text: Seq<char>) -> bool {
    let lower = lowercase(text);
    ||| contains(lower, "musicurl"@)
    ||| contains(lower, "getmusicurl"@)
    ||| contains(lower, "getplayurl"@)
    ||| contains(lower, "getaudiostream"@)
    ||| contains(lower, "songurl"@)
    ||| contains(lower, "playurl"@)
    ||| contains(lower, "geturl"@)
    ||| contains(lower, "url.php"@)
    ||| contains(lower, "lyric.php"@)
    ||| contains(lower, "pic.php"@)
    ||| contains(lower, "search.php"@)
    ||| contains(lower, "platforms.php"@)
    ||| regex_matches(PLATFORM_PATTERN@, text)
    ||| (contains(lower, "sources"@) && (contains(lower, "qualitys"@) || contains(
        lower,
        "qualities"@,
    )))
    ||| regex_matches(BASE_CONST_PATTERN@, text)
    ||| contains(lower, "globalthis.lx"@)
    ||| contains(lower, "globalthis[\"lx\"]"@)
    ||| contains(lower, "globalthis['lx']"@)
    ||| lx_server_signature(lower)
}

pub fn has_source_marker(text: &Vec<char>) -> (r: bool)
    ensures
        r == has_source_marker_of(text@),
{
    let lower = lower_chars(text);
    let t = string_of(text);
    contains_str(&lower, "musicurl") || contains_str(&lower, "getmusicurl") || contains_str(
        &lower,
        "getplayurl",
    ) || contains_str(&lower, "getaudiostream") || contains_str(&lower, "songurl")
        || contains_str(&lower, "playurl") || contains_str(&lower, "geturl") || contains_str(
        &lower,
        "url.php",
    ) || contains_str(&lower, "lyric.php") || contains_str(&lower, "pic.php") || contains_str(
        &lower,
        "search.php",
    ) || contains_str(&lower, "platforms.php") || is_match(PLATFORM_PATTERN, t.as_str()) || (
    contains_str(&lower, "sources") && (contains_str(&lower, "qualitys") || contains_str(
        &lower,
        "qualities",
    ))) || is_match(BASE_CONST_PATTERN, t.as_str()) || contains_str(&lower, "globalthis.lx")
        || contains_str(&lower, "globalthis[\"lx\"]") || contains_str(&lower, "globalthis['lx']")
        || has_lx_server_signature(&lower)
}

pub fn has_lx_server_signature(lower: &Vec<char>) -> (r: bool)
    ensures
        r == lx_server_signature(lower@),
{
    contains_str(lower, "server_script_config") && contains_str(lower, "apiurl")
}

// ---------------------------------------------------------------------------
// Contract extraction
// ---------------------------------------------------------------------------

/// Normalised capture group 1 of an optional match.
pub open spec fn candidate(caps: Option<Seq<Option<Seq<char>>>>) -> Option<Seq<char>> {
    match caps {
        Some(c) => normalized_base(group(c, 1)),
        None => None,
    }
}

/// The first match whose group 1 normalises to an API base.
pub open spec fn first_candidate(all: Seq<Seq<Option<Seq<char>>>>) -> Option<Seq<char>>
    decreases all.len(),
{
    if all.len() == 0 {
        None
    } else {
        let c = normalized_base(group(all[0], 1));
        if c is Some {
            c
        } else {
            first_candidate(all.drop_first())
        }
    }
}

/// API base of a script: an API base constant, else the `apiUrl` of a
/// server-pushed configuration, else the first quoted http(s) literal.
pub open spec fn extracted_base(text: Seq<char>) -> Option<Seq<char>> {
    let a = candidate(regex_captures(BASE_ASSIGN_PATTERN@, text));
    if a is Some {
        a
    } else {
        let b = candidate(regex_captures(API_URL_PATTERN@, text));
        if b is Some {
            b
        } else {
            first_candidate(regex_captures_all(URL_LITERAL_PATTERN@, text))
        }
    }
}

fn candidate_exec(caps: &Option<Vec<Option<String>>>) -> (r: Option<Vec<char>>)
    ensures
        opt_view(r) == candidate(caps.deep_view()),
{
    match caps {
        Some(c) => {
            let g = group_exec(c, 1);
            normalize_base_chars(&g)
        },
        None => None,
    }
}

pub fn extract_base(text: &Vec<char>) -> (r: Option<Vec<char>>)
    ensures
        opt_view(r) == extracted_base(text@),
{
    let t = string_of(text);
    let c1 = captures(BASE_ASSIGN_PATTERN, t.as_str());
    let a = candidate_exec(&c1);
    if a.is_some() {
        return a;
    }
    let c2 = captures(API_URL_PATTERN, t.as_str());
    let b = candidate_exec(&c2);
    if b.is_some() {
        return b;
    }
    let all = captures_all(URL_LITERAL_PATTERN, t.as_str());
    let ghost av = all.deep_view();
    let mut i: usize = 0;
    assert(av.skip(0) =~= av);
    while i < all.len()
        invariant
            i <= all.len(),
            av == all.deep_view(),
            extracted_base(text@) == first_candidate(av),
            first_candidate(av) == first_candidate(av.skip(i as int)),
        decreases all.len() - i,
    {
        assert(av.skip(i as int)[0] == all@[i as int].deep_view());
        let g = group_exec(&all[i], 1);
        let c = normalize_base_chars(&g);
        if c.is_some() {
            return c;
        }
        assert(av.skip(i as int).drop_first() =~= av.skip(i + 1));
        i = i + 1;
    }
    None
}

/// The `@name` metadata of a script header, trimmed, when not empty.
pub open spec fn script_name_of(text: Seq<char>) -> Option<Seq<char>> {
    match regex_captures(NAME_META_PATTERN@, text) {
        Some(c) => {
            let n = trim(group(c, 1));
            if n.len() > 0 {
                Some(n)
            } else {
                None
            }
        },
        None => None,
    }
}

pub fn extract_script_name(text: &Vec<char>) -> (r: Option<Vec<char>>)
    ensures
        opt_view(r) == script_name_of(text@),
{
    let t = string_of(text);
    match captures(NAME_META_PATTERN, t.as_str()) {
        Some(c) => {
            let g = group_exec(&c, 1);
            let n = trim_exec(&g);
            if n.len() > 0 {
                Some(n)
            } else {
                None
            }
        },
        None => None,
    }
}

/// Items of capture group 1 of an optional list match.
pub open spec fn list_of(caps: Option<Seq<Option<Seq<char>>>>, default: Seq<Seq<char>>) -> Seq<
    Seq<char>,
> {
    match caps {
        Some(c) => list_items(group(c, 1)),
        None => default,
    }
}

/// One platform declaration block (`code`, `body`) as a platform.
pub open spec fn platform_of(caps: Seq<Option<Seq<char>>>) -> PlatformView {
    let code = group(caps, 1);
    let body = group(caps, 2);
    let name = match regex_captures(NAME_FIELD_PATTERN@, body) {
        Some(c) => {
            let n = decoded_escapes(trim(group(c, 1)));
            if n.len() > 0 {
                n
            } else {
                platform_display_name(code)
            }
        },
        None => platform_display_name(code),
    };
    PlatformView {
        code: code,
        name: name,
        actions: list_of(regex_captures(ACTIONS_PATTERN@, body), seq!["musicUrl"@]),
        qualitys: list_of(regex_captures(QUALITIES_PATTERN@, body), Seq::empty()),
    }
}

/// Platforms declared in a script, in order of appearance.
pub open spec fn platforms_of(text: Seq<char>) -> Seq<PlatformView> {
    regex_captures_all(PLATFORM_PATTERN@, text).map_values(
        |c: Seq<Option<Seq<char>>>| platform_of(c),
    )
}

fn platform_from_caps(caps: &Vec<Option<String>>) -> (r: LxPlatform)
    ensures
        r@ == platform_of(caps.deep_view()),
{
    let code = group_exec(caps, 1);
    let body = group_exec(caps, 2);
    let body_s = string_of(&body);
    let name = match captures(NAME_FIELD_PATTERN, body_s.as_str()) {
        Some(c) => {
            let g = group_exec(&c, 1);
            let t = trim_exec(&g);
            let n = decode_js_escapes_chars(&t);
            if n.len() > 0 {
                n
            } else {
                platform_name(&code)
            }
        },
        None => platform_name(&code),
    };
    let actions = match captures(ACTIONS_PATTERN, body_s.as_str()) {
        Some(c) => {
            let g = group_exec(&c, 1);
            split_list_chars(&g)
        },
        None => {
            let mut v: Vec<String> = Vec::new();
            v.push("musicUrl".to_owned());
            assert(string_views(v@) =~= seq!["musicUrl"@]);
            v
        },
    };
    let qualitys = match captures(QUALITIES_PATTERN, body_s.as_str()) {
        Some(c) => {
            let g = group_exec(&c, 1);
            split_list_chars(&g)
        },
        None => {
            let v: Vec<String> = Vec::new();
            assert(string_views(v@) =~= Seq::<Seq<char>>::empty());
            v
        },
    };
    LxPlatform { code: string_of(&code), name: string_of(&name), actions, qualitys }
}

pub fn extract_platforms(text: &Vec<char>) -> (r: Vec<LxPlatform>)
    ensures
        platform_views(r@) == platforms_of(text@),
{
    let t = string_of(text);
    let all = captures_all(PLATFORM_PATTERN, t.as_str());
    let ghost av = all.deep_view();
    let mut out: Vec<LxPlatform> = Vec::new();
    let mut i: usize = 0;
    while i < all.len()
        invariant
            i <= all.len(),
            av == all.deep_view(),
            av == regex_captures_all(PLATFORM_PATTERN@, text@),
            platform_views(out@) == platforms_of(text@).take(i as int),
        decreases all.len() - i,
    {
        let p = platform_from_caps(&all[i]);
        let ghost before = platform_views(out@);
        out.push(p);
        assert(platform_views(out@) =~= platforms_of(text@).take(i + 1)) by {
            assert(platform_views(out@) =~= before.push(p@));
            assert(platforms_of(text@)[i as int] == platform_of(av[i as int]));
        }
        i = i + 1;
    }
    assert(platforms_of(text@).take(all.len() as int) =~= platforms_of(text@));
    out
}


// ---------------------------------------------------------------------------
// Script parsing
// ---------------------------------------------------------------------------

/// The contract extracted statically from a source script.
#[derive(Debug)]
pub struct ParsedScript {
    pub name: String,
    pub base_url: String,
    pub platforms: Vec<LxPlatform>,
    /// Link protocol: `""` = standard LX; `"v1"` = custom endpoint (given by
    /// the front end after it ran an obfuscated script).
    pub api_mode: String,
}

/// Mathematical model of a [`ParsedScript`].
pub struct ParsedView {
    pub name: Seq<char>,
    pub base_url: Seq<char>,
    pub platforms: Seq<PlatformView>,
    pub api_mode: Seq<char>,
}

impl View for ParsedScript {
    type V = ParsedView;

    open spec fn view(&self) -> ParsedView {
        ParsedView {
            name: self.name@,
            base_url: self.base_url@,
            platforms: platform_views(self.platforms@),
            api_mode: self.api_mode@,
        }
    }
}

pub const MSG_SCRIPT_EMPTY: &'static str = "脚本内容为空，请选择音源脚本文件或粘贴脚本内容";

pub const MSG_NOT_SCRIPT_PREFIX: &'static str = "文件内容是";

pub const MSG_NOT_SCRIPT_SUFFIX: &'static str =
    "，不是 JavaScript 音源脚本。请确认选择的是音源脚本文件（如 source.js）";

pub const MSG_NOT_SOURCE_SCRIPT: &'static str =
    "文件结构不像音源脚本：未发现取链方法（如 musicUrl）、音源接口路径（如 url.php）、平台声明（如 wy / tx / kg）或接口地址常量（如 API_BASE）。请确认选择的是音源脚本文件（如 source.js）";

pub const MSG_BAD_HINT_BASE: &'static str =
    "前端回填的接口基址格式无效，请确认脚本内包含正确的接口地址";

pub const MSG_NO_BASE: &'static str =
    "无法从脚本中解析出取链接口地址（API_BASE）。请确认脚本内包含接口基址（如 const API_BASE = 'https://…'）；含加密运算或私有协议的脚本暂不支持";

pub const SOURCE_NAME_SUFFIX: &'static str = " 音源";

pub open spec fn opt_str_view(o: Option<&str>) -> Option<Seq<char>> {
    match o {
        Some(s) => Some(s@),
        None => None,
    }
}

/// Display name of a script: its decoded `@name`, else `"{host} 音源"`.
pub open spec fn script_display_name(text: Seq<char>, base: Seq<char>) -> Seq<char> {
    let fallback = host_part(base) + SOURCE_NAME_SUFFIX@;
    match script_name_of(text) {
        Some(n) => {
            let d = decoded_escapes(n);
            if d.len() > 0 {
                d
            } else {
                fallback
            }
        },
        None => fallback,
    }
}

/// Whether a hint base is given and not blank.
pub open spec fn hint_given(hint_base: Option<Seq<char>>) -> bool {
    match hint_base {
        Some(b) => trim(b).len() > 0,
        None => false,
    }
}

/// The API base of a script: the front end's hint when one is given, else
/// the one extracted from the text.
pub open spec fn script_base(t: Seq<char>, hint_base: Option<Seq<char>>) -> Result<
    Seq<char>,
    Seq<char>,
> {
    if hint_given(hint_base) {
        match normalized_base(trim(hint_base->0)) {
            Some(b) => Ok(b),
            None => Err(MSG_BAD_HINT_BASE@),
        }
    } else {
        match extracted_base(t) {
            Some(b) => Ok(b),
            None => Err(MSG_NO_BASE@),
        }
    }
}

/// Outcome of parsing a script text: each check of the chain in turn
/// (non-empty, not a web / data document, looks like a source script, an API
/// base can be found), then the extracted contract.
pub open spec fn script_outcome(
    text: Seq<char>,
    hint_base: Option<Seq<char>>,
    hint_mode: Option<Seq<char>>,
) -> Result<ParsedView, Seq<char>> {
    let t = trim(text);
    if t.len() == 0 {
        Err(MSG_SCRIPT_EMPTY@)
    } else if document_kind_of(t) is Some {
        Err(MSG_NOT_SCRIPT_PREFIX@ + document_kind_of(t)->0 + MSG_NOT_SCRIPT_SUFFIX@)
    } else if !has_source_marker_of(t) {
        Err(MSG_NOT_SOURCE_SCRIPT@)
    } else {
        match script_base(t, hint_base) {
            Err(e) => Err(e),
            Ok(base) => Ok(
                ParsedView {
                    name: script_display_name(t, base),
                    base_url: base,
                    platforms: platforms_of(t),
                    api_mode: match hint_mode {
                        Some(m) => m,
                        None => Seq::<char>::empty(),
                    },
                },
            ),
        }
    }
}

/// Without hints, and with a blank base hint, a script parses as
/// [`parse_script`] parses it; a usable base hint is taken as the base
/// whatever the text holds (once the text passes the checks).
pub proof fn script_hints(text: Seq<char>, hint_base: Seq<char>, hint_mode: Option<Seq<char>>)
    ensures
        trim(hint_base).len() == 0 ==> script_outcome(text, Some(hint_base), hint_mode)
            == script_outcome(text, None, hint_mode),
        normalized_base(trim(hint_base)) matches Some(b) ==> (script_outcome(
            text,
            Some(hint_base),
            hint_mode,
        ) matches Ok(p) ==> p.base_url == b),
{
    if normalized_base(trim(hint_base)) is Some {
        assert(trim(hint_base).len() > 0) by {
            if trim(hint_base).len() == 0 {
                assert(trim(trim(hint_base)) =~= trim(hint_base)) by {
                    crate::text::lemma_first_match_bound(trim(hint_base), CharClass::Whitespace, false);
                }
            }
        }
    }
}

/// Importing is lenient: a script is refused only when it is empty, is
/// plainly another kind of document, does not look like a source script,
/// or has no API base to be found.
pub proof fn script_refusals(text: Seq<char>)
    ensures
        script_outcome(text, None, None) matches Err(e) ==> {
            ||| e == MSG_SCRIPT_EMPTY@
            ||| exists|kind: Seq<char>| e == MSG_NOT_SCRIPT_PREFIX@ + kind + MSG_NOT_SCRIPT_SUFFIX@
            ||| e == MSG_NOT_SOURCE_SCRIPT@
            ||| e == MSG_NO_BASE@
        },
{
    let t = trim(text);
    if t.len() > 0 && document_kind_of(t) is Some {
        let kind = document_kind_of(t)->0;
        assert(script_outcome(text, None, None) == Err::<ParsedView, Seq<char>>(
            MSG_NOT_SCRIPT_PREFIX@ + kind + MSG_NOT_SCRIPT_SUFFIX@,
        ));
    }
}

pub open spec fn parsed_result_view(r: Result<ParsedScript, String>) -> Result<ParsedView, Seq<char>> {
    match r {
        Ok(p) => Ok(p@),
        Err(e) => Err(e@),
    }
}

fn script_base_exec(t: &Vec<char>, hint_base: Option<&str>) -> (r: Result<Vec<char>, String>)
    ensures
        match r {
            Ok(b) => script_base(t@, opt_str_view(hint_base)) == Ok::<Seq<char>, Seq<char>>(b@),
            Err(e) => script_base(t@, opt_str_view(hint_base)) == Err::<Seq<char>, Seq<char>>(e@),
        },
{
    let hint = match hint_base {
        Some(b) => {
            let bv = chars_of(b);
            let tb = trim_exec(&bv);
            if tb.len() > 0 {
                Some(tb)
            } else {
                None
            }
        },
        None => None,
    };
    match hint {
        Some(tb) => match normalize_base_chars(&tb) {
            Some(u) => Ok(u),
            None => Err(MSG_BAD_HINT_BASE.to_owned()),
        },
        None => match extract_base(t) {
            Some(u) => Ok(u),
            None => Err(MSG_NO_BASE.to_owned()),
        },
    }
}

fn script_display_name_exec(t: &Vec<char>, base: &Vec<char>) -> (r: Vec<char>)
    ensures
        r@ == script_display_name(t@, base@),
{
    let mut fallback = host_of_chars(base);
    push_str(&mut fallback, SOURCE_NAME_SUFFIX);
    match extract_script_name(t) {
        Some(n) => {
            let d = decode_js_escapes_chars(&n);
            if d.len() > 0 {
                d
            } else {
                fallback
            }
        },
        None => fallback,
    }
}

/// Parses a source script with optional hints from the front end: a
/// `hint_base` that is not blank replaces the static base extraction, and
/// `hint_mode` becomes the link protocol. Without hints it behaves as
/// [`parse_script`].
pub fn parse_script_impl(text: &str, hint_base: Option<&str>, hint_mode: Option<&str>) -> (r:
    Result<ParsedScript, String>)
    ensures
        parsed_result_view(r) == script_outcome(text@, opt_str_view(hint_base), opt_str_view(hint_mode)),
{
    let raw = chars_of(text);
    let t = trim_exec(&raw);
    if t.len() == 0 {
        return Err(MSG_SCRIPT_EMPTY.to_owned());
    }
    match document_kind(&t) {
        Some(kind) => {
            let mut msg = chars_of(MSG_NOT_SCRIPT_PREFIX);
            push_all(&mut msg, &kind);
            push_str(&mut msg, MSG_NOT_SCRIPT_SUFFIX);
            return Err(string_of(&msg));
        },
        None => {},
    }
    if !has_source_marker(&t) {
        return Err(MSG_NOT_SOURCE_SCRIPT.to_owned());
    }
    let base = match script_base_exec(&t, hint_base) {
        Ok(b) => b,
        Err(e) => {
            return Err(e);
        },
    };
    let api_mode = match hint_mode {
        Some(m) => m.to_owned(),
        None => String::new(),
    };
    let name = script_display_name_exec(&t, &base);
    let platforms = extract_platforms(&t);
    Ok(ParsedScript { name: string_of(&name), base_url: string_of(&base), platforms, api_mode })
}

/// Parses a source script text into its contract (API base, name and
/// platform / quality declarations).
///
/// Checks in turn, each failure with an actionable message: the content is
/// not empty and is not a web page / JSON / XML document; it shows a feature
/// of a source script; an API base can be located.
pub fn parse_script(text: &str) -> (r: Result<ParsedScript, String>)
    ensures
        parsed_result_view(r) == script_outcome(text@, None, None),
{
    parse_script_impl(text, None, None)
}


// ---------------------------------------------------------------------------
// Percent-encoding of query values
// ---------------------------------------------------------------------------

/// Bytes left as they are: ASCII letters, digits and `-_.~`.
pub open spec fn unreserved(b: u8) -> bool {
    (65 <= b <= 90) || (97 <= b <= 122) || (48 <= b <= 57) || b == 45 || b == 95 || b == 46
        || b == 126
}

/// Upper-case hexadecimal digit.
pub open spec fn hex_digit(d: nat) -> char {
    if d < 10 {
        ((48 + d) as u8) as char
    } else {
        ((55 + d) as u8) as char
    }
}

/// Encoding of one byte: itself when unreserved, else `%XX`.
pub open spec fn encode_byte(b: u8) -> Seq<char> {
    if unreserved(b) {
        seq![b as char]
    } else {
        seq!['%', hex_digit((b / 16) as nat), hex_digit((b % 16) as nat)]
    }
}

pub open spec fn percent_encoded_bytes(bs: Seq<u8>) -> Seq<char>
    decreases bs.len(),
{
    if bs.len() == 0 {
        Seq::<char>::empty()
    } else {
        percent_encoded_bytes(bs.drop_last()) + encode_byte(bs.last())
    }
}

/// Percent-encoding of the UTF-8 bytes of a text.
pub open spec fn percent_encoded(s: Seq<char>) -> Seq<char> {
    percent_encoded_bytes(vstd::utf8::encode_utf8(s))
}

fn hex_digit_exec(d: u8) -> (r: char)
    requires
        d < 16,
    ensures
        r == hex_digit(d as nat),
{
    if d < 10 {
        (48u8 + d) as char
    } else {
        (55u8 + d) as char
    }
}

pub fn percent_encode_chars(s: &str) -> (r: Vec<char>)
    ensures
        r@ == percent_encoded(s@),
{
    let bytes = s.as_bytes();
    let mut out: Vec<char> = Vec::new();
    let mut i: usize = 0;
    assert(bytes@.take(0) =~= Seq::<u8>::empty());
    while i < bytes.len()
        invariant
            i <= bytes.len(),
            bytes@ == vstd::utf8::encode_utf8(s@),
            out@ == percent_encoded_bytes(bytes@.take(i as int)),
        decreases bytes.len() - i,
    {
        let b = bytes[i];
        assert(bytes@.take(i + 1).drop_last() =~= bytes@.take(i as int));
        assert(bytes@.take(i + 1).last() == b);
        let keep = (65 <= b && b <= 90) || (97 <= b && b <= 122) || (48 <= b && b <= 57) || b
            == 45 || b == 95 || b == 46 || b == 126;
        if keep {
            out.push(b as char);
        } else {
            let hi = hex_digit_exec(b / 16);
            let lo = hex_digit_exec(b % 16);
            out.push('%');
            out.push(hi);
            out.push(lo);
        }
        assert(out@ =~= percent_encoded_bytes(bytes@.take(i as int)) + encode_byte(b));
        i = i + 1;
    }
    assert(bytes@.take(bytes.len() as int) =~= bytes@);
    out
}

/// Minimal percent-encoding of a query value (the `extra` JSON text and
/// search keywords): UTF-8 bytes other than `A-Za-z0-9-_.~` become `%XX`.
pub fn percent_encode(s: &str) -> (r: String)
    ensures
        r@ == percent_encoded(s@),
{
    let v = percent_encode_chars(s);
    string_of(&v)
}

/// Value of a hexadecimal digit character.
pub open spec fn hex_value(c: char) -> Option<nat> {
    digit_value(c, 16)
}

/// Percent-decoding: `%XX` with two hex digits is one byte, any other
/// character stands for its own code (as a byte).
pub open spec fn percent_decoded(t: Seq<char>) -> Seq<u8>
    decreases t.len(),
{
    if t.len() == 0 {
        Seq::<u8>::empty()
    } else if t.len() >= 3 && t[0] == '%' && hex_value(t[1]) is Some && hex_value(t[2]) is Some {
        seq![(hex_value(t[1])->0 * 16 + hex_value(t[2])->0) as u8] + percent_decoded(t.skip(3))
    } else {
        seq![t[0] as u8] + percent_decoded(t.drop_first())
    }
}

proof fn lemma_encoded_prepend(b: u8, rest: Seq<u8>)
    ensures
        percent_encoded_bytes(seq![b] + rest) == encode_byte(b) + percent_encoded_bytes(rest),
    decreases rest.len(),
{
    if rest.len() == 0 {
        assert(seq![b] + rest =~= seq![b]);
        assert(seq![b].drop_last() =~= Seq::<u8>::empty());
        assert(percent_encoded_bytes(seq![b]) == percent_encoded_bytes(Seq::<u8>::empty())
            + encode_byte(b));
        assert(Seq::<char>::empty() + encode_byte(b) =~= encode_byte(b));
        assert(encode_byte(b) + Seq::<char>::empty() =~= encode_byte(b));
    } else {
        lemma_encoded_prepend(b, rest.drop_last());
        assert((seq![b] + rest).drop_last() =~= seq![b] + rest.drop_last());
        assert((seq![b] + rest).last() == rest.last());
        assert(encode_byte(b) + percent_encoded_bytes(rest.drop_last()) + encode_byte(rest.last())
            =~= encode_byte(b) + (percent_encoded_bytes(rest.drop_last()) + encode_byte(
            rest.last(),
        )));
    }
}

proof fn lemma_hex_digit_value(d: nat)
    requires
        d < 16,
    ensures
        hex_value(hex_digit(d)) == Some(d),
{
}

proof fn lemma_decode_byte(b: u8, rest: Seq<char>)
    ensures
        percent_decoded(encode_byte(b) + rest) == seq![b] + percent_decoded(rest),
{
    let e = encode_byte(b);
    let t = e + rest;
    if unreserved(b) {
        assert(t[0] == b as char);
        assert((b as char) as u8 == b);
        assert(t.drop_first() =~= rest);
        assert(t[0] != '%');
    } else {
        let hi = (b / 16) as nat;
        let lo = (b % 16) as nat;
        lemma_hex_digit_value(hi);
        lemma_hex_digit_value(lo);
        assert(t[0] == '%');
        assert(t[1] == hex_digit(hi));
        assert(t[2] == hex_digit(lo));
        assert(t.skip(3) =~= rest);
        assert((hi * 16 + lo) as u8 == b);
    }
}

/// Decoding an encoded value gives back its bytes: the encoding loses
/// nothing, so the server reads exactly the text that was sent.
pub proof fn percent_encode_roundtrip(bs: Seq<u8>)
    ensures
        percent_decoded(percent_encoded_bytes(bs)) == bs,
    decreases bs.len(),
{
    if bs.len() > 0 {
        let rest = bs.drop_first();
        assert(seq![bs[0]] + rest =~= bs);
        lemma_encoded_prepend(bs[0], rest);
        percent_encode_roundtrip(rest);
        lemma_decode_byte(bs[0], percent_encoded_bytes(rest));
    }
}

/// Every character of an encoded value is unreserved, `%` or an
/// upper-case hex digit.
pub proof fn percent_encoded_charset(bs: Seq<u8>)
    ensures
        forall|k: int|
            0 <= k < percent_encoded_bytes(bs).len() ==> {
                let c = #[trigger] percent_encoded_bytes(bs)[k];
                c == '%' || ('0' <= c <= '9') || ('A' <= c <= 'Z') || ('a' <= c <= 'z') || c == '-'
                    || c == '_' || c == '.' || c == '~'
            },
    decreases bs.len(),
{
    if bs.len() > 0 {
        percent_encoded_charset(bs.drop_last());
        let p = percent_encoded_bytes(bs.drop_last());
        let e = encode_byte(bs.last());
        assert forall|k: int| 0 <= k < (p + e).len() implies {
            let c = #[trigger] (p + e)[k];
            c == '%' || ('0' <= c <= '9') || ('A' <= c <= 'Z') || ('a' <= c <= 'z') || c == '-'
                || c == '_' || c == '.' || c == '~'
        } by {
            if k >= p.len() {
                let b = bs.last();
                if unreserved(b) {
                    assert(e[k - p.len()] == b as char);
                }
            } else {
                assert((p + e)[k] == p[k]);
            }
        }
    }
}


// ---------------------------------------------------------------------------
// Requests to an LX API (lx-online-api protocol)
// ---------------------------------------------------------------------------

/// An HTTP request to make.
pub enum LxRequest {
    /// `GET url`, the reply a JSON document.
    Get(String),
    /// `POST url` with a JSON object of string fields, the reply a JSON
    /// document.
    PostJson { url: String, fields: Vec<(String, String)> },
}

/// Mathematical model of an [`LxRequest`].
pub enum RequestView {
    Get(Seq<char>),
    PostJson(Seq<char>, Seq<(Seq<char>, Seq<char>)>),
}

pub open spec fn request_view(r: LxRequest) -> RequestView {
    match r {
        LxRequest::Get(u) => RequestView::Get(u@),
        LxRequest::PostJson { url, fields } => RequestView::PostJson(
            url@,
            fields@.map_values(|f: (String, String)| (f.0@, f.1@)),
        ),
    }
}

pub const MSG_BAD_SONG_ID_LINK: &'static str = "歌曲 ID 无效，无法取链";

pub const MSG_BAD_SONG_ID_LYRIC: &'static str = "歌曲 ID 无效，无法获取歌词";

/// Whether a song id is unusable (empty or `0`).
pub open spec fn bad_song_id(id: Seq<char>) -> bool {
    id.len() == 0 || id == "0"@
}

/// The request for a song's audio link: `v1` sources take
/// `POST {base}/v1/music/resolve-url` with `{rid, level, source}`, the
/// others `GET {base}/url.php?source=&id=&quality=[&extra=]` with the
/// percent-encoded `extra` when it is not empty.
pub open spec fn music_url_request(
    base: Seq<char>,
    source: Seq<char>,
    id: Seq<char>,
    quality: Seq<char>,
    extra: Option<Seq<char>>,
    api_mode: Seq<char>,
) -> Result<RequestView, Seq<char>> {
    if bad_song_id(id) {
        Err(MSG_BAD_SONG_ID_LINK@)
    } else if api_mode == "v1"@ {
        Ok(
            RequestView::PostJson(
                base + "/v1/music/resolve-url"@,
                seq![("rid"@, id), ("level"@, quality), ("source"@, source)],
            ),
        )
    } else {
        let url = base + "/url.php?source="@ + source + "&id="@ + id + "&quality="@ + quality;
        Ok(
            RequestView::Get(
                match extra {
                    Some(ex) => if ex.len() > 0 {
                        url + "&extra="@ + percent_encoded(ex)
                    } else {
                        url
                    },
                    None => url,
                },
            ),
        )
    }
}

pub open spec fn request_result_view(r: Result<LxRequest, String>) -> Result<RequestView, Seq<char>> {
    match r {
        Ok(q) => Ok(request_view(q)),
        Err(e) => Err(e@),
    }
}

fn is_bad_song_id(id: &str) -> (r: bool)
    ensures
        r == bad_song_id(id@),
{
    let v = chars_of(id);
    v.len() == 0 || eq_str(&v, "0")
}

/// Request for a song's audio link (see [`music_url_request`]); an error
/// for an unusable id. The reply is read by [`music_url_link`].
pub fn music_url(
    base: &str,
    source: &str,
    id: &str,
    quality: &str,
    extra: Option<&str>,
    api_mode: &str,
) -> (r: Result<LxRequest, String>)
    ensures
        request_result_view(r) == music_url_request(
            base@,
            source@,
            id@,
            quality@,
            opt_str_view(extra),
            api_mode@,
        ),
{
    if is_bad_song_id(id) {
        return Err(MSG_BAD_SONG_ID_LINK.to_owned());
    }
    let mode = chars_of(api_mode);
    if eq_str(&mode, "v1") {
        let mut url = chars_of(base);
        push_str(&mut url, "/v1/music/resolve-url");
        let mut fields: Vec<(String, String)> = Vec::new();
        fields.push(("rid".to_owned(), id.to_owned()));
        fields.push(("level".to_owned(), quality.to_owned()));
        fields.push(("source".to_owned(), source.to_owned()));
        let r = LxRequest::PostJson { url: string_of(&url), fields };
        assert(request_view(r) == RequestView::PostJson(
            base@ + "/v1/music/resolve-url"@,
            seq![("rid"@, id@), ("level"@, quality@), ("source"@, source@)],
        )) by {
            if let LxRequest::PostJson { url: u, fields: f } = r {
                assert(f@.map_values(|f: (String, String)| (f.0@, f.1@)) =~= seq![
                    ("rid"@, id@),
                    ("level"@, quality@),
                    ("source"@, source@),
                ]);
            }
        }
        return Ok(r);
    }
    let mut url = chars_of(base);
    push_str(&mut url, "/url.php?source=");
    push_str(&mut url, source);
    push_str(&mut url, "&id=");
    push_str(&mut url, id);
    push_str(&mut url, "&quality=");
    push_str(&mut url, quality);
    match extra {
        Some(ex) => {
            if !ex.is_empty() {
                push_str(&mut url, "&extra=");
                let enc = percent_encode_chars(ex);
                push_all(&mut url, &enc);
            }
        },
        None => {},
    }
    Ok(LxRequest::Get(string_of(&url)))
}

/// Request for a song's lyrics: `GET {base}/lyric.php?source=&id=`; an
/// error for an unusable id. The reply is read by [`lyric_text`].
pub fn lyric(base: &str, source: &str, id: &str) -> (r: Result<String, String>)
    ensures
        match r {
            Ok(u) => !bad_song_id(id@) && u@ == base@ + "/lyric.php?source="@ + source@ + "&id="@
                + id@,
            Err(e) => bad_song_id(id@) && e@ == MSG_BAD_SONG_ID_LYRIC@,
        },
        r is Ok <==> !(id@.len() == 0 || (id@.len() == 1 && id@[0] == '0')),
{
    proof {
        reveal_strlit("0");
        if id@.len() == 1 && id@[0] == '0' {
            assert(id@ =~= "0"@);
        }
    }
    if is_bad_song_id(id) {
        return Err(MSG_BAD_SONG_ID_LYRIC.to_owned());
    }
    let mut url = chars_of(base);
    push_str(&mut url, "/lyric.php?source=");
    push_str(&mut url, source);
    push_str(&mut url, "&id=");
    push_str(&mut url, id);
    Ok(string_of(&url))
}

/// The search URL: `{base}/search.php?source=&keyword=&limit=&page=1`
/// with the percent-encoded keyword.
pub open spec fn search_url(base: Seq<char>, source: Seq<char>, keyword: Seq<char>, limit: i64) -> Seq<char> {
    base + "/search.php?source="@ + source + "&keyword="@ + percent_encoded(keyword) + "&limit="@
        + decimal_int(limit as int) + "&page=1"@
}

/// Request for a search: `GET` of [`search_url`]. The reply is read by
/// [`search_results`].
pub fn search_songs(base: &str, source: &str, keyword: &str, limit: i64) -> (r: String)
    ensures
        r@ == search_url(base@, source@, keyword@, limit),
{
    let mut url = chars_of(base);
    push_str(&mut url, "/search.php?source=");
    push_str(&mut url, source);
    push_str(&mut url, "&keyword=");
    push_all(&mut url, &percent_encode_chars(keyword));
    push_str(&mut url, "&limit=");
    push_all(&mut url, &i64_to_chars(limit));
    push_str(&mut url, "&page=1");
    string_of(&url)
}

// ---------------------------------------------------------------------------
// Replies of an LX API
// ---------------------------------------------------------------------------

pub const MSG_FAILED: &'static str = "失败: ";

pub const MSG_UNKNOWN_ERROR: &'static str = "未知错误";

pub const MSG_NO_DATA: &'static str = "失败: 响应缺少 data 字段";

/// The LX envelope `{code: 0, data: …}`: its `data` on success; otherwise
/// `"{what}失败: {msg}"` (`msg` defaulting to 未知错误), or a message that
/// `data` is missing.
pub open spec fn envelope_data(v: JsonValue, what: Seq<char>) -> Result<JsonValue, Seq<char>> {
    let code = match jget(v, "code"@) {
        Some(c) => match ji64(c) {
            Some(x) => x as int,
            None => -1,
        },
        None => -1,
    };
    if code != 0 {
        Err(
            what + MSG_FAILED@ + match get_str(v, "msg"@) {
                Some(m) => m,
                None => MSG_UNKNOWN_ERROR@,
            },
        )
    } else {
        match jget(v, "data"@) {
            Some(d) => Ok(d),
            None => Err(what + MSG_NO_DATA@),
        }
    }
}

pub fn unwrap_lx_envelope<'a>(v: &'a JsonValue, what: &str) -> (r: Result<&'a JsonValue, String>)
    ensures
        match r {
            Ok(d) => envelope_data(*v, what@) == Ok::<JsonValue, Seq<char>>(*d),
            Err(e) => envelope_data(*v, what@) == Err::<JsonValue, Seq<char>>(e@),
        },
{
    let code: i64 = match json_get(v, "code") {
        Some(c) => match json_i64(c) {
            Some(x) => x,
            None => -1,
        },
        None => -1,
    };
    if code != 0 {
        let mut msg = chars_of(what);
        push_str(&mut msg, MSG_FAILED);
        match get_str_exec(v, "msg") {
            Some(m) => push_all(&mut msg, &m),
            None => push_str(&mut msg, MSG_UNKNOWN_ERROR),
        }
        return Err(string_of(&msg));
    }
    match json_get(v, "data") {
        Some(d) => Ok(d),
        None => {
            let mut msg = chars_of(what);
            push_str(&mut msg, MSG_NO_DATA);
            Err(string_of(&msg))
        },
    }
}

pub const MSG_BAD_LINK: &'static str = "取链失败: 接口返回的直链无效";

/// The audio link of a link reply: `data.url`, which must be http(s).
pub open spec fn link_outcome(reply: JsonValue) -> Result<Seq<char>, Seq<char>> {
    match envelope_data(reply, "取链"@) {
        Err(e) => Err(e),
        Ok(data) => {
            let link = str_or_empty(get_str(data, "url"@));
            if !starts_with(link, "http://"@) && !starts_with(link, "https://"@) {
                Err(MSG_BAD_LINK@)
            } else {
                Ok(link)
            }
        },
    }
}

pub open spec fn string_result_view(r: Result<String, String>) -> Result<Seq<char>, Seq<char>> {
    match r {
        Ok(s) => Ok(s@),
        Err(e) => Err(e@),
    }
}

/// Reads the reply of a link request (either protocol).
pub fn music_url_link(reply: &JsonValue) -> (r: Result<String, String>)
    ensures
        string_result_view(r) == link_outcome(*reply),
{
    let data = match unwrap_lx_envelope(reply, "取链") {
        Ok(d) => d,
        Err(e) => {
            return Err(e);
        },
    };
    let link = get_str_or_empty(data, "url");
    if !starts_with_str(&link, "http://") && !starts_with_str(&link, "https://") {
        return Err(MSG_BAD_LINK.to_owned());
    }
    Ok(string_of(&link))
}

pub const MSG_NO_LYRIC: &'static str = "该音源未返回歌词";

/// The lyrics of a lyric reply: `data.lyric` trimmed, else `data.tlyric`
/// (translation) trimmed, else an error.
pub open spec fn lyric_outcome(reply: JsonValue) -> Result<Seq<char>, Seq<char>> {
    match envelope_data(reply, "歌词"@) {
        Err(e) => Err(e),
        Ok(data) => {
            let l = trim(str_or_empty(get_str(data, "lyric"@)));
            let t = trim(str_or_empty(get_str(data, "tlyric"@)));
            if l.len() > 0 {
                Ok(l)
            } else if t.len() > 0 {
                Ok(t)
            } else {
                Err(MSG_NO_LYRIC@)
            }
        },
    }
}

/// Reads the reply of a lyric request.
pub fn lyric_text(reply: &JsonValue) -> (r: Result<String, String>)
    ensures
        string_result_view(r) == lyric_outcome(*reply),
{
    let data = match unwrap_lx_envelope(reply, "歌词") {
        Ok(d) => d,
        Err(e) => {
            return Err(e);
        },
    };
    let l = trim_exec(&get_str_or_empty(data, "lyric"));
    if l.len() > 0 {
        return Ok(string_of(&l));
    }
    let t = trim_exec(&get_str_or_empty(data, "tlyric"));
    if t.len() > 0 {
        return Ok(string_of(&t));
    }
    Err(MSG_NO_LYRIC.to_owned())
}


// ---------------------------------------------------------------------------
// Search results (field names vary between deployments)
// ---------------------------------------------------------------------------

pub open spec fn key_views(keys: Seq<&str>) -> Seq<Seq<char>> {
    keys.map_values(|k: &str| k@)
}

/// The first of `keys` present with a non-blank string (trimmed) or a
/// number (its text); other values are skipped.
pub open spec fn first_str_of(v: JsonValue, keys: Seq<Seq<char>>) -> Option<Seq<char>>
    decreases keys.len(),
{
    if keys.len() == 0 {
        None
    } else {
        match jget(v, keys[0]) {
            Some(JsonValue::String(s)) => if trim(s@).len() > 0 {
                Some(trim(s@))
            } else {
                first_str_of(v, keys.drop_first())
            },
            Some(JsonValue::Number(n)) => Some(n.text_view()),
            _ => first_str_of(v, keys.drop_first()),
        }
    }
}

pub fn first_str(v: &JsonValue, keys: &[&str]) -> (r: Option<Vec<char>>)
    ensures
        opt_view(r) == first_str_of(*v, key_views(keys@)),
{
    let ghost kv = key_views(keys@);
    let mut i: usize = 0;
    assert(kv.skip(0) =~= kv);
    while i < keys.len()
        invariant
            i <= keys.len(),
            kv == key_views(keys@),
            first_str_of(*v, kv) == first_str_of(*v, kv.skip(i as int)),
        decreases keys.len() - i,
    {
        let ghost rest = kv.skip(i as int);
        assert(rest[0] == keys@[i as int]@);
        assert(rest.drop_first() =~= kv.skip(i + 1));
        match json_get(v, keys[i]) {
            Some(JsonValue::String(s)) => {
                let t = trim_exec(&chars_of(s.as_str()));
                if t.len() > 0 {
                    return Some(t);
                }
            },
            Some(JsonValue::Number(n)) => {
                return Some(chars_of(n.text()));
            },
            _ => {},
        }
        i = i + 1;
    }
    None
}

pub open spec fn opt_or_empty(o: Option<Seq<char>>) -> Seq<char> {
    match o {
        Some(s) => s,
        None => Seq::<char>::empty(),
    }
}

fn opt_or_empty_exec(o: Option<Vec<char>>) -> (r: Vec<char>)
    ensures
        r@ == opt_or_empty(opt_view(o)),
{
    match o {
        Some(v) => v,
        None => Vec::new(),
    }
}

/// Name of one entry of an artist list: a string (trimmed) or an object's
/// `name` / `title` / `singer`.
pub open spec fn artist_entry(e: JsonValue) -> Option<Seq<char>> {
    match e {
        JsonValue::String(s) => Some(trim(s@)),
        JsonValue::Object(_) => first_str_of(e, seq!["name"@, "title"@, "singer"@]),
        _ => None,
    }
}

/// The non-empty artist names of a list, in order.
pub open spec fn artist_names(a: Seq<JsonValue>) -> Seq<Seq<char>>
    decreases a.len(),
{
    if a.len() == 0 {
        Seq::empty()
    } else {
        let r = artist_names(a.drop_last());
        match artist_entry(a.last()) {
            Some(n) => if n.len() > 0 {
                r.push(n)
            } else {
                r
            },
            None => r,
        }
    }
}

/// `names.join(sep)`.
pub open spec fn joined(names: Seq<Seq<char>>, sep: Seq<char>) -> Seq<char>
    decreases names.len(),
{
    if names.len() == 0 {
        Seq::empty()
    } else if names.len() == 1 {
        names[0]
    } else {
        joined(names.drop_last(), sep) + sep + names.last()
    }
}

/// Artist of a song: the first of `artist` / `artists` / `singer` /
/// `singers` / `author` / `authors` that is a string (trimmed) or a list
/// with names (joined by ` / `); empty otherwise.
pub open spec fn artists_from(v: JsonValue, keys: Seq<Seq<char>>) -> Seq<char>
    decreases keys.len(),
{
    if keys.len() == 0 {
        Seq::empty()
    } else {
        match jget(v, keys[0]) {
            Some(JsonValue::String(s)) => trim(s@),
            Some(JsonValue::Array(a)) => if artist_names(a@).len() > 0 {
                joined(artist_names(a@), " / "@)
            } else {
                artists_from(v, keys.drop_first())
            },
            _ => artists_from(v, keys.drop_first()),
        }
    }
}

pub open spec fn artist_keys() -> Seq<Seq<char>> {
    seq!["artist"@, "artists"@, "singer"@, "singers"@, "author"@, "authors"@]
}

pub open spec fn artist_of(v: JsonValue) -> Seq<char> {
    artists_from(v, artist_keys())
}

fn artist_names_exec(a: &Vec<JsonValue>) -> (r: Vec<Vec<char>>)
    ensures
        views(r@) == artist_names(a@),
{
    let mut out: Vec<Vec<char>> = Vec::new();
    let mut i: usize = 0;
    assert(a@.take(0) =~= Seq::<JsonValue>::empty());
    while i < a.len()
        invariant
            i <= a.len(),
            views(out@) == artist_names(a@.take(i as int)),
        decreases a.len() - i,
    {
        assert(a@.take(i + 1).drop_last() =~= a@.take(i as int));
        assert(a@.take(i + 1).last() == a@[i as int]);
        let name: Option<Vec<char>> = match &a[i] {
            JsonValue::String(s) => Some(trim_exec(&chars_of(s.as_str()))),
            JsonValue::Object(_) => first_str(&a[i], &["name", "title", "singer"]),
            _ => None,
        };
        proof {
            let keys: Seq<&str> = seq!["name", "title", "singer"];
            assert(key_views(keys) =~= seq!["name"@, "title"@, "singer"@]);
        }
        match name {
            Some(n) => {
                if n.len() > 0 {
                    let ghost before = views(out@);
                    out.push(n);
                    assert(views(out@) =~= before.push(out@[out@.len() - 1]@));
                }
            },
            None => {},
        }
        i = i + 1;
    }
    assert(a@.take(a.len() as int) =~= a@);
    out
}

fn join_exec(names: &Vec<Vec<char>>, sep: &str) -> (r: Vec<char>)
    ensures
        r@ == joined(views(names@), sep@),
{
    let mut out: Vec<char> = Vec::new();
    let mut i: usize = 0;
    assert(views(names@).take(0) =~= Seq::<Seq<char>>::empty());
    while i < names.len()
        invariant
            i <= names.len(),
            out@ == joined(views(names@).take(i as int), sep@),
        decreases names.len() - i,
    {
        let ghost nv = views(names@);
        assert(nv.take(i + 1).drop_last() =~= nv.take(i as int));
        assert(nv.take(i + 1).last() == names@[i as int]@);
        if i > 0 {
            push_str(&mut out, sep);
        } else {
            assert(out@ =~= Seq::<char>::empty());
        }
        push_all(&mut out, &names[i]);
        if i == 0 {
            assert(nv.take(1)[0] == names@[0]@);
            assert(out@ =~= names@[0]@);
        }
        i = i + 1;
    }
    assert(views(names@).take(names.len() as int) =~= views(names@));
    out
}

pub fn artists_str(v: &JsonValue) -> (r: Vec<char>)
    ensures
        r@ == artist_of(*v),
{
    let keys: [&str; 6] = ["artist", "artists", "singer", "singers", "author", "authors"];
    let ghost kv = artist_keys();
    assert(key_views(keys@) =~= kv);
    let mut i: usize = 0;
    assert(kv.skip(0) =~= kv);
    while i < 6
        invariant
            i <= 6,
            kv == key_views(keys@),
            kv.len() == 6,
            artist_of(*v) == artists_from(*v, kv.skip(i as int)),
        decreases 6 - i,
    {
        let ghost rest = kv.skip(i as int);
        assert(rest[0] == keys@[i as int]@);
        assert(rest.drop_first() =~= kv.skip(i + 1));
        match json_get(v, keys[i]) {
            Some(JsonValue::String(s)) => {
                return trim_exec(&chars_of(s.as_str()));
            },
            Some(JsonValue::Array(a)) => {
                let names = artist_names_exec(a);
                if names.len() > 0 {
                    return join_exec(&names, " / ");
                }
            },
            _ => {},
        }
        i = i + 1;
    }
    assert(kv.skip(6) =~= Seq::<Seq<char>>::empty());
    Vec::new()
}

/// Album of a song: the first of `album` / `albumName` / `albumname` /
/// `album_title` / `albumTitle` that is a string (trimmed) or an object
/// with a `name` / `title`; empty otherwise.
pub open spec fn album_from(v: JsonValue, keys: Seq<Seq<char>>) -> Seq<char>
    decreases keys.len(),
{
    if keys.len() == 0 {
        Seq::empty()
    } else {
        match jget(v, keys[0]) {
            Some(JsonValue::String(s)) => trim(s@),
            Some(JsonValue::Object(m)) => match first_str_of(
                JsonValue::Object(m),
                seq!["name"@, "title"@],
            ) {
                Some(n) => n,
                None => album_from(v, keys.drop_first()),
            },
            _ => album_from(v, keys.drop_first()),
        }
    }
}

pub open spec fn album_keys() -> Seq<Seq<char>> {
    seq!["album"@, "albumName"@, "albumname"@, "album_title"@, "albumTitle"@]
}

pub open spec fn album_of(v: JsonValue) -> Seq<char> {
    album_from(v, album_keys())
}

pub fn album_str(v: &JsonValue) -> (r: Vec<char>)
    ensures
        r@ == album_of(*v),
{
    let keys: [&str; 5] = ["album", "albumName", "albumname", "album_title", "albumTitle"];
    let ghost kv = album_keys();
    assert(key_views(keys@) =~= kv);
    let mut i: usize = 0;
    assert(kv.skip(0) =~= kv);
    proof {
        let nk: Seq<&str> = seq!["name", "title"];
        assert(key_views(nk) =~= seq!["name"@, "title"@]);
    }
    while i < 5
        invariant
            i <= 5,
            kv == key_views(keys@),
            kv.len() == 5,
            key_views(seq!["name", "title"]) == seq!["name"@, "title"@],
            album_of(*v) == album_from(*v, kv.skip(i as int)),
        decreases 5 - i,
    {
        let ghost rest = kv.skip(i as int);
        assert(rest[0] == keys@[i as int]@);
        assert(rest.drop_first() =~= kv.skip(i + 1));
        match json_get(v, keys[i]) {
            Some(JsonValue::String(s)) => {
                return trim_exec(&chars_of(s.as_str()));
            },
            Some(x) => {
                match x {
                    JsonValue::Object(_) => {
                        match first_str(x, &["name", "title"]) {
                            Some(n) => {
                                return n;
                            },
                            None => {},
                        }
                    },
                    _ => {},
                }
            },
            _ => {},
        }
        i = i + 1;
    }
    assert(kv.skip(5) =~= Seq::<Seq<char>>::empty());
    Vec::new()
}

/// `a.get(k1).or_else(|| a.get(k2))`.
pub open spec fn jget_either(v: JsonValue, k1: Seq<char>, k2: Seq<char>) -> Option<JsonValue> {
    match jget(v, k1) {
        Some(x) => Some(x),
        None => jget(v, k2),
    }
}

pub open spec fn opt_u64(o: Option<JsonValue>) -> Option<u64> {
    match o {
        Some(x) => ju64(x),
        None => None,
    }
}

/// Duration in milliseconds: `durationMs` / `duration_ms` as given, else
/// `duration` / `interval` / `time`, read as seconds when under 1000 and
/// as milliseconds otherwise; 0 when absent.
pub open spec fn duration_of(v: JsonValue) -> u64 {
    match opt_u64(jget_either(v, "durationMs"@, "duration_ms"@)) {
        Some(ms) => ms,
        None => {
            let secs = match jget(v, "duration"@) {
                Some(x) => Some(x),
                None => jget_either(v, "interval"@, "time"@),
            };
            match opt_u64(secs) {
                Some(n) => if n < 1000 {
                    (n * 1000) as u64
                } else {
                    n
                },
                None => 0,
            }
        },
    }
}

fn get_either<'a>(v: &'a JsonValue, k1: &str, k2: &str) -> (r: Option<&'a JsonValue>)
    ensures
        match r {
            Some(x) => jget_either(*v, k1@, k2@) == Some(*x),
            None => jget_either(*v, k1@, k2@) is None,
        },
{
    match json_get(v, k1) {
        Some(x) => Some(x),
        None => json_get(v, k2),
    }
}

pub fn duration_ms_of(v: &JsonValue) -> (r: u64)
    ensures
        r == duration_of(*v),
{
    let ms = match get_either(v, "durationMs", "duration_ms") {
        Some(x) => json_u64(x),
        None => None,
    };
    match ms {
        Some(m) => m,
        None => {
            let secs = match json_get(v, "duration") {
                Some(x) => Some(x),
                None => get_either(v, "interval", "time"),
            };
            let n = match secs {
                Some(x) => json_u64(x),
                None => None,
            };
            match n {
                Some(n) => if n < 1000 {
                    n * 1000
                } else {
                    n
                },
                None => 0,
            }
        },
    }
}

pub open spec fn id_keys() -> Seq<Seq<char>> {
    seq!["id"@, "songmid"@, "songId"@, "mid"@, "hash"@, "rid"@]
}

pub open spec fn title_keys() -> Seq<Seq<char>> {
    seq!["name"@, "songname"@, "songName"@, "title"@]
}

pub open spec fn extra_keys() -> Seq<Seq<char>> {
    seq!["hash"@, "media_mid"@, "mediaMid"@, "strMediaMid"@]
}

/// One search entry as a song (platform left empty).
pub open spec fn song_of(v: JsonValue) -> SongView {
    SongView {
        id: opt_or_empty(first_str_of(v, id_keys())),
        title: opt_or_empty(first_str_of(v, title_keys())),
        artist: artist_of(v),
        album: album_of(v),
        duration_ms: duration_of(v),
        platform: Seq::empty(),
        extra: opt_or_empty(first_str_of(v, extra_keys())),
    }
}

/// Reads one search entry into a song, accepting the field aliases of the
/// known deployments.
pub fn parse_song(v: &JsonValue) -> (r: LxSearchSong)
    ensures
        r@ == song_of(*v),
{
    proof {
        let a: Seq<&str> = seq!["id", "songmid", "songId", "mid", "hash", "rid"];
        let b: Seq<&str> = seq!["name", "songname", "songName", "title"];
        let c: Seq<&str> = seq!["hash", "media_mid", "mediaMid", "strMediaMid"];
        assert(key_views(a) =~= id_keys());
        assert(key_views(b) =~= title_keys());
        assert(key_views(c) =~= extra_keys());
    }
    let id = opt_or_empty_exec(first_str(v, &["id", "songmid", "songId", "mid", "hash", "rid"]));
    let title = opt_or_empty_exec(first_str(v, &["name", "songname", "songName", "title"]));
    let extra = opt_or_empty_exec(
        first_str(v, &["hash", "media_mid", "mediaMid", "strMediaMid"]),
    );
    LxSearchSong {
        id: string_of(&id),
        title: string_of(&title),
        artist: string_of(&artists_str(v)),
        album: string_of(&album_str(v)),
        duration_ms: duration_ms_of(v),
        platform: String::new(),
        extra: string_of(&extra),
    }
}

/// The entries of a search reply's data: `list`, else `songs`, else
/// `data`, else the data itself when it is an array.
pub open spec fn result_entries(data: JsonValue) -> Seq<JsonValue> {
    match get_arr(data, "list"@) {
        Some(a) => a,
        None => match get_arr(data, "songs"@) {
            Some(a) => a,
            None => match get_arr(data, "data"@) {
                Some(a) => a,
                None => match jarr(data) {
                    Some(a) => a,
                    None => Seq::empty(),
                },
            },
        },
    }
}

/// The songs of a list of entries that have both an id and a title.
pub open spec fn usable_songs(entries: Seq<JsonValue>) -> Seq<SongView>
    decreases entries.len(),
{
    if entries.len() == 0 {
        Seq::empty()
    } else {
        let r = usable_songs(entries.drop_last());
        let s = song_of(entries.last());
        if s.id.len() > 0 && s.title.len() > 0 {
            r.push(s)
        } else {
            r
        }
    }
}

pub open spec fn search_outcome(reply: JsonValue) -> Result<Seq<SongView>, Seq<char>> {
    match envelope_data(reply, "搜索"@) {
        Err(e) => Err(e),
        Ok(data) => Ok(usable_songs(result_entries(data))),
    }
}

fn result_entries_exec(data: &JsonValue) -> (r: Option<&Vec<JsonValue>>)
    ensures
        match r {
            Some(a) => result_entries(*data) == a@,
            None => result_entries(*data) == Seq::<JsonValue>::empty(),
        },
{
    match get_arr_exec(data, "list") {
        Some(a) => Some(a),
        None => match get_arr_exec(data, "songs") {
            Some(a) => Some(a),
            None => match get_arr_exec(data, "data") {
                Some(a) => Some(a),
                None => json_arr(data),
            },
        },
    }
}

/// Reads the reply of a search request: the usable songs, in order.
pub fn search_results(reply: &JsonValue) -> (r: Result<Vec<LxSearchSong>, String>)
    ensures
        match r {
            Ok(songs) => search_outcome(*reply) == Ok::<Seq<SongView>, Seq<char>>(
                song_views(songs@),
            ),
            Err(e) => search_outcome(*reply) == Err::<Seq<SongView>, Seq<char>>(e@),
        },
{
    let data = match unwrap_lx_envelope(reply, "搜索") {
        Ok(d) => d,
        Err(e) => {
            return Err(e);
        },
    };
    let mut out: Vec<LxSearchSong> = Vec::new();
    match result_entries_exec(data) {
        None => {
            assert(song_views(out@) =~= usable_songs(Seq::<JsonValue>::empty()));
        },
        Some(arr) => {
            let mut i: usize = 0;
            assert(arr@.take(0) =~= Seq::<JsonValue>::empty());
            assert(song_views(out@) =~= usable_songs(arr@.take(0)));
            while i < arr.len()
                invariant
                    i <= arr.len(),
                    song_views(out@) == usable_songs(arr@.take(i as int)),
                decreases arr.len() - i,
            {
                assert(arr@.take(i + 1).drop_last() =~= arr@.take(i as int));
                assert(arr@.take(i + 1).last() == arr@[i as int]);
                let s = parse_song(&arr[i]);
                if !s.id.as_str().is_empty() && !s.title.as_str().is_empty() {
                    let ghost before = song_views(out@);
                    out.push(s);
                    assert(song_views(out@) =~= before.push(out@[out@.len() - 1]@));
                }
                i = i + 1;
            }
            assert(arr@.take(arr.len() as int) =~= arr@);
        },
    }
    Ok(out)
}


// ---------------------------------------------------------------------------
// platforms.php
// ---------------------------------------------------------------------------

/// The string elements of a JSON array, in order.
pub open spec fn array_strings(a: Seq<JsonValue>) -> Seq<Seq<char>>
    decreases a.len(),
{
    if a.len() == 0 {
        Seq::empty()
    } else {
        let r = array_strings(a.drop_last());
        match jstr(a.last()) {
            Some(s) => r.push(s),
            None => r,
        }
    }
}

fn array_strings_exec(a: &Vec<JsonValue>) -> (r: Vec<String>)
    ensures
        string_views(r@) == array_strings(a@),
{
    let mut out: Vec<String> = Vec::new();
    let mut i: usize = 0;
    assert(a@.take(0) =~= Seq::<JsonValue>::empty());
    while i < a.len()
        invariant
            i <= a.len(),
            string_views(out@) == array_strings(a@.take(i as int)),
        decreases a.len() - i,
    {
        assert(a@.take(i + 1).drop_last() =~= a@.take(i as int));
        assert(a@.take(i + 1).last() == a@[i as int]);
        match json_str(&a[i]) {
            Some(sv) => {
                let ghost before = string_views(out@);
                out.push(string_of(&sv));
                assert(string_views(out@) =~= before.push(sv@));
            },
            None => {},
        }
        i = i + 1;
    }
    assert(a@.take(a.len() as int) =~= a@);
    out
}

/// One entry of `data.platforms[]`: `None` without a string `code`;
/// `qualities` (or `qualitys`), `actions` default to none / `musicUrl`,
/// and an empty name to the known display name.
pub open spec fn php_platform(p: JsonValue) -> Option<PlatformView> {
    match get_str(p, "code"@) {
        None => None,
        Some(code) => {
            let name = str_or_empty(get_str(p, "name"@));
            let quals = match jget_either(p, "qualities"@, "qualitys"@) {
                Some(q) => match jarr(q) {
                    Some(a) => array_strings(a),
                    None => Seq::empty(),
                },
                None => Seq::empty(),
            };
            let actions = match get_arr(p, "actions"@) {
                Some(a) => array_strings(a),
                None => seq!["musicUrl"@],
            };
            Some(
                PlatformView {
                    code: code,
                    name: if name.len() == 0 {
                        platform_display_name(code)
                    } else {
                        name
                    },
                    actions: actions,
                    qualitys: quals,
                },
            )
        },
    }
}

pub open spec fn php_platforms_of(entries: Seq<JsonValue>) -> Seq<PlatformView>
    decreases entries.len(),
{
    if entries.len() == 0 {
        Seq::empty()
    } else {
        let r = php_platforms_of(entries.drop_last());
        match php_platform(entries.last()) {
            Some(p) => r.push(p),
            None => r,
        }
    }
}

/// The platforms of a `platforms.php` data object.
pub open spec fn php_platforms(data: JsonValue) -> Seq<PlatformView> {
    match get_arr(data, "platforms"@) {
        Some(a) => php_platforms_of(a),
        None => Seq::empty(),
    }
}

fn php_platform_exec(p: &JsonValue) -> (r: Option<LxPlatform>)
    ensures
        match r {
            Some(x) => php_platform(*p) == Some(x@),
            None => php_platform(*p) is None,
        },
{
    let code = match get_str_exec(p, "code") {
        Some(c) => c,
        None => {
            return None;
        },
    };
    let name0 = get_str_or_empty(p, "name");
    let qualitys = match get_either(p, "qualities", "qualitys") {
        Some(q) => match json_arr(q) {
            Some(a) => array_strings_exec(a),
            None => {
                let v: Vec<String> = Vec::new();
                assert(string_views(v@) =~= Seq::<Seq<char>>::empty());
                v
            },
        },
        None => {
            let v: Vec<String> = Vec::new();
            assert(string_views(v@) =~= Seq::<Seq<char>>::empty());
            v
        },
    };
    let actions = match get_arr_exec(p, "actions") {
        Some(a) => array_strings_exec(a),
        None => {
            let mut v: Vec<String> = Vec::new();
            v.push("musicUrl".to_owned());
            assert(string_views(v@) =~= seq!["musicUrl"@]);
            v
        },
    };
    let name = if name0.len() == 0 {
        platform_name(&code)
    } else {
        name0
    };
    Some(LxPlatform { code: string_of(&code), name: string_of(&name), actions, qualitys })
}

/// Reads the platform list of a `platforms.php` data object.
pub fn parse_platforms_php(data: &JsonValue) -> (r: Vec<LxPlatform>)
    ensures
        platform_views(r@) == php_platforms(*data),
{
    let mut out: Vec<LxPlatform> = Vec::new();
    match get_arr_exec(data, "platforms") {
        None => {
            assert(platform_views(out@) =~= Seq::<PlatformView>::empty());
        },
        Some(arr) => {
            let mut i: usize = 0;
            assert(arr@.take(0) =~= Seq::<JsonValue>::empty());
            assert(platform_views(out@) =~= php_platforms_of(arr@.take(0)));
            while i < arr.len()
                invariant
                    i <= arr.len(),
                    platform_views(out@) == php_platforms_of(arr@.take(i as int)),
                decreases arr.len() - i,
            {
                assert(arr@.take(i + 1).drop_last() =~= arr@.take(i as int));
                assert(arr@.take(i + 1).last() == arr@[i as int]);
                match php_platform_exec(&arr[i]) {
                    Some(p) => {
                        let ghost before = platform_views(out@);
                        out.push(p);
                        assert(platform_views(out@) =~= before.push(out@[out@.len() - 1]@));
                    },
                    None => {},
                }
                i = i + 1;
            }
            assert(arr@.take(arr.len() as int) =~= arr@);
        },
    }
    out
}

// ---------------------------------------------------------------------------
// Adding a network source
// ---------------------------------------------------------------------------

/// Outcome of probing a network source.
#[derive(Debug)]
pub struct ProbeOutcome {
    pub name: String,
    pub base_url: String,
    pub platforms: Vec<LxPlatform>,
    /// How the source was recognised (shown in the UI).
    pub via: String,
    /// Script text of a subscription (stored as it was fetched).
    pub origin: String,
}

/// Mathematical model of a [`ProbeOutcome`].
pub struct ProbeView {
    pub name: Seq<char>,
    pub base_url: Seq<char>,
    pub platforms: Seq<PlatformView>,
    pub via: Seq<char>,
    pub origin: Seq<char>,
}

impl View for ProbeOutcome {
    type V = ProbeView;

    open spec fn view(&self) -> ProbeView {
        ProbeView {
            name: self.name@,
            base_url: self.base_url@,
            platforms: platform_views(self.platforms@),
            via: self.via@,
            origin: self.origin@,
        }
    }
}

/// How a source address is to be probed.
pub enum ProbePlan {
    /// A `.js` subscription: fetch the script text from this address.
    Script(String),
    /// An API base: try `platforms.php`, then `url.php`.
    Network(String),
}

pub enum ProbePlanView {
    Script(Seq<char>),
    Network(Seq<char>),
}

pub const MSG_EMPTY_ADDRESS: &'static str = "地址不能为空";

pub const MSG_BAD_ADDRESS: &'static str =
    "地址格式无效：需要 http(s):// 开头的完整地址（示例 https://music.example.com）";

/// Plan for an address: a trimmed address whose path (before `?`) ends in
/// `.js` once lower-cased is a script subscription; otherwise it must
/// normalise to an API base.
pub open spec fn probe_plan(url: Seq<char>) -> Result<ProbePlanView, Seq<char>> {
    let t = trim(url);
    if t.len() == 0 {
        Err(MSG_EMPTY_ADDRESS@)
    } else if ends_with(lowercase(before_class(t, CharClass::Is('?'))), ".js"@) {
        Ok(ProbePlanView::Script(t))
    } else {
        match normalized_base(t) {
            Some(b) => Ok(ProbePlanView::Network(b)),
            None => Err(MSG_BAD_ADDRESS@),
        }
    }
}

pub open spec fn plan_result_view(r: Result<ProbePlan, String>) -> Result<ProbePlanView, Seq<char>> {
    match r {
        Ok(ProbePlan::Script(u)) => Ok(ProbePlanView::Script(u@)),
        Ok(ProbePlan::Network(b)) => Ok(ProbePlanView::Network(b@)),
        Err(e) => Err(e@),
    }
}

/// First step of adding a network source: how to probe the address (see
/// [`probe_plan`]). The probes' replies are read by [`probe_script_outcome`],
/// [`probe_platforms_outcome`] and [`probe_url_php_outcome`].
pub fn probe_source(url: &str) -> (r: Result<ProbePlan, String>)
    ensures
        plan_result_view(r) == probe_plan(url@),
{
    let raw = chars_of(url);
    let t = trim_exec(&raw);
    if t.len() == 0 {
        return Err(MSG_EMPTY_ADDRESS.to_owned());
    }
    let path = before_class_exec(&t, CharClass::Is('?'));
    let lower = lower_chars(&path);
    if ends_with_str(&lower, ".js") {
        return Ok(ProbePlan::Script(string_of(&t)));
    }
    match normalize_base_chars(&t) {
        Some(b) => Ok(ProbePlan::Network(string_of(&b))),
        None => Err(MSG_BAD_ADDRESS.to_owned()),
    }
}

pub const VIA_SCRIPT: &'static str = "音源脚本订阅";

pub const VIA_PLATFORMS: &'static str = "platforms.php";

pub const VIA_URL_PHP: &'static str = "url.php 接口探测";

pub const MSG_SCRIPT_CHECK_FAILED: &'static str = "订阅脚本校验失败: ";

/// A fetched subscription script: accepted when it parses, with its text
/// kept as the origin.
pub open spec fn script_probe(text: Seq<char>) -> Result<ProbeView, Seq<char>> {
    match script_outcome(text, None, None) {
        Err(e) => Err(MSG_SCRIPT_CHECK_FAILED@ + e),
        Ok(p) => Ok(
            ProbeView {
                name: p.name,
                base_url: p.base_url,
                platforms: p.platforms,
                via: VIA_SCRIPT@,
                origin: text,
            },
        ),
    }
}

pub open spec fn probe_result_view(r: Result<ProbeOutcome, String>) -> Result<ProbeView, Seq<char>> {
    match r {
        Ok(p) => Ok(p@),
        Err(e) => Err(e@),
    }
}

pub fn probe_script_outcome(text: String) -> (r: Result<ProbeOutcome, String>)
    ensures
        probe_result_view(r) == script_probe(text@),
{
    match parse_script(text.as_str()) {
        Err(e) => {
            let mut m = chars_of(MSG_SCRIPT_CHECK_FAILED);
            push_str(&mut m, e.as_str());
            Err(string_of(&m))
        },
        Ok(p) => Ok(
            ProbeOutcome {
                name: p.name,
                base_url: p.base_url,
                platforms: p.platforms,
                via: VIA_SCRIPT.to_owned(),
                origin: text,
            },
        ),
    }
}

/// The address probed first for an API base.
pub fn platforms_php_url(base: &str) -> (r: String)
    ensures
        r@ == base@ + "/platforms.php"@,
{
    let mut u = chars_of(base);
    push_str(&mut u, "/platforms.php");
    string_of(&u)
}

/// The address probed second for an API base (an empty song on purpose:
/// an existing API answers with an LX JSON either way).
pub fn url_php_probe_url(base: &str) -> (r: String)
    ensures
        r@ == base@ + "/url.php?source=wy&id=0&quality=128k"@,
{
    let mut u = chars_of(base);
    push_str(&mut u, "/url.php?source=wy&id=0&quality=128k");
    string_of(&u)
}

/// A `platforms.php` reply accepts the source when its envelope succeeds
/// and it declares at least one platform.
pub open spec fn platforms_probe(base: Seq<char>, reply: JsonValue) -> Option<ProbeView> {
    match envelope_data(reply, "平台列表"@) {
        Err(_) => None,
        Ok(data) => if php_platforms(data).len() > 0 {
            Some(
                ProbeView {
                    name: host_part(base),
                    base_url: base,
                    platforms: php_platforms(data),
                    via: VIA_PLATFORMS@,
                    origin: Seq::empty(),
                },
            )
        } else {
            None
        },
    }
}

pub fn probe_platforms_outcome(base: &str, reply: &JsonValue) -> (r: Option<ProbeOutcome>)
    ensures
        match r {
            Some(p) => platforms_probe(base@, *reply) == Some(p@),
            None => platforms_probe(base@, *reply) is None,
        },
{
    match unwrap_lx_envelope(reply, "平台列表") {
        Err(_) => None,
        Ok(data) => {
            let platforms = parse_platforms_php(data);
            if platforms.len() > 0 {
                Some(
                    ProbeOutcome {
                        name: host_of(base),
                        base_url: base.to_owned(),
                        platforms,
                        via: VIA_PLATFORMS.to_owned(),
                        origin: String::new(),
                    },
                )
            } else {
                None
            }
        },
    }
}

pub const MSG_NOT_AN_API: &'static str =
    "该地址可访问但不是音源接口（url.php 响应缺少 code 字段）。请填写音源站根地址（如 https://music.example.com）或音源脚本链接";

pub const MSG_PROBE_FAILED_PREFIX: &'static str = "音源校验失败：";

pub const MSG_PROBE_FAILED_SUFFIX: &'static str =
    "。已尝试 platforms.php 与 url.php，均不可达；请确认地址正确、服务器在线，且为 lx-online-api 类音源站";

/// The `url.php` probe decides: a reply with a `code` member accepts the
/// source (no platforms known); another reply, or a failed request, rejects
/// it with an explanation.
pub open spec fn url_php_probe(base: Seq<char>, reply: Result<JsonValue, Seq<char>>) -> Result<
    ProbeView,
    Seq<char>,
> {
    match reply {
        Ok(v) => if jget(v, "code"@) is Some {
            Ok(
                ProbeView {
                    name: host_part(base),
                    base_url: base,
                    platforms: Seq::empty(),
                    via: VIA_URL_PHP@,
                    origin: Seq::empty(),
                },
            )
        } else {
            Err(MSG_NOT_AN_API@)
        },
        Err(e) => Err(MSG_PROBE_FAILED_PREFIX@ + e + MSG_PROBE_FAILED_SUFFIX@),
    }
}

pub open spec fn reply_view(r: Result<JsonValue, String>) -> Result<JsonValue, Seq<char>> {
    match r {
        Ok(v) => Ok(v),
        Err(e) => Err(e@),
    }
}

pub fn probe_url_php_outcome(base: &str, reply: Result<JsonValue, String>) -> (r: Result<
    ProbeOutcome,
    String,
>)
    ensures
        probe_result_view(r) == url_php_probe(base@, reply_view(reply)),
{
    match reply {
        Ok(v) => {
            if json_get(&v, "code").is_some() {
                let out = ProbeOutcome {
                    name: host_of(base),
                    base_url: base.to_owned(),
                    platforms: Vec::new(),
                    via: VIA_URL_PHP.to_owned(),
                    origin: String::new(),
                };
                assert(platform_views(out.platforms@) =~= Seq::<PlatformView>::empty());
                Ok(out)
            } else {
                Err(MSG_NOT_AN_API.to_owned())
            }
        },
        Err(e) => {
            let mut m = chars_of(MSG_PROBE_FAILED_PREFIX);
            push_str(&mut m, e.as_str());
            push_str(&mut m, MSG_PROBE_FAILED_SUFFIX);
            Err(string_of(&m))
        },
    }
}

// ---------------------------------------------------------------------------
// Laws
// ---------------------------------------------------------------------------

/// A platform block that declares no `actions: [...]` offers the one
/// action `musicUrl`: every such platform of a script, and of a parsed
/// script, can still give a play link.
pub proof fn undeclared_actions_are_music_url(text: Seq<char>, i: int)
    requires
        0 <= i < regex_captures_all(PLATFORM_PATTERN@, text).len(),
        regex_captures(ACTIONS_PATTERN@, group(regex_captures_all(PLATFORM_PATTERN@, text)[i], 2))
            is None,
    ensures
        platforms_of(text).len() == regex_captures_all(PLATFORM_PATTERN@, text).len(),
        platforms_of(text)[i].actions == seq!["musicUrl"@],
        trim(text) == text ==> (script_outcome(text, None, None) matches Ok(p) ==> p.platforms[i].actions
            == seq!["musicUrl"@]),
{
}

/// A song id is refused exactly when it is empty or the single character
/// `0`; every other id gives a request, whatever the API mode.
pub proof fn song_id_refusal(
    base: Seq<char>,
    source: Seq<char>,
    id: Seq<char>,
    quality: Seq<char>,
    extra: Option<Seq<char>>,
    api_mode: Seq<char>,
)
    ensures
        music_url_request(base, source, id, quality, extra, api_mode) is Err <==> (id.len() == 0 || (
        id.len() == 1 && id[0] == '0')),
        bad_song_id(id) <==> (id.len() == 0 || (id.len() == 1 && id[0] == '0')),
{
    reveal_strlit("0");
    if id.len() == 1 && id[0] == '0' {
        assert(id =~= "0"@);
    }
}

/// Whether an artist field holds something the artist is read from: a
/// string, or a list with at least one name.
pub open spec fn artist_field_used(x: Option<JsonValue>) -> bool {
    match x {
        Some(JsonValue::String(_)) => true,
        Some(JsonValue::Array(b)) => artist_names(b@).len() > 0,
        _ => false,
    }
}

proof fn lemma_artists_from_skip(v: JsonValue, keys: Seq<Seq<char>>, i: int)
    requires
        0 <= i <= keys.len(),
        forall|j: int| 0 <= j < i ==> !artist_field_used(#[trigger] jget(v, keys[j])),
    ensures
        artists_from(v, keys) == artists_from(v, keys.skip(i)),
    decreases i,
{
    if i > 0 {
        assert(!artist_field_used(jget(v, keys[0])));
        assert forall|j: int| 0 <= j < i - 1 implies !artist_field_used(
            #[trigger] jget(v, keys.drop_first()[j]),
        ) by {
            assert(keys.drop_first()[j] == keys[j + 1]);
        }
        lemma_artists_from_skip(v, keys.drop_first(), i - 1);
        assert(keys.drop_first().skip(i - 1) =~= keys.skip(i));
    } else {
        assert(keys.skip(0) =~= keys);
    }
}

/// The names of `names` in order, each but the first preceded by ` / `:
/// one name is itself, and one more name adds ` / ` and that name.
pub proof fn joined_names(names: Seq<Seq<char>>, x: Seq<char>)
    ensures
        joined(seq![x], " / "@) == x,
        names.len() > 0 ==> joined(names.push(x), " / "@) == joined(names, " / "@) + " / "@ + x,
{
    assert(seq![x][0] == x);
    if names.len() > 0 {
        assert(names.push(x).drop_last() =~= names);
    }
}

/// When the artist of a song comes from a list (the first artist field
/// that holds a string or named entries is a list), it holds every name of
/// the list, in order, separated by ` / `: one name alone, two as
/// `a / b`.
pub proof fn artist_list_names(v: JsonValue, i: int)
    requires
        0 <= i < 6,
        forall|j: int| 0 <= j < i ==> !artist_field_used(#[trigger] jget(v, artist_keys()[j])),
        jget(v, artist_keys()[i]) matches Some(JsonValue::Array(_)),
        artist_field_used(jget(v, artist_keys()[i])),
    ensures
        jget(v, artist_keys()[i]) matches Some(JsonValue::Array(a)) && ({
            let n = artist_names(a@);
            &&& song_of(v).artist == joined(n, " / "@)
            &&& n.len() == 1 ==> song_of(v).artist == n[0]
            &&& n.len() == 2 ==> song_of(v).artist == n[0] + " / "@ + n[1]
        }),
{
    lemma_artists_from_skip(v, artist_keys(), i);
    let rest = artist_keys().skip(i);
    assert(rest[0] == artist_keys()[i]);
    assert(rest.len() > 0);
    if let Some(JsonValue::Array(a)) = jget(v, artist_keys()[i]) {
        let n = artist_names(a@);
        assert(artists_from(v, rest) == joined(n, " / "@));
        assert(song_of(v).artist == artist_of(v));
        if n.len() == 2 {
            let d = n.drop_last();
            assert(d.len() == 1);
            assert(joined(d, " / "@) == d[0]);
            assert(d[0] == n[0]);
            assert(n.last() == n[1]);
            assert(joined(n, " / "@) == joined(d, " / "@) + " / "@ + n.last());
        }
    }
}

} // verus!
