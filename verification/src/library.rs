//! The music library: which files are audio, what a file's tags and name
//! give a track, and which files a rescan parses again.
use vstd::prelude::*;

use crate::lxsource::opt_view;
use crate::paths::{
    after_last_sep, after_last_sep_exec, extension, extension_of, file_stem, file_stem_of,
    last_component, lemma_name_end_bound, name_end, name_part,
};
use crate::text::{
    all_digits, chars_of, digits_value, eq_str, lower_chars, lowercase, matches_at, occurs_at,
    parse_i64, parse_i64_exec, push_str, slice_of, starts_with, starts_with_str, string_of, trim,
    trim_exec, CharClass,
};

verus! {

// ---------------------------------------------------------------------------
// Audio files and formats
// ---------------------------------------------------------------------------

/// Whether a lower-cased extension is one of an audio file.
pub open spec fn audio_ext(e: Seq<char>) -> bool {
    e == "mp3"@ || e == "flac"@ || e == "wav"@ || e == "ogg"@ || e == "oga"@ || e == "m4a"@ || e
        == "aac"@ || e == "mp4"@ || e == "m4b"@
}

fn is_audio_ext(e: &Vec<char>) -> (r: bool)
    ensures
        r == audio_ext(e@),
{
    eq_str(e, "mp3") || eq_str(e, "flac") || eq_str(e, "wav") || eq_str(e, "ogg") || eq_str(e, "oga")
        || eq_str(e, "m4a") || eq_str(e, "aac") || eq_str(e, "mp4") || eq_str(e, "m4b")
}

/// Whether a path names an audio file, by its extension in any case.
pub open spec fn audio_path(path: Seq<char>) -> bool {
    match extension_of(path) {
        Some(e) => audio_ext(lowercase(e)),
        None => false,
    }
}

/// Whether the file at `path` is scanned as audio.
pub fn is_audio(path: &str) -> (r: bool)
    ensures
        r == audio_path(path@),
{
    match extension(&chars_of(path)) {
        Some(e) => is_audio_ext(&lower_chars(&e)),
        None => false,
    }
}

/// The format shown for a lower-cased extension.
pub open spec fn format_name(e: Seq<char>) -> Seq<char> {
    if e == "mp3"@ {
        "MP3"@
    } else if e == "flac"@ {
        "FLAC"@
    } else if e == "wav"@ {
        "WAV"@
    } else if e == "ogg"@ || e == "oga"@ {
        "OGG"@
    } else if e == "m4a"@ || e == "mp4"@ || e == "m4b"@ {
        "M4A"@
    } else if e == "aac"@ {
        "AAC"@
    } else {
        "AUDIO"@
    }
}

/// The format of the file at a path, by its lower-cased extension (none
/// counts as empty).
pub open spec fn path_format(path: Seq<char>) -> Seq<char> {
    format_name(
        lowercase(
            match extension_of(path) {
                Some(e) => e,
                None => Seq::<char>::empty(),
            },
        ),
    )
}

proof fn lemma_named_format(e: Seq<char>)
    ensures
        audio_ext(e) <==> format_name(e) != "AUDIO"@,
{
    reveal_strlit("AUDIO");
    reveal_strlit("MP3");
    reveal_strlit("FLAC");
    reveal_strlit("WAV");
    reveal_strlit("OGG");
    reveal_strlit("M4A");
    reveal_strlit("AAC");
    assert("AUDIO"@.len() == 5);
    if audio_ext(e) {
        let f = format_name(e);
        assert(f == "MP3"@ || f == "FLAC"@ || f == "WAV"@ || f == "OGG"@ || f == "M4A"@ || f
            == "AAC"@);
        assert(f.len() != 5);
    }
}

/// The audio files a scan takes are exactly those with a named format:
/// an extension is audio when, and only when, the format shown for it is
/// not the generic `AUDIO`; these are mp3, flac, wav, ogg, oga, m4a, aac,
/// mp4 and m4b.
pub proof fn audio_means_named_format(e: Seq<char>, path: Seq<char>)
    ensures
        audio_ext(e) <==> format_name(e) != "AUDIO"@,
        audio_ext(e) <==> seq!["mp3"@, "flac"@, "wav"@, "ogg"@, "oga"@, "m4a"@, "aac"@, "mp4"@, "m4b"@]
            .contains(e),
        extension_of(path) is Some ==> (audio_path(path) <==> path_format(path) != "AUDIO"@),
{
    lemma_named_format(e);
    let l = seq!["mp3"@, "flac"@, "wav"@, "ogg"@, "oga"@, "m4a"@, "aac"@, "mp4"@, "m4b"@];
    if audio_ext(e) {
        if e == "mp3"@ { assert(l[0] == e); } else if e == "flac"@ { assert(l[1] == e); }
        else if e == "wav"@ { assert(l[2] == e); } else if e == "ogg"@ { assert(l[3] == e); }
        else if e == "oga"@ { assert(l[4] == e); } else if e == "m4a"@ { assert(l[5] == e); }
        else if e == "aac"@ { assert(l[6] == e); } else if e == "mp4"@ { assert(l[7] == e); }
        else { assert(l[8] == e); }
    }
    if l.contains(e) {
        let k = choose|k: int| 0 <= k < l.len() && l[k] == e;
        assert(audio_ext(e));
    }
    if let Some(x) = extension_of(path) {
        let le = lowercase(x);
        lemma_named_format(le);
    }
}

pub fn track_format(path: &str) -> (r: &'static str)
    ensures
        r@ == path_format(path@),
{
    let e = match extension(&chars_of(path)) {
        Some(e) => e,
        None => Vec::new(),
    };
    let l = lower_chars(&e);
    if eq_str(&l, "mp3") {
        "MP3"
    } else if eq_str(&l, "flac") {
        "FLAC"
    } else if eq_str(&l, "wav") {
        "WAV"
    } else if eq_str(&l, "ogg") || eq_str(&l, "oga") {
        "OGG"
    } else if eq_str(&l, "m4a") || eq_str(&l, "mp4") || eq_str(&l, "m4b") {
        "M4A"
    } else if eq_str(&l, "aac") {
        "AAC"
    } else {
        "AUDIO"
    }
}

/// A canonical Windows path without its `\\?\` verbatim prefix.
pub open spec fn without_verbatim(s: Seq<char>) -> Seq<char> {
    if starts_with(s, "\\\\?\\"@) {
        s.skip(4)
    } else {
        s
    }
}

/// The stored form of a canonicalized path (its verbatim prefix dropped).
pub fn strip_verbatim(s: &str) -> (r: String)
    ensures
        r@ == without_verbatim(s@),
{
    let v = chars_of(s);
    if starts_with_str(&v, "\\\\?\\") {
        proof {
            reveal_strlit("\\\\?\\");
        }
        string_of(&slice_of(&v, 4, v.len()))
    } else {
        s.to_owned()
    }
}

/// The path of the side-car lyrics file of a track: `Path::with_extension`
/// with `lrc`, i.e. the path up to the end of the file stem, then `.lrc`;
/// the path itself when it has no file stem.
pub open spec fn lrc_path_of(path: Seq<char>) -> Seq<char> {
    let e = name_end(path);
    let name = last_component(path);
    match file_stem_of(path) {
        Some(stem) => path.take(e - name.len() + stem.len()) + ".lrc"@,
        None => path,
    }
}

proof fn lemma_after_last_sep_suffix(p: Seq<char>)
    ensures
        after_last_sep(p).len() <= p.len(),
    decreases p.len(),
{
    if p.len() > 0 && !crate::text::in_class(p.last(), CharClass::PathSeparator) {
        lemma_after_last_sep_suffix(p.drop_last());
    }
}

proof fn lemma_stem_len(name: Seq<char>)
    ensures
        crate::paths::before_last_dot(name) matches Some(b) ==> b.len() < name.len(),
    decreases name.len(),
{
    if name.len() > 0 && name.last() != '.' {
        lemma_stem_len(name.drop_last());
    }
}

pub fn lrc_path(path: &str) -> (r: String)
    ensures
        r@ == lrc_path_of(path@),
{
    let v = chars_of(path);
    let t = name_part(&v);
    let name = after_last_sep_exec(&t);
    proof {
        lemma_name_end_bound(v@);
        lemma_after_last_sep_suffix(t@);
        lemma_stem_len(name@);
    }
    match file_stem(&v) {
        Some(stem) => {
            let end = t.len() - name.len() + stem.len();
            let mut out = slice_of(&v, 0, end);
            push_str(&mut out, ".lrc");
            string_of(&out)
        },
        None => path.to_owned(),
    }
}

// ---------------------------------------------------------------------------
// Tags and file names
// ---------------------------------------------------------------------------

/// The year of a `Year` tag: its first four characters as a number, 0 when
/// they are not one.
pub open spec fn tag_year(s: Seq<char>) -> i64 {
    match parse_i64(s.take(if s.len() < 4 {
        s.len() as int
    } else {
        4
    })) {
        Some(v) => v as i64,
        None => 0,
    }
}

pub fn year_from_tag(s: &str) -> (r: i64)
    ensures
        r == tag_year(s@),
{
    let v = chars_of(s);
    let n = if v.len() < 4 {
        v.len()
    } else {
        4
    };
    match parse_i64_exec(&slice_of(&v, 0, n)) {
        Some(y) => y,
        None => 0,
    }
}

/// `i` is the first index at which `p` occurs in `s` (`None`: nowhere).
pub open spec fn first_occurrence(s: Seq<char>, p: Seq<char>, r: Option<int>) -> bool {
    match r {
        Some(i) => occurs_at(s, p, i) && forall|j: int| 0 <= j < i ==> !occurs_at(s, p, j),
        None => forall|j: int| 0 <= j <= s.len() ==> !occurs_at(s, p, j),
    }
}

fn find_occurrence(s: &Vec<char>, p: &Vec<char>) -> (r: Option<usize>)
    ensures
        first_occurrence(
            s@,
            p@,
            match r {
                Some(i) => Some(i as int),
                None => None,
            },
        ),
        r matches Some(i) ==> i + p@.len() <= s@.len(),
{
    let mut i: usize = 0;
    while i < s.len()
        invariant
            i <= s.len(),
            forall|j: int| 0 <= j < i ==> !occurs_at(s@, p@, j),
        decreases s.len() - i,
    {
        if matches_at(s, p, i) {
            return Some(i);
        }
        i = i + 1;
    }
    if matches_at(s, p, i) {
        return Some(i);
    }
    None
}

pub const UNKNOWN_TRACK: &'static str = "未知曲目";

/// Title and artist of a track whose tags give no title: the file stem
/// (`未知曲目` without one) split at its first ` - ` into artist and title,
/// both trimmed, the artist kept when the tags gave one; a stem without
/// ` - ` is the title. A tagged title leaves both as they are.
pub open spec fn fallback_names(stem: Option<Seq<char>>, title: Seq<char>, artist: Seq<char>, k: Option<int>) -> (Seq<char>, Seq<char>) {
    if title.len() > 0 {
        (title, artist)
    } else {
        let s = match stem {
            Some(x) => x,
            None => UNKNOWN_TRACK@,
        };
        match k {
            Some(i) => (
                trim(s.skip(i + 3)),
                if artist.len() == 0 {
                    trim(s.take(i))
                } else {
                    artist
                },
            ),
            None => (s, artist),
        }
    }
}

/// Where a stem splits into artist and title: its first ` - `.
pub open spec fn name_split(s: Seq<char>) -> Option<int> {
    if exists|i: int| first_occurrence(s, " - "@, Some(i)) {
        Some(choose|i: int| first_occurrence(s, " - "@, Some(i)))
    } else {
        None
    }
}

proof fn lemma_first_occurrence_unique(s: Seq<char>, p: Seq<char>, a: Option<int>, b: Option<int>)
    requires
        first_occurrence(s, p, a),
        first_occurrence(s, p, b),
    ensures
        a == b,
{
    match (a, b) {
        (Some(i), Some(j)) => {
            if i < j {
                assert(!occurs_at(s, p, i));
            } else if j < i {
                assert(!occurs_at(s, p, j));
            }
        },
        (Some(i), None) => {
            assert(!occurs_at(s, p, i));
        },
        (None, Some(j)) => {
            assert(!occurs_at(s, p, j));
        },
        (None, None) => {},
    }
}

/// The stem a track's names fall back to: the file stem, `未知曲目`
/// without one.
pub open spec fn fallback_stem(path: Seq<char>) -> Seq<char> {
    match file_stem_of(path) {
        Some(x) => x,
        None => UNKNOWN_TRACK@,
    }
}

/// Completes a track's title and artist from its file name (see
/// [`fallback_names`]); the result is `(title, artist)`.
pub fn track_names(path: &str, title: String, artist: String) -> (r: (String, String))
    ensures
        (r.0@, r.1@) == fallback_names(
            file_stem_of(path@),
            title@,
            artist@,
            name_split(fallback_stem(path@)),
        ),
{
    let stem_v = match file_stem(&chars_of(path)) {
        Some(x) => x,
        None => chars_of(UNKNOWN_TRACK),
    };
    let sep = chars_of(" - ");
    let k = find_occurrence(&stem_v, &sep);
    proof {
        reveal_strlit(" - ");
        assert(sep@.len() == 3);
        let kk = match k {
            Some(i) => Some(i as int),
            None => None,
        };
        assert(stem_v@ == fallback_stem(path@));
        if exists|i: int| first_occurrence(stem_v@, " - "@, Some(i)) {
            let c = choose|i: int| first_occurrence(stem_v@, " - "@, Some(i));
            lemma_first_occurrence_unique(stem_v@, " - "@, Some(c), kk);
        } else {
            if let Some(i) = kk {
                assert(first_occurrence(stem_v@, " - "@, Some(i)));
            }
        }
        assert(name_split(stem_v@) == kk);
    }
    if !title.as_str().is_empty() {
        return (title, artist);
    }
    match k {
        Some(i) => {
            let n = stem_v.len();
            let t = string_of(&trim_exec(&slice_of(&stem_v, i + 3, n)));
            let a = if artist.as_str().is_empty() {
                string_of(&trim_exec(&slice_of(&stem_v, 0, i)))
            } else {
                artist
            };
            (t, a)
        },
        None => (string_of(&stem_v), artist),
    }
}

/// The picture formats a cover can be stored in.
#[derive(Clone, Copy, Debug, PartialEq, Eq, Structural)]
pub enum CoverMime {
    Png,
    Jpeg,
    Bmp,
    Gif,
    Tiff,
    /// Another format, or none given.
    Other,
}

/// File extension of a cover saved without re-encoding.
pub open spec fn cover_ext_of(mime: CoverMime) -> Seq<char> {
    match mime {
        CoverMime::Png => "png"@,
        CoverMime::Jpeg => "jpg"@,
        CoverMime::Bmp => "bmp"@,
        CoverMime::Gif => "gif"@,
        CoverMime::Tiff => "tiff"@,
        CoverMime::Other => "img"@,
    }
}

pub fn cover_ext(mime: CoverMime) -> (r: &'static str)
    ensures
        r@ == cover_ext_of(mime),
{
    match mime {
        CoverMime::Png => "png",
        CoverMime::Jpeg => "jpg",
        CoverMime::Bmp => "bmp",
        CoverMime::Gif => "gif",
        CoverMime::Tiff => "tiff",
        CoverMime::Other => "img",
    }
}

// ---------------------------------------------------------------------------
// Rescans
// ---------------------------------------------------------------------------

/// An audio file found by a scan: normalized path, modification time (unix
/// seconds) and size in bytes.
pub struct ScannedFile {
    pub path: String,
    pub mtime: i64,
    pub size: i64,
}

/// A file the library already holds, with the time and size it had when it
/// was parsed.
pub struct KnownFile {
    pub path: String,
    pub mtime: i64,
    pub size: i64,
}

/// The time and size the library holds for a path (the last record of it
/// counts).
pub open spec fn known_stat(known: Seq<KnownFile>, p: Seq<char>) -> Option<(i64, i64)>
    decreases known.len(),
{
    if known.len() == 0 {
        None
    } else if known.last().path@ == p {
        Some((known.last().mtime, known.last().size))
    } else {
        known_stat(known.drop_last(), p)
    }
}

/// Whether the user removed the file at `p` from the library.
pub open spec fn is_removed(removed: Seq<String>, p: Seq<char>) -> bool {
    exists|i: int| 0 <= i < removed.len() && (#[trigger] removed[i])@ == p
}

/// A file is parsed again unless the user removed it or the library holds
/// it with the same time and size.
pub open spec fn needs_parse(f: ScannedFile, known: Seq<KnownFile>, removed: Seq<String>) -> bool {
    !is_removed(removed, f.path@) && known_stat(known, f.path@) != Some((f.mtime, f.size))
}

/// The indices of the files to parse, in scan order.
pub open spec fn parse_indices(files: Seq<ScannedFile>, known: Seq<KnownFile>, removed: Seq<String>) -> Seq<
    usize,
>
    decreases files.len(),
{
    if files.len() == 0 {
        Seq::<usize>::empty()
    } else {
        let r = parse_indices(files.drop_last(), known, removed);
        if needs_parse(files.last(), known, removed) {
            r.push((files.len() - 1) as usize)
        } else {
            r
        }
    }
}

fn lookup_known(known: &Vec<KnownFile>, p: &Vec<char>) -> (r: Option<(i64, i64)>)
    ensures
        r == known_stat(known@, p@),
{
    let mut j = known.len();
    assert(known@.take(j as int) =~= known@);
    while j > 0
        invariant
            j <= known@.len(),
            known_stat(known@, p@) == known_stat(known@.take(j as int), p@),
        decreases j,
    {
        let ghost t = known@.take(j as int);
        assert(t.drop_last() =~= known@.take(j - 1));
        assert(t.last() == known@[j - 1]);
        let c = chars_of(known[j - 1].path.as_str());
        if crate::text::eq_chars(&c, p) {
            return Some((known[j - 1].mtime, known[j - 1].size));
        }
        j = j - 1;
    }
    None
}

fn lookup_removed(removed: &Vec<String>, p: &Vec<char>) -> (r: bool)
    ensures
        r == is_removed(removed@, p@),
{
    let mut i: usize = 0;
    while i < removed.len()
        invariant
            i <= removed@.len(),
            forall|k: int| 0 <= k < i ==> (#[trigger] removed@[k])@ != p@,
        decreases removed.len() - i,
    {
        let c = chars_of(removed[i].as_str());
        if crate::text::eq_chars(&c, p) {
            return true;
        }
        i = i + 1;
    }
    false
}

/// Which scanned files a rescan parses (see [`needs_parse`]); the others
/// keep their library records.
pub fn scan_plan(files: &Vec<ScannedFile>, known: &Vec<KnownFile>, removed: &Vec<String>) -> (r:
    Vec<usize>)
    ensures
        r@ == parse_indices(files@, known@, removed@),
{
    let mut out: Vec<usize> = Vec::new();
    let mut i: usize = 0;
    while i < files.len()
        invariant
            i <= files@.len(),
            out@ == parse_indices(files@.take(i as int), known@, removed@),
        decreases files.len() - i,
    {
        let ghost t = files@.take(i + 1);
        assert(t.drop_last() =~= files@.take(i as int));
        assert(t.last() == files@[i as int]);
        let p = chars_of(files[i].path.as_str());
        let gone = lookup_removed(removed, &p);
        let stat = lookup_known(known, &p);
        let same = match stat {
            Some((m, z)) => m == files[i].mtime && z == files[i].size,
            None => false,
        };
        if !gone && !same {
            out.push(i);
        }
        i = i + 1;
    }
    assert(files@.take(files@.len() as int) =~= files@);
    out
}

/// A rescan parses exactly the files that need it: an index is planned if
/// and only if it is a file's and that file was not removed by the user
/// and is not held with the same time and size; the plan follows the scan
/// order.
pub proof fn scan_plan_exact(files: Seq<ScannedFile>, known: Seq<KnownFile>, removed: Seq<String>)
    requires
        files.len() <= usize::MAX,
    ensures
        forall|i: int|
            0 <= i < files.len() ==> (#[trigger] parse_indices(files, known, removed).contains(
                i as usize,
            ) <==> needs_parse(files[i], known, removed)),
        forall|k: int|
            0 <= k < parse_indices(files, known, removed).len() ==> (#[trigger] parse_indices(
                files,
                known,
                removed,
            )[k]) < files.len(),
        forall|a: int, b: int|
            0 <= a < b < parse_indices(files, known, removed).len() ==> (#[trigger] parse_indices(
                files,
                known,
                removed,
            )[a]) < (#[trigger] parse_indices(files, known, removed)[b]),
    decreases files.len(),
{
    if files.len() > 0 {
        let f = files.drop_last();
        scan_plan_exact(f, known, removed);
        let r = parse_indices(f, known, removed);
        let m = f.len();
        let n = m as usize;
        let q = parse_indices(files, known, removed);
        assert forall|i: int| 0 <= i < f.len() implies f[i] == files[i] by {}
        if needs_parse(files.last(), known, removed) {
            assert(q == r.push(n));
            assert forall|i: int| 0 <= i < files.len() implies (#[trigger] q.contains(i as usize)
                <==> needs_parse(files[i], known, removed)) by {
                if i < m {
                    if q.contains(i as usize) {
                        let w = choose|w: int| 0 <= w < q.len() && q[w] == i as usize;
                        if w < r.len() {
                            assert(r[w] == i as usize);
                            assert(r.contains(i as usize));
                        } else {
                            assert(q[w] == n);
                        }
                    }
                    if r.contains(i as usize) {
                        let w = choose|w: int| 0 <= w < r.len() && r[w] == i as usize;
                        assert(q[w] == i as usize);
                    }
                    assert(r.contains(i as usize) <==> needs_parse(f[i], known, removed));
                } else {
                    assert(q[r.len() as int] == n);
                }
            }
            assert forall|k: int| 0 <= k < q.len() implies (#[trigger] q[k]) < files.len() by {
                if k < r.len() {
                    assert(q[k] == r[k]);
                }
            }
            assert forall|a: int, b: int| 0 <= a < b < q.len() implies (#[trigger] q[a]) < (
            #[trigger] q[b]) by {
                assert(q[a] == r[a]);
                if b < r.len() {
                    assert(q[b] == r[b]);
                }
            }
        } else {
            assert(q == r);
            assert forall|i: int| 0 <= i < files.len() implies (#[trigger] q.contains(i as usize)
                <==> needs_parse(files[i], known, removed)) by {
                if i < m {
                    assert(r.contains(i as usize) <==> needs_parse(f[i], known, removed));
                } else {
                    if r.contains(i as usize) {
                        let w = choose|w: int| 0 <= w < r.len() && r[w] == i as usize;
                        assert(r[w] < m);
                    }
                }
            }
        }
    }
}

/// A progress report of a scan: files done, files found, still running.
pub struct ScanProgress {
    pub done: usize,
    pub total: usize,
    pub active: bool,
}

/// The files done after each batch of at most 24 parsed files, starting
/// from `start` done with `n` left to parse.
pub open spec fn batch_dones(start: nat, n: nat) -> Seq<nat>
    decreases n,
{
    if n == 0 {
        Seq::<nat>::empty()
    } else if n <= 24 {
        seq![start + n]
    } else {
        seq![start + 24] + batch_dones(start + 24, (n - 24) as nat)
    }
}

pub open spec fn progress_view(p: ScanProgress) -> (nat, nat, bool) {
    (p.done as nat, p.total as nat, p.active)
}

/// The reports of a scan of `total` files of which `to_parse` are parsed:
/// none active for no folders; else the start, the unchanged files counted
/// done, each batch, and the end.
pub open spec fn scan_reports(has_folders: bool, total: nat, to_parse: nat) -> Seq<(nat, nat, bool)> {
    if !has_folders {
        seq![(0nat, 0nat, false)]
    } else {
        let skipped = (total - to_parse) as nat;
        seq![(0nat, total, true), (skipped, total, true)] + batch_dones(skipped, to_parse).map_values(
            |d: nat| (d, total, true),
        ) + seq![(total, total, false)]
    }
}

/// The progress reports of a scan, in order (see [`scan_reports`]).
pub fn scan_progress(has_folders: bool, total: usize, to_parse: usize) -> (r: Vec<ScanProgress>)
    requires
        to_parse <= total,
    ensures
        r@.map_values(|p: ScanProgress| progress_view(p)) == scan_reports(
            has_folders,
            total as nat,
            to_parse as nat,
        ),
{
    let mut out: Vec<ScanProgress> = Vec::new();
    if !has_folders {
        out.push(ScanProgress { done: 0, total: 0, active: false });
        assert(out@.map_values(|p: ScanProgress| progress_view(p)) =~= seq![(0nat, 0nat, false)]);
        return out;
    }
    out.push(ScanProgress { done: 0, total, active: true });
    let skipped = total - to_parse;
    out.push(ScanProgress { done: skipped, total, active: true });
    let ghost head = seq![(0nat, total as nat, true), (skipped as nat, total as nat, true)];
    let ghost all = batch_dones(skipped as nat, to_parse as nat);
    assert(out@.map_values(|p: ScanProgress| progress_view(p)) =~= head);
    let mut done = skipped;
    let mut left = to_parse;
    while left > 0
        invariant
            done + left == total,
            left <= to_parse,
            done as nat + left as nat == total as nat,
            ({
                let sofar = out@.map_values(|p: ScanProgress| progress_view(p));
                &&& sofar.len() >= 2
                &&& sofar.take(2) == head
                &&& sofar.skip(2) + batch_dones(done as nat, left as nat).map_values(
                    |d: nat| (d, total as nat, true),
                ) == all.map_values(|d: nat| (d, total as nat, true))
            }),
        decreases left,
    {
        let step = if left <= 24 {
            left
        } else {
            24
        };
        let ghost before = out@.map_values(|p: ScanProgress| progress_view(p));
        let ghost rest_before = batch_dones(done as nat, left as nat);
        done = done + step;
        left = left - step;
        out.push(ScanProgress { done, total, active: true });
        proof {
            let after = out@.map_values(|p: ScanProgress| progress_view(p));
            assert(after =~= before.push((done as nat, total as nat, true)));
            assert(rest_before =~= seq![done as nat] + batch_dones(done as nat, left as nat));
            let f = |d: nat| (d, total as nat, true);
            assert(rest_before.map_values(f) =~= seq![(done as nat, total as nat, true)]
                + batch_dones(done as nat, left as nat).map_values(f));
            assert(after.take(2) =~= before.take(2));
            assert(after.skip(2) =~= before.skip(2).push((done as nat, total as nat, true)));
            assert(after.skip(2) + batch_dones(done as nat, left as nat).map_values(f)
                =~= before.skip(2) + rest_before.map_values(f));
        }
    }
    let ghost before = out@.map_values(|p: ScanProgress| progress_view(p));
    out.push(ScanProgress { done: total, total, active: false });
    proof {
        let after = out@.map_values(|p: ScanProgress| progress_view(p));
        assert(batch_dones(done as nat, 0) =~= Seq::<nat>::empty());
        assert(before =~= before.take(2) + before.skip(2));
        assert(after =~= before.push((total as nat, total as nat, false)));
        assert(after =~= scan_reports(has_folders, total as nat, to_parse as nat));
    }
    out
}

} // verus!
