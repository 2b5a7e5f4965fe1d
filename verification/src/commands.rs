//! Decisions behind the player's commands: which source serves a request,
//! which platform and quality it is asked for, how a download is named and
//! what the player is told about the track it starts.
//!
//! The commands themselves (database, audio engine, platform clients) run
//! around these functions; everything they decide is decided here.
use vstd::prelude::*;

use crate::lxsource::{
    bad_song_id, lyric, music_url, music_url_request, opt_str_view, request_result_view,
    request_view, search_songs, search_url, LxRequest, RequestView, MSG_BAD_SONG_ID_LINK,
    MSG_BAD_SONG_ID_LYRIC,
};
use crate::models::{
    opt_string_view, song_views, string_views, LxPlatform, LxSearchSong, LxSourceItem, SongView,
    SourceItem, TrackInfo, TrackInfoView,
};
use crate::text::{
    chars_of, contains, contains_str, decimal_int, ends_with, ends_with_str, eq_chars,
    eq_ignore_ascii_case, eq_ignore_ascii_case_exec, eq_str, first_match, i64_to_chars, in_class,
    lemma_split_nonempty, lower_chars, lowercase, parse_radix, parse_radix_exec, push_all,
    split_by, split_exec, starts_with, starts_with_str,
    is_ws, keep_len, lemma_first_match_bound, lemma_keep_len_bound, parse_i64, CharClass,
    parse_i64_exec, push_str, str_to_uppercase, string_of, trim, trim_exec, uppercase,
};

verus! {

// ---------------------------------------------------------------------------
// Choosing a source
// ---------------------------------------------------------------------------

pub open spec fn opt_index(r: Option<usize>) -> Option<int> {
    match r {
        Some(i) => Some(i as int),
        None => None,
    }
}

/// Whether a source declares the platform `code`.
pub open spec fn declares_platform(item: LxSourceItem, code: Seq<char>) -> bool {
    exists|j: int| 0 <= j < item.platforms@.len() && (#[trigger] item.platforms@[j]).code@ == code
}

/// Whether some source declares the platform `code`.
pub open spec fn any_declares(sources: Seq<LxSourceItem>, code: Seq<char>) -> bool {
    exists|j: int| 0 <= j < sources.len() && declares_platform(#[trigger] sources[j], code)
}

/// `r` is the first index of a source with id `id` (`None` when none has).
pub open spec fn first_with_id(sources: Seq<LxSourceItem>, id: i64, r: Option<int>) -> bool {
    match r {
        Some(i) => 0 <= i < sources.len() && sources[i].id == id && forall|j: int|
            0 <= j < i ==> (#[trigger] sources[j]).id != id,
        None => forall|j: int| 0 <= j < sources.len() ==> (#[trigger] sources[j]).id != id,
    }
}

/// `r` is the first index of a source that declares `code` (`None` when
/// none does).
pub open spec fn first_declaring(sources: Seq<LxSourceItem>, code: Seq<char>, r: Option<int>) -> bool {
    match r {
        Some(i) => 0 <= i < sources.len() && declares_platform(sources[i], code) && forall|j: int|
            0 <= j < i ==> !declares_platform(#[trigger] sources[j], code),
        None => forall|j: int| 0 <= j < sources.len() ==> !declares_platform(#[trigger] sources[j], code),
    }
}

/// The source a request goes to, as an index: the one with the requested id
/// when an id is given; else the first that declares the requested platform;
/// else the first source.
pub open spec fn picks_source(
    sources: Seq<LxSourceItem>,
    source_id: Option<i64>,
    platform: Seq<char>,
    r: Option<int>,
) -> bool {
    match source_id {
        Some(id) => first_with_id(sources, id, r),
        None => if platform.len() > 0 && any_declares(sources, platform) {
            first_declaring(sources, platform, r)
        } else {
            r == (if sources.len() > 0 {
                Some(0int)
            } else {
                None
            })
        },
    }
}

fn source_declares(item: &LxSourceItem, code: &str) -> (r: bool)
    ensures
        r == declares_platform(*item, code@),
{
    let mut j: usize = 0;
    while j < item.platforms.len()
        invariant
            j <= item.platforms@.len(),
            forall|k: int| 0 <= k < j ==> (#[trigger] item.platforms@[k]).code@ != code@,
        decreases item.platforms.len() - j,
    {
        let c = chars_of(item.platforms[j].code.as_str());
        if eq_str(&c, code) {
            assert(item.platforms@[j as int].code@ == code@);
            return true;
        }
        j = j + 1;
    }
    false
}

/// Chooses the source that serves a search or a play request (see
/// [`picks_source`]); `None` when there is no source at all, or none with
/// the requested id.
pub fn pick_source(sources: &Vec<LxSourceItem>, source_id: Option<i64>, platform: &str) -> (r:
    Option<usize>)
    ensures
        picks_source(sources@, source_id, platform@, opt_index(r)),
{
    if let Some(id) = source_id {
        let mut i: usize = 0;
        while i < sources.len()
            invariant
                i <= sources@.len(),
                source_id == Some(id),
                forall|j: int| 0 <= j < i ==> (#[trigger] sources@[j]).id != id,
            decreases sources.len() - i,
        {
            if sources[i].id == id {
                return Some(i);
            }
            i = i + 1;
        }
        return None;
    }
    if !platform.is_empty() {
        let mut i: usize = 0;
        while i < sources.len()
            invariant
                i <= sources@.len(),
                source_id is None,
                platform@.len() > 0,
                forall|j: int| 0 <= j < i ==> !declares_platform(#[trigger] sources@[j], platform@),
            decreases sources.len() - i,
        {
            if source_declares(&sources[i], platform) {
                return Some(i);
            }
            i = i + 1;
        }
    }
    if sources.len() > 0 {
        Some(0)
    } else {
        None
    }
}

// ---------------------------------------------------------------------------
// Platform and quality
// ---------------------------------------------------------------------------

/// The platform code a request is made for: the requested one; else the
/// first the source declares (when it has a code); else `wy`.
pub open spec fn resolved_platform(platforms: Seq<LxPlatform>, platform: Seq<char>) -> Seq<char> {
    if platform.len() > 0 {
        platform
    } else if platforms.len() > 0 && platforms[0].code@.len() > 0 {
        platforms[0].code@
    } else {
        "wy"@
    }
}

/// A request always names a platform: the resolved code is never empty.
pub proof fn resolved_platform_nonempty(platforms: Seq<LxPlatform>, platform: Seq<char>)
    ensures
        resolved_platform(platforms, platform).len() > 0,
{
    reveal_strlit("wy");
}

/// The platform code used to resolve or search through `source`.
pub fn resolve_platform(source: &LxSourceItem, platform: &str) -> (r: String)
    ensures
        r@ == resolved_platform(source.platforms@, platform@),
{
    if !platform.is_empty() {
        return platform.to_owned();
    }
    if source.platforms.len() > 0 && !source.platforms[0].code.as_str().is_empty() {
        return source.platforms[0].code.clone();
    }
    "wy".to_owned()
}

/// The qualities the first declaration of platform `code` lists (none when
/// the platform is not declared).
pub open spec fn qualities_of(platforms: Seq<LxPlatform>, code: Seq<char>) -> Seq<Seq<char>>
    decreases platforms.len(),
{
    if platforms.len() == 0 {
        Seq::<Seq<char>>::empty()
    } else if platforms[0].code@ == code {
        string_views(platforms[0].qualitys@)
    } else {
        qualities_of(platforms.drop_first(), code)
    }
}

/// The quality asked of a source: the requested one when the platform
/// lists it (or lists none, with `320k` for an empty request); else `320k`
/// when listed, then `128k`; else the first it lists.
pub open spec fn picked_quality(avail: Seq<Seq<char>>, requested: Seq<char>) -> Seq<char> {
    if avail.len() == 0 {
        if requested.len() == 0 {
            "320k"@
        } else {
            requested
        }
    } else if avail.contains(requested) {
        requested
    } else if avail.contains("320k"@) {
        "320k"@
    } else if avail.contains("128k"@) {
        "128k"@
    } else {
        avail[0]
    }
}

/// A source is only asked for a quality it lists: when the platform lists
/// any, the picked quality is one of them; when it lists none, it is the
/// requested one (`320k` when none was requested).
pub proof fn picked_quality_is_listed(avail: Seq<Seq<char>>, requested: Seq<char>)
    ensures
        avail.len() > 0 ==> avail.contains(picked_quality(avail, requested)),
        avail.len() == 0 ==> picked_quality(avail, requested) == (if requested.len() == 0 {
            "320k"@
        } else {
            requested
        }),
{
    if avail.len() > 0 {
        assert(avail[0] == avail[0]);
    }
}

fn qualities_index(platforms: &Vec<LxPlatform>, code: &str) -> (r: Option<usize>)
    ensures
        match r {
            Some(i) => i < platforms@.len() && qualities_of(platforms@, code@) == string_views(
                platforms@[i as int].qualitys@,
            ),
            None => qualities_of(platforms@, code@) == Seq::<Seq<char>>::empty(),
        },
{
    let mut i: usize = 0;
    assert(platforms@.skip(0) =~= platforms@);
    while i < platforms.len()
        invariant
            i <= platforms@.len(),
            qualities_of(platforms@, code@) == qualities_of(platforms@.skip(i as int), code@),
        decreases platforms.len() - i,
    {
        assert(platforms@.skip(i as int).drop_first() =~= platforms@.skip(i + 1));
        assert(platforms@.skip(i as int)[0] == platforms@[i as int]);
        let c = chars_of(platforms[i].code.as_str());
        if eq_str(&c, code) {
            return Some(i);
        }
        i = i + 1;
    }
    assert(platforms@.skip(i as int).len() == 0);
    None
}

fn lists_quality(avail: &Vec<String>, q: &str) -> (r: bool)
    ensures
        r == string_views(avail@).contains(q@),
{
    let mut i: usize = 0;
    while i < avail.len()
        invariant
            i <= avail@.len(),
            forall|j: int| 0 <= j < i ==> (#[trigger] avail@[j])@ != q@,
        decreases avail.len() - i,
    {
        let c = chars_of(avail[i].as_str());
        if eq_str(&c, q) {
            assert(string_views(avail@)[i as int] == q@);
            return true;
        }
        i = i + 1;
    }
    assert forall|j: int| 0 <= j < string_views(avail@).len() implies string_views(avail@)[j]
        != q@ by {
        assert(string_views(avail@)[j] == avail@[j]@);
    }
    false
}

/// The quality to ask `source` for on `platform` (see [`picked_quality`]).
pub fn pick_quality(source: &LxSourceItem, platform: &str, requested: &str) -> (r: String)
    ensures
        r@ == picked_quality(qualities_of(source.platforms@, platform@), requested@),
{
    let idx = qualities_index(&source.platforms, platform);
    let i = match idx {
        None => {
            if requested.is_empty() {
                return "320k".to_owned();
            }
            return requested.to_owned();
        },
        Some(i) => i,
    };
    let avail = &source.platforms[i].qualitys;
    if avail.len() == 0 {
        if requested.is_empty() {
            return "320k".to_owned();
        }
        return requested.to_owned();
    }
    if lists_quality(avail, requested) {
        return requested.to_owned();
    }
    if lists_quality(avail, "320k") {
        return "320k".to_owned();
    }
    if lists_quality(avail, "128k") {
        return "128k".to_owned();
    }
    assert(string_views(avail@)[0] == avail@[0]@);
    avail[0].clone()
}

/// The quality asked of a source for the player's quality setting:
/// lossless settings ask `flac`, standard ones `128k`, the rest `320k`.
pub open spec fn setting_quality(setting: Seq<char>) -> Seq<char> {
    if setting == "lossless"@ || setting == "flac"@ || setting == "sq"@ {
        "flac"@
    } else if setting == "standard"@ || setting == "normal"@ || setting == "lq"@ {
        "128k"@
    } else {
        "320k"@
    }
}

/// The quality that the `quality` setting asks of a source.
pub fn quality_for_setting(setting: &str) -> (r: &'static str)
    ensures
        r@ == setting_quality(setting@),
{
    let s = chars_of(setting);
    if eq_str(&s, "lossless") || eq_str(&s, "flac") || eq_str(&s, "sq") {
        "flac"
    } else if eq_str(&s, "standard") || eq_str(&s, "normal") || eq_str(&s, "lq") {
        "128k"
    } else {
        "320k"
    }
}

/// Badge of an online track: FLAC is lossless, 320 kbps and more is HQ,
/// the rest standard.
pub open spec fn quality_label(ext: Seq<char>, br_kbps: i64) -> Seq<char> {
    if eq_ignore_ascii_case(ext, "flac"@) {
        "无损"@
    } else if br_kbps >= 320 {
        "HQ"@
    } else {
        "标准"@
    }
}

/// The badge shown for an online track of format `ext` at `br_kbps`.
pub fn quality_tag(ext: &str, br_kbps: i64) -> (r: String)
    ensures
        r@ == quality_label(ext@, br_kbps),
{
    let e = chars_of(ext);
    let flac = chars_of("flac");
    if eq_ignore_ascii_case_exec(&e, &flac) {
        "无损".to_owned()
    } else if br_kbps >= 320 {
        "HQ".to_owned()
    } else {
        "标准".to_owned()
    }
}

// ---------------------------------------------------------------------------
// Playing a chart song
// ---------------------------------------------------------------------------

pub const MSG_NO_SUCH_SOURCE: &'static str = "音源不存在，请在设置 → 音源管理中重新添加";

pub const MSG_SOURCE_DISABLED: &'static str = "该音源已停用，请先在设置中启用";

pub const UNKNOWN_TITLE: &'static str = "未知曲目";

/// Whether a text is empty once trimmed.
pub open spec fn blank(s: Seq<char>) -> bool {
    trim(s).len() == 0
}

pub fn is_blank(s: &str) -> (r: bool)
    ensures
        r == blank(s@),
{
    trim_exec(&chars_of(s)).len() == 0
}

/// An optional text, dropped when it is blank.
pub open spec fn nonblank(o: Option<Seq<char>>) -> Option<Seq<char>> {
    match o {
        Some(s) => if blank(s) {
            None
        } else {
            Some(s)
        },
        None => None,
    }
}

/// An optional text, empty when absent.
pub open spec fn or_empty(o: Option<Seq<char>>) -> Seq<char> {
    match o {
        Some(s) => s,
        None => Seq::<char>::empty(),
    }
}

fn string_or_empty(o: Option<String>) -> (r: String)
    ensures
        r@ == or_empty(opt_string_view(o)),
{
    match o {
        Some(s) => s,
        None => String::new(),
    }
}

fn nonblank_string(o: Option<String>) -> (r: Option<String>)
    ensures
        opt_string_view(r) == nonblank(opt_string_view(o)),
{
    match o {
        Some(s) => if is_blank(s.as_str()) {
            None
        } else {
            Some(s)
        },
        None => None,
    }
}

/// A request to play a song of the charts.
pub struct LxPlaySongReq {
    /// The source to resolve through; `0` or less for none.
    pub source_id: i64,
    pub platform: String,
    pub song_id: String,
    pub title: String,
    pub artist: String,
    pub album: String,
    pub cover: String,
    pub duration_ms: u64,
    /// Requested quality (`320k`, `flac` …); `None` to choose by the
    /// settings and the source's declarations.
    pub quality: Option<String>,
    /// Context a link request may need (a Kugou hash, a QQ media id).
    pub extra: Option<String>,
}

/// Gathers the command's optional arguments into a request: absent texts
/// are empty, absent numbers zero, and a blank quality or extra is absent.
pub fn lx_play_request(
    source_id: Option<i64>,
    platform: Option<String>,
    song_id: Option<String>,
    title: Option<String>,
    artist: Option<String>,
    album: Option<String>,
    cover: Option<String>,
    duration_ms: Option<u64>,
    quality: Option<String>,
    extra: Option<String>,
) -> (r: LxPlaySongReq)
    ensures
        r.source_id == (match source_id {
            Some(v) => v,
            None => 0,
        }),
        r.platform@ == or_empty(opt_string_view(platform)),
        r.song_id@ == or_empty(opt_string_view(song_id)),
        r.title@ == or_empty(opt_string_view(title)),
        r.artist@ == or_empty(opt_string_view(artist)),
        r.album@ == or_empty(opt_string_view(album)),
        r.cover@ == or_empty(opt_string_view(cover)),
        r.duration_ms == (match duration_ms {
            Some(v) => v,
            None => 0,
        }),
        opt_string_view(r.quality) == nonblank(opt_string_view(quality)),
        opt_string_view(r.extra) == nonblank(opt_string_view(extra)),
{
    LxPlaySongReq {
        source_id: match source_id {
            Some(v) => v,
            None => 0,
        },
        platform: string_or_empty(platform),
        song_id: string_or_empty(song_id),
        title: string_or_empty(title),
        artist: string_or_empty(artist),
        album: string_or_empty(album),
        cover: string_or_empty(cover),
        duration_ms: match duration_ms {
            Some(v) => v,
            None => 0,
        },
        quality: nonblank_string(quality),
        extra: nonblank_string(extra),
    }
}

/// Index of the first source with id `id`.
pub open spec fn index_of_id(s: Seq<LxSourceItem>, id: i64) -> Option<int>
    decreases s.len(),
{
    if s.len() == 0 {
        None
    } else {
        match index_of_id(s.drop_last(), id) {
            Some(i) => Some(i),
            None => if s.last().id == id {
                Some(s.len() - 1)
            } else {
                None
            },
        }
    }
}

proof fn lemma_index_of_id(s: Seq<LxSourceItem>, id: i64)
    ensures
        first_with_id(s, id, index_of_id(s, id)),
    decreases s.len(),
{
    if s.len() > 0 {
        lemma_index_of_id(s.drop_last(), id);
        let p = s.drop_last();
        assert forall|j: int| 0 <= j < p.len() implies p[j] == s[j] by {}
    }
}

proof fn lemma_first_with_id_unique(s: Seq<LxSourceItem>, id: i64, a: Option<int>, b: Option<int>)
    requires
        first_with_id(s, id, a),
        first_with_id(s, id, b),
    ensures
        a == b,
{
    match (a, b) {
        (Some(i), Some(j)) => {
            if i < j {
                assert(s[i].id != id);
            } else if j < i {
                assert(s[j].id != id);
            }
        },
        (Some(i), None) => {
            assert(s[i].id != id);
        },
        (None, Some(j)) => {
            assert(s[j].id != id);
        },
        (None, None) => {},
    }
}

/// The built-in platform a play request goes to when no source is used:
/// the requested one, Kugou (`kg`, which needs no account) when none is.
pub open spec fn builtin_platform(platform: Seq<char>) -> Seq<char> {
    if blank(platform) {
        "kg"@
    } else {
        platform
    }
}

/// The built-in platform a chart platform code maps to in the play history.
pub open spec fn record_kind_of(platform: Seq<char>) -> Option<Seq<char>> {
    if platform == "wy"@ {
        Some("netease"@)
    } else if platform == "tx"@ {
        Some("qq"@)
    } else if platform == "kg"@ {
        Some("kugou"@)
    } else {
        None
    }
}

/// What the player is told about a song played through a source.
pub open spec fn lx_info_view(req: LxPlaySongReq, platform: Seq<char>, quality: Seq<char>) -> TrackInfoView {
    TrackInfoView {
        id: None,
        kind: "url"@,
        path: Seq::<char>::empty(),
        title: if req.title@.len() == 0 {
            UNKNOWN_TITLE@
        } else {
            req.title@
        },
        artist: req.artist@,
        album: req.album@,
        cover: req.cover@,
        duration_ms: req.duration_ms,
        nid: None,
        qid: None,
        kgid: None,
        quality: Some(uppercase(quality)),
        lx_source_id: if req.source_id > 0 {
            Some(req.source_id)
        } else {
            None
        },
        lx_platform: if req.source_id > 0 {
            Some(platform)
        } else {
            None
        },
        lx_song_id: if req.source_id > 0 {
            Some(req.song_id@)
        } else {
            None
        },
    }
}

/// The quality wanted of a source: the requested one, else the one the
/// `quality` setting (`high` when unset) asks for.
pub open spec fn wanted_quality(requested: Option<Seq<char>>, setting: Option<Seq<char>>) -> Seq<char> {
    match requested {
        Some(q) if q.len() > 0 => q,
        _ => setting_quality(
            match setting {
                Some(s) => s,
                None => "high"@,
            },
        ),
    }
}

/// How a chart song is played.
pub enum LxPlayPlan {
    /// No source: the built-in platform client resolves the song of `req`
    /// (see [`builtin_route`]).
    Builtin { req: LxPlaySongReq },
    /// Through the source at `index` of the source list: make `request`
    /// (its reply is read by `music_url_link`), record the play under
    /// `record_kind` when there is one, and hand `info` to the player with
    /// the link.
    Source { index: usize, request: LxRequest, record_kind: Option<String>, info: TrackInfo },
}

/// Mathematical model of an [`LxPlayPlan`].
pub enum PlayPlanView {
    Builtin(Seq<char>),
    Source(int, RequestView, Option<Seq<char>>, TrackInfoView),
}

pub open spec fn play_plan_view(r: Result<LxPlayPlan, String>) -> Result<PlayPlanView, Seq<char>> {
    match r {
        Ok(LxPlayPlan::Builtin { req }) => Ok(PlayPlanView::Builtin(req.platform@)),
        Ok(LxPlayPlan::Source { index, request, record_kind, info }) => Ok(
            PlayPlanView::Source(index as int, request_view(request), opt_string_view(record_kind), info@),
        ),
        Err(e) => Err(e@),
    }
}

/// The plan for a chart song (see [`lx_play_plan`]).
pub open spec fn lx_play_outcome(
    req: LxPlaySongReq,
    sources: Seq<LxSourceItem>,
    setting: Option<Seq<char>>,
) -> Result<PlayPlanView, Seq<char>> {
    if blank(req.song_id@) {
        Err(MSG_BAD_SONG_ID_LINK@)
    } else if req.source_id <= 0 {
        Ok(PlayPlanView::Builtin(builtin_platform(req.platform@)))
    } else {
        match index_of_id(sources, req.source_id) {
            None => Err(MSG_NO_SUCH_SOURCE@),
            Some(i) => {
                let item = sources[i];
                if !item.enabled {
                    Err(MSG_SOURCE_DISABLED@)
                } else {
                    let platform = resolved_platform(item.platforms@, req.platform@);
                    let want = wanted_quality(opt_string_view(req.quality), setting);
                    let quality = picked_quality(qualities_of(item.platforms@, platform), want);
                    match music_url_request(
                        item.base_url@,
                        platform,
                        req.song_id@,
                        quality,
                        opt_string_view(req.extra),
                        item.api_mode@,
                    ) {
                        Err(e) => Err(e),
                        Ok(rq) => Ok(
                            PlayPlanView::Source(
                                i,
                                rq,
                                record_kind_of(platform),
                                lx_info_view(req, platform, quality),
                            ),
                        ),
                    }
                }
            },
        }
    }
}

/// A song is only ever resolved through the requested source, and only
/// while it is enabled; without a source it goes to a built-in client.
pub proof fn play_plan_uses_enabled_source(
    req: LxPlaySongReq,
    sources: Seq<LxSourceItem>,
    setting: Option<Seq<char>>,
)
    ensures
        lx_play_outcome(req, sources, setting) matches Ok(PlayPlanView::Source(i, _, _, _)) ==> {
            &&& 0 <= i < sources.len()
            &&& sources[i].id == req.source_id
            &&& sources[i].enabled
            &&& req.source_id > 0
        },
        lx_play_outcome(req, sources, setting) matches Ok(PlayPlanView::Builtin(_)) ==> req.source_id
            <= 0,
{
    lemma_index_of_id(sources, req.source_id);
}

fn record_kind(platform: &str) -> (r: Option<String>)
    ensures
        opt_string_view(r) == record_kind_of(platform@),
{
    let p = chars_of(platform);
    if eq_str(&p, "wy") {
        Some("netease".to_owned())
    } else if eq_str(&p, "tx") {
        Some("qq".to_owned())
    } else if eq_str(&p, "kg") {
        Some("kugou".to_owned())
    } else {
        None
    }
}

fn opt_as_str(o: &Option<String>) -> (r: Option<&str>)
    ensures
        opt_str_view(r) == opt_string_view(*o),
{
    match o {
        Some(s) => Some(s.as_str()),
        None => None,
    }
}

/// Plans the playing of a chart song (see [`lx_play_outcome`]): an unusable
/// song id is refused; without a source (`source_id` 0 or less) the
/// built-in client of the requested platform (Kugou when none is) plays it;
/// else the source with that id in `sources` (all sources, enabled or not)
/// must exist and be enabled, and is asked for the resolved platform at the
/// quality picked from the request, the `quality` setting and its
/// declarations.
pub fn lx_play_plan(
    req: LxPlaySongReq,
    sources: &Vec<LxSourceItem>,
    quality_setting: Option<&str>,
) -> (r: Result<LxPlayPlan, String>)
    ensures
        play_plan_view(r) == lx_play_outcome(req, sources@, opt_str_view(quality_setting)),
        r matches Ok(LxPlayPlan::Builtin { req: b }) ==> {
            &&& b.source_id == req.source_id
            &&& b.song_id@ == req.song_id@
            &&& b.title@ == req.title@
            &&& b.artist@ == req.artist@
            &&& b.album@ == req.album@
            &&& b.cover@ == req.cover@
            &&& b.duration_ms == req.duration_ms
            &&& opt_string_view(b.quality) == opt_string_view(req.quality)
            &&& opt_string_view(b.extra) == opt_string_view(req.extra)
        },
{
    if is_blank(req.song_id.as_str()) {
        return Err(MSG_BAD_SONG_ID_LINK.to_owned());
    }
    if req.source_id <= 0 {
        let mut b = req;
        if is_blank(b.platform.as_str()) {
            b.platform = "kg".to_owned();
        }
        return Ok(LxPlayPlan::Builtin { req: b });
    }
    let idx = pick_source(sources, Some(req.source_id), "");
    proof {
        lemma_index_of_id(sources@, req.source_id);
        lemma_first_with_id_unique(sources@, req.source_id, opt_index(idx), index_of_id(sources@, req.source_id));
    }
    let i = match idx {
        None => return Err(MSG_NO_SUCH_SOURCE.to_owned()),
        Some(i) => i,
    };
    let item = &sources[i];
    if !item.enabled {
        return Err(MSG_SOURCE_DISABLED.to_owned());
    }
    let platform = resolve_platform(item, req.platform.as_str());
    let want: String = match &req.quality {
        Some(q) if !q.as_str().is_empty() => q.clone(),
        _ => quality_for_setting(
            match quality_setting {
                Some(s) => s,
                None => "high",
            },
        ).to_owned(),
    };
    let quality = pick_quality(item, platform.as_str(), want.as_str());
    let request = match music_url(
        item.base_url.as_str(),
        platform.as_str(),
        req.song_id.as_str(),
        quality.as_str(),
        opt_as_str(&req.extra),
        item.api_mode.as_str(),
    ) {
        Ok(q) => q,
        Err(e) => return Err(e),
    };
    let kind = record_kind(platform.as_str());
    let has_source = req.source_id > 0;
    let info = TrackInfo {
        id: None,
        kind: "url".to_owned(),
        path: String::new(),
        title: if req.title.as_str().is_empty() {
            UNKNOWN_TITLE.to_owned()
        } else {
            req.title
        },
        artist: req.artist,
        album: req.album,
        cover: req.cover,
        duration_ms: req.duration_ms,
        nid: None,
        qid: None,
        kgid: None,
        quality: Some(str_to_uppercase(quality.as_str())),
        lx_source_id: if has_source {
            Some(req.source_id)
        } else {
            None
        },
        lx_platform: if has_source {
            Some(platform)
        } else {
            None
        },
        lx_song_id: if has_source {
            Some(req.song_id)
        } else {
            None
        },
    };
    Ok(LxPlayPlan::Source { index: i, request, record_kind: kind, info })
}

// ---------------------------------------------------------------------------
// Built-in platform clients
// ---------------------------------------------------------------------------

pub const MSG_BAD_NETEASE_ID: &'static str = "网易云曲目 ID 无效，无法取链";

pub const MSG_NEEDS_SOURCE: &'static str =
    "该曲目来自音源平台，当前未接入音源无法取链；请在设置 → 音源管理 中添加音源";

pub const MSG_NO_NETEASE_LINK: &'static str = "该歌曲暂无可播放链接（可能需要登录或有效 VIP 权益）";

/// The built-in client a song goes to when no source resolves it.
pub enum BuiltinRoute {
    /// Kugou, by the song's hash.
    Kugou,
    /// Netease Cloud Music, by numeric id.
    Netease(i64),
    /// QQ Music, by song mid (and media mid).
    Qq,
}

pub open spec fn builtin_route_of(platform: Seq<char>, song_id: Seq<char>) -> Result<BuiltinRoute, Seq<char>> {
    if platform == "kg"@ {
        Ok(BuiltinRoute::Kugou)
    } else if platform == "wy"@ {
        match parse_i64(song_id) {
            Some(id) => Ok(BuiltinRoute::Netease(id as i64)),
            None => Err(MSG_BAD_NETEASE_ID@),
        }
    } else if platform == "tx"@ {
        Ok(BuiltinRoute::Qq)
    } else {
        Err(MSG_NEEDS_SOURCE@)
    }
}

pub open spec fn route_result_view(r: Result<BuiltinRoute, String>) -> Result<BuiltinRoute, Seq<char>> {
    match r {
        Ok(x) => Ok(x),
        Err(e) => Err(e@),
    }
}

/// The built-in client that plays a chart song without a source: `kg`
/// Kugou, `wy` Netease (whose ids are numbers), `tx` QQ; other platforms
/// need a source.
pub fn builtin_route(req: &LxPlaySongReq) -> (r: Result<BuiltinRoute, String>)
    ensures
        route_result_view(r) == builtin_route_of(req.platform@, req.song_id@),
{
    let p = chars_of(req.platform.as_str());
    if eq_str(&p, "kg") {
        Ok(BuiltinRoute::Kugou)
    } else if eq_str(&p, "wy") {
        match parse_i64_exec(&chars_of(req.song_id.as_str())) {
            Some(id) => Ok(BuiltinRoute::Netease(id)),
            None => Err(MSG_BAD_NETEASE_ID.to_owned()),
        }
    } else if eq_str(&p, "tx") {
        Ok(BuiltinRoute::Qq)
    } else {
        Err(MSG_NEEDS_SOURCE.to_owned())
    }
}

/// The kind under which a built-in client's track is played and recorded.
pub open spec fn route_kind(route: BuiltinRoute) -> Seq<char> {
    match route {
        BuiltinRoute::Kugou => "kugou"@,
        BuiltinRoute::Netease(_) => "netease"@,
        BuiltinRoute::Qq => "qq"@,
    }
}

pub fn builtin_kind(route: &BuiltinRoute) -> (r: &'static str)
    ensures
        r@ == route_kind(*route),
{
    match route {
        BuiltinRoute::Kugou => "kugou",
        BuiltinRoute::Netease(_) => "netease",
        BuiltinRoute::Qq => "qq",
    }
}

/// The media id recorded with a built-in play: QQ keeps the request's extra
/// context, the others none.
pub open spec fn route_media_mid(route: BuiltinRoute, extra: Option<Seq<char>>) -> Seq<char> {
    match route {
        BuiltinRoute::Qq => or_empty(extra),
        _ => Seq::<char>::empty(),
    }
}

pub fn builtin_media_mid(req: &LxPlaySongReq, route: &BuiltinRoute) -> (r: String)
    ensures
        r@ == route_media_mid(*route, opt_string_view(req.extra)),
{
    match route {
        BuiltinRoute::Qq => match &req.extra {
            Some(e) => e.clone(),
            None => String::new(),
        },
        _ => String::new(),
    }
}

/// The bit rate QQ's quality badge assumes for the `quality` setting.
pub open spec fn qq_bitrate_of(setting: Seq<char>) -> i64 {
    if setting == "standard"@ {
        128
    } else {
        320
    }
}

pub fn qq_bitrate(setting: &str) -> (r: i64)
    ensures
        r == qq_bitrate_of(setting@),
{
    if eq_str(&chars_of(setting), "standard") {
        128
    } else {
        320
    }
}

/// What the player is told about an online track of a built-in client.
pub open spec fn online_info_view(
    kind: Seq<char>,
    title: Seq<char>,
    artist: Seq<char>,
    album: Seq<char>,
    cover: Seq<char>,
    duration_ms: u64,
    nid: Option<i64>,
    qid: Option<Seq<char>>,
    kgid: Option<Seq<char>>,
    label: Seq<char>,
) -> TrackInfoView {
    TrackInfoView {
        id: None,
        kind,
        path: Seq::<char>::empty(),
        title,
        artist,
        album,
        cover,
        duration_ms,
        nid,
        qid,
        kgid,
        quality: Some(label),
        lx_source_id: None,
        lx_platform: None,
        lx_song_id: None,
    }
}

/// The track of a chart song played by a built-in client, with the quality
/// badge `label` of the link it gave.
pub fn builtin_track_info(req: &LxPlaySongReq, route: &BuiltinRoute, label: String) -> (r: TrackInfo)
    ensures
        r@ == online_info_view(
            route_kind(*route),
            req.title@,
            req.artist@,
            req.album@,
            req.cover@,
            req.duration_ms,
            None,
            None,
            None,
            label@,
        ),
{
    TrackInfo {
        id: None,
        kind: builtin_kind(route).to_owned(),
        path: String::new(),
        title: req.title.clone(),
        artist: req.artist.clone(),
        album: req.album.clone(),
        cover: req.cover.clone(),
        duration_ms: req.duration_ms,
        nid: None,
        qid: None,
        kgid: None,
        quality: Some(label),
        lx_source_id: None,
        lx_platform: None,
        lx_song_id: None,
    }
}

/// A Netease track to play.
pub struct NeteasePlayReq {
    pub id: i64,
    pub title: String,
    pub artist: String,
    pub album: String,
    pub cover: String,
    pub duration_ms: u64,
}

/// A QQ Music track to play.
pub struct QqPlayReq {
    pub songmid: String,
    pub title: String,
    pub artist: String,
    pub album: String,
    pub album_mid: String,
    pub media_mid: String,
    pub duration_ms: u64,
    /// The search result's VIP flag.
    pub vip: bool,
}

/// A Kugou track to play.
pub struct KgPlayReq {
    pub hash: String,
    pub title: String,
    pub artist: String,
    pub album: String,
    pub cover: String,
    pub duration_ms: u64,
    /// The search result's paid flag.
    pub vip: bool,
}

/// The Netease track handed to the player.
pub fn netease_track_info(track: NeteasePlayReq, label: String) -> (r: TrackInfo)
    ensures
        r@ == online_info_view(
            "netease"@,
            track.title@,
            track.artist@,
            track.album@,
            track.cover@,
            track.duration_ms,
            Some(track.id),
            None,
            None,
            label@,
        ),
{
    TrackInfo {
        id: None,
        kind: "netease".to_owned(),
        path: String::new(),
        title: track.title,
        artist: track.artist,
        album: track.album,
        cover: track.cover,
        duration_ms: track.duration_ms,
        nid: Some(track.id),
        qid: None,
        kgid: None,
        quality: Some(label),
        lx_source_id: None,
        lx_platform: None,
        lx_song_id: None,
    }
}

/// Cover of a QQ track: the stored one, else the album cover built from
/// the album mid (none without one).
pub open spec fn qq_cover_of(stored: Option<Seq<char>>, album_mid: Seq<char>) -> Seq<char> {
    match stored {
        Some(c) => c,
        None => if album_mid.len() == 0 {
            Seq::<char>::empty()
        } else {
            "https://y.gtimg.cn/music/photo_new/T002R300x300M000"@ + album_mid + ".jpg"@
        },
    }
}

pub fn qq_cover(stored: Option<String>, album_mid: &str) -> (r: String)
    ensures
        r@ == qq_cover_of(opt_string_view(stored), album_mid@),
{
    match stored {
        Some(c) => c,
        None => if album_mid.is_empty() {
            String::new()
        } else {
            let mut v = chars_of("https://y.gtimg.cn/music/photo_new/T002R300x300M000");
            push_str(&mut v, album_mid);
            push_str(&mut v, ".jpg");
            string_of(&v)
        },
    }
}

/// The QQ track handed to the player, with its chosen cover.
pub fn qq_track_info(track: &QqPlayReq, cover: String, label: String) -> (r: TrackInfo)
    ensures
        r@ == online_info_view(
            "qq"@,
            track.title@,
            track.artist@,
            track.album@,
            cover@,
            track.duration_ms,
            None,
            Some(track.songmid@),
            None,
            label@,
        ),
{
    TrackInfo {
        id: None,
        kind: "qq".to_owned(),
        path: String::new(),
        title: track.title.clone(),
        artist: track.artist.clone(),
        album: track.album.clone(),
        cover,
        duration_ms: track.duration_ms,
        nid: None,
        qid: Some(track.songmid.clone()),
        kgid: None,
        quality: Some(label),
        lx_source_id: None,
        lx_platform: None,
        lx_song_id: None,
    }
}

/// Cover of a Kugou track: the stored one when not empty, else the one the
/// search gave.
pub open spec fn kugou_cover_of(stored: Option<Seq<char>>, fallback: Seq<char>) -> Seq<char> {
    let c = or_empty(stored);
    if c.len() == 0 {
        fallback
    } else {
        c
    }
}

pub fn kugou_cover(stored: Option<String>, fallback: &str) -> (r: String)
    ensures
        r@ == kugou_cover_of(opt_string_view(stored), fallback@),
{
    let c = string_or_empty(stored);
    if c.as_str().is_empty() {
        fallback.to_owned()
    } else {
        c
    }
}

/// The Kugou track handed to the player, with its chosen cover.
pub fn kugou_track_info(track: &KgPlayReq, cover: String, label: String) -> (r: TrackInfo)
    ensures
        r@ == online_info_view(
            "kugou"@,
            track.title@,
            track.artist@,
            track.album@,
            cover@,
            track.duration_ms,
            None,
            None,
            Some(track.hash@),
            label@,
        ),
{
    TrackInfo {
        id: None,
        kind: "kugou".to_owned(),
        path: String::new(),
        title: track.title.clone(),
        artist: track.artist.clone(),
        album: track.album.clone(),
        cover,
        duration_ms: track.duration_ms,
        nid: None,
        qid: None,
        kgid: Some(track.hash.clone()),
        quality: Some(label),
        lx_source_id: None,
        lx_platform: None,
        lx_song_id: None,
    }
}

// ---------------------------------------------------------------------------
// Searching the charts
// ---------------------------------------------------------------------------

pub const MSG_EMPTY_KEYWORD: &'static str = "请输入搜索关键词";

pub const VIA_SOURCE_SEARCH: &'static str = "音源搜索";

pub const VIA_BUILTIN: &'static str = "内置平台搜索";

pub const VIA_BUILTIN_NO_SOURCE: &'static str = "内置平台搜索（未接入音源）";

pub const MSG_BUILTIN_ALSO_FAILED: &'static str = "；内置平台搜索同样失败：";

/// A chart search: the trimmed keyword, the number of songs wanted and the
/// requested platform (empty for any).
pub struct SearchQuery {
    pub keyword: String,
    pub limit: i64,
    pub platform: String,
}

/// The number of songs asked for: 30 by default, kept within 1 to 50.
pub open spec fn clamped_limit(limit: Option<i64>) -> i64 {
    let l = match limit {
        Some(v) => v,
        None => 30,
    };
    if l < 1 {
        1
    } else if l > 50 {
        50
    } else {
        l
    }
}

/// Checks a chart search: a blank keyword is refused.
pub fn lx_search_query(keyword: &str, platform: Option<String>, limit: Option<i64>) -> (r: Result<
    SearchQuery,
    String,
>)
    ensures
        match r {
            Ok(q) => {
                &&& !blank(keyword@)
                &&& q.keyword@ == trim(keyword@)
                &&& q.limit == clamped_limit(limit)
                &&& q.platform@ == or_empty(opt_string_view(platform))
            },
            Err(e) => blank(keyword@) && e@ == MSG_EMPTY_KEYWORD@,
        },
{
    let kw = trim_exec(&chars_of(keyword));
    if kw.len() == 0 {
        return Err(MSG_EMPTY_KEYWORD.to_owned());
    }
    let l: i64 = match limit {
        Some(v) => v,
        None => 30,
    };
    let l: i64 = if l < 1 {
        1
    } else if l > 50 {
        50
    } else {
        l
    };
    Ok(SearchQuery { keyword: string_of(&kw), limit: l, platform: string_or_empty(platform) })
}

/// A search through a source: the source's index, the platform code asked
/// and the request URL.
pub struct SourceSearch {
    pub index: usize,
    pub platform: String,
    pub url: String,
}

/// The search a query makes through the enabled `sources`: the source
/// chosen by [`picks_source`], asked for the resolved platform; `None` when
/// no source is chosen.
pub fn lx_search_source(query: &SearchQuery, sources: &Vec<LxSourceItem>, source_id: Option<i64>) -> (r:
    Option<SourceSearch>)
    ensures
        picks_source(
            sources@,
            source_id,
            query.platform@,
            match r {
                Some(x) => Some(x.index as int),
                None => None,
            },
        ),
        r matches Some(x) ==> {
            &&& x.index < sources@.len()
            &&& x.platform@ == resolved_platform(sources@[x.index as int].platforms@, query.platform@)
            &&& x.url@ == search_url(
                sources@[x.index as int].base_url@,
                x.platform@,
                query.keyword@,
                query.limit,
            )
        },
{
    match pick_source(sources, source_id, query.platform.as_str()) {
        None => None,
        Some(i) => {
            let code = resolve_platform(&sources[i], query.platform.as_str());
            let url = search_songs(
                sources[i].base_url.as_str(),
                code.as_str(),
                query.keyword.as_str(),
                query.limit,
            );
            Some(SourceSearch { index: i, platform: code, url })
        },
    }
}

/// The result of a chart search.
pub struct LxSearchOutcome {
    /// How the songs were found.
    pub via: String,
    pub source_id: Option<i64>,
    pub source_name: Option<String>,
    pub platform: String,
    pub songs: Vec<LxSearchSong>,
    /// Why the source's own search failed, when it did.
    pub source_error: Option<String>,
}

/// The songs with their platform set to `code`.
pub open spec fn tagged_songs(songs: Seq<SongView>, code: Seq<char>) -> Seq<SongView> {
    songs.map_values(
        |x: SongView|
            SongView {
                id: x.id,
                title: x.title,
                artist: x.artist,
                album: x.album,
                duration_ms: x.duration_ms,
                platform: code,
                extra: x.extra,
            },
    )
}

fn tag_songs(songs: &Vec<LxSearchSong>, code: &str) -> (r: Vec<LxSearchSong>)
    ensures
        song_views(r@) == tagged_songs(song_views(songs@), code@),
{
    let mut out: Vec<LxSearchSong> = Vec::new();
    let mut i: usize = 0;
    while i < songs.len()
        invariant
            i <= songs@.len(),
            song_views(out@) =~= tagged_songs(song_views(songs@.take(i as int)), code@),
        decreases songs.len() - i,
    {
        let x = &songs[i];
        let y = LxSearchSong {
            id: x.id.clone(),
            title: x.title.clone(),
            artist: x.artist.clone(),
            album: x.album.clone(),
            duration_ms: x.duration_ms,
            platform: code.to_owned(),
            extra: x.extra.clone(),
        };
        let ghost before = out@;
        out.push(y);
        assert(songs@.take(i + 1) =~= songs@.take(i as int).push(songs@[i as int]));
        assert(song_views(out@) =~= song_views(before).push(y@));
        assert(song_views(songs@.take(i + 1)) =~= song_views(songs@.take(i as int)).push(
            songs@[i as int]@,
        ));
        i = i + 1;
    }
    assert(songs@.take(songs@.len() as int) =~= songs@);
    out
}

/// What follows the source's reply to a search.
pub enum SearchNext {
    /// The source found songs: this is the answer.
    Done(LxSearchOutcome),
    /// Fall back to the built-in search, with the source's error if it
    /// failed (none when it found nothing).
    Fallback(Option<String>),
}

/// Reads the source's reply to a search (`search_results` of its reply):
/// songs found are the answer, tagged with the platform asked; nothing
/// found, or a failure, falls back to the built-in search.
pub fn lx_search_source_reply(
    sources: &Vec<LxSourceItem>,
    search: &SourceSearch,
    reply: Result<Vec<LxSearchSong>, String>,
) -> (r: SearchNext)
    requires
        search.index < sources@.len(),
    ensures
        match reply {
            Ok(songs) => if songs@.len() > 0 {
                r matches SearchNext::Done(o) && {
                    &&& o.via@ == VIA_SOURCE_SEARCH@
                    &&& o.source_id == Some(sources@[search.index as int].id)
                    &&& opt_string_view(o.source_name) == Some(
                        sources@[search.index as int].name@,
                    )
                    &&& o.platform@ == search.platform@
                    &&& song_views(o.songs@) == tagged_songs(song_views(songs@), search.platform@)
                    &&& o.source_error is None
                }
            } else {
                r matches SearchNext::Fallback(None)
            },
            Err(e) => r matches SearchNext::Fallback(Some(x)) && x@ == e@,
        },
{
    match reply {
        Ok(songs) => {
            if songs.len() > 0 {
                let item = &sources[search.index];
                SearchNext::Done(
                    LxSearchOutcome {
                        via: VIA_SOURCE_SEARCH.to_owned(),
                        source_id: Some(item.id),
                        source_name: Some(item.name.clone()),
                        platform: search.platform.clone(),
                        songs: tag_songs(&songs, search.platform.as_str()),
                        source_error: None,
                    },
                )
            } else {
                SearchNext::Fallback(None)
            }
        },
        Err(e) => SearchNext::Fallback(Some(e)),
    }
}

/// The built-in platform a chart search falls back to: Netease for `wy` /
/// `netease`, QQ for `tx` / `qq`, Kugou (which needs no account) for any
/// other or none.
pub open spec fn builtin_search_code_of(platform: Seq<char>) -> Seq<char> {
    if platform == "wy"@ || platform == "netease"@ {
        "wy"@
    } else if platform == "tx"@ || platform == "qq"@ {
        "tx"@
    } else {
        "kg"@
    }
}

pub fn builtin_search_code(platform: &str) -> (r: &'static str)
    ensures
        r@ == builtin_search_code_of(platform@),
{
    let p = chars_of(platform);
    if eq_str(&p, "wy") || eq_str(&p, "netease") {
        "wy"
    } else if eq_str(&p, "tx") || eq_str(&p, "qq") {
        "tx"
    } else {
        "kg"
    }
}

/// The answer of a chart search after the built-in search: its songs, with
/// the source that was tried (if any) and the source's error; or, when the
/// built-in search fails too, the error, after the source's.
pub fn lx_search_finish(
    query: &SearchQuery,
    sources: &Vec<LxSourceItem>,
    search: &Option<SourceSearch>,
    source_error: Option<String>,
    builtin: Result<Vec<LxSearchSong>, String>,
) -> (r: Result<LxSearchOutcome, String>)
    requires
        search matches Some(x) ==> x.index < sources@.len(),
    ensures
        match builtin {
            Ok(songs) => r matches Ok(o) && {
                &&& o.via@ == (if search is Some {
                    VIA_BUILTIN@
                } else {
                    VIA_BUILTIN_NO_SOURCE@
                })
                &&& o.source_id == (match search {
                    Some(x) => Some(sources@[x.index as int].id),
                    None => None,
                })
                &&& opt_string_view(o.source_name) == (match search {
                    Some(x) => Some(sources@[x.index as int].name@),
                    None => None,
                })
                &&& o.platform@ == (if songs@.len() > 0 {
                    songs@[0].platform@
                } else {
                    match search {
                        Some(x) => x.platform@,
                        None => query.platform@,
                    }
                })
                &&& song_views(o.songs@) == song_views(songs@)
                &&& opt_string_view(o.source_error) == opt_string_view(source_error)
            },
            Err(e) => r matches Err(x) && x@ == (match source_error {
                Some(se) => se@ + MSG_BUILTIN_ALSO_FAILED@ + e@,
                None => e@,
            }),
        },
{
    match builtin {
        Ok(songs) => {
            let platform = if songs.len() > 0 {
                songs[0].platform.clone()
            } else {
                match search {
                    Some(x) => x.platform.clone(),
                    None => query.platform.clone(),
                }
            };
            let (source_id, source_name) = match search {
                Some(x) => (Some(sources[x.index].id), Some(sources[x.index].name.clone())),
                None => (None, None),
            };
            Ok(
                LxSearchOutcome {
                    via: if search.is_some() {
                        VIA_BUILTIN.to_owned()
                    } else {
                        VIA_BUILTIN_NO_SOURCE.to_owned()
                    },
                    source_id,
                    source_name,
                    platform,
                    songs,
                    source_error,
                },
            )
        },
        Err(e) => match source_error {
            Some(se) => {
                let mut v = chars_of(se.as_str());
                push_str(&mut v, MSG_BUILTIN_ALSO_FAILED);
                push_str(&mut v, e.as_str());
                Err(string_of(&v))
            },
            None => Err(e),
        },
    }
}

// ---------------------------------------------------------------------------
// Saving an online track
// ---------------------------------------------------------------------------

pub const MSG_EMPTY_TITLE: &'static str = "歌曲标题为空";

pub const MSG_BAD_NETEASE_SONG_ID: &'static str = "网易云歌曲 ID 无效";

pub const MSG_UNKNOWN_KIND: &'static str = "未知音源类型";

pub const MSG_NO_LINK: &'static str = "该歌曲暂无可播放链接";

pub const UNKNOWN_ARTIST: &'static str = "Unknown";

/// An online track to save to the download folder.
pub struct OnlineSaveReq {
    /// `netease`, `qq` or `kugou`.
    pub kind: String,
    pub id: String,
    pub title: String,
    pub artist: String,
    pub album: String,
    pub cover_url: String,
    pub duration_ms: u64,
    pub media_mid: String,
}

/// Characters that cannot stand in a Windows file name.
pub open spec fn forbidden_in_name(c: char) -> bool {
    c == '/' || c == '\\' || c == ':' || c == '*' || c == '?' || c == '"' || c == '<' || c == '>'
        || c == '|'
}

/// The text with each forbidden character replaced by a space.
pub open spec fn blanked(s: Seq<char>) -> Seq<char> {
    s.map_values(
        |c: char|
            if forbidden_in_name(c) {
                ' '
            } else {
                c
            },
    )
}

/// A text made fit for a file name: forbidden characters become spaces,
/// and the result is trimmed.
pub open spec fn sanitized(s: Seq<char>) -> Seq<char> {
    trim(blanked(s))
}

/// The text made fit for a file name (see [`sanitized`]).
pub fn sanitize_filename(s: &str) -> (r: String)
    ensures
        r@ == sanitized(s@),
{
    let v = chars_of(s);
    let mut out: Vec<char> = Vec::new();
    let mut i: usize = 0;
    while i < v.len()
        invariant
            i <= v@.len(),
            v@ == s@,
            out@ =~= blanked(v@.take(i as int)),
        decreases v.len() - i,
    {
        let c = v[i];
        let bad = c == '/' || c == '\\' || c == ':' || c == '*' || c == '?' || c == '"' || c == '<'
            || c == '>' || c == '|';
        out.push(
            if bad {
                ' '
            } else {
                c
            },
        );
        assert(v@.take(i + 1) =~= v@.take(i as int).push(c));
        i = i + 1;
    }
    assert(v@.take(v@.len() as int) =~= v@);
    string_of(&trim_exec(&out))
}

/// A sanitized text holds no character that a file name cannot, and
/// neither starts nor ends with whitespace.
pub proof fn sanitized_is_safe(s: Seq<char>)
    ensures
        forall|k: int| 0 <= k < sanitized(s).len() ==> !forbidden_in_name(#[trigger] sanitized(s)[k]),
        sanitized(s).len() > 0 ==> !is_ws(sanitized(s)[0]) && !is_ws(sanitized(s).last()),
{
    let b = blanked(s);
    let a = first_match(b, CharClass::Whitespace, false);
    lemma_first_match_bound(b, CharClass::Whitespace, false);
    let t = b.skip(a as int);
    let n = keep_len(t, CharClass::Whitespace);
    lemma_keep_len_bound(t, CharClass::Whitespace);
    let r = t.take(n as int);
    assert(r == sanitized(s));
    assert forall|k: int| 0 <= k < r.len() implies !forbidden_in_name(#[trigger] r[k]) by {
        assert(r[k] == b[a + k]);
    }
    if r.len() > 0 {
        assert(r[0] == b[a as int]);
        assert(r.last() == t[n - 1]);
    }
}

/// The file name a download is saved under: `{artist} - {title}.{ext}`,
/// with the sanitized artist (`Unknown` when that is empty) and title.
pub open spec fn download_name(artist: Seq<char>, title: Seq<char>, ext: Seq<char>) -> Seq<char> {
    let a = sanitized(artist);
    (if a.len() == 0 {
        UNKNOWN_ARTIST@
    } else {
        a
    }) + " - "@ + sanitized(title) + "."@ + ext
}

pub fn download_file_name(artist: &str, title: &str, ext: &str) -> (r: String)
    ensures
        r@ == download_name(artist@, title@, ext@),
{
    let a = sanitize_filename(artist);
    let mut v = if a.as_str().is_empty() {
        chars_of(UNKNOWN_ARTIST)
    } else {
        chars_of(a.as_str())
    };
    push_str(&mut v, " - ");
    let t = sanitize_filename(title);
    push_str(&mut v, t.as_str());
    push_str(&mut v, ".");
    push_str(&mut v, ext);
    string_of(&v)
}

pub open spec fn download_route_of(kind: Seq<char>, title: Seq<char>, id: Seq<char>) -> Result<BuiltinRoute, Seq<char>> {
    if blank(title) {
        Err(MSG_EMPTY_TITLE@)
    } else if kind == "netease"@ {
        match parse_i64(id) {
            Some(n) => Ok(BuiltinRoute::Netease(n as i64)),
            None => Err(MSG_BAD_NETEASE_SONG_ID@),
        }
    } else if kind == "qq"@ {
        Ok(BuiltinRoute::Qq)
    } else if kind == "kugou"@ {
        Ok(BuiltinRoute::Kugou)
    } else {
        Err(MSG_UNKNOWN_KIND@)
    }
}

/// The client a download is fetched through: a blank title is refused,
/// Netease ids must be numbers, and the kind must be a known one.
pub fn download_route(req: &OnlineSaveReq) -> (r: Result<BuiltinRoute, String>)
    ensures
        route_result_view(r) == download_route_of(req.kind@, req.title@, req.id@),
{
    if is_blank(req.title.as_str()) {
        return Err(MSG_EMPTY_TITLE.to_owned());
    }
    let k = chars_of(req.kind.as_str());
    if eq_str(&k, "netease") {
        match parse_i64_exec(&chars_of(req.id.as_str())) {
            Some(n) => Ok(BuiltinRoute::Netease(n)),
            None => Err(MSG_BAD_NETEASE_SONG_ID.to_owned()),
        }
    } else if eq_str(&k, "qq") {
        Ok(BuiltinRoute::Qq)
    } else if eq_str(&k, "kugou") {
        Ok(BuiltinRoute::Kugou)
    } else {
        Err(MSG_UNKNOWN_KIND.to_owned())
    }
}

/// A text tag written into a saved track.
pub enum TagField {
    Title,
    Artist,
    Album,
    Lyrics,
}

/// What is written into a saved track's tags.
pub struct TagPlan {
    /// Text tags, in the order they are written.
    pub texts: Vec<(TagField, String)>,
    /// Whether a cover is fetched and embedded, and then whether it is a PNG
    /// (else a JPEG).
    pub cover_png: Option<bool>,
}

/// The text tags of a saved track: the title always; the artist and the
/// album when not empty; the lyrics when given and not blank.
pub open spec fn tag_texts(
    title: Seq<char>,
    artist: Seq<char>,
    album: Seq<char>,
    lyrics: Option<Seq<char>>,
) -> Seq<(TagField, Seq<char>)> {
    seq![(TagField::Title, title)] + (if artist.len() > 0 {
        seq![(TagField::Artist, artist)]
    } else {
        Seq::empty()
    }) + (if album.len() > 0 {
        seq![(TagField::Album, album)]
    } else {
        Seq::empty()
    }) + (match lyrics {
        Some(l) => if !blank(l) {
            seq![(TagField::Lyrics, l)]
        } else {
            Seq::empty()
        },
        None => Seq::empty(),
    })
}

pub open spec fn tag_text_views(v: Seq<(TagField, String)>) -> Seq<(TagField, Seq<char>)> {
    v.map_values(|p: (TagField, String)| (p.0, p.1@))
}

/// The tags written into a saved track (see [`tag_texts`]); a cover is
/// embedded when there is a cover address, as a PNG when the address
/// mentions `.png`.
pub fn tag_plan(title: &str, artist: &str, album: &str, cover_url: &str, lyrics: Option<&str>) -> (r:
    TagPlan)
    ensures
        tag_text_views(r.texts@) == tag_texts(title@, artist@, album@, opt_str_view(lyrics)),
        r.cover_png == (if cover_url@.len() == 0 {
            None
        } else {
            Some(contains(cover_url@, ".png"@))
        }),
{
    let mut texts: Vec<(TagField, String)> = Vec::new();
    texts.push((TagField::Title, title.to_owned()));
    if !artist.is_empty() {
        texts.push((TagField::Artist, artist.to_owned()));
    }
    if !album.is_empty() {
        texts.push((TagField::Album, album.to_owned()));
    }
    match lyrics {
        Some(l) => if !is_blank(l) {
            texts.push((TagField::Lyrics, l.to_owned()));
        },
        None => {},
    }
    assert(tag_text_views(texts@) =~= tag_texts(title@, artist@, album@, opt_str_view(lyrics)));
    let cover_png = if cover_url.is_empty() {
        None
    } else {
        Some(contains_str(&chars_of(cover_url), ".png"))
    };
    TagPlan { texts, cover_png }
}

/// The name a saved track is written under: the title is trimmed first,
/// then named as [`download_name`] says.
pub fn download_target_name(req: &OnlineSaveReq, ext: &str) -> (r: String)
    ensures
        r@ == download_name(req.artist@, trim(req.title@), ext@),
{
    let t = string_of(&trim_exec(&chars_of(req.title.as_str())));
    download_file_name(req.artist.as_str(), t.as_str(), ext)
}

// ---------------------------------------------------------------------------
// Source manager commands
// ---------------------------------------------------------------------------

pub const MSG_BAD_SOURCE_SCHEME: &'static str = "音源地址必须以 http:// 或 https:// 开头";

pub const MSG_NO_HLS: &'static str = "暂不支持 m3u8/HLS，请使用音频文件直链";

/// What adding a direct-link source does.
pub enum SourceAdd {
    /// The address is already listed, under this id.
    Existing(i64),
    /// A new source with this (trimmed) address.
    New(String),
}

/// The id of the first listed source whose address is `url`.
pub open spec fn source_with_url(sources: Seq<SourceItem>, url: Seq<char>, r: Option<int>) -> bool {
    match r {
        Some(i) => 0 <= i < sources.len() && sources[i].url@ == url && forall|j: int|
            0 <= j < i ==> (#[trigger] sources[j]).url@ != url,
        None => forall|j: int| 0 <= j < sources.len() ==> (#[trigger] sources[j]).url@ != url,
    }
}

/// Checks a direct-link source address against the listed sources: once
/// trimmed it must be an http(s) address and not an HLS playlist; an
/// address already listed gives the listed id.
pub fn add_source_check(url: &str, sources: &Vec<SourceItem>) -> (r: Result<SourceAdd, String>)
    ensures
        ({
            let u = trim(url@);
            match r {
                Err(e) => if !starts_with(u, "http://"@) && !starts_with(u, "https://"@) {
                    e@ == MSG_BAD_SOURCE_SCHEME@
                } else {
                    contains(u, ".m3u8"@) && e@ == MSG_NO_HLS@
                },
                Ok(SourceAdd::Existing(id)) => {
                    &&& starts_with(u, "http://"@) || starts_with(u, "https://"@)
                    &&& !contains(u, ".m3u8"@)
                    &&& exists|i: int| #[trigger] source_with_url(sources@, u, Some(i)) && sources@[i].id == id
                },
                Ok(SourceAdd::New(x)) => {
                    &&& starts_with(u, "http://"@) || starts_with(u, "https://"@)
                    &&& !contains(u, ".m3u8"@)
                    &&& source_with_url(sources@, u, None)
                    &&& x@ == u
                },
            }
        }),
{
    let u = trim_exec(&chars_of(url));
    if !starts_with_str(&u, "http://") && !starts_with_str(&u, "https://") {
        return Err(MSG_BAD_SOURCE_SCHEME.to_owned());
    }
    if contains_str(&u, ".m3u8") {
        return Err(MSG_NO_HLS.to_owned());
    }
    let mut i: usize = 0;
    while i < sources.len()
        invariant
            i <= sources@.len(),
            u@ == trim(url@),
            starts_with(u@, "http://"@) || starts_with(u@, "https://"@),
            !contains(u@, ".m3u8"@),
            forall|j: int| 0 <= j < i ==> (#[trigger] sources@[j]).url@ != u@,
        decreases sources.len() - i,
    {
        let c = chars_of(sources[i].url.as_str());
        if eq_chars(&c, &u) {
            assert(source_with_url(sources@, u@, Some(i as int)));
            return Ok(SourceAdd::Existing(sources[i].id));
        }
        i = i + 1;
    }
    Ok(SourceAdd::New(string_of(&u)))
}

pub const MSG_NOT_SCRIPT_FILE: &'static str = "请选择音源脚本文件（.js）";

pub const MSG_SCRIPT_TOO_LARGE: &'static str = "脚本文件超过 1 MB，疑似不是音源脚本";

/// The largest script file read (1 MiB).
pub const MAX_SCRIPT_BYTES: u64 = 1048576;

/// Whether a path names a script file: it ends, lower-cased, in `.js`,
/// `.txt` or `.json`.
pub open spec fn script_file_name(path: Seq<char>) -> bool {
    let l = lowercase(path);
    ends_with(l, ".js"@) || ends_with(l, ".txt"@) || ends_with(l, ".json"@)
}

/// Checks the name of a script file chosen for import, before the file is
/// touched.
pub fn script_name_check(path: &str) -> (r: Result<(), String>)
    ensures
        match r {
            Ok(()) => script_file_name(path@),
            Err(e) => !script_file_name(path@) && e@ == MSG_NOT_SCRIPT_FILE@,
        },
{
    let l = lower_chars(&chars_of(path));
    if !ends_with_str(&l, ".js") && !ends_with_str(&l, ".txt") && !ends_with_str(&l, ".json") {
        return Err(MSG_NOT_SCRIPT_FILE.to_owned());
    }
    Ok(())
}

/// Checks the size of a script file before it is read: at most 1 MiB.
pub fn script_size_check(size: u64) -> (r: Result<(), String>)
    ensures
        match r {
            Ok(()) => size <= MAX_SCRIPT_BYTES,
            Err(e) => size > MAX_SCRIPT_BYTES && e@ == MSG_SCRIPT_TOO_LARGE@,
        },
{
    if size > MAX_SCRIPT_BYTES {
        return Err(MSG_SCRIPT_TOO_LARGE.to_owned());
    }
    Ok(())
}

pub const MSG_SOURCE_MISSING: &'static str = "音源不存在";

/// The listed source with id `id`, which must be enabled; `missing` is the
/// error when there is none.
pub fn enabled_source(sources: &Vec<LxSourceItem>, id: i64, missing: &str) -> (r: Result<usize, String>)
    ensures
        match r {
            Ok(i) => i < sources@.len() && index_of_id(sources@, id) == Some(i as int)
                && sources@[i as int].enabled,
            Err(e) => match index_of_id(sources@, id) {
                None => e@ == missing@,
                Some(i) => !sources@[i].enabled && e@ == MSG_SOURCE_DISABLED@,
            },
        },
{
    let idx = pick_source(sources, Some(id), "");
    proof {
        lemma_index_of_id(sources@, id);
        lemma_first_with_id_unique(sources@, id, opt_index(idx), index_of_id(sources@, id));
    }
    match idx {
        None => Err(missing.to_owned()),
        Some(i) => if sources[i].enabled {
            Ok(i)
        } else {
            Err(MSG_SOURCE_DISABLED.to_owned())
        },
    }
}

/// The test link request of the source manager: through the enabled source
/// `source_id`, at the requested quality (`320k` when none is).
pub fn lx_resolve_request(
    sources: &Vec<LxSourceItem>,
    source_id: i64,
    platform: &str,
    song_id: &str,
    quality: Option<&str>,
    extra: Option<&str>,
) -> (r: Result<LxRequest, String>)
    ensures
        match index_of_id(sources@, source_id) {
            None => r matches Err(e) && e@ == MSG_SOURCE_MISSING@,
            Some(i) => if !sources@[i].enabled {
                r matches Err(e) && e@ == MSG_SOURCE_DISABLED@
            } else {
                request_result_view(r) == music_url_request(
                    sources@[i].base_url@,
                    platform@,
                    song_id@,
                    match quality {
                        Some(q) => q@,
                        None => "320k"@,
                    },
                    opt_str_view(extra),
                    sources@[i].api_mode@,
                )
            },
        },
{
    let i = match enabled_source(sources, source_id, MSG_SOURCE_MISSING) {
        Ok(i) => i,
        Err(e) => return Err(e),
    };
    music_url(
        sources[i].base_url.as_str(),
        platform,
        song_id,
        match quality {
            Some(q) => q,
            None => "320k",
        },
        extra,
        sources[i].api_mode.as_str(),
    )
}

/// The lyric request of a song played through a source: through the
/// enabled source `source_id` (see `lyric`).
pub fn lx_lyric_request(sources: &Vec<LxSourceItem>, source_id: i64, platform: &str, song_id: &str) -> (r:
    Result<String, String>)
    ensures
        match index_of_id(sources@, source_id) {
            None => r matches Err(e) && e@ == MSG_NO_SUCH_SOURCE@,
            Some(i) => if !sources@[i].enabled {
                r matches Err(e) && e@ == MSG_SOURCE_DISABLED@
            } else {
                match r {
                    Ok(u) => !bad_song_id(song_id@) && u@ == sources@[i].base_url@
                        + "/lyric.php?source="@ + platform@ + "&id="@ + song_id@,
                    Err(e) => bad_song_id(song_id@) && e@ == MSG_BAD_SONG_ID_LYRIC@,
                }
            },
        },
{
    let i = match enabled_source(sources, source_id, MSG_NO_SUCH_SOURCE) {
        Ok(i) => i,
        Err(e) => return Err(e),
    };
    lyric(sources[i].base_url.as_str(), platform, song_id)
}

// ---------------------------------------------------------------------------
// Local playback
// ---------------------------------------------------------------------------

/// Badge of a local file: `{kHz}kHz/{bits}bit` for 16-bit / 44.1 kHz and
/// better, else `{kbps}kbps` when the bit rate is known, else none.
pub open spec fn local_quality(bit_depth: i64, sample_rate: i64, bitrate: i64) -> Option<Seq<char>> {
    if bit_depth >= 16 && sample_rate >= 44100 {
        Some(decimal_int(sample_rate / 1000) + "kHz/"@ + decimal_int(bit_depth as int) + "bit"@)
    } else if bitrate > 0 {
        Some(decimal_int(bitrate / 1000) + "kbps"@)
    } else {
        None
    }
}

pub fn local_quality_label(bit_depth: i64, sample_rate: i64, bitrate: i64) -> (r: Option<String>)
    ensures
        opt_string_view(r) == local_quality(bit_depth, sample_rate, bitrate),
{
    if bit_depth >= 16 && sample_rate >= 44100 {
        let mut v = i64_to_chars(sample_rate / 1000);
        push_str(&mut v, "kHz/");
        push_all(&mut v, &i64_to_chars(if bit_depth > 16 { bit_depth } else { 16 }));
        push_str(&mut v, "bit");
        Some(string_of(&v))
    } else if bitrate > 0 {
        let mut v = i64_to_chars(bitrate / 1000);
        push_str(&mut v, "kbps");
        Some(string_of(&v))
    } else {
        None
    }
}

pub const ONLINE_SOURCE: &'static str = "在线音源";

/// Title of a direct-link source when it is played: its title, else the
/// last `/`-separated segment of its address.
pub open spec fn source_title_of(title: Seq<char>, url: Seq<char>) -> Seq<char> {
    if title.len() == 0 {
        split_by(url, CharClass::Is('/')).last()
    } else {
        title
    }
}

/// What the player is told about a direct-link source.
pub fn source_track_info(item: &SourceItem) -> (r: TrackInfo)
    ensures
        r@ == (TrackInfoView {
            id: None,
            kind: "url"@,
            path: Seq::<char>::empty(),
            title: source_title_of(item.title@, item.url@),
            artist: ONLINE_SOURCE@,
            album: Seq::<char>::empty(),
            cover: Seq::<char>::empty(),
            duration_ms: 0,
            nid: None,
            qid: None,
            kgid: None,
            quality: None,
            lx_source_id: None,
            lx_platform: None,
            lx_song_id: None,
        }),
{
    let title = if item.title.as_str().is_empty() {
        let parts = split_exec(&chars_of(item.url.as_str()), CharClass::Is('/'));
        proof {
            lemma_split_nonempty(item.url@, CharClass::Is('/'));
        }
        let last = parts.len() - 1;
        string_of(&parts[last])
    } else {
        item.title.clone()
    };
    TrackInfo {
        id: None,
        kind: "url".to_owned(),
        path: String::new(),
        title,
        artist: ONLINE_SOURCE.to_owned(),
        album: String::new(),
        cover: String::new(),
        duration_ms: 0,
        nid: None,
        qid: None,
        kgid: None,
        quality: None,
        lx_source_id: None,
        lx_platform: None,
        lx_song_id: None,
    }
}

// ---------------------------------------------------------------------------
// Settings and small checks
// ---------------------------------------------------------------------------

pub const MSG_BAD_QUALITY: &'static str = "无效的音质选项";

pub const MSG_BAD_CLOSE_ACTION: &'static str = "无效的关闭行为";

pub const MSG_UNKNOWN_ORDER_LIST: &'static str = "未知排序列表";

pub const MSG_EMPTY_PLAYLIST_NAME: &'static str = "播放列表名称不能为空";

pub const MSG_QQ_LOGIN_NEEDED: &'static str = "未登录 QQ 音乐账号，无法获取播放链接，请先扫码登录";

pub const MSG_NETEASE_LOGIN_NEEDED: &'static str = "未登录网易云账号";

pub const MSG_BAD_ACCOUNT_ID: &'static str = "账号 ID 无效";

pub const MSG_EQ_BANDS: &'static str = "均衡器需要 10 个频段的增益";

pub const MSG_UNSUPPORTED_LINK: &'static str = "不支持的链接";

/// The playback quality setting accepts `standard`, `high` and `lossless`.
pub fn check_play_quality(quality: &str) -> (r: Result<(), String>)
    ensures
        match r {
            Ok(()) => quality@ == "standard"@ || quality@ == "high"@ || quality@ == "lossless"@,
            Err(e) => !(quality@ == "standard"@ || quality@ == "high"@ || quality@ == "lossless"@)
                && e@ == MSG_BAD_QUALITY@,
        },
{
    let q = chars_of(quality);
    if eq_str(&q, "standard") || eq_str(&q, "high") || eq_str(&q, "lossless") {
        Ok(())
    } else {
        Err(MSG_BAD_QUALITY.to_owned())
    }
}

/// The close-window setting accepts `tray` and `exit`.
pub fn check_close_action(action: &str) -> (r: Result<(), String>)
    ensures
        match r {
            Ok(()) => action@ == "tray"@ || action@ == "exit"@,
            Err(e) => !(action@ == "tray"@ || action@ == "exit"@) && e@ == MSG_BAD_CLOSE_ACTION@,
        },
{
    let a = chars_of(action);
    if eq_str(&a, "tray") || eq_str(&a, "exit") {
        Ok(())
    } else {
        Err(MSG_BAD_CLOSE_ACTION.to_owned())
    }
}

/// Manual orders are kept for the `library` and the `liked` lists only.
pub fn check_order_list(list: &str) -> (r: Result<(), String>)
    ensures
        match r {
            Ok(()) => list@ == "library"@ || list@ == "liked"@,
            Err(e) => !(list@ == "library"@ || list@ == "liked"@) && e@ == MSG_UNKNOWN_ORDER_LIST@,
        },
{
    let l = chars_of(list);
    if eq_str(&l, "library") || eq_str(&l, "liked") {
        Ok(())
    } else {
        Err(MSG_UNKNOWN_ORDER_LIST.to_owned())
    }
}

/// A new playlist's name, trimmed; a blank one is refused.
pub fn playlist_name(name: &str) -> (r: Result<String, String>)
    ensures
        match r {
            Ok(n) => !blank(name@) && n@ == trim(name@),
            Err(e) => blank(name@) && e@ == MSG_EMPTY_PLAYLIST_NAME@,
        },
{
    let t = trim_exec(&chars_of(name));
    if t.len() == 0 {
        Err(MSG_EMPTY_PLAYLIST_NAME.to_owned())
    } else {
        Ok(string_of(&t))
    }
}

/// QQ requests need both the stored music id and key.
pub fn check_qq_credential(musicid: &str, musickey: &str) -> (r: Result<(), String>)
    ensures
        match r {
            Ok(()) => musicid@.len() > 0 && musickey@.len() > 0,
            Err(e) => (musicid@.len() == 0 || musickey@.len() == 0) && e@ == MSG_QQ_LOGIN_NEEDED@,
        },
{
    if musicid.is_empty() || musickey.is_empty() {
        Err(MSG_QQ_LOGIN_NEEDED.to_owned())
    } else {
        Ok(())
    }
}

/// The Netease account whose liked songs are listed: none without a stored
/// id and cookie; a stored id must be a number.
pub fn netease_like_account(uid: &str, music_u: &str) -> (r: Result<Option<i64>, String>)
    ensures
        if uid@.len() == 0 || music_u@.len() == 0 {
            r matches Ok(None)
        } else {
            match parse_i64(uid@) {
                Some(v) => r == Ok::<Option<i64>, String>(Some(v as i64)),
                None => r matches Err(e) && e@ == MSG_BAD_ACCOUNT_ID@,
            }
        },
{
    if uid.is_empty() || music_u.is_empty() {
        return Ok(None);
    }
    match parse_i64_exec(&chars_of(uid)) {
        Some(v) => Ok(Some(v)),
        None => Err(MSG_BAD_ACCOUNT_ID.to_owned()),
    }
}

/// The Netease account whose playlists are listed: a cookie is needed;
/// without a stored id it must be looked up (`None`), else the stored id
/// must be a number.
pub fn netease_playlist_account(uid: &str, music_u: &str) -> (r: Result<Option<i64>, String>)
    ensures
        if music_u@.len() == 0 {
            r matches Err(e) && e@ == MSG_NETEASE_LOGIN_NEEDED@
        } else if uid@.len() == 0 {
            r matches Ok(None)
        } else {
            match parse_i64(uid@) {
                Some(v) => r == Ok::<Option<i64>, String>(Some(v as i64)),
                None => r matches Err(e) && e@ == MSG_BAD_ACCOUNT_ID@,
            }
        },
{
    if music_u.is_empty() {
        return Err(MSG_NETEASE_LOGIN_NEEDED.to_owned());
    }
    if uid.is_empty() {
        return Ok(None);
    }
    match parse_i64_exec(&chars_of(uid)) {
        Some(v) => Ok(Some(v)),
        None => Err(MSG_BAD_ACCOUNT_ID.to_owned()),
    }
}

/// The stored output device preference: a named device, or none (follow
/// the system default) for an absent or empty name.
pub fn device_preference(name: Option<String>) -> (r: Option<String>)
    ensures
        opt_string_view(r) == (match opt_string_view(name) {
            Some(n) => if n.len() > 0 {
                Some(n)
            } else {
                None
            },
            None => None,
        }),
{
    match name {
        Some(n) => if n.as_str().is_empty() {
            None
        } else {
            Some(n)
        },
        None => None,
    }
}

/// The equalizer takes ten band gains.
pub fn check_eq_bands(n: usize) -> (r: Result<(), String>)
    ensures
        match r {
            Ok(()) => n == 10,
            Err(e) => n != 10 && e@ == MSG_EQ_BANDS@,
        },
{
    if n != 10 {
        Err(MSG_EQ_BANDS.to_owned())
    } else {
        Ok(())
    }
}

/// Only web links are opened in the browser.
pub fn check_web_link(url: &str) -> (r: Result<(), String>)
    ensures
        match r {
            Ok(()) => starts_with(url@, "http://"@) || starts_with(url@, "https://"@),
            Err(e) => !(starts_with(url@, "http://"@) || starts_with(url@, "https://"@)) && e@
                == MSG_UNSUPPORTED_LINK@,
        },
{
    let u = chars_of(url);
    if starts_with_str(&u, "http://") || starts_with_str(&u, "https://") {
        Ok(())
    } else {
        Err(MSG_UNSUPPORTED_LINK.to_owned())
    }
}

/// The default cache limit: 2 GiB.
pub const DEFAULT_CACHE_LIMIT: u64 = 2147483648;

/// The settings that are not sound levels.
pub struct CoreSettings {
    pub eq_enabled: bool,
    /// standard | high | lossless
    pub quality: String,
    /// Cache limit in bytes, 0 for none.
    pub cache_limit: u64,
    /// tray | exit
    pub close_action: String,
    pub auto_update: bool,
}

/// Reads the stored settings: the equalizer is on only when stored as
/// `true`; quality defaults to `high`; the cache limit to 2 GiB (also when
/// not a number); the close action to `tray`; automatic updates are on
/// unless stored as `false`.
pub fn core_settings(
    eq_enabled: Option<&str>,
    quality: Option<String>,
    cache_limit: Option<&str>,
    close_action: Option<String>,
    auto_update: Option<&str>,
) -> (r: CoreSettings)
    ensures
        r.eq_enabled == (opt_str_view(eq_enabled) == Some("true"@)),
        r.quality@ == (match opt_string_view(quality) {
            Some(q) => q,
            None => "high"@,
        }),
        r.cache_limit == (match opt_str_view(cache_limit) {
            Some(c) => match parse_radix(c, 10, u64::MAX as nat) {
                Some(v) => v as u64,
                None => DEFAULT_CACHE_LIMIT,
            },
            None => DEFAULT_CACHE_LIMIT,
        }),
        r.close_action@ == (match opt_string_view(close_action) {
            Some(a) => a,
            None => "tray"@,
        }),
        r.auto_update == (opt_str_view(auto_update) != Some("false"@)),
{
    let eq_on = match eq_enabled {
        Some(s) => eq_str(&chars_of(s), "true"),
        None => false,
    };
    let limit = match cache_limit {
        Some(c) => match parse_radix_exec(&chars_of(c), 10, u64::MAX) {
            Some(v) => v,
            None => DEFAULT_CACHE_LIMIT,
        },
        None => DEFAULT_CACHE_LIMIT,
    };
    let auto = match auto_update {
        Some(s) => !eq_str(&chars_of(s), "false"),
        None => true,
    };
    CoreSettings {
        eq_enabled: eq_on,
        quality: match quality {
            Some(q) => q,
            None => "high".to_owned(),
        },
        cache_limit: limit,
        close_action: match close_action {
            Some(a) => a,
            None => "tray".to_owned(),
        },
        auto_update: auto,
    }
}

/// The stored form of the automatic-update switch.
pub fn auto_update_value(enabled: bool) -> (r: &'static str)
    ensures
        r@ == (if enabled {
            "true"@
        } else {
            "false"@
        }),
{
    if enabled {
        "true"
    } else {
        "false"
    }
}

/// The settings a QR login stores: on `success` with a cookie, the cookie,
/// then the nickname and the user id when given; nothing otherwise.
pub open spec fn netease_login_writes(
    status: Seq<char>,
    music_u: Option<Seq<char>>,
    nickname: Option<Seq<char>>,
    user_id: Option<i64>,
) -> Seq<(Seq<char>, Seq<char>)> {
    if status == "success"@ && music_u is Some {
        seq![("netease_music_u"@, music_u->0)] + (match nickname {
            Some(n) => seq![("netease_nickname"@, n)],
            None => Seq::empty(),
        }) + (match user_id {
            Some(u) => seq![("netease_uid"@, decimal_int(u as int))],
            None => Seq::empty(),
        })
    } else {
        Seq::empty()
    }
}

pub open spec fn setting_views(v: Seq<(String, String)>) -> Seq<(Seq<char>, Seq<char>)> {
    v.map_values(|p: (String, String)| (p.0@, p.1@))
}

/// The settings a Netease QR login check stores (see
/// [`netease_login_writes`]).
pub fn netease_login_settings(
    status: &str,
    music_u: &Option<String>,
    nickname: &Option<String>,
    user_id: Option<i64>,
) -> (r: Vec<(String, String)>)
    ensures
        setting_views(r@) == netease_login_writes(
            status@,
            opt_string_view(*music_u),
            opt_string_view(*nickname),
            user_id,
        ),
{
    let mut out: Vec<(String, String)> = Vec::new();
    if eq_str(&chars_of(status), "success") {
        if let Some(m) = music_u {
            out.push(("netease_music_u".to_owned(), m.clone()));
            if let Some(n) = nickname {
                out.push(("netease_nickname".to_owned(), n.clone()));
            }
            if let Some(u) = user_id {
                out.push(("netease_uid".to_owned(), string_of(&i64_to_chars(u))));
            }
        }
    }
    assert(setting_views(out@) =~= netease_login_writes(
        status@,
        opt_string_view(*music_u),
        opt_string_view(*nickname),
        user_id,
    ));
    out
}

/// The settings a QQ QR login stores: on `success` with both a music id
/// and a key, those, then the encrypted uin and the nickname when given.
pub open spec fn qq_login_writes(
    status: Seq<char>,
    musicid: Option<Seq<char>>,
    musickey: Option<Seq<char>>,
    encrypt_uin: Option<Seq<char>>,
    nickname: Option<Seq<char>>,
) -> Seq<(Seq<char>, Seq<char>)> {
    if status == "success"@ && musicid is Some && musickey is Some {
        seq![("qq_musicid"@, musicid->0), ("qq_musickey"@, musickey->0)] + (match encrypt_uin {
            Some(e) => seq![("qq_encrypt_uin"@, e)],
            None => Seq::empty(),
        }) + (match nickname {
            Some(n) => seq![("qq_nickname"@, n)],
            None => Seq::empty(),
        })
    } else {
        Seq::empty()
    }
}

/// The settings a QQ QR login check stores (see [`qq_login_writes`]).
pub fn qq_login_settings(
    status: &str,
    musicid: &Option<String>,
    musickey: &Option<String>,
    encrypt_uin: &Option<String>,
    nickname: &Option<String>,
) -> (r: Vec<(String, String)>)
    ensures
        setting_views(r@) == qq_login_writes(
            status@,
            opt_string_view(*musicid),
            opt_string_view(*musickey),
            opt_string_view(*encrypt_uin),
            opt_string_view(*nickname),
        ),
{
    let mut out: Vec<(String, String)> = Vec::new();
    if eq_str(&chars_of(status), "success") {
        if let (Some(id), Some(key)) = (musicid, musickey) {
            out.push(("qq_musicid".to_owned(), id.clone()));
            out.push(("qq_musickey".to_owned(), key.clone()));
            if let Some(e) = encrypt_uin {
                out.push(("qq_encrypt_uin".to_owned(), e.clone()));
            }
            if let Some(n) = nickname {
                out.push(("qq_nickname".to_owned(), n.clone()));
            }
        }
    }
    assert(setting_views(out@) =~= qq_login_writes(
        status@,
        opt_string_view(*musicid),
        opt_string_view(*musickey),
        opt_string_view(*encrypt_uin),
        opt_string_view(*nickname),
    ));
    out
}

/// Album cover of a QQ playlist track.
pub fn qq_album_cover(album_mid: &str) -> (r: String)
    ensures
        r@ == "https://y.gtimg.cn/music/photo_new/T002R300x300M000"@ + album_mid@ + ".jpg"@,
{
    let mut v = chars_of("https://y.gtimg.cn/music/photo_new/T002R300x300M000");
    push_str(&mut v, album_mid);
    push_str(&mut v, ".jpg");
    string_of(&v)
}

// ---------------------------------------------------------------------------
// Dropped paths and the download folder
// ---------------------------------------------------------------------------

/// What a path dropped on the window does.
pub enum DropAction {
    /// Nothing (missing, or neither a folder nor an audio file).
    Skip,
    /// The folder joins the library (and a rescan follows).
    AddFolder,
    /// The audio file is parsed into the library.
    ImportFile,
}

/// The effect of a dropped path that exists or not, is a folder or not,
/// and is named as audio or not.
pub fn drop_action(exists: bool, is_dir: bool, audio: bool) -> (r: DropAction)
    ensures
        r == (if !exists {
            DropAction::Skip
        } else if is_dir {
            DropAction::AddFolder
        } else if audio {
            DropAction::ImportFile
        } else {
            DropAction::Skip
        }),
{
    if !exists {
        DropAction::Skip
    } else if is_dir {
        DropAction::AddFolder
    } else if audio {
        DropAction::ImportFile
    } else {
        DropAction::Skip
    }
}

/// The folder downloads are saved to: the `save_dir` setting when it is
/// set and not empty (`None`: the default folder under the app data).
pub fn custom_save_dir(setting: Option<String>) -> (r: Option<String>)
    ensures
        opt_string_view(r) == (match opt_string_view(setting) {
            Some(d) => if d.len() > 0 {
                Some(d)
            } else {
                None
            },
            None => None,
        }),
{
    device_preference(setting)
}

} // verus!
