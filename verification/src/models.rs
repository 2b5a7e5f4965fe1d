//! Plain data records shared by the library and the front end.
use vstd::prelude::*;

verus! {

/// The views of a sequence of strings.
pub open spec fn string_views(v: Seq<String>) -> Seq<Seq<char>> {
    v.map_values(|x: String| x@)
}

/// The view of an optional string.
pub open spec fn opt_string_view(o: Option<String>) -> Option<Seq<char>> {
    match o {
        Some(v) => Some(v@),
        None => None,
    }
}

/// A watched library folder.
#[derive(Debug)]
pub struct Folder {
    pub id: i64,
    pub path: String,
}

/// A direct-link online source.
#[derive(Debug)]
pub struct SourceItem {
    pub id: i64,
    pub url: String,
    pub title: String,
    pub created_at: i64,
}

/// One platform declared by an LX-compatible source (a script's `sources`
/// block or an entry of `platforms.php`).
#[derive(Debug)]
pub struct LxPlatform {
    /// Platform code: wy / tx / kw / kg / mg / joox …
    pub code: String,
    pub name: String,
    pub actions: Vec<String>,
    pub qualitys: Vec<String>,
}

/// Mathematical model of an [`LxPlatform`].
pub struct PlatformView {
    pub code: Seq<char>,
    pub name: Seq<char>,
    pub actions: Seq<Seq<char>>,
    pub qualitys: Seq<Seq<char>>,
}

impl View for LxPlatform {
    type V = PlatformView;

    open spec fn view(&self) -> PlatformView {
        PlatformView {
            code: self.code@,
            name: self.name@,
            actions: string_views(self.actions@),
            qualitys: string_views(self.qualitys@),
        }
    }
}

/// The views of a sequence of platforms.
pub open spec fn platform_views(v: Seq<LxPlatform>) -> Seq<PlatformView> {
    v.map_values(|p: LxPlatform| p@)
}

/// An entry of the source manager (`lx_sources` table).
#[derive(Debug)]
pub struct LxSourceItem {
    pub id: i64,
    /// `script` = imported / subscribed script; `network` = a bare API base.
    pub kind: String,
    pub name: String,
    /// API base without a trailing slash.
    pub base_url: String,
    /// Script text of `script` entries, as imported; empty otherwise.
    pub origin: String,
    pub platforms: Vec<LxPlatform>,
    pub enabled: bool,
    /// `""` = standard LX protocol; `"v1"` = custom `POST /v1/music/resolve-url`.
    pub api_mode: String,
    pub created_at: i64,
}

/// A song of a chart / search result.
#[derive(Debug)]
pub struct LxSearchSong {
    pub id: String,
    pub title: String,
    pub artist: String,
    pub album: String,
    pub duration_ms: u64,
    pub platform: String,
    pub extra: String,
}

/// Mathematical model of an [`LxSearchSong`].
pub struct SongView {
    pub id: Seq<char>,
    pub title: Seq<char>,
    pub artist: Seq<char>,
    pub album: Seq<char>,
    pub duration_ms: u64,
    pub platform: Seq<char>,
    pub extra: Seq<char>,
}

impl View for LxSearchSong {
    type V = SongView;

    open spec fn view(&self) -> SongView {
        SongView {
            id: self.id@,
            title: self.title@,
            artist: self.artist@,
            album: self.album@,
            duration_ms: self.duration_ms,
            platform: self.platform@,
            extra: self.extra@,
        }
    }
}

/// The views of a sequence of songs.
pub open spec fn song_views(v: Seq<LxSearchSong>) -> Seq<SongView> {
    v.map_values(|s: LxSearchSong| s@)
}

/// One lyric line.
#[derive(Debug)]
pub struct LyricLine {
    pub time_ms: Option<u64>,
    pub text: String,
    /// Per-word timing (yrc / enhanced LRC) when known.
    pub words: Option<Vec<Word>>,
}

/// Start and end time of one word.
#[derive(Debug)]
pub struct Word {
    pub start_ms: u64,
    pub end_ms: u64,
    pub text: String,
}

/// Lyrics handed to the front end.
#[derive(Debug)]
pub struct LyricsPayload {
    pub synced: bool,
    pub lines: Vec<LyricLine>,
}

/// A playlist of a remote account.
#[derive(Debug)]
pub struct UserPlaylistMeta {
    pub id: i64,
    pub name: String,
    pub track_count: i64,
}

/// What the player knows of the track being played.
#[derive(Debug)]
pub struct TrackInfo {
    pub id: Option<i64>,
    /// track | url | netease | qq | kugou
    pub kind: String,
    pub path: String,
    pub title: String,
    pub artist: String,
    pub album: String,
    pub cover: String,
    pub duration_ms: u64,
    pub nid: Option<i64>,
    pub qid: Option<String>,
    pub kgid: Option<String>,
    pub quality: Option<String>,
    pub lx_source_id: Option<i64>,
    pub lx_platform: Option<String>,
    pub lx_song_id: Option<String>,
}

/// Mathematical model of a [`TrackInfo`].
pub struct TrackInfoView {
    pub id: Option<i64>,
    pub kind: Seq<char>,
    pub path: Seq<char>,
    pub title: Seq<char>,
    pub artist: Seq<char>,
    pub album: Seq<char>,
    pub cover: Seq<char>,
    pub duration_ms: u64,
    pub nid: Option<i64>,
    pub qid: Option<Seq<char>>,
    pub kgid: Option<Seq<char>>,
    pub quality: Option<Seq<char>>,
    pub lx_source_id: Option<i64>,
    pub lx_platform: Option<Seq<char>>,
    pub lx_song_id: Option<Seq<char>>,
}

impl View for TrackInfo {
    type V = TrackInfoView;

    open spec fn view(&self) -> TrackInfoView {
        TrackInfoView {
            id: self.id,
            kind: self.kind@,
            path: self.path@,
            title: self.title@,
            artist: self.artist@,
            album: self.album@,
            cover: self.cover@,
            duration_ms: self.duration_ms,
            nid: self.nid,
            qid: opt_string_view(self.qid),
            kgid: opt_string_view(self.kgid),
            quality: opt_string_view(self.quality),
            lx_source_id: self.lx_source_id,
            lx_platform: opt_string_view(self.lx_platform),
            lx_song_id: opt_string_view(self.lx_song_id),
        }
    }
}

/// Messages to the system media controls thread.
pub enum SmtcMsg {
    Update { info: Option<TrackInfo>, playing: bool, pos_ms: u64 },
    /// Progress refresh only (sent periodically while playing).
    Position { playing: bool, pos_ms: u64 },
}

} // verus!
