//! A library track from the bytes of its audio file: the tags and audio
//! properties that `lofty` reads, the embedded cover it carries, and that
//! cover as the library stores it, re-encoded by `image`.
use vstd::prelude::*;

use std::io::Cursor;

use image::ImageFormat;
use lofty::file::{AudioFile, FileType, TaggedFileExt};
use lofty::picture::{MimeType, PictureType};
use lofty::probe::Probe;
use lofty::tag::{Accessor, ItemKey, Tag};

use crate::library::{
    cover_ext, cover_ext_of, fallback_names, fallback_stem, name_split, path_format, tag_year,
    track_format, track_names, year_from_tag, CoverMime,
};
use crate::paths::{extension, extension_of, file_stem_of};
use crate::text::{chars_of, string_of};

verus! {

// ---------------------------------------------------------------------------
// What the file gives
// ---------------------------------------------------------------------------

/// The text fields of one tag of an audio file.
pub struct TagText {
    pub title: Option<String>,
    pub artist: Option<String>,
    pub album: Option<String>,
    pub album_artist: Option<String>,
    pub track: Option<u32>,
    pub disc: Option<u32>,
    pub year: Option<String>,
}

pub struct TagTextView {
    pub title: Option<Seq<char>>,
    pub artist: Option<Seq<char>>,
    pub album: Option<Seq<char>>,
    pub album_artist: Option<Seq<char>>,
    pub track: Option<u32>,
    pub disc: Option<u32>,
    pub year: Option<Seq<char>>,
}

pub open spec fn opt_text(o: Option<String>) -> Option<Seq<char>> {
    match o {
        Some(s) => Some(s@),
        None => None,
    }
}

impl View for TagText {
    type V = TagTextView;

    open spec fn view(&self) -> TagTextView {
        TagTextView {
            title: opt_text(self.title),
            artist: opt_text(self.artist),
            album: opt_text(self.album),
            album_artist: opt_text(self.album_artist),
            track: self.track,
            disc: self.disc,
            year: opt_text(self.year),
        }
    }
}

/// A picture embedded in a tag: whether it is the front cover, its bytes
/// and its format.
pub struct TagPicture {
    pub front: bool,
    pub data: Vec<u8>,
    pub mime: CoverMime,
}

pub struct PictureView {
    pub front: bool,
    pub data: Seq<u8>,
    pub mime: CoverMime,
}

impl View for TagPicture {
    type V = PictureView;

    open spec fn view(&self) -> PictureView {
        PictureView { front: self.front, data: self.data@, mime: self.mime }
    }
}

/// The audio properties of a file: duration (whole seconds and the
/// nanoseconds beyond), bitrate in kbps, sample rate in Hz, bit depth.
#[derive(Clone, Copy, Debug, PartialEq, Eq, Structural)]
pub struct AudioProps {
    pub secs: u64,
    pub nanos: u32,
    pub bitrate: Option<u32>,
    pub sample_rate: Option<u32>,
    pub bit_depth: Option<u8>,
}

/// A tag reading: the file's primary tag and its first tag.
pub type TagPair<T> = (Option<T>, Option<T>);

pub open spec fn opt_tag_view(o: Option<TagText>) -> Option<TagTextView> {
    match o {
        Some(t) => Some(t@),
        None => None,
    }
}

pub open spec fn texts_view(r: Option<TagPair<TagText>>) -> Option<TagPair<TagTextView>> {
    match r {
        Some((p, f)) => Some((opt_tag_view(p), opt_tag_view(f))),
        None => None,
    }
}

pub open spec fn pics_view(v: Vec<TagPicture>) -> Seq<PictureView> {
    v@.map_values(|p: TagPicture| p@)
}

pub open spec fn opt_pics_view(o: Option<Vec<TagPicture>>) -> Option<Seq<PictureView>> {
    match o {
        Some(v) => Some(pics_view(v)),
        None => None,
    }
}

pub open spec fn pictures_view(r: Option<TagPair<Vec<TagPicture>>>) -> Option<
    TagPair<Seq<PictureView>>,
> {
    match r {
        Some((p, f)) => Some((opt_pics_view(p), opt_pics_view(f))),
        None => None,
    }
}

pub open spec fn opt_bytes(o: Option<Vec<u8>>) -> Option<Seq<u8>> {
    match o {
        Some(v) => Some(v@),
        None => None,
    }
}

/// The text fields of the primary and of the first tag of the file
/// `file`, read as the file type that extension `ext` names; `None` when
/// the extension names none or the file does not read.
pub uninterp spec fn tag_texts_of(ext: Seq<char>, file: Seq<u8>) -> Option<TagPair<TagTextView>>;

/// The pictures of the primary and of the first tag, read as for
/// `tag_texts_of`.
pub uninterp spec fn tag_pictures_of(ext: Seq<char>, file: Seq<u8>) -> Option<
    TagPair<Seq<PictureView>>,
>;

/// The audio properties of the file, read as for `tag_texts_of`.
pub uninterp spec fn audio_properties_of(ext: Seq<char>, file: Seq<u8>) -> Option<AudioProps>;

/// `Probe::with_file_type(.., FileType::from_ext(ext)).read()`, then the
/// text fields of `primary_tag` and `first_tag` (`Accessor` getters and
/// `get_string` for the album artist and the year); the result is the
/// named `tag_texts_of`.
#[verifier::external_body]
fn tag_texts(ext: &str, file: &[u8]) -> (r: Option<TagPair<TagText>>)
    ensures
        texts_view(r) == tag_texts_of(ext@, file@),
{
    let f = Probe::with_file_type(Cursor::new(file), FileType::from_ext(ext)?).read().ok()?;
    let conv = |g: &Tag| TagText {
        title: g.title().map(Into::into),
        artist: g.artist().map(Into::into),
        album: g.album().map(Into::into),
        album_artist: g.get_string(&ItemKey::AlbumArtist).map(Into::into),
        track: g.track(),
        disc: g.disk(),
        year: g.get_string(&ItemKey::Year).map(Into::into),
    };
    Some((f.primary_tag().map(conv), f.first_tag().map(conv)))
}

/// The same reading, then the pictures of `primary_tag` and `first_tag`
/// (`CoverFront` marks the front cover); the result is the named
/// `tag_pictures_of`.
#[verifier::external_body]
fn tag_pictures(ext: &str, file: &[u8]) -> (r: Option<TagPair<Vec<TagPicture>>>)
    ensures
        pictures_view(r) == tag_pictures_of(ext@, file@),
{
    let f = Probe::with_file_type(Cursor::new(file), FileType::from_ext(ext)?).read().ok()?;
    let conv = |g: &Tag| g.pictures().iter().map(|q| TagPicture {
        front: matches!(q.pic_type(), PictureType::CoverFront),
        data: q.data().to_vec(),
        mime: match q.mime_type() {
            Some(MimeType::Png) => CoverMime::Png, Some(MimeType::Jpeg) => CoverMime::Jpeg,
            Some(MimeType::Bmp) => CoverMime::Bmp, Some(MimeType::Gif) => CoverMime::Gif,
            Some(MimeType::Tiff) => CoverMime::Tiff, _ => CoverMime::Other,
        },
    }).collect::<Vec<TagPicture>>();
    Some((f.primary_tag().map(conv), f.first_tag().map(conv)))
}

/// The same reading, then its `properties()`; the result is the named
/// `audio_properties_of`.
#[verifier::external_body]
fn audio_properties(ext: &str, file: &[u8]) -> (r: Option<AudioProps>)
    ensures
        r == audio_properties_of(ext@, file@),
{
    let f = Probe::with_file_type(Cursor::new(file), FileType::from_ext(ext)?).read().ok()?;
    let p = f.properties();
    let d = p.duration();
    Some(AudioProps {
        secs: d.as_secs(),
        nanos: d.subsec_nanos(),
        bitrate: p.audio_bitrate(),
        sample_rate: p.sample_rate(),
        bit_depth: p.bit_depth(),
    })
}

// ---------------------------------------------------------------------------
// The stored cover
// ---------------------------------------------------------------------------

/// Width and height of the picture in `data` (`image::load_from_memory`);
/// `None` when it does not decode.
pub uninterp spec fn image_size_of(data: Seq<u8>) -> Option<(u32, u32)>;

/// The picture in `data` decoded, turned into RGB and encoded as JPEG;
/// `None` when a step fails.
pub uninterp spec fn jpeg_of(data: Seq<u8>) -> Option<Seq<u8>>;

/// As `jpeg_of`, with the decoded picture first shrunk by
/// `DynamicImage::thumbnail(side, side)`.
pub uninterp spec fn jpeg_fitted_of(data: Seq<u8>, side: u32) -> Option<Seq<u8>>;

/// `image::load_from_memory`, then the width and height; the result is the
/// named `image_size_of`.
#[verifier::external_body]
fn image_size(data: &[u8]) -> (r: Option<(u32, u32)>)
    ensures
        r == image_size_of(data@),
{
    let img = image::load_from_memory(data).ok()?;
    Some((img.width(), img.height()))
}

/// `image::load_from_memory`, `to_rgb8`, `write_to` with
/// `ImageFormat::Jpeg`; the result is the named `jpeg_of`.
#[verifier::external_body]
fn jpeg(data: &[u8]) -> (r: Option<Vec<u8>>)
    ensures
        opt_bytes(r) == jpeg_of(data@),
{
    let mut out = Cursor::new(Vec::new());
    image::load_from_memory(data).ok()?.to_rgb8().write_to(&mut out, ImageFormat::Jpeg).ok()?;
    Some(out.into_inner())
}

/// As `jpeg`, with `thumbnail(side, side)` after decoding; the result is
/// the named `jpeg_fitted_of`.
#[verifier::external_body]
fn jpeg_fitted(data: &[u8], side: u32) -> (r: Option<Vec<u8>>)
    ensures
        opt_bytes(r) == jpeg_fitted_of(data@, side),
{
    let mut out = Cursor::new(Vec::new());
    let img = image::load_from_memory(data).ok()?.thumbnail(side, side);
    img.to_rgb8().write_to(&mut out, ImageFormat::Jpeg).ok()?;
    Some(out.into_inner())
}

/// A cover larger than this on either side is shrunk to fit a square of
/// this side.
pub const COVER_SIDE: u32 = 600;

/// The stored form of an embedded cover: nothing for empty data; a JPEG
/// (shrunk to fit `COVER_SIDE` when a side exceeds it) with extension
/// `jpg` when the picture decodes and encodes; otherwise the bytes as they
/// came, with the extension of their format.
pub open spec fn cover_file_of(data: Seq<u8>, mime: CoverMime) -> Option<(Seq<u8>, Seq<char>)> {
    if data.len() == 0 {
        None
    } else {
        let encoded = match image_size_of(data) {
            Some((w, h)) => if w > COVER_SIDE || h > COVER_SIDE {
                jpeg_fitted_of(data, COVER_SIDE)
            } else {
                jpeg_of(data)
            },
            None => None,
        };
        match encoded {
            Some(j) => Some((j, "jpg"@)),
            None => Some((data, cover_ext_of(mime))),
        }
    }
}

pub open spec fn cover_view(r: Option<(Vec<u8>, String)>) -> Option<(Seq<u8>, Seq<char>)> {
    match r {
        Some((d, e)) => Some((d@, e@)),
        None => None,
    }
}

/// The bytes and the file extension under which an embedded cover is
/// stored (see [`cover_file_of`]).
pub fn cover_file(data: Vec<u8>, mime: CoverMime) -> (r: Option<(Vec<u8>, String)>)
    ensures
        cover_view(r) == cover_file_of(data@, mime),
{
    if data.len() == 0 {
        return None;
    }
    let encoded = match image_size(data.as_slice()) {
        Some((w, h)) => if w > COVER_SIDE || h > COVER_SIDE {
            jpeg_fitted(data.as_slice(), COVER_SIDE)
        } else {
            jpeg(data.as_slice())
        },
        None => None,
    };
    match encoded {
        Some(j) => Some((j, "jpg".to_owned())),
        None => {
            let ext = cover_ext(mime);
            Some((data, ext.to_owned()))
        },
    }
}

// ---------------------------------------------------------------------------
// The track
// ---------------------------------------------------------------------------

/// The primary tag's reading when the file has a primary tag, the first
/// tag's otherwise.
pub open spec fn chosen<T>(pair: Option<TagPair<T>>) -> Option<T> {
    match pair {
        Some((Some(p), _)) => Some(p),
        Some((None, f)) => f,
        None => None,
    }
}

/// Index of the first front cover (the length when there is none).
pub open spec fn first_front(pics: Seq<PictureView>) -> nat
    decreases pics.len(),
{
    if pics.len() == 0 {
        0
    } else if pics[0].front {
        0
    } else {
        1 + first_front(pics.drop_first())
    }
}

/// The picture kept as cover: the first front cover, else the first
/// picture.
pub open spec fn cover_pick(pics: Seq<PictureView>) -> Option<PictureView> {
    if first_front(pics) < pics.len() {
        Some(pics[first_front(pics) as int])
    } else if pics.len() > 0 {
        Some(pics[0])
    } else {
        None
    }
}

proof fn lemma_first_front_at(s: Seq<PictureView>, i: int)
    requires
        0 <= i <= s.len(),
        forall|k: int| 0 <= k < i ==> !(#[trigger] s[k]).front,
        i == s.len() || s[i].front,
    ensures
        first_front(s) == i,
    decreases i,
{
    if i > 0 {
        assert(!s[0].front);
        assert forall|k: int| 0 <= k < i - 1 implies !(#[trigger] s.drop_first()[k]).front by {
            assert(s.drop_first()[k] == s[k + 1]);
        }
        lemma_first_front_at(s.drop_first(), i - 1);
    }
}

pub open spec fn opt_pic_view(o: Option<TagPicture>) -> Option<PictureView> {
    match o {
        Some(p) => Some(p@),
        None => None,
    }
}

/// The picture kept as cover (see [`cover_pick`]).
pub fn pick_cover(pics: Vec<TagPicture>) -> (r: Option<TagPicture>)
    ensures
        opt_pic_view(r) == cover_pick(pics_view(pics)),
{
    let ghost pv = pics_view(pics);
    let mut i: usize = 0;
    while i < pics.len() && !pics[i].front
        invariant
            i <= pics.len(),
            pv == pics_view(pics),
            forall|k: int| 0 <= k < i ==> !(#[trigger] pv[k]).front,
        decreases pics.len() - i,
    {
        assert(pv[i as int] == pics@[i as int]@);
        i = i + 1;
    }
    proof {
        if i < pics.len() {
            assert(pv[i as int] == pics@[i as int]@);
        }
        lemma_first_front_at(pv, i as int);
    }
    if pics.len() == 0 {
        return None;
    }
    let j = if i < pics.len() {
        i
    } else {
        0
    };
    let mut v = pics;
    let p = v.remove(j);
    assert(pv[j as int] == p@);
    Some(p)
}

/// What a track's file gives the library.
pub struct TrackFields {
    pub title: String,
    pub artist: String,
    pub album: String,
    pub album_artist: String,
    pub track_no: i64,
    pub disc: i64,
    pub year: i64,
    pub duration_secs: u64,
    pub duration_nanos: u32,
    pub bitrate: i64,
    pub sample_rate: i64,
    pub bit_depth: i64,
    pub format: String,
    /// The cover as stored: bytes and file extension.
    pub cover: Option<(Vec<u8>, String)>,
}

pub struct TrackFieldsView {
    pub title: Seq<char>,
    pub artist: Seq<char>,
    pub album: Seq<char>,
    pub album_artist: Seq<char>,
    pub track_no: i64,
    pub disc: i64,
    pub year: i64,
    pub duration_secs: u64,
    pub duration_nanos: u32,
    pub bitrate: i64,
    pub sample_rate: i64,
    pub bit_depth: i64,
    pub format: Seq<char>,
    pub cover: Option<(Seq<u8>, Seq<char>)>,
}

impl View for TrackFields {
    type V = TrackFieldsView;

    open spec fn view(&self) -> TrackFieldsView {
        TrackFieldsView {
            title: self.title@,
            artist: self.artist@,
            album: self.album@,
            album_artist: self.album_artist@,
            track_no: self.track_no,
            disc: self.disc,
            year: self.year,
            duration_secs: self.duration_secs,
            duration_nanos: self.duration_nanos,
            bitrate: self.bitrate,
            sample_rate: self.sample_rate,
            bit_depth: self.bit_depth,
            format: self.format@,
            cover: cover_view(self.cover),
        }
    }
}

pub open spec fn text_or_empty(o: Option<Seq<char>>) -> Seq<char> {
    match o {
        Some(t) => t,
        None => Seq::<char>::empty(),
    }
}

pub open spec fn num_or_zero(o: Option<u32>) -> i64 {
    match o {
        Some(v) => v as i64,
        None => 0,
    }
}

/// A text field of the chosen tag; empty without a tag or field.
pub open spec fn tag_text(tag: Option<TagTextView>, f: spec_fn(TagTextView) -> Option<Seq<char>>) -> Seq<char> {
    match tag {
        Some(t) => text_or_empty(f(t)),
        None => Seq::<char>::empty(),
    }
}

/// The year of the chosen tag's `Year` field (see `tag_year`); 0 without.
pub open spec fn tag_year_of(tag: Option<TagTextView>) -> i64 {
    match tag {
        Some(t) => match t.year {
            Some(y) => tag_year(y),
            None => 0,
        },
        None => 0,
    }
}

/// The cover a track's file gives, when it has a tag.
pub open spec fn track_cover(
    tag: Option<TagTextView>,
    pictures: Option<TagPair<Seq<PictureView>>>,
) -> Option<(Seq<u8>, Seq<char>)> {
    match (tag, chosen(pictures)) {
        (Some(_), Some(ps)) => match cover_pick(ps) {
            Some(p) => cover_file_of(p.data, p.mime),
            None => None,
        },
        _ => None,
    }
}

/// The fields of a track from what its file gives: the primary tag, else
/// the first; title and artist completed from the file name (see
/// [`fallback_names`]); the first front cover, else the first picture, in
/// its stored form; the audio properties, 0 where there are none; and the
/// format shown for the path.
pub open spec fn track_fields_of(
    path: Seq<char>,
    texts: Option<TagPair<TagTextView>>,
    pictures: Option<TagPair<Seq<PictureView>>>,
    props: Option<AudioProps>,
) -> TrackFieldsView {
    let tag = chosen(texts);
    let names = fallback_names(
        file_stem_of(path),
        tag_text(tag, |t: TagTextView| t.title),
        tag_text(tag, |t: TagTextView| t.artist),
        name_split(fallback_stem(path)),
    );
    TrackFieldsView {
        title: names.0,
        artist: names.1,
        album: tag_text(tag, |t: TagTextView| t.album),
        album_artist: tag_text(tag, |t: TagTextView| t.album_artist),
        track_no: match tag {
            Some(t) => num_or_zero(t.track),
            None => 0,
        },
        disc: match tag {
            Some(t) => num_or_zero(t.disc),
            None => 0,
        },
        year: tag_year_of(tag),
        duration_secs: match props {
            Some(p) => p.secs,
            None => 0,
        },
        duration_nanos: match props {
            Some(p) => p.nanos,
            None => 0,
        },
        bitrate: match props {
            Some(p) => num_or_zero(p.bitrate),
            None => 0,
        },
        sample_rate: match props {
            Some(p) => num_or_zero(p.sample_rate),
            None => 0,
        },
        bit_depth: match props {
            Some(p) => match p.bit_depth {
                Some(b) => b as i64,
                None => 0,
            },
            None => 0,
        },
        format: path_format(path),
        cover: track_cover(tag, pictures),
    }
}

fn or_empty(o: Option<String>) -> (r: String)
    ensures
        r@ == text_or_empty(opt_text(o)),
{
    match o {
        Some(s) => s,
        None => String::new(),
    }
}

fn or_zero(o: Option<u32>) -> (r: i64)
    ensures
        r == num_or_zero(o),
{
    match o {
        Some(v) => v as i64,
        None => 0,
    }
}

/// The fields of a track from the readings of its file (see
/// [`track_fields_of`]).
pub fn track_fields(
    path: &str,
    texts: Option<TagPair<TagText>>,
    pictures: Option<TagPair<Vec<TagPicture>>>,
    props: Option<AudioProps>,
) -> (r: TrackFields)
    ensures
        r@ == track_fields_of(path@, texts_view(texts), pictures_view(pictures), props),
{
    let ghost tv = texts_view(texts);
    let ghost pv = pictures_view(pictures);
    let tag: Option<TagText> = match texts {
        Some((Some(p), _)) => Some(p),
        Some((None, f)) => f,
        None => None,
    };
    assert(opt_tag_view(tag) == chosen(tv));
    let pics: Option<Vec<TagPicture>> = match pictures {
        Some((Some(p), _)) => Some(p),
        Some((None, f)) => f,
        None => None,
    };
    assert(opt_pics_view(pics) == chosen(pv));
    let has_tag = tag.is_some();
    let (title0, artist0, album, album_artist, track_no, disc, year) = match tag {
        Some(t) => {
            let y: i64 = match t.year {
                Some(s) => year_from_tag(s.as_str()),
                None => 0,
            };
            (
                or_empty(t.title),
                or_empty(t.artist),
                or_empty(t.album),
                or_empty(t.album_artist),
                or_zero(t.track),
                or_zero(t.disc),
                y,
            )
        },
        None => (String::new(), String::new(), String::new(), String::new(), 0i64, 0i64, 0i64),
    };
    let (title, artist) = track_names(path, title0, artist0);
    let cover = if has_tag {
        match pics {
            Some(ps) => match pick_cover(ps) {
                Some(p) => cover_file(p.data, p.mime),
                None => None,
            },
            None => None,
        }
    } else {
        None
    };
    let secs: u64 = match props {
        Some(p) => p.secs,
        None => 0,
    };
    let nanos: u32 = match props {
        Some(p) => p.nanos,
        None => 0,
    };
    let bitrate: i64 = match props {
        Some(p) => or_zero(p.bitrate),
        None => 0,
    };
    let sample_rate: i64 = match props {
        Some(p) => or_zero(p.sample_rate),
        None => 0,
    };
    let bit_depth: i64 = match props {
        Some(p) => match p.bit_depth {
            Some(b) => b as i64,
            None => 0,
        },
        None => 0,
    };
    TrackFields {
        title,
        artist,
        album,
        album_artist,
        track_no,
        disc,
        year,
        duration_secs: secs,
        duration_nanos: nanos,
        bitrate,
        sample_rate,
        bit_depth,
        format: track_format(path).to_owned(),
        cover,
    }
}

/// The tag texts of the file at `path` with bytes `file`: read as the type
/// its extension names, nothing without an extension.
pub open spec fn file_texts(path: Seq<char>, file: Seq<u8>) -> Option<TagPair<TagTextView>> {
    match extension_of(path) {
        Some(e) => tag_texts_of(e, file),
        None => None,
    }
}

pub open spec fn file_pictures(path: Seq<char>, file: Seq<u8>) -> Option<TagPair<Seq<PictureView>>> {
    match extension_of(path) {
        Some(e) => tag_pictures_of(e, file),
        None => None,
    }
}

pub open spec fn file_properties(path: Seq<char>, file: Seq<u8>) -> Option<AudioProps> {
    match extension_of(path) {
        Some(e) => audio_properties_of(e, file),
        None => None,
    }
}

/// Reads a track from the bytes `file` of the audio file at `path`: its
/// tags, audio properties and cover, with the file name as fallback.
pub fn read_track(path: &str, file: &[u8]) -> (r: TrackFields)
    ensures
        r@ == track_fields_of(
            path@,
            file_texts(path@, file@),
            file_pictures(path@, file@),
            file_properties(path@, file@),
        ),
{
    match extension(&chars_of(path)) {
        Some(e) => {
            let ext = string_of(&e);
            let texts = tag_texts(ext.as_str(), file);
            let pictures = tag_pictures(ext.as_str(), file);
            let props = audio_properties(ext.as_str(), file);
            track_fields(path, texts, pictures, props)
        },
        None => track_fields(path, None, None, None),
    }
}

} // verus!
