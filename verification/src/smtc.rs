//! The system media controls: what the overlay is told for each player
//! message, which player action each media key asks for, and the address
//! under which a cover is handed to the system.
use vstd::prelude::*;

use crate::lxsource::hex_digit;
use crate::models::{SmtcMsg, TrackInfo};
use crate::text::{
    chars_of, contains, contains_str, lower_chars, lowercase, push_all, starts_with,
    starts_with_str, string_of,
};

verus! {

// ---------------------------------------------------------------------------
// Media keys
// ---------------------------------------------------------------------------

/// A media control event of the system.
pub enum MediaEvent {
    Play,
    Pause,
    Toggle,
    Next,
    Previous,
    Stop,
    /// Seek one step, forward or back.
    Seek { forward: bool },
    /// Seek by an amount, forward or back (the amount is not used).
    SeekBy { forward: bool },
    /// Jump to a position, in milliseconds.
    SetPosition { ms: u64 },
    /// Bring the player window to the front.
    Raise,
    /// Any other event (ignored).
    Other,
}

/// The action the front end is asked for on a media event, with its value
/// (a position for `set_pos`); none for ignored events.
pub open spec fn event_action(ev: MediaEvent) -> Option<(Seq<char>, Option<u64>)> {
    match ev {
        MediaEvent::Play => Some(("play"@, None)),
        MediaEvent::Pause => Some(("pause"@, None)),
        MediaEvent::Toggle => Some(("toggle"@, None)),
        MediaEvent::Next => Some(("next"@, None)),
        MediaEvent::Previous => Some(("prev"@, None)),
        MediaEvent::Stop => Some(("stop"@, None)),
        MediaEvent::Seek { forward } => Some(
            (
                if forward {
                    "seek_fwd"@
                } else {
                    "seek_back"@
                },
                None,
            ),
        ),
        MediaEvent::SeekBy { forward } => Some(
            (
                if forward {
                    "seek_fwd"@
                } else {
                    "seek_back"@
                },
                None,
            ),
        ),
        MediaEvent::SetPosition { ms } => Some(("set_pos"@, Some(ms))),
        MediaEvent::Raise => Some(("show"@, None)),
        MediaEvent::Other => None,
    }
}

/// Whether two media events ask for the same thing: the same event, or a
/// step seek and a seek by an amount in the same direction.
pub open spec fn same_request(a: MediaEvent, b: MediaEvent) -> bool {
    a == b || match (a, b) {
        (MediaEvent::Seek { forward: f }, MediaEvent::SeekBy { forward: g }) => f == g,
        (MediaEvent::SeekBy { forward: f }, MediaEvent::Seek { forward: g }) => f == g,
        _ => false,
    }
}

/// Media keys reach the player as they were pressed: the next key asks
/// for `next`, the previous key for `prev`, play / pause / stop for
/// themselves; events that ask for different things never give the same
/// action, and only `Other` is ignored.
pub proof fn media_events_keep_their_meaning(a: MediaEvent, b: MediaEvent)
    ensures
        event_action(MediaEvent::Next) == Some(("next"@, Option::<u64>::None)),
        event_action(MediaEvent::Previous) == Some(("prev"@, Option::<u64>::None)),
        event_action(MediaEvent::Play) == Some(("play"@, Option::<u64>::None)),
        event_action(MediaEvent::Pause) == Some(("pause"@, Option::<u64>::None)),
        event_action(MediaEvent::Stop) == Some(("stop"@, Option::<u64>::None)),
        event_action(a) is None <==> a is Other,
        event_action(a) is Some && event_action(a) == event_action(b) ==> same_request(a, b),
{
    reveal_strlit("play");
    reveal_strlit("pause");
    reveal_strlit("toggle");
    reveal_strlit("next");
    reveal_strlit("prev");
    reveal_strlit("stop");
    reveal_strlit("seek_fwd");
    reveal_strlit("seek_back");
    reveal_strlit("set_pos");
    reveal_strlit("show");
    assert("play"@[1] == 'l' && "prev"@[1] == 'r' && "next"@[0] == 'n' && "stop"@[0] == 's');
    assert("show"@[1] == 'h' && "stop"@[1] == 't' && "play"@[0] == 'p' && "prev"@[0] == 'p');
    assert("seek_fwd"@.len() == 8 && "seek_back"@.len() == 9 && "set_pos"@.len() == 7);
    assert("pause"@.len() == 5 && "toggle"@.len() == 6 && "next"@.len() == 4);
}

/// The front-end action of a media event (see [`event_action`]).
pub fn media_event_action(ev: MediaEvent) -> (r: Option<(&'static str, Option<u64>)>)
    ensures
        match r {
            Some((a, v)) => event_action(ev) == Some((a@, v)),
            None => event_action(ev) is None,
        },
{
    match ev {
        MediaEvent::Play => Some(("play", None)),
        MediaEvent::Pause => Some(("pause", None)),
        MediaEvent::Toggle => Some(("toggle", None)),
        MediaEvent::Next => Some(("next", None)),
        MediaEvent::Previous => Some(("prev", None)),
        MediaEvent::Stop => Some(("stop", None)),
        MediaEvent::Seek { forward } => Some(
            (
                if forward {
                    "seek_fwd"
                } else {
                    "seek_back"
                },
                None,
            ),
        ),
        MediaEvent::SeekBy { forward } => Some(
            (
                if forward {
                    "seek_fwd"
                } else {
                    "seek_back"
                },
                None,
            ),
        ),
        MediaEvent::SetPosition { ms } => Some(("set_pos", Some(ms))),
        MediaEvent::Raise => Some(("show", None)),
        MediaEvent::Other => None,
    }
}

// ---------------------------------------------------------------------------
// The overlay
// ---------------------------------------------------------------------------

/// The playback state shown by the overlay.
pub enum Playback {
    Playing { pos_ms: u64 },
    Paused { pos_ms: u64 },
    Stopped,
}

pub open spec fn playback_of(playing: bool, pos_ms: u64) -> Playback {
    if playing {
        Playback::Playing { pos_ms }
    } else {
        Playback::Paused { pos_ms }
    }
}

/// What the overlay is told.
pub enum SmtcUpdate {
    /// A new track: its metadata, then its playback state.
    Track { info: TrackInfo, playback: Playback },
    /// The playback state only.
    State(Playback),
    /// Nothing.
    Nothing,
}

/// Whether the overlay shows a track after `msg`, having shown one or not
/// before.
pub open spec fn shows_after(shown: bool, msg: SmtcMsg) -> bool {
    match msg {
        SmtcMsg::Update { info, .. } => info is Some,
        SmtcMsg::Position { .. } => shown,
    }
}

fn playback(playing: bool, pos_ms: u64) -> (r: Playback)
    ensures
        r == playback_of(playing, pos_ms),
{
    if playing {
        Playback::Playing { pos_ms }
    } else {
        Playback::Paused { pos_ms }
    }
}

/// Handles one player message: an update with a track shows it with its
/// state, one without a track stops the overlay; a position refresh only
/// updates the state while a track is shown. `shown` tracks whether one
/// is.
pub fn smtc_step(shown: &mut bool, msg: SmtcMsg) -> (r: SmtcUpdate)
    ensures
        *final(shown) == shows_after(*old(shown), msg),
        match msg {
            SmtcMsg::Update { info, playing, pos_ms } => match info {
                Some(i) => r matches SmtcUpdate::Track { info: j, playback: p } && j@ == i@ && p
                    == playback_of(playing, pos_ms),
                None => r matches SmtcUpdate::State(Playback::Stopped),
            },
            SmtcMsg::Position { playing, pos_ms } => if *old(shown) {
                r matches SmtcUpdate::State(p) && p == playback_of(playing, pos_ms)
            } else {
                r is Nothing
            },
        },
{
    match msg {
        SmtcMsg::Update { info, playing, pos_ms } => {
            *shown = info.is_some();
            match info {
                Some(i) => SmtcUpdate::Track { info: i, playback: playback(playing, pos_ms) },
                None => SmtcUpdate::State(Playback::Stopped),
            }
        },
        SmtcMsg::Position { playing, pos_ms } => {
            if *shown {
                SmtcUpdate::State(playback(playing, pos_ms))
            } else {
                SmtcUpdate::Nothing
            }
        },
    }
}

/// Whether the overlay shows a track after a run of messages, starting
/// from none shown.
pub open spec fn shows_after_all(msgs: Seq<SmtcMsg>) -> bool
    decreases msgs.len(),
{
    if msgs.len() == 0 {
        false
    } else {
        shows_after(shows_after_all(msgs.drop_last()), msgs.last())
    }
}

/// Message `k` of the run is the last update, and it carries a track.
pub open spec fn last_update_has_track(msgs: Seq<SmtcMsg>, k: int) -> bool {
    &&& 0 <= k < msgs.len()
    &&& msgs[k] matches SmtcMsg::Update { info, .. } && info is Some
    &&& forall|j: int| k < j < msgs.len() ==> (#[trigger] msgs[j]) is Position
}

/// The overlay shows a track exactly when the last update of the run
/// carried one: position refreshes never bring back a track that an update
/// took away.
pub proof fn overlay_follows_last_update(msgs: Seq<SmtcMsg>)
    ensures
        shows_after_all(msgs) <==> exists|k: int| last_update_has_track(msgs, k),
    decreases msgs.len(),
{
    if msgs.len() > 0 {
        let p = msgs.drop_last();
        overlay_follows_last_update(p);
        let n = msgs.len() - 1;
        match msgs.last() {
            SmtcMsg::Update { info, .. } => {
                if info is Some {
                    assert(last_update_has_track(msgs, n));
                } else {
                    assert forall|k: int| !last_update_has_track(msgs, k) by {
                        if 0 <= k < n {
                            assert(msgs[n] is Update);
                        }
                    }
                }
            },
            SmtcMsg::Position { .. } => {
                if shows_after_all(p) {
                    let k = choose|k: int| last_update_has_track(p, k);
                    assert(msgs[k] == p[k]);
                    assert forall|j: int| k < j < msgs.len() implies (#[trigger] msgs[j]) is Position by {
                        if j < n {
                            assert(msgs[j] == p[j]);
                        }
                    }
                    assert(last_update_has_track(msgs, k));
                } else {
                    assert forall|k: int| !last_update_has_track(msgs, k) by {
                        if last_update_has_track(msgs, k) {
                            assert(k < n);
                            assert(msgs[k] == p[k]);
                            assert forall|j: int| k < j < p.len() implies (#[trigger] p[j]) is Position by {
                                assert(msgs[j] == p[j]);
                            }
                            assert(last_update_has_track(p, k));
                        }
                    }
                }
            },
        }
    }
}

// ---------------------------------------------------------------------------
// Cover addresses
// ---------------------------------------------------------------------------

/// Where a cover handed to the overlay comes from.
pub enum CoverSource {
    /// No cover.
    Absent,
    /// A web address: the picture is cached under a file with this
    /// extension first.
    Remote { ext: &'static str },
    /// A local file.
    Local,
}

/// The source of a track's cover: none when empty; a web address is cached
/// as `png` when its lower-cased address mentions `.png`, else as `jpg`;
/// anything else is a local file.
pub open spec fn cover_source_of(cover: Seq<char>) -> Option<Option<Seq<char>>> {
    if cover.len() == 0 {
        None
    } else if starts_with(cover, "http://"@) || starts_with(cover, "https://"@) {
        Some(
            Some(
                if contains(lowercase(cover), ".png"@) {
                    "png"@
                } else {
                    "jpg"@
                },
            ),
        )
    } else {
        Some(None)
    }
}

pub fn cover_source(cover: &str) -> (r: CoverSource)
    ensures
        cover_source_of(cover@) == (match r {
            CoverSource::Absent => None,
            CoverSource::Remote { ext } => Some(Some(ext@)),
            CoverSource::Local => Some(None),
        }),
{
    if cover.is_empty() {
        return CoverSource::Absent;
    }
    let c = chars_of(cover);
    if starts_with_str(&c, "http://") || starts_with_str(&c, "https://") {
        let l = lower_chars(&c);
        if contains_str(&l, ".png") {
            CoverSource::Remote { ext: "png" }
        } else {
            CoverSource::Remote { ext: "jpg" }
        }
    } else {
        CoverSource::Local
    }
}

/// Bytes left as they are in a `file:` address: ASCII, neither a control
/// character nor one of ` "<>`#?{}`.
pub open spec fn fragment_safe(b: u8) -> bool {
    0x20 <= b < 0x7F && b != 0x20 && b != 0x22 && b != 0x3C && b != 0x3E && b != 0x60 && b != 0x23
        && b != 0x3F && b != 0x7B && b != 0x7D
}

/// Encoding of one byte: itself when safe, else `%XX`.
pub open spec fn fragment_byte(b: u8) -> Seq<char> {
    if fragment_safe(b) {
        seq![b as char]
    } else {
        seq!['%', hex_digit((b / 16) as nat), hex_digit((b % 16) as nat)]
    }
}

pub open spec fn fragment_encoded(bs: Seq<u8>) -> Seq<char>
    decreases bs.len(),
{
    if bs.len() == 0 {
        Seq::<char>::empty()
    } else {
        fragment_encoded(bs.drop_last()) + fragment_byte(bs.last())
    }
}

/// `percent_encoding::percent_encode_byte`: the `%XX` form of a byte, with
/// upper-case hex digits.
#[verifier::external_body]
fn percent_encode_byte(b: u8) -> (r: String)
    ensures
        r@ == seq!['%', hex_digit((b / 16) as nat), hex_digit((b % 16) as nat)],
{
    percent_encoding::percent_encode_byte(b).to_owned()
}

/// A local path with `\` turned into `/`.
pub open spec fn forward_slashes(p: Seq<char>) -> Seq<char> {
    p.map_values(
        |c: char|
            if c == '\\' {
                '/'
            } else {
                c
            },
    )
}

/// The `file:///` address of a local cover: the path with forward slashes,
/// its UTF-8 bytes encoded as [`fragment_byte`] says.
pub open spec fn file_uri_of(path: Seq<char>) -> Seq<char> {
    "file:///"@ + fragment_encoded(vstd::utf8::encode_utf8(forward_slashes(path)))
}

pub fn file_uri(path: &str) -> (r: String)
    ensures
        r@ == file_uri_of(path@),
{
    let v = chars_of(path);
    let mut slashed: Vec<char> = Vec::new();
    let mut i: usize = 0;
    while i < v.len()
        invariant
            i <= v@.len(),
            v@ == path@,
            slashed@ =~= forward_slashes(v@.take(i as int)),
        decreases v.len() - i,
    {
        let c = v[i];
        slashed.push(
            if c == '\\' {
                '/'
            } else {
                c
            },
        );
        assert(v@.take(i + 1) =~= v@.take(i as int).push(c));
        i = i + 1;
    }
    assert(v@.take(v@.len() as int) =~= v@);
    let s = string_of(&slashed);
    let bytes = s.as_str().as_bytes();
    let mut out = chars_of("file:///");
    let ghost head = out@;
    let mut k: usize = 0;
    assert(bytes@.take(0) =~= Seq::<u8>::empty());
    assert(out@ =~= head + fragment_encoded(bytes@.take(0)));
    while k < bytes.len()
        invariant
            k <= bytes@.len(),
            head == "file:///"@,
            bytes@ == vstd::utf8::encode_utf8(forward_slashes(path@)),
            out@ == head + fragment_encoded(bytes@.take(k as int)),
        decreases bytes.len() - k,
    {
        let b = bytes[k];
        assert(bytes@.take(k + 1).drop_last() =~= bytes@.take(k as int));
        assert(bytes@.take(k + 1).last() == b);
        let safe = 0x20 <= b && b < 0x7F && b != 0x20 && b != 0x22 && b != 0x3C && b != 0x3E && b
            != 0x60 && b != 0x23 && b != 0x3F && b != 0x7B && b != 0x7D;
        let ghost before = out@;
        if safe {
            out.push(b as char);
            assert(out@ =~= before + seq![b as char]);
        } else {
            let e = percent_encode_byte(b);
            let ev = chars_of(e.as_str());
            push_all(&mut out, &ev);
        }
        assert(out@ =~= head + (fragment_encoded(bytes@.take(k as int)) + fragment_byte(b)));
        k = k + 1;
    }
    assert(bytes@.take(bytes@.len() as int) =~= bytes@);
    string_of(&out)
}

} // verus!
