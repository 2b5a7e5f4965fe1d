//! Decisions of the running application: the playback monitor's ticks,
//! forwarding of media controls while the window's web view is suspended,
//! the close button, the tray menu and the output device watcher.
use vstd::prelude::*;

use crate::text::{chars_of, eq_chars, eq_str};

verus! {

// ---------------------------------------------------------------------------
// The playback monitor
// ---------------------------------------------------------------------------

/// Interval between position frames sent to the front end (ms).
pub const POS_INTERVAL_MS: u64 = 250;

/// Interval between position refreshes of the system overlay (ms).
pub const OVERLAY_INTERVAL_MS: u64 = 1000;

/// What the monitor remembers between ticks.
pub struct MonitorState {
    /// The engine was playing (or rebuilding / switching) at the last tick.
    pub was_active: bool,
    /// When the last position frame was sent (`None`: never).
    pub last_pos_ms: Option<u64>,
    /// When the overlay was last refreshed (`None`: never).
    pub last_overlay_ms: Option<u64>,
}

/// What the monitor reads of the engine at a tick, with the time of a
/// monotonic clock.
pub struct EngineSample {
    pub now_ms: u64,
    pub active: bool,
    pub paused: bool,
    pub stopped: bool,
    pub rebuilding: bool,
    pub switching: bool,
}

/// What the monitor does at a tick.
pub struct MonitorActions {
    /// Send the position to the front end.
    pub emit_pos: bool,
    /// Refresh the overlay's position.
    pub overlay_pos: bool,
    /// Report that the track ended on its own.
    pub ended: bool,
}

/// Time since `last` (the clock never goes back: no less than 0).
pub open spec fn elapsed(now: u64, last: u64) -> int {
    if now >= last {
        now - last
    } else {
        0
    }
}

/// Whether `interval` has passed since `last` (always, when never).
pub open spec fn due(last: Option<u64>, now: u64, interval: u64) -> bool {
    match last {
        None => true,
        Some(t) => elapsed(now, t) >= interval,
    }
}

/// The monitor before its first tick.
pub fn monitor_start() -> (r: MonitorState)
    ensures
        !r.was_active,
        r.last_pos_ms is None,
        r.last_overlay_ms is None,
{
    MonitorState { was_active: false, last_pos_ms: None, last_overlay_ms: None }
}

fn is_due(last: Option<u64>, now: u64, interval: u64) -> (r: bool)
    ensures
        r == due(last, now, interval),
{
    match last {
        None => true,
        Some(t) => {
            let e: u64 = if now >= t {
                now - t
            } else {
                0
            };
            e >= interval
        },
    }
}

/// One tick of the monitor. While playing (active and not paused) the
/// position goes to the front end every 250 ms and to the overlay every
/// second. A track ended on its own when the engine was active at the last
/// tick and is not now, without a pause, a stop, a rebuild or a switch;
/// rebuilding and switching count as active for the next tick.
pub fn monitor_step(st: &mut MonitorState, s: EngineSample) -> (r: MonitorActions)
    ensures
        r.emit_pos == (s.active && !s.paused && due(old(st).last_pos_ms, s.now_ms, POS_INTERVAL_MS)),
        r.overlay_pos == (s.active && !s.paused && due(
            old(st).last_overlay_ms,
            s.now_ms,
            OVERLAY_INTERVAL_MS,
        )),
        r.ended == (old(st).was_active && !s.active && !s.paused && !s.stopped && !s.rebuilding
            && !s.switching),
        final(st).was_active == (s.active || s.rebuilding || s.switching),
        final(st).last_pos_ms == (if r.emit_pos {
            Some(s.now_ms)
        } else {
            old(st).last_pos_ms
        }),
        final(st).last_overlay_ms == (if r.overlay_pos {
            Some(s.now_ms)
        } else {
            old(st).last_overlay_ms
        }),
{
    let playing = s.active && !s.paused;
    let emit_pos = playing && is_due(st.last_pos_ms, s.now_ms, POS_INTERVAL_MS);
    if emit_pos {
        st.last_pos_ms = Some(s.now_ms);
    }
    let overlay_pos = playing && is_due(st.last_overlay_ms, s.now_ms, OVERLAY_INTERVAL_MS);
    if overlay_pos {
        st.last_overlay_ms = Some(s.now_ms);
    }
    let ended = st.was_active && !s.active && !s.paused && !s.stopped && !s.rebuilding
        && !s.switching;
    st.was_active = s.active || s.rebuilding || s.switching;
    MonitorActions { emit_pos, overlay_pos, ended }
}

/// The monitor's state after a run of samples from the start.
pub open spec fn monitor_after(samples: Seq<EngineSample>) -> MonitorState
    decreases samples.len(),
{
    if samples.len() == 0 {
        MonitorState { was_active: false, last_pos_ms: None, last_overlay_ms: None }
    } else {
        let st = monitor_after(samples.drop_last());
        let s = samples.last();
        let playing = s.active && !s.paused;
        let emit = playing && due(st.last_pos_ms, s.now_ms, POS_INTERVAL_MS);
        let overlay = playing && due(st.last_overlay_ms, s.now_ms, OVERLAY_INTERVAL_MS);
        MonitorState {
            was_active: s.active || s.rebuilding || s.switching,
            last_pos_ms: if emit {
                Some(s.now_ms)
            } else {
                st.last_pos_ms
            },
            last_overlay_ms: if overlay {
                Some(s.now_ms)
            } else {
                st.last_overlay_ms
            },
        }
    }
}

/// Whether the sample at `k` of a run sends a position frame.
pub open spec fn emits_pos_at(samples: Seq<EngineSample>, k: int) -> bool {
    let s = samples[k];
    s.active && !s.paused && due(monitor_after(samples.take(k)).last_pos_ms, s.now_ms, POS_INTERVAL_MS)
}

/// The time of a monotonic clock never goes back along a run.
pub open spec fn monotonic(samples: Seq<EngineSample>) -> bool {
    forall|a: int, b: int| 0 <= a <= b < samples.len() ==> (#[trigger] samples[a]).now_ms <= (
    #[trigger] samples[b]).now_ms
}

proof fn lemma_last_pos(samples: Seq<EngineSample>, k: int)
    requires
        0 <= k <= samples.len(),
    ensures
        match monitor_after(samples.take(k)).last_pos_ms {
            Some(t) => exists|j: int|
                0 <= j < k && #[trigger] emits_pos_at(samples, j) && samples[j].now_ms == t && forall|
                    m: int,
                |
                    j < m < k ==> !emits_pos_at(samples, m),
            None => forall|j: int| 0 <= j < k ==> !emits_pos_at(samples, j),
        },
    decreases k,
{
    if k > 0 {
        lemma_last_pos(samples, k - 1);
        let t = samples.take(k);
        assert(t.drop_last() =~= samples.take(k - 1));
        assert(t.last() == samples[k - 1]);
        let e = emits_pos_at(samples, k - 1);
        if e {
            assert(monitor_after(t).last_pos_ms == Some(samples[k - 1].now_ms));
            assert(0 <= k - 1 < k && emits_pos_at(samples, k - 1));
        } else {
            assert(monitor_after(t).last_pos_ms == monitor_after(samples.take(k - 1)).last_pos_ms);
            match monitor_after(samples.take(k - 1)).last_pos_ms {
                Some(x) => {
                    let j = choose|j: int|
                        0 <= j < k - 1 && #[trigger] emits_pos_at(samples, j) && samples[j].now_ms
                            == x && forall|m: int| j < m < k - 1 ==> !emits_pos_at(samples, m);
                    assert(forall|m: int| j < m < k ==> !emits_pos_at(samples, m));
                },
                None => {},
            }
        }
    }
}

/// Position frames of a run are at least 250 ms apart: between two frames
/// the clock has moved on by the interval.
pub proof fn position_frames_spaced(samples: Seq<EngineSample>, a: int, b: int)
    requires
        monotonic(samples),
        0 <= a < b < samples.len(),
        emits_pos_at(samples, a),
        emits_pos_at(samples, b),
    ensures
        samples[b].now_ms - samples[a].now_ms >= POS_INTERVAL_MS,
{
    lemma_last_pos(samples, b);
    match monitor_after(samples.take(b)).last_pos_ms {
        Some(t) => {
            let j = choose|j: int|
                0 <= j < b && #[trigger] emits_pos_at(samples, j) && samples[j].now_ms == t && forall|
                    m: int,
                |
                    j < m < b ==> !emits_pos_at(samples, m);
            assert(j >= a);
            assert(samples[a].now_ms <= samples[j].now_ms);
            assert(samples[j].now_ms <= samples[b].now_ms);
        },
        None => {},
    }
}

/// The end of a track is reported once: two ticks in a row never both
/// report it (a tick that reports it leaves the monitor inactive).
pub proof fn end_reported_once(samples: Seq<EngineSample>, k: int)
    requires
        0 < k < samples.len(),
    ensures
        !({
            let a = samples[k - 1];
            let b = samples[k];
            &&& monitor_after(samples.take(k - 1)).was_active && !a.active && !a.paused && !a.stopped
                && !a.rebuilding && !a.switching
            &&& monitor_after(samples.take(k)).was_active && !b.active && !b.paused && !b.stopped
                && !b.rebuilding && !b.switching
        }),
{
    let t = samples.take(k);
    assert(t.drop_last() =~= samples.take(k - 1));
    assert(t.last() == samples[k - 1]);
}

// ---------------------------------------------------------------------------
// The suspended web view
// ---------------------------------------------------------------------------

/// How a media control (tray or overlay) reaches the front end.
pub enum ControlRoute {
    /// `show`: bring the main window back.
    ShowMain,
    /// Send it now.
    Now,
    /// Resume the web view, send it after a short delay, then suspend again
    /// later if the window stays hidden.
    WakeFirst,
}

pub fn control_route(action: &str, suspended: bool) -> (r: ControlRoute)
    ensures
        r == (if action@ == "show"@ {
            ControlRoute::ShowMain
        } else if !suspended {
            ControlRoute::Now
        } else {
            ControlRoute::WakeFirst
        }),
{
    if eq_str(&chars_of(action), "show") {
        ControlRoute::ShowMain
    } else if !suspended {
        ControlRoute::Now
    } else {
        ControlRoute::WakeFirst
    }
}

/// How an event for the front end is delivered.
pub enum EventRoute {
    Now,
    /// Dropped: the web view sleeps and the event is not worth waking it
    /// (position frames are sent again after it resumes).
    Drop,
    WakeFirst,
}

pub fn event_route(suspended: bool, wake: bool) -> (r: EventRoute)
    ensures
        r == (if !suspended {
            EventRoute::Now
        } else if !wake {
            EventRoute::Drop
        } else {
            EventRoute::WakeFirst
        }),
{
    if !suspended {
        EventRoute::Now
    } else if !wake {
        EventRoute::Drop
    } else {
        EventRoute::WakeFirst
    }
}

/// Whether hiding the window suspends its web view: not while the desktop
/// lyrics window is open (it is fed by the main view), nor twice.
pub fn should_suspend(lyrics_open: bool, already_suspended: bool) -> (r: bool)
    ensures
        r == (!lyrics_open && !already_suspended),
{
    !lyrics_open && !already_suspended
}

/// Whether a resume request does anything: it does when the view was
/// suspended or the front end is to be refreshed.
pub fn resume_needed(was_suspended: bool, notify: bool) -> (r: bool)
    ensures
        r == (was_suspended || notify),
{
    was_suspended || notify
}

/// What closing the main window does.
pub enum CloseAction {
    /// Hide it to the tray (and suspend its web view).
    HideToTray,
    /// Quit the application.
    Exit,
}

/// The close button hides to the tray unless the `close_action` setting
/// (`tray` when unset) says otherwise.
pub fn close_action(setting: Option<&str>) -> (r: CloseAction)
    ensures
        r == (if crate::lxsource::opt_str_view(setting) is None || crate::lxsource::opt_str_view(
            setting,
        ) == Some("tray"@) {
            CloseAction::HideToTray
        } else {
            CloseAction::Exit
        }),
{
    match setting {
        None => CloseAction::HideToTray,
        Some(s) => if eq_str(&chars_of(s), "tray") {
            CloseAction::HideToTray
        } else {
            CloseAction::Exit
        },
    }
}

/// A tray menu entry's effect.
pub enum TrayCommand {
    ShowMain,
    /// Forward this media control.
    Control(&'static str),
    Quit,
    Ignore,
}

pub fn tray_command(id: &str) -> (r: TrayCommand)
    ensures
        match r {
            TrayCommand::ShowMain => id@ == "show"@,
            TrayCommand::Control(a) => (id@ == "pp"@ && a@ == "toggle"@) || (id@ == "prev"@ && a@
                == "prev"@) || (id@ == "next"@ && a@ == "next"@),
            TrayCommand::Quit => id@ == "quit"@,
            TrayCommand::Ignore => id@ != "show"@ && id@ != "pp"@ && id@ != "prev"@ && id@ != "next"@
                && id@ != "quit"@,
        },
{
    let v = chars_of(id);
    if eq_str(&v, "show") {
        TrayCommand::ShowMain
    } else if eq_str(&v, "pp") {
        TrayCommand::Control("toggle")
    } else if eq_str(&v, "prev") {
        TrayCommand::Control("prev")
    } else if eq_str(&v, "next") {
        TrayCommand::Control("next")
    } else if eq_str(&v, "quit") {
        TrayCommand::Quit
    } else {
        TrayCommand::Ignore
    }
}

// ---------------------------------------------------------------------------
// The output device watcher
// ---------------------------------------------------------------------------

/// What the watcher does when it polls the system's default device.
pub enum DeviceAction {
    /// Nothing changed (or no default device is reported).
    Ignore,
    /// The default changed, but the user's pinned device is still present.
    KeepPinned,
    /// Follow the new default device.
    Follow,
}

/// One poll of the default output device: a new, named default is
/// remembered and followed, unless the user pinned a device that is still
/// present.
pub fn device_poll(last_default: &mut String, now_default: String, pinned: bool, pinned_present: bool) -> (r:
    DeviceAction)
    ensures
        (now_default@ == old(last_default)@ || now_default@.len() == 0) ==> r is Ignore,
        (now_default@ == old(last_default)@ || now_default@.len() == 0) ==> final(last_default)@
            == old(last_default)@,
        !(now_default@ == old(last_default)@ || now_default@.len() == 0) ==> {
            &&& final(last_default)@ == now_default@
            &&& r == (if pinned && pinned_present {
                DeviceAction::KeepPinned
            } else {
                DeviceAction::Follow
            })
        },
{
    let n = chars_of(now_default.as_str());
    let l = chars_of(last_default.as_str());
    if eq_chars(&n, &l) || n.len() == 0 {
        return DeviceAction::Ignore;
    }
    *last_default = now_default;
    if pinned && pinned_present {
        DeviceAction::KeepPinned
    } else {
        DeviceAction::Follow
    }
}

} // verus!
