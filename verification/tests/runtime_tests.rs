use yimai::runtime::{
    close_action, control_route, device_poll, event_route, monitor_start, monitor_step,
    resume_needed, should_suspend, tray_command, CloseAction, ControlRoute, DeviceAction,
    EngineSample, EventRoute, TrayCommand,
};

fn sample(now_ms: u64, active: bool, paused: bool) -> EngineSample {
    EngineSample { now_ms, active, paused, stopped: false, rebuilding: false, switching: false }
}

#[test]
fn monitor_spaces_frames_and_reports_end() {
    let mut st = monitor_start();
    let a = monitor_step(&mut st, sample(0, true, false));
    assert!(a.emit_pos && a.overlay_pos && !a.ended);
    let b = monitor_step(&mut st, sample(120, true, false));
    assert!(!b.emit_pos && !b.overlay_pos);
    let c = monitor_step(&mut st, sample(250, true, false));
    assert!(c.emit_pos && !c.overlay_pos);
    let d = monitor_step(&mut st, sample(1000, true, false));
    assert!(d.emit_pos && d.overlay_pos);
    let e = monitor_step(&mut st, sample(1120, false, false));
    assert!(e.ended && !e.emit_pos);
    let f = monitor_step(&mut st, sample(1240, false, false));
    assert!(!f.ended);
}

#[test]
fn monitor_ignores_pause_stop_and_switch() {
    let mut st = monitor_start();
    monitor_step(&mut st, sample(0, true, false));
    let p = monitor_step(&mut st, sample(120, false, true));
    assert!(!p.ended && !p.emit_pos);
    let mut st = monitor_start();
    monitor_step(&mut st, sample(0, true, false));
    let s = monitor_step(
        &mut st,
        EngineSample { now_ms: 120, active: false, paused: false, stopped: false, rebuilding: false, switching: true },
    );
    assert!(!s.ended);
    // A switch counts as active: ending right after it is still an end.
    let t = monitor_step(&mut st, sample(240, false, false));
    assert!(t.ended);
    let mut st = monitor_start();
    monitor_step(&mut st, sample(0, true, false));
    let u = monitor_step(
        &mut st,
        EngineSample { now_ms: 120, active: false, paused: false, stopped: true, rebuilding: false, switching: false },
    );
    assert!(!u.ended);
}

#[test]
fn web_view_routes() {
    assert!(matches!(control_route("show", true), ControlRoute::ShowMain));
    assert!(matches!(control_route("next", false), ControlRoute::Now));
    assert!(matches!(control_route("next", true), ControlRoute::WakeFirst));
    assert!(matches!(event_route(false, false), EventRoute::Now));
    assert!(matches!(event_route(true, false), EventRoute::Drop));
    assert!(matches!(event_route(true, true), EventRoute::WakeFirst));
    assert!(should_suspend(false, false));
    assert!(!should_suspend(true, false));
    assert!(!should_suspend(false, true));
    assert!(resume_needed(false, true));
    assert!(!resume_needed(false, false));
    assert!(matches!(close_action(None), CloseAction::HideToTray));
    assert!(matches!(close_action(Some("tray")), CloseAction::HideToTray));
    assert!(matches!(close_action(Some("exit")), CloseAction::Exit));
    assert!(matches!(tray_command("pp"), TrayCommand::Control("toggle")));
    assert!(matches!(tray_command("show"), TrayCommand::ShowMain));
    assert!(matches!(tray_command("quit"), TrayCommand::Quit));
    assert!(matches!(tray_command("other"), TrayCommand::Ignore));
}

#[test]
fn device_watcher_follows_default() {
    let mut last = "Speakers".to_string();
    assert!(matches!(device_poll(&mut last, "Speakers".into(), false, false), DeviceAction::Ignore));
    assert!(matches!(device_poll(&mut last, String::new(), false, false), DeviceAction::Ignore));
    assert_eq!(last, "Speakers");
    assert!(matches!(device_poll(&mut last, "Headset".into(), true, true), DeviceAction::KeepPinned));
    assert_eq!(last, "Headset");
    assert!(matches!(device_poll(&mut last, "HDMI".into(), true, false), DeviceAction::Follow));
    assert!(matches!(device_poll(&mut last, "USB".into(), false, false), DeviceAction::Follow));
    assert_eq!(last, "USB");
}
