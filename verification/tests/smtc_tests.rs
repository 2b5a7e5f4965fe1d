use yimai::models::{SmtcMsg, TrackInfo};
use yimai::smtc::{
    cover_source, file_uri, media_event_action, smtc_step, CoverSource, MediaEvent, Playback,
    SmtcUpdate,
};

fn info(title: &str) -> TrackInfo {
    TrackInfo {
        id: None,
        kind: "url".into(),
        path: String::new(),
        title: title.into(),
        artist: String::new(),
        album: String::new(),
        cover: String::new(),
        duration_ms: 0,
        nid: None,
        qid: None,
        kgid: None,
        quality: None,
        lx_source_id: None,
        lx_platform: None,
        lx_song_id: None,
    }
}

#[test]
fn media_keys_map_to_actions() {
    assert_eq!(media_event_action(MediaEvent::Toggle), Some(("toggle", None)));
    assert_eq!(media_event_action(MediaEvent::Previous), Some(("prev", None)));
    assert_eq!(media_event_action(MediaEvent::Seek { forward: false }), Some(("seek_back", None)));
    assert_eq!(media_event_action(MediaEvent::SeekBy { forward: true }), Some(("seek_fwd", None)));
    assert_eq!(media_event_action(MediaEvent::SetPosition { ms: 1500 }), Some(("set_pos", Some(1500))));
    assert_eq!(media_event_action(MediaEvent::Raise), Some(("show", None)));
    assert_eq!(media_event_action(MediaEvent::Other), None);
}

#[test]
fn overlay_follows_messages() {
    let mut shown = false;
    assert!(matches!(
        smtc_step(&mut shown, SmtcMsg::Position { playing: true, pos_ms: 5 }),
        SmtcUpdate::Nothing
    ));
    match smtc_step(&mut shown, SmtcMsg::Update { info: Some(info("a")), playing: true, pos_ms: 7 }) {
        SmtcUpdate::Track { info, playback: Playback::Playing { pos_ms: 7 } } => {
            assert_eq!(info.title, "a")
        }
        _ => panic!("expected the track"),
    }
    assert!(shown);
    assert!(matches!(
        smtc_step(&mut shown, SmtcMsg::Position { playing: false, pos_ms: 9 }),
        SmtcUpdate::State(Playback::Paused { pos_ms: 9 })
    ));
    assert!(matches!(
        smtc_step(&mut shown, SmtcMsg::Update { info: None, playing: false, pos_ms: 0 }),
        SmtcUpdate::State(Playback::Stopped)
    ));
    assert!(!shown);
    assert!(matches!(
        smtc_step(&mut shown, SmtcMsg::Position { playing: true, pos_ms: 11 }),
        SmtcUpdate::Nothing
    ));
}

#[test]
fn cover_sources_and_uris() {
    assert!(matches!(cover_source(""), CoverSource::Absent));
    assert!(matches!(cover_source("https://x/a.PNG?x=1"), CoverSource::Remote { ext: "png" }));
    assert!(matches!(cover_source("http://x/a"), CoverSource::Remote { ext: "jpg" }));
    assert!(matches!(cover_source("C:\\covers\\a.jpg"), CoverSource::Local));
    assert_eq!(
        file_uri(r"C:\Users\张三\covers\a b#1.jpg"),
        "file:///C:/Users/%E5%BC%A0%E4%B8%89/covers/a%20b%231.jpg"
    );
    assert_eq!(file_uri("a{b}?`\"<>"), "file:///a%7Bb%7D%3F%60%22%3C%3E");
}
