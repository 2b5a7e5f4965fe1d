use yimai::commands::{
    add_source_check, builtin_route, builtin_search_code, check_close_action, check_order_list,
    check_play_quality, core_settings, download_file_name, download_route, download_target_name,
    enabled_source, kugou_cover, local_quality_label, lx_lyric_request, lx_play_plan,
    lx_play_request, lx_resolve_request, lx_search_finish, lx_search_query, lx_search_source,
    lx_search_source_reply, netease_like_account, netease_login_settings,
    netease_playlist_account, pick_quality, pick_source, playlist_name, qq_cover,
    qq_login_settings, quality_for_setting, quality_tag, resolve_platform, sanitize_filename,
    script_name_check, script_size_check, source_track_info, tag_plan, BuiltinRoute, TagField, LxPlayPlan, OnlineSaveReq, SearchNext,
    SourceAdd,
};
use yimai::lxsource::LxRequest;
use yimai::models::{LxPlatform, LxSearchSong, LxSourceItem, SourceItem};

fn platform(code: &str, qualitys: &[&str]) -> LxPlatform {
    LxPlatform {
        code: code.to_string(),
        name: String::new(),
        actions: vec!["musicUrl".to_string()],
        qualitys: qualitys.iter().map(|q| q.to_string()).collect(),
    }
}

fn source(id: i64, name: &str, platforms: Vec<LxPlatform>, enabled: bool) -> LxSourceItem {
    LxSourceItem {
        id,
        kind: "network".to_string(),
        name: name.to_string(),
        base_url: format!("https://{name}.example.com"),
        origin: String::new(),
        platforms,
        enabled,
        api_mode: String::new(),
        created_at: 0,
    }
}

fn song(id: &str, platform: &str) -> LxSearchSong {
    LxSearchSong {
        id: id.to_string(),
        title: format!("t{id}"),
        artist: "a".to_string(),
        album: "b".to_string(),
        duration_ms: 1000,
        platform: platform.to_string(),
        extra: String::new(),
    }
}

fn sources() -> Vec<LxSourceItem> {
    vec![
        source(3, "one", vec![platform("kw", &["128k"])], true),
        source(5, "two", vec![platform("wy", &["128k", "flac"]), platform("tx", &[])], true),
        source(7, "three", vec![platform("wy", &["320k"])], false),
    ]
}

#[test]
fn pick_source_prefers_id_then_platform_then_first() {
    let s = sources();
    assert_eq!(pick_source(&s, Some(5), "kw"), Some(1));
    assert_eq!(pick_source(&s, Some(9), "kw"), None);
    assert_eq!(pick_source(&s, None, "wy"), Some(1));
    assert_eq!(pick_source(&s, None, "mg"), Some(0));
    assert_eq!(pick_source(&s, None, ""), Some(0));
    assert_eq!(pick_source(&Vec::new(), None, "wy"), None);
}

#[test]
fn resolve_platform_defaults() {
    let s = sources();
    assert_eq!(resolve_platform(&s[0], "tx"), "tx");
    assert_eq!(resolve_platform(&s[1], ""), "wy");
    let bare = source(1, "bare", vec![], true);
    assert_eq!(resolve_platform(&bare, ""), "wy");
    let nameless = source(1, "nameless", vec![platform("", &[])], true);
    assert_eq!(resolve_platform(&nameless, ""), "wy");
}

#[test]
fn pick_quality_order() {
    let s = sources();
    // Requested and listed.
    assert_eq!(pick_quality(&s[1], "wy", "flac"), "flac");
    // Requested but not listed: 320k, then 128k, then the first listed.
    assert_eq!(pick_quality(&s[1], "wy", "hires"), "128k");
    let only_flac = source(1, "f", vec![platform("wy", &["flac", "hires"])], true);
    assert_eq!(pick_quality(&only_flac, "wy", "master"), "flac");
    let odd = source(1, "o", vec![platform("wy", &["atmos", "hires"])], true);
    assert_eq!(pick_quality(&odd, "wy", "master"), "atmos");
    let wy = source(1, "w", vec![platform("wy", &["128k", "192k"])], true);
    assert_eq!(pick_quality(&wy, "wy", "192k"), "192k");
    assert_eq!(pick_quality(&wy, "wy", "flac"), "128k");
    assert_eq!(pick_quality(&wy, "tx", ""), "320k");
    assert_eq!(pick_quality(&wy, "tx", "flac"), "flac");
    let hi = source(1, "h", vec![platform("wy", &["flac", "320k"])], true);
    assert_eq!(pick_quality(&hi, "wy", "hires"), "320k");
    // Nothing listed: the request, else 320k.
    assert_eq!(pick_quality(&s[1], "tx", "flac"), "flac");
    assert_eq!(pick_quality(&s[1], "tx", ""), "320k");
    assert_eq!(pick_quality(&s[1], "kg", ""), "320k");
}

#[test]
fn quality_setting_and_badges() {
    assert_eq!(quality_for_setting("lossless"), "flac");
    assert_eq!(quality_for_setting("sq"), "flac");
    assert_eq!(quality_for_setting("standard"), "128k");
    assert_eq!(quality_for_setting("lq"), "128k");
    assert_eq!(quality_for_setting("high"), "320k");
    assert_eq!(quality_for_setting("weird"), "320k");
    assert_eq!(quality_tag("FLAC", 128), "无损");
    assert_eq!(quality_tag("mp3", 320), "HQ");
    assert_eq!(quality_tag("mp3", 192), "标准");
}

#[test]
fn play_request_defaults_and_blank_filters() {
    let r = lx_play_request(
        None,
        None,
        Some("42".into()),
        None,
        None,
        None,
        None,
        None,
        Some("  ".into()),
        Some("ctx".into()),
    );
    assert_eq!(r.source_id, 0);
    assert_eq!(r.platform, "");
    assert_eq!(r.song_id, "42");
    assert_eq!(r.duration_ms, 0);
    assert!(r.quality.is_none());
    assert_eq!(r.extra.as_deref(), Some("ctx"));
}

fn req(source_id: i64, platform: &str, song_id: &str) -> yimai::commands::LxPlaySongReq {
    lx_play_request(
        Some(source_id),
        Some(platform.into()),
        Some(song_id.into()),
        Some(String::new()),
        Some("歌手".into()),
        None,
        None,
        Some(1234),
        None,
        None,
    )
}

#[test]
fn play_plan_without_source_goes_builtin_kugou() {
    match lx_play_plan(req(0, " ", "hash1"), &sources(), None) {
        Ok(LxPlayPlan::Builtin { req }) => {
            assert_eq!(req.platform, "kg");
            assert_eq!(req.song_id, "hash1");
            assert_eq!(req.artist, "歌手");
        }
        _ => panic!("expected a built-in plan"),
    }
}

#[test]
fn play_plan_errors() {
    let err = |r: Result<LxPlayPlan, String>| match r {
        Err(e) => e,
        Ok(_) => panic!("expected an error"),
    };
    assert_eq!(err(lx_play_plan(req(5, "wy", "  "), &sources(), None)), "歌曲 ID 无效，无法取链");
    assert_eq!(
        err(lx_play_plan(req(9, "wy", "1"), &sources(), None)),
        "音源不存在，请在设置 → 音源管理中重新添加"
    );
    assert_eq!(err(lx_play_plan(req(7, "wy", "1"), &sources(), None)), "该音源已停用，请先在设置中启用");
    assert_eq!(err(lx_play_plan(req(5, "wy", "0"), &sources(), None)), "歌曲 ID 无效，无法取链");
}

#[test]
fn play_plan_through_source() {
    match lx_play_plan(req(5, "", "186016"), &sources(), Some("lossless")) {
        Ok(LxPlayPlan::Source { index, request, record_kind, info }) => {
            assert_eq!(index, 1);
            match request {
                LxRequest::Get(u) => assert_eq!(
                    u,
                    "https://two.example.com/url.php?source=wy&id=186016&quality=flac"
                ),
                _ => panic!("expected a GET"),
            }
            assert_eq!(record_kind.as_deref(), Some("netease"));
            assert_eq!(info.kind, "url");
            assert_eq!(info.title, "未知曲目");
            assert_eq!(info.artist, "歌手");
            assert_eq!(info.duration_ms, 1234);
            assert_eq!(info.quality.as_deref(), Some("FLAC"));
            assert_eq!(info.lx_source_id, Some(5));
            assert_eq!(info.lx_platform.as_deref(), Some("wy"));
            assert_eq!(info.lx_song_id.as_deref(), Some("186016"));
        }
        _ => panic!("expected a source plan"),
    }
    // Unknown platform: no play history kind; quality falls back to 320k.
    let mut r = req(5, "mg", "9");
    r.quality = Some("128k".into());
    match lx_play_plan(r, &sources(), None) {
        Ok(LxPlayPlan::Source { record_kind, info, .. }) => {
            assert!(record_kind.is_none());
            assert_eq!(info.quality.as_deref(), Some("128K"));
        }
        _ => panic!("expected a source plan"),
    }
}

#[test]
fn builtin_routes() {
    let route = |p: &str, id: &str| builtin_route(&req(0, p, id));
    assert!(matches!(route("kg", "h"), Ok(BuiltinRoute::Kugou)));
    assert!(matches!(route("wy", "186016"), Ok(BuiltinRoute::Netease(186016))));
    assert!(matches!(route("wy", "-5"), Ok(BuiltinRoute::Netease(-5))));
    assert_eq!(route("wy", "x1").err().unwrap(), "网易云曲目 ID 无效，无法取链");
    assert!(matches!(route("tx", "m"), Ok(BuiltinRoute::Qq)));
    assert!(route("kw", "1").err().unwrap().contains("音源管理"));
}

#[test]
fn search_query_checks() {
    assert_eq!(lx_search_query("  ", None, None).err().unwrap(), "请输入搜索关键词");
    let q = lx_search_query(" 晴天 ", Some("wy".into()), None).unwrap();
    assert_eq!(q.keyword, "晴天");
    assert_eq!(q.limit, 30);
    assert_eq!(q.platform, "wy");
    assert_eq!(lx_search_query("a", None, Some(0)).unwrap().limit, 1);
    assert_eq!(lx_search_query("a", None, Some(99)).unwrap().limit, 50);
    assert_eq!(lx_search_query("a", None, Some(20)).unwrap().limit, 20);
}

#[test]
fn search_through_source_and_fallback() {
    let srcs = sources();
    let q = lx_search_query("晴天", None, Some(5)).unwrap();
    let s = lx_search_source(&q, &srcs, None).unwrap();
    assert_eq!(s.index, 0);
    assert_eq!(s.platform, "kw");
    assert_eq!(
        s.url,
        "https://one.example.com/search.php?source=kw&keyword=%E6%99%B4%E5%A4%A9&limit=5&page=1"
    );
    match lx_search_source_reply(&srcs, &s, Ok(vec![song("1", ""), song("2", "x")])) {
        SearchNext::Done(o) => {
            assert_eq!(o.via, "音源搜索");
            assert_eq!(o.source_id, Some(3));
            assert_eq!(o.source_name.as_deref(), Some("one"));
            assert_eq!(o.platform, "kw");
            assert!(o.songs.iter().all(|x| x.platform == "kw"));
            assert!(o.source_error.is_none());
        }
        _ => panic!("expected songs"),
    }
    assert!(matches!(lx_search_source_reply(&srcs, &s, Ok(vec![])), SearchNext::Fallback(None)));
    match lx_search_source_reply(&srcs, &s, Err("boom".into())) {
        SearchNext::Fallback(Some(e)) => assert_eq!(e, "boom"),
        _ => panic!("expected a fallback"),
    }
    let some = Some(s);
    let done = lx_search_finish(&q, &srcs, &some, Some("boom".into()), Ok(vec![song("3", "kg")]))
        .unwrap();
    assert_eq!(done.via, "内置平台搜索");
    assert_eq!(done.platform, "kg");
    assert_eq!(done.source_error.as_deref(), Some("boom"));
    let empty = lx_search_finish(&q, &srcs, &some, None, Ok(vec![])).unwrap();
    assert_eq!(empty.platform, "kw");
    let failed = lx_search_finish(&q, &srcs, &some, Some("boom".into()), Err("nope".into()));
    assert_eq!(failed.err().unwrap(), "boom；内置平台搜索同样失败：nope");
    let none = lx_search_finish(&q, &Vec::new(), &None, None, Ok(vec![])).unwrap();
    assert_eq!(none.via, "内置平台搜索（未接入音源）");
    assert!(none.source_id.is_none());
    assert_eq!(builtin_search_code("netease"), "wy");
    assert_eq!(builtin_search_code("qq"), "tx");
    assert_eq!(builtin_search_code("kw"), "kg");
    assert_eq!(builtin_search_code(""), "kg");
}

#[test]
fn sanitize_and_download_names() {
    assert_eq!(sanitize_filename(" a/b:c*d?e\"f<g>h|i\\j "), "a b c d e f g h i j");
    assert_eq!(sanitize_filename("  ?? "), "");
    assert_eq!(download_file_name("周杰伦", "晴天", "mp3"), "周杰伦 - 晴天.mp3");
    assert_eq!(download_file_name(" / ", "a:b", "flac"), "Unknown - a b.flac");
    let r = OnlineSaveReq {
        kind: "netease".into(),
        id: "186016".into(),
        title: "  晴天 ".into(),
        artist: "周杰伦".into(),
        album: String::new(),
        cover_url: String::new(),
        duration_ms: 0,
        media_mid: String::new(),
    };
    assert!(matches!(download_route(&r), Ok(BuiltinRoute::Netease(186016))));
    assert_eq!(download_target_name(&r, "mp3"), "周杰伦 - 晴天.mp3");
    let bad = OnlineSaveReq { id: "x".into(), ..r };
    assert_eq!(download_route(&bad).err().unwrap(), "网易云歌曲 ID 无效");
    let blank = OnlineSaveReq { title: " ".into(), kind: "qq".into(), ..bad };
    assert_eq!(download_route(&blank).err().unwrap(), "歌曲标题为空");
    let other = OnlineSaveReq { title: "t".into(), kind: "kw".into(), ..blank };
    assert_eq!(download_route(&other).err().unwrap(), "未知音源类型");
}

#[test]
fn source_manager_checks() {
    let listed = vec![SourceItem {
        id: 4,
        url: "https://a.example.com/x.mp3".into(),
        title: String::new(),
        created_at: 0,
    }];
    assert!(matches!(
        add_source_check(" https://a.example.com/x.mp3 ", &listed),
        Ok(SourceAdd::Existing(4))
    ));
    match add_source_check("http://b.example.com/y.mp3", &listed) {
        Ok(SourceAdd::New(u)) => assert_eq!(u, "http://b.example.com/y.mp3"),
        _ => panic!("expected a new source"),
    }
    assert_eq!(
        add_source_check("ftp://x", &listed).err().unwrap(),
        "音源地址必须以 http:// 或 https:// 开头"
    );
    assert_eq!(
        add_source_check("https://x/live.m3u8", &listed).err().unwrap(),
        "暂不支持 m3u8/HLS，请使用音频文件直链"
    );
    assert!(script_name_check("C:\\src\\Music.JS").is_ok());
    assert!(script_name_check("a.json").is_ok());
    assert_eq!(script_name_check("a.exe").err().unwrap(), "请选择音源脚本文件（.js）");
    assert!(script_size_check(1024 * 1024).is_ok());
    assert_eq!(
        script_size_check(1024 * 1024 + 1).err().unwrap(),
        "脚本文件超过 1 MB，疑似不是音源脚本"
    );
}

#[test]
fn source_lookups_for_tests_and_lyrics() {
    let srcs = sources();
    assert_eq!(enabled_source(&srcs, 5, "x").unwrap(), 1);
    assert_eq!(enabled_source(&srcs, 8, "missing").err().unwrap(), "missing");
    assert_eq!(enabled_source(&srcs, 7, "x").err().unwrap(), "该音源已停用，请先在设置中启用");
    match lx_resolve_request(&srcs, 3, "kw", "77", None, Some("")).unwrap() {
        LxRequest::Get(u) => {
            assert_eq!(u, "https://one.example.com/url.php?source=kw&id=77&quality=320k")
        }
        _ => panic!("expected a GET"),
    }
    assert_eq!(lx_resolve_request(&srcs, 1, "kw", "77", None, None).err().unwrap(), "音源不存在");
    assert_eq!(
        lx_lyric_request(&srcs, 5, "wy", "9").unwrap(),
        "https://two.example.com/lyric.php?source=wy&id=9"
    );
    assert_eq!(lx_lyric_request(&srcs, 5, "wy", "").err().unwrap(), "歌曲 ID 无效，无法获取歌词");
}

#[test]
fn local_and_source_playback_labels() {
    assert_eq!(local_quality_label(24, 96000, 0).as_deref(), Some("96kHz/24bit"));
    assert_eq!(local_quality_label(16, 44100, 1411000).as_deref(), Some("44kHz/16bit"));
    assert_eq!(local_quality_label(0, 44100, 320000).as_deref(), Some("320kbps"));
    assert_eq!(local_quality_label(0, 0, 0), None);
    let item = SourceItem {
        id: 1,
        url: "https://a.example.com/music/song.mp3".into(),
        title: String::new(),
        created_at: 0,
    };
    let info = source_track_info(&item);
    assert_eq!(info.title, "song.mp3");
    assert_eq!(info.artist, "在线音源");
    let titled = SourceItem { title: "名字".into(), ..item };
    assert_eq!(source_track_info(&titled).title, "名字");
    assert_eq!(qq_cover(None, "0001"), "https://y.gtimg.cn/music/photo_new/T002R300x300M0000001.jpg");
    assert_eq!(qq_cover(None, ""), "");
    assert_eq!(qq_cover(Some("c".into()), "0001"), "c");
    assert_eq!(kugou_cover(Some(String::new()), "f"), "f");
    assert_eq!(kugou_cover(Some("s".into()), "f"), "s");
}

#[test]
fn setting_checks() {
    assert!(check_play_quality("lossless").is_ok());
    assert_eq!(check_play_quality("ultra").err().unwrap(), "无效的音质选项");
    assert!(check_close_action("exit").is_ok());
    assert_eq!(check_close_action("min").err().unwrap(), "无效的关闭行为");
    assert!(check_order_list("liked").is_ok());
    assert_eq!(check_order_list("x").err().unwrap(), "未知排序列表");
    assert_eq!(playlist_name("  夜跑 ").unwrap(), "夜跑");
    assert_eq!(playlist_name("  ").err().unwrap(), "播放列表名称不能为空");
    assert_eq!(netease_like_account("", "cookie").unwrap(), None);
    assert_eq!(netease_like_account("123", "cookie").unwrap(), Some(123));
    assert_eq!(netease_like_account("abc", "cookie").err().unwrap(), "账号 ID 无效");
    assert_eq!(netease_playlist_account("123", "").err().unwrap(), "未登录网易云账号");
    assert_eq!(netease_playlist_account("", "c").unwrap(), None);
    let c = core_settings(Some("true"), None, Some("abc"), Some("exit".into()), Some("false"));
    assert!(c.eq_enabled);
    assert_eq!(c.quality, "high");
    assert_eq!(c.cache_limit, 2 * 1024 * 1024 * 1024);
    assert_eq!(c.close_action, "exit");
    assert!(!c.auto_update);
    let d = core_settings(None, Some("standard".into()), Some("0"), None, None);
    assert!(!d.eq_enabled);
    assert_eq!(d.cache_limit, 0);
    assert_eq!(d.close_action, "tray");
    assert!(d.auto_update);
}

#[test]
fn login_settings_written() {
    let w = netease_login_settings("success", &Some("MU".into()), &None, Some(42));
    assert_eq!(
        w,
        vec![
            ("netease_music_u".to_string(), "MU".to_string()),
            ("netease_uid".to_string(), "42".to_string())
        ]
    );
    assert!(netease_login_settings("waiting", &Some("MU".into()), &None, None).is_empty());
    assert!(netease_login_settings("success", &None, &Some("n".into()), None).is_empty());
    let q = qq_login_settings("success", &Some("1".into()), &Some("k".into()), &Some("e".into()), &None);
    assert_eq!(q.len(), 3);
    assert_eq!(q[2], ("qq_encrypt_uin".to_string(), "e".to_string()));
    assert!(qq_login_settings("success", &Some("1".into()), &None, &None, &None).is_empty());
}

#[test]
fn tags_of_saved_tracks() {
    let p = tag_plan("晴天", "", "叶惠美", "https://y/a.png", Some("  "));
    assert_eq!(p.texts.len(), 2);
    assert!(matches!(&p.texts[0], (TagField::Title, t) if t == "晴天"));
    assert!(matches!(&p.texts[1], (TagField::Album, t) if t == "叶惠美"));
    assert_eq!(p.cover_png, Some(true));
    let q = tag_plan("t", "a", "", "", Some("[00:01]x"));
    assert!(matches!(&q.texts[1], (TagField::Artist, t) if t == "a"));
    assert!(matches!(&q.texts[2], (TagField::Lyrics, t) if t == "[00:01]x"));
    assert_eq!(q.cover_png, None);
    assert_eq!(tag_plan("t", "", "", "https://y/a.jpg", None).cover_png, Some(false));
}
