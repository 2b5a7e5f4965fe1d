use yimai::json::{JsonNumber, JsonValue};
use yimai::lxsource::{
    host_of, lyric, lyric_text, music_url, music_url_link, parse_platforms_php,
    parse_script_impl, platforms_php_url, probe_platforms_outcome, probe_script_outcome,
    probe_source, probe_url_php_outcome, search_results, search_songs, split_list,
    unwrap_lx_envelope, url_php_probe_url, LxRequest, ProbePlan,
};
use yimai::net::{http_err, HttpFailure};

fn s(v: &str) -> JsonValue {
    JsonValue::String(v.to_string())
}

fn num(v: i64) -> JsonValue {
    JsonValue::Number(
        JsonNumber::new(v.to_string(), if v >= 0 { Some(v as u64) } else { None }, Some(v))
            .unwrap(),
    )
}

fn obj(members: Vec<(&str, JsonValue)>) -> JsonValue {
    JsonValue::Object(members.into_iter().map(|(k, v)| (k.to_string(), v)).collect())
}

fn ok_envelope(data: JsonValue) -> JsonValue {
    obj(vec![("code", num(0)), ("data", data)])
}

#[test]
fn link_requests() {
    match music_url("https://m.example.com", "kg", "h1", "320k", Some(r#"{"a":1}"#), "").unwrap() {
        LxRequest::Get(u) => assert_eq!(
            u,
            "https://m.example.com/url.php?source=kg&id=h1&quality=320k&extra=%7B%22a%22%3A1%7D"
        ),
        _ => panic!("expected a GET"),
    }
    match music_url("https://m.example.com", "wy", "5", "flac", None, "v1").unwrap() {
        LxRequest::PostJson { url, fields } => {
            assert_eq!(url, "https://m.example.com/v1/music/resolve-url");
            assert_eq!(
                fields,
                vec![
                    ("rid".to_string(), "5".to_string()),
                    ("level".to_string(), "flac".to_string()),
                    ("source".to_string(), "wy".to_string())
                ]
            );
        }
        _ => panic!("expected a POST"),
    }
    assert_eq!(music_url("b", "wy", "0", "q", None, "").err().unwrap(), "歌曲 ID 无效，无法取链");
    assert_eq!(lyric("b", "wy", "").err().unwrap(), "歌曲 ID 无效，无法获取歌词");
    assert_eq!(lyric("https://b", "wy", "1").unwrap(), "https://b/lyric.php?source=wy&id=1");
    assert_eq!(
        search_songs("https://b", "tx", "a b", -3),
        "https://b/search.php?source=tx&keyword=a%20b&limit=-3&page=1"
    );
}

#[test]
fn replies_are_read() {
    let good = ok_envelope(obj(vec![("url", s("https://cdn.example.com/a.mp3"))]));
    assert_eq!(music_url_link(&good).unwrap(), "https://cdn.example.com/a.mp3");
    let bad = ok_envelope(obj(vec![("url", s("ftp://x"))]));
    assert_eq!(music_url_link(&bad).err().unwrap(), "取链失败: 接口返回的直链无效");
    let refused = obj(vec![("code", num(403)), ("msg", s("禁止"))]);
    assert_eq!(music_url_link(&refused).err().unwrap(), "取链失败: 禁止");
    let no_msg = obj(vec![("code", num(1))]);
    assert_eq!(music_url_link(&no_msg).err().unwrap(), "取链失败: 未知错误");
    let no_data = obj(vec![("code", num(0))]);
    assert_eq!(unwrap_lx_envelope(&no_data, "歌词").err().unwrap(), "歌词失败: 响应缺少 data 字段");
    let tl = ok_envelope(obj(vec![("lyric", s("  ")), ("tlyric", s(" [00:01]x "))]));
    assert_eq!(lyric_text(&tl).unwrap(), "[00:01]x");
    let none = ok_envelope(obj(vec![("lyric", s(""))]));
    assert_eq!(lyric_text(&none).err().unwrap(), "该音源未返回歌词");
    let list = ok_envelope(obj(vec![(
        "songs",
        JsonValue::Array(vec![
            obj(vec![("id", s("1")), ("name", s("A"))]),
            obj(vec![("id", s("2"))]),
            obj(vec![("hash", s("H")), ("title", s("B"))]),
        ]),
    )]));
    let songs = search_results(&list).unwrap();
    assert_eq!(songs.len(), 2);
    assert_eq!(songs[1].id, "H");
    assert_eq!(songs[1].extra, "H");
}

#[test]
fn platform_lists_and_probes() {
    let data = obj(vec![(
        "platforms",
        JsonValue::Array(vec![
            obj(vec![("code", s("wy")), ("qualities", JsonValue::Array(vec![s("128k"), num(1)]))]),
            obj(vec![("name", s("nameless"))]),
            obj(vec![("code", s("zz")), ("name", s("Z")), ("actions", JsonValue::Array(vec![s("lyric")]))]),
        ]),
    )]);
    let ps = parse_platforms_php(&data);
    assert_eq!(ps.len(), 2);
    assert_eq!(ps[0].name, "网易云");
    assert_eq!(ps[0].qualitys, vec!["128k".to_string()]);
    assert_eq!(ps[0].actions, vec!["musicUrl".to_string()]);
    assert_eq!(ps[1].actions, vec!["lyric".to_string()]);

    assert!(matches!(probe_source("  "), Err(e) if e == "地址不能为空"));
    assert!(matches!(probe_source(" https://x.example.com/s.JS?v=2 "), Ok(ProbePlan::Script(u)) if u == "https://x.example.com/s.JS?v=2"));
    assert!(matches!(probe_source("https://m.example.com/api/"), Ok(ProbePlan::Network(b)) if b == "https://m.example.com/api"));
    assert!(probe_source("m.example.com").is_err());
    assert_eq!(platforms_php_url("https://b.example.com"), "https://b.example.com/platforms.php");
    assert_eq!(
        url_php_probe_url("https://b.example.com"),
        "https://b.example.com/url.php?source=wy&id=0&quality=128k"
    );
    let found = probe_platforms_outcome("https://b.example.com/x", &ok_envelope(data)).unwrap();
    assert_eq!(found.name, "b.example.com");
    assert_eq!(found.via, "platforms.php");
    assert!(probe_platforms_outcome("https://b.example.com", &ok_envelope(obj(vec![]))).is_none());
    let weak = probe_url_php_outcome("https://b.example.com", Ok(obj(vec![("code", num(-1))]))).unwrap();
    assert_eq!(weak.via, "url.php 接口探测");
    assert!(weak.platforms.is_empty());
    assert!(probe_url_php_outcome("https://b.example.com", Ok(obj(vec![]))).is_err());
    let down = probe_url_php_outcome("https://b.example.com", Err("请求失败: x".into())).err().unwrap();
    assert!(down.starts_with("音源校验失败：请求失败: x。"));
    let sub = probe_script_outcome("const API_BASE = 'https://s.example.com'\nmusicUrl".into()).unwrap();
    assert_eq!(sub.via, "音源脚本订阅");
    assert_eq!(sub.base_url, "https://s.example.com");
    assert!(probe_script_outcome("hello".into()).err().unwrap().starts_with("订阅脚本校验失败: "));
}

#[test]
fn script_hints_and_lists() {
    let obfuscated = "musicUrl(eval(atob('...')))";
    let p = parse_script_impl(obfuscated, Some(" https://h.example.com/ "), Some("v1")).unwrap();
    assert_eq!(p.base_url, "https://h.example.com");
    assert_eq!(p.api_mode, "v1");
    assert_eq!(
        parse_script_impl(obfuscated, Some("   "), None).err().unwrap(),
        parse_script_impl(obfuscated, None, None).err().unwrap()
    );
    assert_eq!(
        parse_script_impl(obfuscated, Some("nope"), None).err().unwrap(),
        "前端回填的接口基址格式无效，请确认脚本内包含正确的接口地址"
    );
    assert_eq!(split_list(r#" '128k', "320k" ,flac, , '' "#), vec!["128k", "320k", "flac"]);
    assert_eq!(host_of("https://a.example.com/x/y"), "a.example.com");
    assert_eq!(host_of("http://b.example.com"), "b.example.com");
}

#[test]
fn http_failures_explained() {
    assert_eq!(http_err("请求失败", &HttpFailure::Status(502)), "请求失败: 服务器返回 HTTP 502");
    let t = |kind: &str| HttpFailure::Transport { kind: kind.into(), message: String::new() };
    assert_eq!(
        http_err("拉取失败", &t("Dns Failed")),
        "拉取失败: 域名无法解析，请检查地址拼写与网络连接"
    );
    assert_eq!(
        http_err("x", &t("io: connection timed out")),
        "x: 请求超时（10s 连接 / 15s 读取），服务器无响应或网络不通"
    );
    assert_eq!(http_err("x", &t("url parse error")), "x: 地址格式无效");
    assert_eq!(http_err("x", &t("TLS")), "x: 网络错误（tls）");
}

#[test]
fn number_readings_must_agree() {
    assert!(JsonNumber::new("5".to_string(), Some(5), Some(5)).is_some());
    assert!(JsonNumber::new("5".to_string(), Some(5), Some(6)).is_none());
    assert!(JsonNumber::new("5".to_string(), Some(5), None).is_none());
    assert!(JsonNumber::new("-1".to_string(), None, Some(-1)).is_some());
    assert!(JsonNumber::new("1.5".to_string(), None, None).is_some());
    let big = u64::MAX;
    let n = JsonNumber::new(big.to_string(), Some(big), None).unwrap();
    assert_eq!((n.as_u64(), n.as_i64(), n.text()), (Some(big), None, "18446744073709551615"));
}
