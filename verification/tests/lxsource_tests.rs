use yimai::json::{JsonNumber, JsonValue};
use yimai::lxsource::{decode_js_escapes, normalize_base, parse_script, parse_song, percent_encode};

const SAMPLE: &str = r#"
/*!
 * LX Online Source API (PHP shared-host build, ready to use)
 */
// API endpoint base = where url.php / lyric.php / pic.php live
const API_BASE = 'https://music.example.com'

const { EVENT_NAMES, request, on, send, utils } = globalThis.lx

const SOURCES = {
  wy: { name: '\u7f51\u6613\u4e91\u97f3\u4e50', qualitys: ['128k', '192k', '320k', 'flac', 'flac24bit', 'hires', 'atmos', 'master'] },
  tx: { name: 'QQ音乐', qualitys: ['128k', '192k', '320k', 'flac', 'flac24bit', 'hires', 'atmos', 'atmos_plus', 'master'] },
  kw: { name: '酷我音乐', qualitys: ['128k', '192k', '320k', 'flac', 'flac24bit'] },
}

on(EVENT_NAMES.request, ({ action, source, info }) => {
  switch (action) {
    case 'musicUrl':
      return httpGet('/url.php?' + qs + '&quality=' + (info.type || '320k')).then((data) => data.url)
    case 'lyric':
      return httpGet('/lyric.php?' + qs)
    case 'pic':
      return httpGet('/pic.php?' + qs).then((data) => data.url)
  }
})

send(EVENT_NAMES.inited, { status: true, openDevTools: false, sources })
"#;

const PLAIN: &str = r#"
// 自建音源：只导出取链方法，不依赖任何宿主对象
const API_BASE = 'https://music.example.com'

export const sources = {
  kg: { name: '酷狗音乐', qualitys: ['128k', '320k'] },
}

export async function getMusicUrl(songInfo) {
  const r = await fetch(`${API_BASE}/url.php?source=kg&id=${songInfo.id}&quality=320k`)
  return (await r.json()).data.url
}
"#;

const MINIMAL: &str = r#"
const BASE_URL = 'https://music.example.com'
const PLATFORMS = [
  wy: { name: '网易云音乐' },
]
"#;

const SERVER_SCRIPT: &str = r#"
// 服务端下发配置（自动生成，请勿修改）
globalThis['SERVER_SCRIPT_CONFIG'] = {"apiUrl":"https:\/\/88.lxmusic.xn--fiqs8s","apiKey":"lxmusic","signSalt":"LxSrv@2026#Sig","fingerprint":"ffdaccdf66796c1cbe96df07bf682118"};
// ===== 服务端下发配置结束 =====
;(function(p,a,c,k,e,d){e=function(c){return c};/* packed body … */})();
"#;

fn s(v: &str) -> JsonValue {
    JsonValue::String(v.to_string())
}

fn n(v: u64) -> JsonValue {
    JsonValue::Number(JsonNumber::new(v.to_string(), Some(v), Some(v as i64)).unwrap())
}

fn obj(members: Vec<(&str, JsonValue)>) -> JsonValue {
    JsonValue::Object(members.into_iter().map(|(k, v)| (k.to_string(), v)).collect())
}

#[test]
fn parses_sample_script() {
    let p = parse_script(SAMPLE).expect("parse ok");
    assert_eq!(p.base_url, "https://music.example.com");
    assert_eq!(p.name, "music.example.com 音源");
    assert_eq!(p.platforms.len(), 3);
    let wy = p.platforms.iter().find(|x| x.code == "wy").unwrap();
    assert_eq!(wy.name, "网易云音乐");
    assert!(wy.qualitys.contains(&"flac24bit".to_string()));
    assert!(wy.qualitys.contains(&"master".to_string()));
}

#[test]
fn decodes_js_unicode_escapes() {
    assert_eq!(decode_js_escapes(r"\u7f51\u6613"), "网易");
    assert_eq!(decode_js_escapes("plain"), "plain");
}

#[test]
fn lx_script_import_unchanged() {
    let p = parse_script(SAMPLE).expect("LX 脚本应通过");
    assert_eq!(p.base_url, "https://music.example.com");
}

#[test]
fn accepts_plain_source_script() {
    let p = parse_script(PLAIN).expect("普通脚本应通过");
    assert_eq!(p.base_url, "https://music.example.com");
    assert_eq!(p.platforms.len(), 1);
    assert_eq!(p.platforms[0].code, "kg");
    assert_eq!(p.platforms[0].name, "酷狗音乐");
}

#[test]
fn accepts_minimal_script() {
    let p = parse_script(MINIMAL).expect("极简脚本应通过");
    assert_eq!(p.base_url, "https://music.example.com");
    assert_eq!(p.platforms.len(), 1);
}

#[test]
fn rejects_non_source_script() {
    let err = parse_script("console.log('hi')").unwrap_err();
    assert!(err.contains("不像音源脚本"), "{err}");
    assert!(!err.contains("LX"), "{err}");
}

#[test]
fn rejects_html_document() {
    let err = parse_script("<!doctype html><html><body>hi</body></html>").unwrap_err();
    assert!(err.contains("HTML 网页"), "{err}");
}

#[test]
fn rejects_json_document() {
    let err = parse_script(r#"{"code":0,"data":{"url":"x"}}"#).unwrap_err();
    assert!(err.contains("JSON 数据"), "{err}");
}

#[test]
fn rejects_no_base_url() {
    let err = parse_script("function musicUrl() { return buildLocalPath() }").unwrap_err();
    assert!(err.contains("无法从脚本中解析出取链接口地址"), "{err}");
}

#[test]
fn rejects_empty() {
    assert!(parse_script("   ").is_err());
}

#[test]
fn accepts_lx_server_script() {
    let p = parse_script(SERVER_SCRIPT).expect("服务端下发脚本应通过");
    assert_eq!(p.base_url, "https://88.lxmusic.xn--fiqs8s");
}

#[test]
fn server_script_signature_does_not_false_accept_random() {
    let random = parse_script("function fetchData() { return 1 }").unwrap_err();
    assert!(random.contains("不像音源脚本"), "{random}");
}

#[test]
fn normalize_base_unescapes_slashes() {
    assert_eq!(
        normalize_base("https:\\/\\/88.lxmusic.xn--fiqs8s"),
        Some("https://88.lxmusic.xn--fiqs8s".into())
    );
}

#[test]
fn normalize_base_variants() {
    assert_eq!(
        normalize_base("https://music.example.com/"),
        Some("https://music.example.com".into())
    );
    assert_eq!(normalize_base("ftp://x"), None);
    assert_eq!(normalize_base("https://localhost"), None);
}

#[test]
fn percent_encode_extra() {
    assert_eq!(percent_encode(r#"{"hash":"a/b"}"#), r#"%7B%22hash%22%3A%22a%2Fb%22%7D"#);
}

#[test]
fn parses_search_song_aliases() {
    let v = obj(vec![
        ("songmid", s("003aBcD1")),
        ("songname", s("晴天")),
        ("singer", JsonValue::Array(vec![obj(vec![("name", s("周杰伦"))])])),
        ("album", obj(vec![("name", s("叶惠美"))])),
        ("interval", n(269)),
    ]);
    let song = parse_song(&v);
    assert_eq!(song.id, "003aBcD1");
    assert_eq!(song.title, "晴天");
    assert_eq!(song.artist, "周杰伦");
    assert_eq!(song.album, "叶惠美");
    assert_eq!(song.duration_ms, 269_000);
}

#[test]
fn parses_search_song_duration_ms() {
    let v = obj(vec![
        ("id", s("7")),
        ("name", s("a")),
        ("artist", s("b")),
        ("durationMs", n(269000)),
    ]);
    assert_eq!(parse_song(&v).duration_ms, 269_000);
}
