use yimai::json::{JsonNumber, JsonValue};
use yimai::net::HttpFailure;
use yimai::updater::{
    download_error, download_start, download_step, github_error, latest_release_info,
    pick_setup_asset, ps_quote, safe_installer_name, DownloadEvent, DownloadStep,
};

fn s(v: &str) -> JsonValue {
    JsonValue::String(v.to_string())
}

fn n(v: u64) -> JsonValue {
    JsonValue::Number(JsonNumber::new(v.to_string(), Some(v), Some(v as i64)).unwrap())
}

fn obj(members: Vec<(&str, JsonValue)>) -> JsonValue {
    JsonValue::Object(members.into_iter().map(|(k, v)| (k.to_string(), v)).collect())
}

fn asset(name: &str, size: u64) -> JsonValue {
    obj(vec![
        ("name", s(name)),
        ("browser_download_url", s(&format!("https://dl/{name}"))),
        ("size", n(size)),
    ])
}

#[test]
fn quoting_for_powershell() {
    assert_eq!(ps_quote("C:\\it's"), "'C:\\it''s'");
    assert_eq!(ps_quote(""), "''");
}

#[test]
fn setup_asset_choice() {
    let assets = vec![asset("notes.txt", 1), asset("Yimai.exe", 2), asset("Yimai_0.2_x64-Setup.EXE", 3)];
    let (name, url, size) = pick_setup_asset(&assets).unwrap();
    assert_eq!(name.iter().collect::<String>(), "Yimai_0.2_x64-Setup.EXE");
    assert_eq!(url.iter().collect::<String>(), "https://dl/Yimai_0.2_x64-Setup.EXE");
    assert_eq!(size, 3);
    let only_exe = vec![asset("a.exe", 5), asset("b.exe", 6)];
    assert_eq!(pick_setup_asset(&only_exe).unwrap().2, 5);
    assert!(pick_setup_asset(&vec![asset("a.zip", 1)]).is_none());
}

#[test]
fn release_documents() {
    let release = obj(vec![
        ("tag_name", s("v0.2.0")),
        ("body", s("notes")),
        ("published_at", s("2026-01-01")),
        ("assets", JsonValue::Array(vec![asset("Yimai-setup.exe", 9)])),
    ]);
    let info = latest_release_info(&release, "0.1.9").unwrap().unwrap();
    assert_eq!(info.version, "0.2.0");
    assert_eq!(info.notes, "notes");
    assert_eq!(info.asset_size, 9);
    assert!(latest_release_info(&release, "0.2.0").unwrap().is_none());
    assert_eq!(latest_release_info(&obj(vec![]), "0.1").err().unwrap(), "仓库还没有发布版本");
    let bare = obj(vec![("tag_name", s("v9"))]);
    assert_eq!(latest_release_info(&bare, "0.1").err().unwrap(), "发布信息缺少附件");
    let no_exe = obj(vec![("tag_name", s("v9")), ("assets", JsonValue::Array(vec![]))]);
    assert_eq!(
        latest_release_info(&no_exe, "0.1").err().unwrap(),
        "新版本 v9 未提供 Windows 安装包，请到 GitHub 发布页手动下载"
    );
}

#[test]
fn download_bookkeeping() {
    assert_eq!(safe_installer_name("Yimai (1)_x64-setup.exe").unwrap(), "Yimai(1)_x64-setup.exe");
    assert_eq!(safe_installer_name("安装").err().unwrap(), "安装包文件名无效");
    let mut p = download_start(Some("5"), 10);
    assert_eq!(p.total, 10);
    assert_eq!(download_start(Some("10"), 0).total, 10);
    assert_eq!(download_start(Some("x"), 0).total, 0);
    assert_eq!(download_start(None, 7).total, 7);
    let mut short = download_start(Some("5"), 10);
    download_step(&mut short, DownloadEvent::Chunk(5));
    assert!(matches!(download_step(&mut short, DownloadEvent::End), DownloadStep::Abort(m) if m == "下载不完整，请重试"));
    assert!(matches!(download_step(&mut p, DownloadEvent::Chunk(4)), DownloadStep::Continue));
    assert_eq!(p.received, 4);
    assert!(matches!(download_step(&mut p, DownloadEvent::End), DownloadStep::Abort(m) if m == "下载不完整，请重试"));
    assert!(matches!(download_step(&mut p, DownloadEvent::Chunk(6)), DownloadStep::Continue));
    assert!(matches!(download_step(&mut p, DownloadEvent::End), DownloadStep::Done));
    assert!(matches!(download_step(&mut p, DownloadEvent::Cancelled), DownloadStep::Abort(m) if m == "已取消下载"));
    assert!(matches!(download_step(&mut p, DownloadEvent::Failed("reset".into())), DownloadStep::Abort(m) if m == "下载中断：reset"));
    let mut unknown = download_start(None, 0);
    download_step(&mut unknown, DownloadEvent::Chunk(3));
    assert!(matches!(download_step(&mut unknown, DownloadEvent::End), DownloadStep::Done));
}

#[test]
fn update_errors() {
    assert_eq!(github_error(&HttpFailure::Status(404)), "仓库还没有发布版本");
    assert_eq!(github_error(&HttpFailure::Status(500)), "GitHub 返回状态 500");
    let t = HttpFailure::Transport { kind: "dns".into(), message: "dns failed".into() };
    assert_eq!(github_error(&t), "无法连接 GitHub：dns failed");
    assert_eq!(download_error(&HttpFailure::Status(403)), "下载失败（HTTP 403）");
    assert_eq!(download_error(&t), "下载失败：dns failed");
}
