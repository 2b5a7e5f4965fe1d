use yimai::updater::{build_update_script, is_newer, version_tuple};

#[test]
fn version_compare() {
    assert!(is_newer("0.1.2", "0.1.1"));
    assert!(is_newer("v0.2.0", "0.1.1"));
    assert!(is_newer("0.2", "0.1.9"));
    assert!(is_newer("0.1.2.0", "0.1.1"));
    assert!(!is_newer("0.1.1", "0.1.1"));
    assert!(!is_newer("v0.1.1", "0.1.1"));
    assert!(!is_newer("0.1.0", "0.1.1"));
    assert!(!is_newer("0.1.1-beta.1", "0.1.1"));
}

#[test]
fn version_tuple_parses() {
    assert_eq!(version_tuple("v0.1.2"), vec![0, 1, 2]);
    assert_eq!(version_tuple("0.1.2-beta.1"), vec![0, 1, 2]);
    assert_eq!(version_tuple(" 1.2 "), vec![1, 2]);
}

#[test]
fn script_quotes_paths_with_spaces_and_chinese() {
    let s = build_update_script(
        r"C:\Users\张三\AppData\Local\Temp\Yimai_0.1.2.0_x64-setup.exe",
        r"C:\Program Files\Yimai",
        r"C:\Program Files\Yimai\yimai.exe",
    );
    assert!(s.contains(r"'C:\Users\张三\AppData\Local\Temp\Yimai_0.1.2.0_x64-setup.exe'"));
    assert!(s.contains(r#"('/DIR="' + $dir + '"')"#));
    assert!(s.contains("'C:\\Program Files\\Yimai'"));
    assert!(s.contains("Get-Process -Name 'Yimai_0.1.2.0_x64-setup'"));
    let q = build_update_script("C:\\it's\\setup.exe", "C:\\app", "C:\\app\\yimai.exe");
    assert!(q.contains("'C:\\it''s\\setup.exe'"));
}
