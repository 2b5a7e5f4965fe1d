use yimai::lxsource::{normalize_base, percent_encode};
use yimai::updater::{is_newer, ps_quote};

fn percent_decode(t: &str) -> Vec<u8> {
    let b = t.as_bytes();
    let mut out = Vec::new();
    let mut i = 0;
    while i < b.len() {
        if b[i] == b'%' && i + 2 < b.len() {
            let hex = std::str::from_utf8(&b[i + 1..i + 3]).unwrap();
            out.push(u8::from_str_radix(hex, 16).unwrap());
            i += 3;
        } else {
            out.push(b[i]);
            i += 1;
        }
    }
    out
}

#[test]
fn percent_encoding_loses_nothing() {
    for text in ["{\"hash\":\"a/b\"}", "晴天 - 周杰伦", "100% ~_-.", ""] {
        let e = percent_encode(text);
        assert!(e
            .chars()
            .all(|c| c == '%' || c.is_ascii_alphanumeric() || matches!(c, '-' | '_' | '.' | '~')));
        assert_eq!(percent_decode(&e), text.as_bytes());
    }
}

#[test]
fn powershell_quoting_loses_nothing() {
    for text in ["C:\\it's", "''", "路径 with space"] {
        let q = ps_quote(text);
        assert!(q.starts_with('\'') && q.ends_with('\''));
        assert_eq!(q[1..q.len() - 1].replace("''", "'"), text);
    }
}

#[test]
fn normalized_bases_are_clean() {
    assert_eq!(
        normalize_base(" https://a.example.com/api//?token=1 "),
        Some("https://a.example.com/api".to_string())
    );
    assert_eq!(normalize_base("http://a.example.com?x"), Some("http://a.example.com".to_string()));
    assert_eq!(normalize_base("https:///"), None);
}

#[test]
fn normalized_bases_are_stable() {
    for raw in ["https://a.example.com/api//?token=1", "http://a.example.com?x", "https://b.example.org/x/y/"] {
        let n = normalize_base(raw).unwrap();
        assert!(n.starts_with("http://") || n.starts_with("https://"));
        assert_eq!(normalize_base(&n), Some(n.clone()));
    }
}

#[test]
fn version_comparison_ignores_prefix_suffix_and_zero() {
    for (a, c) in [("0.2", "0.1"), ("0.1", "0.2"), ("1.0.3", "1.0.3"), ("2", "1.9.9")] {
        let base = is_newer(a, c);
        assert_eq!(is_newer(&format!("v{a}"), c), base);
        assert_eq!(is_newer(&format!("V{a}"), c), base);
        assert_eq!(is_newer(&format!("{a}-beta.1"), c), base);
        assert_eq!(is_newer(&format!("{a}+build7"), c), base);
        assert_eq!(is_newer(&format!("{a}.0"), c), base);
        assert_eq!(is_newer(c, &format!("v{a}")), is_newer(c, a));
        assert_eq!(is_newer(c, &format!("{a}.0")), is_newer(c, a));
    }
}

#[test]
fn version_with_suffix_keeps_comparing_alike() {
    for (a, c) in [("1.5-rc", "1.4"), ("1.5 -rc", "1.5"), ("0.9+b1", "1.0")] {
        let base = is_newer(a, c);
        assert_eq!(is_newer(&format!("{a}-x"), c), base);
        assert_eq!(is_newer(&format!("{a}+7"), c), base);
        assert_eq!(is_newer(&format!("{a}.0"), c), base);
        assert_eq!(is_newer(c, &format!("{a}.0")), is_newer(c, a));
    }
}
