use yimai::library::{
    cover_ext, is_audio, lrc_path, scan_plan, scan_progress, strip_verbatim, track_format,
    track_names, year_from_tag, CoverMime, KnownFile, ScannedFile,
};
use yimai::paths::{extension, file_stem};

fn chars(s: &str) -> Vec<char> {
    s.chars().collect()
}

#[test]
fn audio_files_by_extension() {
    assert!(is_audio("C:\\Music\\a.mp3"));
    assert!(is_audio("C:\\Music\\B.FLAC"));
    assert!(is_audio("/music/c.m4b"));
    assert!(!is_audio("C:\\Music\\cover.jpg"));
    assert!(!is_audio("C:\\Music\\mp3"));
    assert!(!is_audio("C:\\Music\\.mp3"));
    assert_eq!(extension(&chars("a\\b.tar.gz")), Some(chars("gz")));
    assert_eq!(extension(&chars("a\\b.")), Some(chars("")));
    assert_eq!(extension(&chars("a\\..")), None);
}

#[test]
fn formats_by_extension() {
    assert_eq!(track_format("a.Mp3"), "MP3");
    assert_eq!(track_format("a.oga"), "OGG");
    assert_eq!(track_format("a.mp4"), "M4A");
    assert_eq!(track_format("a.aac"), "AAC");
    assert_eq!(track_format("a.wav"), "WAV");
    assert_eq!(track_format("a"), "AUDIO");
}

#[test]
fn verbatim_prefix_and_lrc_path() {
    assert_eq!(strip_verbatim(r"\\?\C:\Music\a.mp3"), r"C:\Music\a.mp3");
    assert_eq!(strip_verbatim(r"C:\Music\a.mp3"), r"C:\Music\a.mp3");
    assert_eq!(lrc_path(r"C:\Music\a.b.mp3"), r"C:\Music\a.b.lrc");
    assert_eq!(lrc_path(r"C:\Music\song"), r"C:\Music\song.lrc");
    assert_eq!(lrc_path(r"C:\Music\.hidden"), r"C:\Music\.hidden.lrc");
}

#[test]
fn years_and_names() {
    assert_eq!(year_from_tag("2003-07-31"), 2003);
    assert_eq!(year_from_tag("99"), 99);
    assert_eq!(year_from_tag("abcd"), 0);
    assert_eq!(year_from_tag(""), 0);
    let (t, a) = track_names(r"C:\Music\周杰伦 - 晴天.mp3", String::new(), String::new());
    assert_eq!((t.as_str(), a.as_str()), ("晴天", "周杰伦"));
    let (t, a) = track_names(r"C:\Music\A - B - C.flac", String::new(), "Tagged".into());
    assert_eq!((t.as_str(), a.as_str()), ("B - C", "Tagged"));
    let (t, a) = track_names(r"C:\Music\plain.flac", String::new(), String::new());
    assert_eq!((t.as_str(), a.as_str()), ("plain", ""));
    let (t, a) = track_names(r"C:\Music\x - y.flac", "Title".into(), String::new());
    assert_eq!((t.as_str(), a.as_str()), ("Title", ""));
    assert_eq!(cover_ext(CoverMime::Png), "png");
    assert_eq!(cover_ext(CoverMime::Other), "img");
}

fn scanned(p: &str, mtime: i64, size: i64) -> ScannedFile {
    ScannedFile { path: p.into(), mtime, size }
}

#[test]
fn rescan_parses_new_and_changed_files_only() {
    let files = vec![
        scanned("a", 1, 10),
        scanned("b", 2, 20),
        scanned("c", 3, 30),
        scanned("d", 4, 40),
    ];
    let known = vec![
        KnownFile { path: "a".into(), mtime: 1, size: 10 },
        KnownFile { path: "b".into(), mtime: 1, size: 20 },
        KnownFile { path: "c".into(), mtime: 9, size: 9 },
        KnownFile { path: "c".into(), mtime: 3, size: 30 },
    ];
    let removed = vec!["d".to_string()];
    assert_eq!(scan_plan(&files, &known, &removed), vec![1]);
    assert_eq!(scan_plan(&files, &Vec::new(), &Vec::new()), vec![0, 1, 2, 3]);
}

#[test]
fn rescan_progress_reports() {
    let r: Vec<(usize, usize, bool)> =
        scan_progress(true, 60, 50).iter().map(|p| (p.done, p.total, p.active)).collect();
    assert_eq!(
        r,
        vec![(0, 60, true), (10, 60, true), (34, 60, true), (58, 60, true), (60, 60, true), (60, 60, false)]
    );
    let none: Vec<(usize, usize, bool)> =
        scan_progress(false, 0, 0).iter().map(|p| (p.done, p.total, p.active)).collect();
    assert_eq!(none, vec![(0, 0, false)]);
    let idle: Vec<(usize, usize, bool)> =
        scan_progress(true, 3, 0).iter().map(|p| (p.done, p.total, p.active)).collect();
    assert_eq!(idle, vec![(0, 3, true), (3, 3, true), (3, 3, false)]);
}

#[test]
fn trailing_dot_components_are_skipped() {
    assert_eq!(file_stem(&chars("x/a.mp3/.")), Some(chars("a")));
    assert_eq!(file_stem(&chars("x\\a.mp3\\.\\.\\")), Some(chars("a")));
    assert_eq!(extension(&chars("x/a.mp3/.")), Some(chars("mp3")));
    assert_eq!(file_stem(&chars("./")), None);
    assert_eq!(file_stem(&chars("/.")), None);
    assert_eq!(file_stem(&chars("x/..")), None);
    assert_eq!(lrc_path("x/a.mp3/."), "x/a.lrc");
    assert_eq!(lrc_path(r"C:\Music\a.mp3\"), r"C:\Music\a.lrc");
}
