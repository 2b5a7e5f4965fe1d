use yimai::library::CoverMime;
use yimai::track::{
    cover_file, pick_cover, read_track, track_fields, AudioProps, TagPicture, TagText,
};

fn png(w: u32, h: u32) -> Vec<u8> {
    let img = image::RgbImage::from_pixel(w, h, image::Rgb([200, 30, 60]));
    let mut out = std::io::Cursor::new(Vec::new());
    img.write_to(&mut out, image::ImageFormat::Png).unwrap();
    out.into_inner()
}

fn wav(rate: u32, samples: u32) -> Vec<u8> {
    let n = samples * 2;
    let mut b = Vec::new();
    b.extend_from_slice(b"RIFF");
    b.extend_from_slice(&(36 + n).to_le_bytes());
    b.extend_from_slice(b"WAVEfmt ");
    b.extend_from_slice(&16u32.to_le_bytes());
    b.extend_from_slice(&1u16.to_le_bytes());
    b.extend_from_slice(&1u16.to_le_bytes());
    b.extend_from_slice(&rate.to_le_bytes());
    b.extend_from_slice(&(rate * 2).to_le_bytes());
    b.extend_from_slice(&2u16.to_le_bytes());
    b.extend_from_slice(&16u16.to_le_bytes());
    b.extend_from_slice(b"data");
    b.extend_from_slice(&n.to_le_bytes());
    b.resize(b.len() + n as usize, 0);
    b
}

fn text(title: &str, artist: &str) -> TagText {
    TagText {
        title: if title.is_empty() { None } else { Some(title.to_string()) },
        artist: if artist.is_empty() { None } else { Some(artist.to_string()) },
        album: Some("范特西".to_string()),
        album_artist: None,
        track: Some(3),
        disc: None,
        year: Some("2001-09-14".to_string()),
    }
}

fn pic(front: bool, data: &[u8], mime: CoverMime) -> TagPicture {
    TagPicture { front, data: data.to_vec(), mime }
}

#[test]
fn covers_are_stored_as_jpeg_when_they_decode() {
    assert_eq!(cover_file(Vec::new(), CoverMime::Png), None);
    let junk = vec![1u8, 2, 3, 4];
    assert_eq!(cover_file(junk.clone(), CoverMime::Png), Some((junk.clone(), "png".to_string())));
    assert_eq!(cover_file(junk.clone(), CoverMime::Other), Some((junk, "img".to_string())));

    let small = png(10, 20);
    let (bytes, ext) = cover_file(small.clone(), CoverMime::Png).unwrap();
    assert_eq!(ext, "jpg");
    assert_ne!(bytes, small);
    let back = image::load_from_memory(&bytes).unwrap();
    assert_eq!((back.width(), back.height()), (10, 20));
    assert_eq!(image::guess_format(&bytes).unwrap(), image::ImageFormat::Jpeg);
}

#[test]
fn large_covers_are_shrunk_to_fit() {
    let (bytes, ext) = cover_file(png(900, 300), CoverMime::Png).unwrap();
    assert_eq!(ext, "jpg");
    let back = image::load_from_memory(&bytes).unwrap();
    assert_eq!((back.width(), back.height()), (600, 200));
    let (bytes, _) = cover_file(png(600, 600), CoverMime::Png).unwrap();
    let back = image::load_from_memory(&bytes).unwrap();
    assert_eq!((back.width(), back.height()), (600, 600));
}

#[test]
fn the_front_cover_is_preferred() {
    let p = pick_cover(vec![pic(false, b"a", CoverMime::Gif), pic(true, b"b", CoverMime::Bmp)]).unwrap();
    assert_eq!(p.data, b"b".to_vec());
    let p = pick_cover(vec![pic(false, b"a", CoverMime::Gif), pic(false, b"b", CoverMime::Bmp)]).unwrap();
    assert_eq!(p.data, b"a".to_vec());
    assert!(pick_cover(Vec::new()).is_none());
}

#[test]
fn track_fields_take_the_primary_tag_then_the_first() {
    let props = AudioProps { secs: 215, nanos: 500, bitrate: Some(320), sample_rate: Some(44100), bit_depth: None };
    let t = track_fields(
        r"C:\Music\x.mp3",
        Some((None, Some(text("晴天", "周杰伦")))),
        Some((None, Some(vec![pic(false, b"junk", CoverMime::Tiff)]))),
        Some(props),
    );
    assert_eq!((t.title.as_str(), t.artist.as_str(), t.album.as_str()), ("晴天", "周杰伦", "范特西"));
    assert_eq!((t.track_no, t.disc, t.year), (3, 0, 2001));
    assert_eq!((t.duration_secs, t.duration_nanos, t.bitrate, t.sample_rate, t.bit_depth), (215, 500, 320, 44100, 0));
    assert_eq!(t.format, "MP3");
    assert_eq!(t.cover, Some((b"junk".to_vec(), "tiff".to_string())));

    let t = track_fields(
        r"C:\Music\周杰伦 - 稻香.flac",
        Some((Some(text("", "")), Some(text("别的", "别人")))),
        None,
        None,
    );
    assert_eq!((t.title.as_str(), t.artist.as_str()), ("稻香", "周杰伦"));
    assert_eq!((t.bitrate, t.duration_secs, t.format.as_str()), (0, 0, "FLAC"));
    assert_eq!(t.cover, None);
}

#[test]
fn no_tag_means_no_cover_and_file_name_fallback() {
    let t = track_fields(r"C:\Music\歌手 - 歌名.mp3", None, Some((Some(vec![pic(true, b"x", CoverMime::Png)]), None)), None);
    assert_eq!((t.title.as_str(), t.artist.as_str(), t.album.as_str()), ("歌名", "歌手", ""));
    assert_eq!((t.track_no, t.year), (0, 0));
    assert_eq!(t.cover, None);
}

#[test]
fn a_wave_file_reads_its_properties() {
    let t = read_track(r"C:\Music\歌手 - 歌名.wav", &wav(8000, 8000));
    assert_eq!((t.title.as_str(), t.artist.as_str()), ("歌名", "歌手"));
    assert_eq!((t.sample_rate, t.bit_depth, t.format.as_str()), (8000, 16, "WAV"));
    let secs = t.duration_secs as f64 + t.duration_nanos as f64 / 1e9;
    assert!((secs - 1.0).abs() < 0.01);
    assert_eq!(t.cover, None);
}

#[test]
fn unreadable_files_fall_back_to_the_name() {
    let t = read_track(r"C:\Music\周杰伦 - 晴天.mp3", b"not audio");
    assert_eq!((t.title.as_str(), t.artist.as_str(), t.sample_rate, t.duration_secs), ("晴天", "周杰伦", 0, 0));
    let t = read_track(r"C:\Music\noext", &wav(8000, 10));
    assert_eq!((t.title.as_str(), t.sample_rate, t.format.as_str()), ("noext", 0, "AUDIO"));
}

