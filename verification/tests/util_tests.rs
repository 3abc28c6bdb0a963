//! Tests of the string helpers, media detection and upload planning, the
//! probe decision, the multipart header analysis, the static-file path
//! decision, and the model rows.

use aqua_web::forms::{extract_file, parse_boundary, FormField, MultipartForm, SavedFile};
use aqua_web::assoc::StrAssoc;
use aqua_web::media::{is_content_digest, mime_detect, plan_upload, ImageFormat};
use aqua_web::models::Entry;
use aqua_web::plug::MemeFailure;
use aqua_web::probe::{
    ffmpeg_decision, FFProbeFormat, FFProbeResult, FFProbeStream, ProcessingError,
};
use aqua_web::strutil::{
    bytes_starts_with, contains_sub, find_sub, starts_with_str, str_eq, trim_str,
};
use aqua_web::tryfile::TryFile;

#[test]
fn test_str_helpers() {
    assert!(str_eq("abc", "abc"));
    assert!(!str_eq("abc", "abd"));
    assert!(!str_eq("abc", "ab"));
    assert!(contains_sub("hello world", "lo wo"));
    assert!(!contains_sub("hello", "world"));
    assert_eq!(find_sub("banana", "na"), Some(2));
    assert_eq!(find_sub("banana", "xy"), None);
    assert!(starts_with_str("multipart/form-data; x", "multipart/form-data"));
    assert!(!starts_with_str("multi", "multipart"));
    assert_eq!(trim_str("  padded \t\n"), "padded");
    assert_eq!(trim_str(" \t "), "");
    assert!(bytes_starts_with(b"abcdef", b"abc"));
    assert!(!bytes_starts_with(b"ab", b"abc"));
}

#[test]
fn test_mime_detect_known_headers() {
    let png = mime_detect(b"\x89PNG rest of file").expect("png detected");
    assert_eq!(png.extension(), "png");
    assert!(matches!(png.format(), ImageFormat::Png));
    assert_eq!(png.mime(), "image/png");

    let jpg = mime_detect(b"\xff\xd8jfif").expect("jpg detected");
    assert_eq!(jpg.extension(), "jpg");
    assert_eq!(jpg.mime(), "image/jpeg");

    let gif = mime_detect(b"GIF89a....").expect("gif detected");
    assert_eq!(gif.extension(), "gif");
    assert_eq!(gif.mime(), "image/gif");
}

#[test]
fn test_mime_detect_unknown_is_none() {
    assert!(mime_detect(b"plain text").is_none());
    assert!(mime_detect(b"").is_none());
}

#[test]
fn test_plan_upload_derives_paths_from_digest() {
    let mut data: Vec<u8> = vec![0xff, 0xd8];
    data.extend_from_slice(b"not really a jpeg body");
    let plan = plan_upload("/srv/content", data.as_slice()).expect("plan for jpeg header");

    assert_eq!(plan.digest.len(), 64);
    assert!(plan.digest.chars().all(|c| c.is_ascii_hexdigit()));
    assert_eq!(
        plan.content_dir,
        format!("/srv/content/f{}", &plan.digest[..2])
    );
    assert_eq!(plan.thumb_dir, format!("/srv/content/t{}", &plan.digest[..2]));
    assert_eq!(plan.content_name, format!("{}.jpg", plan.digest));
    assert_eq!(plan.meta.extension(), "jpg");

    // the digest is a function of the bytes alone
    let again = plan_upload("/srv/content", data.as_slice()).unwrap();
    assert_eq!(again.digest, plan.digest);

    // and not a copy of the input or a constant
    let mut other: Vec<u8> = vec![0xff, 0xd8];
    other.extend_from_slice(b"different body");
    let other_plan = plan_upload("/srv/content", other.as_slice()).unwrap();
    assert_ne!(other_plan.digest, plan.digest);
}

#[test]
fn test_plan_upload_unknown_bytes_is_none() {
    assert!(plan_upload("/srv/content", b"no image here").is_none());
}

#[test]
fn test_is_content_digest() {
    assert!(is_content_digest("2cf24dba5FB0a30e"));
    assert!(is_content_digest("ab"));
    assert!(!is_content_digest("a"));
    assert!(!is_content_digest(""));
    assert!(!is_content_digest("ab/../etc"));
    assert!(!is_content_digest("xyz"));
}

fn probe_format(name: &str) -> FFProbeFormat {
    FFProbeFormat {
        filename: "clip".to_string(),
        nb_streams: 1,
        format_name: name.to_string(),
        start_time: "0.0".to_string(),
        duration: "1.0".to_string(),
        size: "100".to_string(),
        bit_rate: "100".to_string(),
        probe_score: 100,
        tags: StrAssoc::new(),
    }
}

fn video_stream() -> FFProbeStream {
    FFProbeStream { codec_name: "h264".to_string(), codec_type: "video".to_string() }
}

fn audio_stream() -> FFProbeStream {
    FFProbeStream { codec_name: "aac".to_string(), codec_type: "audio".to_string() }
}

#[test]
fn test_probe_decision_matroska() {
    let probe = FFProbeResult {
        format: Some(probe_format("matroska,webm")),
        streams: Some(vec![audio_stream(), video_stream()]),
    };
    let meta = ffmpeg_decision(probe).unwrap().unwrap();
    assert_eq!(meta.mime, "video/x-matroska");
    assert_eq!(meta.ext, "mkv");
}

#[test]
fn test_probe_decision_mp4() {
    let probe = FFProbeResult {
        format: Some(probe_format("mov,mp4,m4a")),
        streams: Some(vec![video_stream()]),
    };
    let meta = ffmpeg_decision(probe).unwrap().unwrap();
    assert_eq!(meta.mime, "video/mp4");
    assert_eq!(meta.ext, "mp4");
}

#[test]
fn test_probe_decision_without_video_stream_fails() {
    let probe = FFProbeResult {
        format: Some(probe_format("matroska")),
        streams: Some(vec![audio_stream()]),
    };
    assert!(matches!(
        ffmpeg_decision(probe),
        Err(ProcessingError::DetectionFailed)
    ));
}

#[test]
fn test_probe_decision_incomplete_report_is_none() {
    let no_format = FFProbeResult { format: None, streams: Some(vec![video_stream()]) };
    assert!(ffmpeg_decision(no_format).unwrap().is_none());

    let no_streams = FFProbeResult { format: Some(probe_format("matroska")), streams: None };
    assert!(ffmpeg_decision(no_streams).unwrap().is_none());

    let unknown = FFProbeResult {
        format: Some(probe_format("ogg")),
        streams: Some(vec![video_stream()]),
    };
    assert!(ffmpeg_decision(unknown).unwrap().is_none());
}

#[test]
fn test_parse_boundary() {
    let values = vec!["multipart/form-data; boundary=XYZ".to_string()];
    assert_eq!(parse_boundary(&values).unwrap(), "XYZ");

    let mixed = vec![
        "text/html".to_string(),
        "multipart/form-data; boundary=abc123".to_string(),
    ];
    assert_eq!(parse_boundary(&mixed).unwrap(), "abc123");

    let plain = vec!["text/html".to_string()];
    assert!(parse_boundary(&plain).is_none());

    let without = vec!["multipart/form-data".to_string()];
    assert!(parse_boundary(&without).is_none());
}

#[test]
fn test_extract_file_consumes_the_entry() {
    let mut entries: StrAssoc<FormField> = StrAssoc::new();
    entries.insert(
        "upload".to_string(),
        FormField::File(SavedFile {
            path: "/tmp/upload-1".to_string(),
            filename: Some("cat.png".to_string()),
            size: 11,
        }),
    );
    entries.insert("note".to_string(), FormField::Value("hi".to_string()));
    let mut form = MultipartForm { entries, save_dir: "/tmp".to_string() };

    let file = extract_file(&mut form, "upload").expect("file extracted");
    assert_eq!(file.path, "/tmp/upload-1");
    assert_eq!(file.filename.as_deref(), Some("cat.png"));
    assert_eq!(file.size, 11);

    // the entry is consumed
    assert!(extract_file(&mut form, "upload").is_none());

    // a string field is not a file, but is consumed all the same
    assert!(extract_file(&mut form, "note").is_none());
    assert!(form.entries.get("note").is_none());
}

#[test]
fn test_static_file_candidate() {
    assert_eq!(
        TryFile::candidate("/css/app.css").unwrap(),
        "./static/css/app.css"
    );
    assert!(TryFile::candidate("/../etc/passwd").is_none());
    assert!(TryFile::candidate("/a/./b").is_none());
}

#[test]
fn test_entry_as_new() {
    let entry = Entry {
        id: 7,
        hash: "abcd".to_string(),
        mime: Some("image/png".to_string()),
        is_orphan: None,
    };
    let new_entry = entry.as_new();
    assert_eq!(new_entry.hash, "abcd");
    assert_eq!(new_entry.mime, Some("image/png"));
}

#[test]
fn test_meme_failure_message() {
    let failure = MemeFailure::NoLulz("no lulz were had".to_string());
    assert_eq!(failure.message(), "no lulz were had");
}
