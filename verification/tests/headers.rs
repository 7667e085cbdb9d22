use cli_downloader::commands::file_info_from_headers;
use cli_downloader::error::DownloadError;
use cli_downloader::network::{content_length, is_success_status, metadata_from_headers, HeaderEntry, HeaderList};

fn headers(pairs: &[(&str, Option<&str>)]) -> HeaderList {
    HeaderList {
        entries: pairs
            .iter()
            .map(|(n, v)| HeaderEntry { name: n.to_string(), value: v.map(|s| s.to_string()) })
            .collect(),
    }
}

#[test]
fn metadata_reads_size_and_range_support() {
    let h = headers(&[("content-length", Some("1048576")), ("accept-ranges", Some("bytes"))]);
    let m = metadata_from_headers("http://x/f.bin", &h).unwrap();
    assert_eq!(m.file_size, 1048576);
    assert!(m.supports_range);
    assert_eq!(m.url, "http://x/f.bin");
}

#[test]
fn metadata_reads_accept_ranges_header() {
    let h = headers(&[("content-length", Some("1000")), ("accept-ranges", Some("bytes"))]);
    let m = metadata_from_headers("http://example.com/a.bin", &h).unwrap();
    assert_eq!(m.file_size, 1000);
    assert!(m.supports_range);
    assert_eq!(m.url, "http://example.com/a.bin");
    let h = headers(&[("content-length", Some("10")), ("accept-ranges", Some("none"))]);
    assert!(!metadata_from_headers("u", &h).unwrap().supports_range);
    let h = headers(&[("content-length", Some("10"))]);
    assert!(!metadata_from_headers("u", &h).unwrap().supports_range);
    let h = headers(&[("content-length", Some("10")), ("accept-range", Some("bytes"))]);
    assert!(!metadata_from_headers("u", &h).unwrap().supports_range);
}

#[test]
fn metadata_without_size_is_unknown() {
    let h = headers(&[("accept-ranges", Some("bytes"))]);
    assert!(matches!(metadata_from_headers("u", &h), Err(DownloadError::UnknownFileSize)));
    let h = headers(&[("content-length", Some("abc"))]);
    assert!(matches!(metadata_from_headers("u", &h), Err(DownloadError::UnknownFileSize)));
    let h = headers(&[("content-length", None)]);
    assert!(matches!(metadata_from_headers("u", &h), Err(DownloadError::UnknownFileSize)));
    let h = headers(&[("content-length", Some("-5"))]);
    assert!(matches!(metadata_from_headers("u", &h), Err(DownloadError::UnknownFileSize)));
}

#[test]
fn first_header_of_a_name_wins() {
    let h = headers(&[("content-length", Some("5")), ("content-length", Some("9"))]);
    assert_eq!(content_length(&h), Some(5));
    let h = headers(&[("content-length", None), ("content-length", Some("9"))]);
    assert_eq!(content_length(&h), None);
    assert_eq!(h.text_of("content-length"), None);
    assert_eq!(h.text_of("etag"), None);
}

#[test]
fn file_info_fields() {
    let h = headers(&[
        ("content-type", Some("video/mp4")),
        ("accept-ranges", Some("bytes")),
        ("last-modified", Some("Wed, 21 Oct 2015 07:28:00 GMT")),
    ]);
    let info = file_info_from_headers(&h, Some("1.05 MB".to_string()));
    assert_eq!(info.size, "1.05 MB");
    assert_eq!(info.content_type, "video/mp4");
    assert!(info.accepts_range);
    assert_eq!(info.last_modified, "Wed, 21 Oct 2015 07:28:00 GMT");
}

#[test]
fn file_info_unknowns() {
    let h = headers(&[("content-type", None), ("accept-ranges", Some("none"))]);
    let info = file_info_from_headers(&h, None);
    assert_eq!(info.size, "Unknown");
    assert_eq!(info.content_type, "Unknown");
    assert!(!info.accepts_range);
    assert_eq!(info.last_modified, "Unknown");
}

#[test]
fn success_statuses() {
    assert!(is_success_status(200));
    assert!(is_success_status(206));
    assert!(is_success_status(299));
    assert!(!is_success_status(199));
    assert!(!is_success_status(300));
    assert!(!is_success_status(404));
    assert!(!is_success_status(500));
}
