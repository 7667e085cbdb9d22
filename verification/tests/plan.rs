use cli_downloader::commands::{filename_from_url, join_save_path, prepare_download, try_prepare_download, CompletionCounter};

#[test]
fn file_name_from_url() {
    assert_eq!(filename_from_url("https://host/path/video.mp4?token=abc"), "video.mp4");
    assert_eq!(filename_from_url("https://host/file.zip"), "file.zip");
    assert_eq!(filename_from_url("https://host/dir/"), "");
    assert_eq!(filename_from_url("plain"), "plain");
    assert_eq!(filename_from_url("https://host/a?b/c"), "c");
    assert_eq!(filename_from_url("https://host/?q"), "");
}

#[test]
fn save_path_joins_with_backslash() {
    assert_eq!(join_save_path("C:\\Downloads", "a.mp4"), "C:\\Downloads\\a.mp4");
    assert_eq!(join_save_path("", "a"), "\\a");
}

#[test]
fn plan_uses_url_name_when_none_given() {
    let plan = prepare_download("https://h/x/movie.mkv?sig=1", None, "D:\\dl", 4, 100, [0xAB; 16]);
    assert_eq!(plan.filename, "movie.mkv");
    assert_eq!(plan.full_path, "D:\\dl\\movie.mkv");
    assert_eq!(plan.chunks.len(), 4);
    assert_eq!(plan.chunks[3].end_byte, 99);
    assert_eq!(plan.download_id, "abababab-abab-4bab-abab-abababababab");
}

#[test]
fn plan_keeps_given_name() {
    let plan = prepare_download("https://h/x/movie.mkv", Some("mine.bin".to_string()), "out", 1, 5, [0; 16]);
    assert_eq!(plan.filename, "mine.bin");
    assert_eq!(plan.full_path, "out\\mine.bin");
    assert_eq!(plan.download_id, "00000000-0000-4000-8000-000000000000");
}

#[test]
fn only_last_chunk_finishes() {
    let mut counter = CompletionCounter::new(3);
    assert!(!counter.record_chunk_done());
    assert!(!counter.record_chunk_done());
    assert!(counter.record_chunk_done());
}

#[test]
fn single_chunk_finishes_at_once() {
    let mut counter = CompletionCounter::new(1);
    assert!(counter.record_chunk_done());
}

#[test]
fn download_id_is_the_uuid_of_the_bytes() {
    let bytes = [0x12, 0x34, 0x56, 0x78, 0x9a, 0xbc, 0xde, 0xf0, 0xff, 0xee, 0xdd, 0xcc, 0xbb, 0xaa, 0x99, 0x88];
    let plan = prepare_download("u/f", None, "o", 1, 1, bytes);
    assert_eq!(plan.download_id, uuid::Builder::from_random_bytes(bytes).into_uuid().to_string());
    assert_eq!(plan.download_id, "12345678-9abc-4ef0-bfee-ddccbbaa9988");
}

#[test]
fn bad_thread_counts_are_refused() {
    assert!(try_prepare_download("u/f", None, "o", 0, 100, [0; 16]).is_none());
    assert!(try_prepare_download("u/f", None, "o", 101, 100, [0; 16]).is_none());
    assert!(try_prepare_download("u/f", None, "o", 1, 0, [0; 16]).is_none());
    let plan = try_prepare_download("u/f", None, "o", 100, 100, [0; 16]).unwrap();
    assert_eq!(plan.chunks.len(), 100);
    assert_eq!(plan.filename, "f");
}

#[test]
fn counter_counts() {
    let mut counter = CompletionCounter::new(2);
    assert_eq!(counter.completed_count(), 0);
    counter.record_chunk_done();
    assert_eq!(counter.completed_count(), 1);
}
