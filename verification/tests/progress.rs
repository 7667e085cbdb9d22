use cli_downloader::error::DownloadError;
use cli_downloader::progress::{report_step, ProgressEvent};

#[test]
fn report_lines() {
    assert_eq!(
        report_step(&Some(ProgressEvent::ByteDownloaded(2, 4096))),
        ("Chunk 2 :4096 bytes received".to_string(), true)
    );
    assert_eq!(report_step(&Some(ProgressEvent::ChunkComplete(0))), ("Chunk 0 completed".to_string(), true));
    assert_eq!(
        report_step(&Some(ProgressEvent::Error(3, "timed out".to_string()))),
        ("Chunk 3 error : timed out".to_string(), true)
    );
    assert_eq!(report_step(&None), ("All task finised!".to_string(), false));
}

#[test]
fn error_messages() {
    assert_eq!(DownloadError::NetworkError("boom".to_string()).message(), "Network error: boom");
    assert_eq!(DownloadError::DiskError("full".to_string()).message(), "Disk error : full");
    assert_eq!(DownloadError::RangeNotSupported.message(), "Server Does not support range requests");
    assert_eq!(DownloadError::InvalidUrl("x".to_string()).message(), "Invalid Url: x");
    assert_eq!(DownloadError::UnknownFileSize.message(), "File size unknown");
}
