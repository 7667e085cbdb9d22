use vstd::prelude::*;

verus! {

/// Everything that can go wrong while downloading. Failures of the network
/// and of the disk carry the message of the underlying error.
#[derive(Debug)]
pub enum DownloadError {
    /// The HTTP request failed.
    NetworkError(String),
    /// Reading or writing the output file failed.
    DiskError(String),
    /// The server does not accept `Range` requests.
    RangeNotSupported,
    /// The URL could not be used.
    InvalidUrl(String),
    /// The server did not report a usable `content-length`.
    UnknownFileSize,
}

/// The text shown for an error.
pub open spec fn error_message(e: DownloadError) -> Seq<char> {
    match e {
        DownloadError::NetworkError(m) => "Network error: "@ + m@,
        DownloadError::DiskError(m) => "Disk error : "@ + m@,
        DownloadError::RangeNotSupported => "Server Does not support range requests"@,
        DownloadError::InvalidUrl(u) => "Invalid Url: "@ + u@,
        DownloadError::UnknownFileSize => "File size unknown"@,
    }
}

impl DownloadError {
    /// The text shown for this error (what `to_string` gives).
    pub fn message(&self) -> (m: String)
        ensures
            m@ == error_message(*self),
    {
        match self {
            DownloadError::NetworkError(msg) => String::from_str("Network error: ").concat(msg.as_str()),
            DownloadError::DiskError(msg) => String::from_str("Disk error : ").concat(msg.as_str()),
            DownloadError::RangeNotSupported => String::from_str("Server Does not support range requests"),
            DownloadError::InvalidUrl(url) => String::from_str("Invalid Url: ").concat(url.as_str()),
            DownloadError::UnknownFileSize => String::from_str("File size unknown"),
        }
    }
}

} // verus!
