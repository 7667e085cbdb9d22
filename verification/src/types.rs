use vstd::prelude::*;

verus! {

/// One byte range of a download: bytes `start_byte..=end_byte` of the file,
/// fetched by its own task.
#[derive(Debug, Clone)]
pub struct Chunk {
    /// Position of the chunk in the plan (0, 1, 2, ...).
    pub id: usize,
    /// First byte of the chunk.
    pub start_byte: u64,
    /// Last byte of the chunk (inclusive).
    pub end_byte: u64,
}

impl Chunk {
    /// Number of bytes the chunk covers.
    pub open spec fn byte_len(self) -> int {
        self.end_byte - self.start_byte + 1
    }

    /// Whether byte `offset` of the file falls inside this chunk.
    pub open spec fn holds(self, offset: int) -> bool {
        self.start_byte <= offset <= self.end_byte
    }

    /// Number of bytes the chunk covers.
    pub fn size(&self) -> (n: u64)
        requires
            self.start_byte <= self.end_byte,
            self.end_byte - self.start_byte < u64::MAX,
        ensures
            n == self.byte_len(),
    {
        self.end_byte - self.start_byte + 1
    }
}

/// What the user asked for: where to fetch from, where to save, how many
/// parallel tasks to use.
#[derive(Debug, Clone)]
pub struct DownloadConfig {
    pub url: String,
    pub output_path: String,
    pub threads: usize,
}

/// State of a single chunk.
#[derive(Debug, Clone, PartialEq, Eq, Structural)]
pub enum ChunkStatus {
    Pending,
    Downloading,
    Done,
    Failed,
    Pause,
}

/// What the server told us about a file before downloading it.
#[derive(Debug, Clone)]
pub struct FileMetadata {
    pub file_size: u64,
    pub supports_range: bool,
    pub url: String,
}

} // verus!
