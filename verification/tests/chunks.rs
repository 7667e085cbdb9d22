use cli_downloader::network::{calculate_chunks, range_header_value, try_calculate_chunks};
use cli_downloader::types::Chunk;

fn spans(chunks: &[Chunk]) -> Vec<(usize, u64, u64)> {
    chunks.iter().map(|c| (c.id, c.start_byte, c.end_byte)).collect()
}

#[test]
fn chunks_split_evenly() {
    let chunks = calculate_chunks(100, 4);
    assert_eq!(spans(&chunks), vec![(0, 0, 24), (1, 25, 49), (2, 50, 74), (3, 75, 99)]);
}

#[test]
fn last_chunk_takes_the_remainder() {
    let chunks = calculate_chunks(10, 3);
    assert_eq!(spans(&chunks), vec![(0, 0, 2), (1, 3, 5), (2, 6, 9)]);
    let sizes: Vec<u64> = chunks.iter().map(|c| c.size()).collect();
    assert_eq!(sizes, vec![3, 3, 4]);
}

#[test]
fn single_thread_gets_whole_file() {
    let chunks = calculate_chunks(1, 1);
    assert_eq!(spans(&chunks), vec![(0, 0, 0)]);
    let chunks = calculate_chunks(5_000_000, 1);
    assert_eq!(spans(&chunks), vec![(0, 0, 4_999_999)]);
}

#[test]
fn one_byte_per_thread() {
    let chunks = calculate_chunks(3, 3);
    assert_eq!(spans(&chunks), vec![(0, 0, 0), (1, 1, 1), (2, 2, 2)]);
}

#[test]
fn chunks_cover_every_byte_once() {
    for (size, threads) in [(97u64, 8usize), (1000, 7), (64, 64), (12345, 10)] {
        let chunks = calculate_chunks(size, threads);
        assert_eq!(chunks.len(), threads);
        assert_eq!(chunks[0].start_byte, 0);
        assert_eq!(chunks[threads - 1].end_byte, size - 1);
        for w in chunks.windows(2) {
            assert_eq!(w[1].start_byte, w[0].end_byte + 1);
        }
        let total: u64 = chunks.iter().map(|c| c.size()).sum();
        assert_eq!(total, size);
    }
}

#[test]
fn huge_file_does_not_overflow() {
    let chunks = calculate_chunks(u64::MAX, 2);
    assert_eq!(chunks[0].end_byte, u64::MAX / 2 - 1);
    assert_eq!(chunks[1].start_byte, u64::MAX / 2);
    assert_eq!(chunks[1].end_byte, u64::MAX - 1);
}

#[test]
fn range_header_names_the_chunk_bytes() {
    let chunk = Chunk { id: 2, start_byte: 50, end_byte: 74 };
    assert_eq!(range_header_value(&chunk), "bytes=50-74");
    let chunk = Chunk { id: 0, start_byte: 0, end_byte: 18446744073709551614 };
    assert_eq!(range_header_value(&chunk), "bytes=0-18446744073709551614");
}

#[test]
fn checked_split_refuses_impossible_counts() {
    assert!(try_calculate_chunks(10, 0).is_none());
    assert!(try_calculate_chunks(3, 4).is_none());
    assert!(try_calculate_chunks(0, 1).is_none());
    assert_eq!(spans(&try_calculate_chunks(4, 4).unwrap()), vec![(0, 0, 0), (1, 1, 1), (2, 2, 2), (3, 3, 3)]);
}

#[test]
fn size_of_widest_chunk() {
    let chunk = Chunk { id: 0, start_byte: 1, end_byte: u64::MAX };
    assert_eq!(chunk.size(), u64::MAX);
}
