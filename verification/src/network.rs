use vstd::prelude::*;
use crate::types::{Chunk, FileMetadata};
use crate::error::DownloadError;
use crate::text::{
    after_last, before_first, decimal, decimal_text, is_digit, lemma_after_last_of_join,
    lemma_before_first_of_join, lemma_decimal_digits, lemma_decimal_parses_back, parse_u64,
    parse_u64_spec,
};

verus! {

/// A file of `file_size` bytes can be cut into `num_threads` non-empty
/// ranges: there is at least one range and at least one byte per range.
pub open spec fn can_split(file_size: u64, num_threads: usize) -> bool {
    1 <= num_threads && num_threads <= file_size
}

/// Size of every range but the last: `file_size / num_threads`.
pub open spec fn base_chunk_size(file_size: u64, num_threads: usize) -> int {
    file_size as int / num_threads as int
}

/// The `i`-th range of the plan: ranges of `file_size / num_threads` bytes
/// laid end to end from byte 0, the last one stretched to the end of the
/// file so that it also takes the remainder.
pub open spec fn planned_chunk(file_size: u64, num_threads: usize, i: int) -> Chunk {
    let size = base_chunk_size(file_size, num_threads);
    let start = i * size;
    let end = if i == num_threads - 1 { file_size - 1 } else { start + size - 1 };
    Chunk { id: i as usize, start_byte: start as u64, end_byte: end as u64 }
}

/// The whole plan: ranges `0 .. num_threads` in order.
pub open spec fn chunk_plan(file_size: u64, num_threads: usize) -> Seq<Chunk> {
    Seq::new(num_threads as nat, |i: int| planned_chunk(file_size, num_threads, i))
}

proof fn lemma_base_size_bounds(file_size: u64, num_threads: usize)
    requires
        can_split(file_size, num_threads),
    ensures
        base_chunk_size(file_size, num_threads) >= 1,
        num_threads * base_chunk_size(file_size, num_threads) <= file_size,
        file_size - num_threads * base_chunk_size(file_size, num_threads) < num_threads,
{
    let fs = file_size as int;
    let n = num_threads as int;
    let q = fs / n;
    let r = fs % n;
    assert(fs == n * q + r && 0 <= r < n) by (nonlinear_arith)
        requires n > 0, q == fs / n, r == fs % n;
    assert(q >= 1) by (nonlinear_arith)
        requires fs == n * q + r, 0 <= r < n, fs >= n;
}

proof fn lemma_prefix_fits(file_size: u64, num_threads: usize, i: int)
    requires
        can_split(file_size, num_threads),
        0 <= i < num_threads,
    ensures
        0 <= i * base_chunk_size(file_size, num_threads),
        i * base_chunk_size(file_size, num_threads) + base_chunk_size(file_size, num_threads)
            <= file_size,
{
    lemma_base_size_bounds(file_size, num_threads);
    let s = base_chunk_size(file_size, num_threads);
    let n = num_threads as int;
    assert(0 <= i * s && i * s + s <= n * s) by (nonlinear_arith)
        requires 0 <= i < n, s >= 1;
}

/// Cuts a file of `file_size` bytes into `num_threads` byte ranges, one per
/// download task (see `planned_chunk` for the exact ranges).
pub fn calculate_chunks(file_size: u64, num_threads: usize) -> (chunks: Vec<Chunk>)
    requires
        can_split(file_size, num_threads),
    ensures
        chunks@ == chunk_plan(file_size, num_threads),
{
    let chunk_size = file_size / num_threads as u64;
    let mut chunks: Vec<Chunk> = Vec::new();
    let mut i: usize = 0;
    proof {
        lemma_base_size_bounds(file_size, num_threads);
    }
    while i < num_threads
        invariant
            can_split(file_size, num_threads),
            chunk_size == base_chunk_size(file_size, num_threads),
            chunk_size >= 1,
            i <= num_threads,
            chunks@.len() == i,
            forall|j: int| 0 <= j < i ==> chunks@[j] == planned_chunk(file_size, num_threads, j),
        decreases num_threads - i,
    {
        proof {
            lemma_prefix_fits(file_size, num_threads, i as int);
        }
        let start_byte = i as u64 * chunk_size;
        let end_byte = if i == num_threads - 1 {
            file_size - 1
        } else {
            start_byte + chunk_size - 1
        };
        chunks.push(Chunk { id: i, start_byte, end_byte });
        i = i + 1;
    }
    assert(chunks@ =~= chunk_plan(file_size, num_threads));
    chunks
}

/// The chunks of `calculate_chunks`, or `None` when the file cannot be cut
/// into `num_threads` non-empty ranges.
pub fn try_calculate_chunks(file_size: u64, num_threads: usize) -> (r: Option<Vec<Chunk>>)
    ensures
        r is None <==> !can_split(file_size, num_threads),
        r is None <==> (num_threads == 0 || num_threads > file_size),
        r matches Some(chunks) ==> chunks@ == chunk_plan(file_size, num_threads),
{
    if num_threads == 0 || num_threads as u64 > file_size {
        None
    } else {
        Some(calculate_chunks(file_size, num_threads))
    }
}

/// Number of bytes covered by a sequence of chunks, counted chunk by chunk.
pub open spec fn total_bytes(chunks: Seq<Chunk>) -> int
    decreases chunks.len(),
{
    if chunks.len() == 0 {
        0
    } else {
        total_bytes(chunks.drop_last()) + chunks.last().byte_len()
    }
}

/// The plan has one chunk per task, numbered in order; it starts at byte 0,
/// ends at the last byte of the file, every chunk is non-empty, each chunk
/// starts right after the previous one ends, every chunk but the last holds
/// `file_size / num_threads` bytes and the last one also takes the remainder.
#[verifier::spinoff_prover]
pub proof fn lemma_plan_is_contiguous(file_size: u64, num_threads: usize)
    requires
        can_split(file_size, num_threads),
    ensures
        chunk_plan(file_size, num_threads).len() == num_threads,
        chunk_plan(file_size, num_threads)[0].start_byte == 0,
        chunk_plan(file_size, num_threads)[num_threads - 1].end_byte == file_size - 1,
        forall|i: int|
            0 <= i < num_threads ==> {
                &&& #[trigger] chunk_plan(file_size, num_threads)[i].id == i
                &&& chunk_plan(file_size, num_threads)[i].start_byte
                    <= chunk_plan(file_size, num_threads)[i].end_byte
            },
        forall|i: int|
            0 <= i < num_threads - 1 ==> {
                &&& #[trigger] chunk_plan(file_size, num_threads)[i + 1].start_byte
                    == chunk_plan(file_size, num_threads)[i].end_byte + 1
                &&& chunk_plan(file_size, num_threads)[i].byte_len() == file_size as int
                    / num_threads as int
            },
        chunk_plan(file_size, num_threads)[num_threads - 1].byte_len() == file_size as int
            / num_threads as int + file_size as int % num_threads as int,
{
    let plan = chunk_plan(file_size, num_threads);
    let s = base_chunk_size(file_size, num_threads);
    let n = num_threads as int;
    let fs = file_size as int;
    lemma_base_size_bounds(file_size, num_threads);
    assert forall|i: int| 0 <= i < num_threads implies {
        &&& #[trigger] chunk_plan(file_size, num_threads)[i].id == i
        &&& chunk_plan(file_size, num_threads)[i].start_byte
            <= chunk_plan(file_size, num_threads)[i].end_byte
    } by {
        lemma_prefix_fits(file_size, num_threads, i);
    }
    assert forall|i: int| 0 <= i < n - 1 implies {
        &&& #[trigger] plan[i + 1].start_byte == plan[i].end_byte + 1
        &&& plan[i].byte_len() == s
    } by {
        lemma_prefix_fits(file_size, num_threads, i);
        lemma_prefix_fits(file_size, num_threads, i + 1);
        assert((i + 1) * s == i * s + s) by (nonlinear_arith);
    }
    lemma_prefix_fits(file_size, num_threads, n - 1);
    assert(fs == n * s + fs % n) by (nonlinear_arith)
        requires n > 0, s == fs / n;
    assert((n - 1) * s == n * s - s) by (nonlinear_arith);
    assert(plan[0].start_byte == 0) by {
        assert(0 * s == 0) by (nonlinear_arith);
    }
}

/// Every byte of the file belongs to exactly one chunk of the plan; the
/// returned index names that chunk.
pub proof fn lemma_plan_covers_each_byte_once(file_size: u64, num_threads: usize, offset: int) -> (owner: int)
    requires
        can_split(file_size, num_threads),
        0 <= offset < file_size,
    ensures
        0 <= owner < num_threads,
        chunk_plan(file_size, num_threads)[owner].holds(offset),
        forall|j: int|
            0 <= j < num_threads && j != owner ==> !(#[trigger] chunk_plan(
                file_size,
                num_threads,
            )[j].holds(offset)),
{
    let plan = chunk_plan(file_size, num_threads);
    let s = base_chunk_size(file_size, num_threads);
    let n = num_threads as int;
    lemma_base_size_bounds(file_size, num_threads);
    lemma_plan_is_contiguous(file_size, num_threads);
    let q = offset / s;
    assert(s * q <= offset < s * q + s) by (nonlinear_arith)
        requires s >= 1, q == offset / s, offset >= 0;
    let owner = if q < n - 1 { q } else { n - 1 };
    assert(0 <= q) by (nonlinear_arith) requires s >= 1, q == offset / s, offset >= 0;
    lemma_prefix_fits(file_size, num_threads, owner);
    assert(owner * s <= offset) by (nonlinear_arith)
        requires s * q <= offset, owner <= q, s >= 1, owner >= 0;
    assert forall|j: int| 0 <= j < n && j != owner implies !(#[trigger] plan[j].holds(offset)) by {
        lemma_prefix_fits(file_size, num_threads, j);
        if j < owner {
            assert(j * s + s <= owner * s) by (nonlinear_arith)
                requires j < owner, s >= 1;
        } else {
            assert(owner < n - 1);
            assert(s * q + s <= j * s) by (nonlinear_arith)
                requires j > q, s >= 1;
        }
    }
    owner
}

proof fn lemma_total_of_prefix(file_size: u64, num_threads: usize, k: int)
    requires
        can_split(file_size, num_threads),
        1 <= k <= num_threads,
    ensures
        total_bytes(chunk_plan(file_size, num_threads).take(k)) == chunk_plan(
            file_size,
            num_threads,
        )[k - 1].end_byte + 1,
    decreases k,
{
    let plan = chunk_plan(file_size, num_threads);
    lemma_plan_is_contiguous(file_size, num_threads);
    assert(plan.take(k).drop_last() =~= plan.take(k - 1));
    assert(plan.take(k).last() == plan[k - 1]);
    assert(total_bytes(plan.take(k)) == total_bytes(plan.take(k - 1)) + plan[k - 1].byte_len());
    if k == 1 {
        assert(plan.take(0) =~= Seq::<Chunk>::empty());
        assert(total_bytes(plan.take(0)) == 0);
    } else {
        lemma_total_of_prefix(file_size, num_threads, k - 1);
        let i = k - 2;
        assert(plan[i + 1].start_byte == plan[i].end_byte + 1);
    }
}

/// The chunk sizes of the plan add up to the size of the file.
pub proof fn lemma_plan_total_is_file_size(file_size: u64, num_threads: usize)
    requires
        can_split(file_size, num_threads),
    ensures
        total_bytes(chunk_plan(file_size, num_threads)) == file_size,
{
    let plan = chunk_plan(file_size, num_threads);
    lemma_plan_is_contiguous(file_size, num_threads);
    lemma_total_of_prefix(file_size, num_threads, num_threads as int);
    assert(plan.take(num_threads as int) =~= plan);
}

/// One response header as the server sent it: its name in lower case, and
/// its value when that value is visible ASCII text (`None` otherwise).
#[derive(Debug, Clone)]
pub struct HeaderEntry {
    pub name: String,
    pub value: Option<String>,
}

/// The headers of a response; the values of one name come in the order the
/// server sent them.
#[derive(Debug, Clone)]
pub struct HeaderList {
    pub entries: Vec<HeaderEntry>,
}

/// The text of an optional string.
pub open spec fn opt_text(v: Option<String>) -> Option<Seq<char>> {
    match v {
        Some(s) => Some(s@),
        None => None,
    }
}

/// The value of the first header called `name`, when there is such a header
/// and its value is text; `None` otherwise.
pub open spec fn header_text(entries: Seq<HeaderEntry>, name: Seq<char>) -> Option<Seq<char>>
    decreases entries.len(),
{
    if entries.len() == 0 {
        None
    } else if entries[0].name@ == name {
        opt_text(entries[0].value)
    } else {
        header_text(entries.drop_first(), name)
    }
}

/// The file size the server announced in `content-length`, when it is a
/// number that fits in 64 bits.
pub open spec fn announced_size(entries: Seq<HeaderEntry>) -> Option<u64> {
    match header_text(entries, "content-length"@) {
        Some(t) => parse_u64_spec(t),
        None => None,
    }
}

/// Whether the header `name` is present with exactly the value `bytes`.
pub open spec fn header_says_bytes(entries: Seq<HeaderEntry>, name: Seq<char>) -> bool {
    header_text(entries, name) == Some("bytes"@)
}

impl HeaderList {
    /// The value of the first header called `name` (names are lower case),
    /// as `HeaderMap::get` followed by `to_str` gives it.
    pub fn text_of(&self, name: &str) -> (r: Option<String>)
        ensures
            opt_text(r) == header_text(self.entries@, name@),
    {
        let n = self.entries.len();
        let wanted = name.to_owned();
        let mut i: usize = 0;
        assert(self.entries@.skip(0) =~= self.entries@);
        while i < n
            invariant
                n == self.entries@.len(),
                i <= n,
                wanted@ == name@,
                header_text(self.entries@, name@) == header_text(self.entries@.skip(i as int), name@),
            decreases n - i,
        {
            assert(self.entries@.skip(i as int)[0] == self.entries@[i as int]);
            if self.entries[i].name == wanted {
                return match &self.entries[i].value {
                    Some(v) => Some(v.clone()),
                    None => None,
                };
            }
            assert(self.entries@.skip(i as int).drop_first() =~= self.entries@.skip(i + 1));
            i = i + 1;
        }
        assert(self.entries@.skip(n as int) =~= Seq::<HeaderEntry>::empty());
        None
    }
}

/// Whether the value of header `name` is `bytes`.
pub fn header_is_bytes(headers: &HeaderList, name: &str) -> (r: bool)
    ensures
        r == header_says_bytes(headers.entries@, name@),
{
    match headers.text_of(name) {
        Some(v) => crate::text::same_text(v.as_str(), "bytes"),
        None => false,
    }
}

/// The size in `content-length`, read as a 64-bit number.
pub fn content_length(headers: &HeaderList) -> (r: Option<u64>)
    ensures
        r == announced_size(headers.entries@),
{
    match headers.text_of("content-length") {
        Some(t) => parse_u64(t.as_str()),
        None => None,
    }
}

/// What a `HEAD` response tells about the file at `url`: its size from
/// `content-length` (`UnknownFileSize` when missing or not a number) and
/// whether the `accept-ranges` header says `bytes`.
pub fn metadata_from_headers(url: &str, headers: &HeaderList) -> (r: Result<FileMetadata, DownloadError>)
    ensures
        match announced_size(headers.entries@) {
            Some(size) => r matches Ok(m) && m.file_size == size && m.url@ == url@
                && m.supports_range == header_says_bytes(headers.entries@, "accept-ranges"@),
            None => r matches Err(DownloadError::UnknownFileSize),
        },
{
    match content_length(headers) {
        Some(file_size) => {
            let supports_range = header_is_bytes(headers, "accept-ranges");
            Ok(FileMetadata { file_size, supports_range, url: url.to_owned() })
        },
        None => Err(DownloadError::UnknownFileSize),
    }
}

/// The value of the `Range` header that asks for exactly the bytes of
/// `chunk`: `bytes=<start>-<end>`.
pub open spec fn range_text(chunk: Chunk) -> Seq<char> {
    "bytes="@ + decimal(chunk.start_byte as nat) + "-"@ + decimal(chunk.end_byte as nat)
}

/// The `Range` header asks for exactly the chunk's bytes: after `bytes=`,
/// the text before the `-` reads back as the first byte and the text after
/// it as the last byte.
pub proof fn lemma_range_text_reads_back(chunk: Chunk)
    ensures
        range_text(chunk).take(6) == "bytes="@,
        parse_u64_spec(before_first(range_text(chunk).skip(6), '-')) == Some(chunk.start_byte),
        parse_u64_spec(after_last(range_text(chunk), '-')) == Some(chunk.end_byte),
{
    reveal_strlit("bytes=");
    reveal_strlit("-");
    let s = decimal(chunk.start_byte as nat);
    let e = decimal(chunk.end_byte as nat);
    lemma_decimal_digits(chunk.start_byte as nat);
    lemma_decimal_digits(chunk.end_byte as nat);
    lemma_decimal_parses_back(chunk.start_byte);
    lemma_decimal_parses_back(chunk.end_byte);
    assert forall|i: int| 0 <= i < s.len() implies #[trigger] s[i] != '-' by {
        assert(is_digit(s[i]));
    }
    assert forall|i: int| 0 <= i < e.len() implies #[trigger] e[i] != '-' by {
        assert(is_digit(e[i]));
    }
    let t = range_text(chunk);
    assert(t.take(6) =~= "bytes="@);
    assert(t.skip(6) =~= s + ("-"@ + e));
    lemma_before_first_of_join(s, "-"@ + e, '-');
    assert(t =~= ("bytes="@ + s + "-"@) + e);
    lemma_after_last_of_join("bytes="@ + s + "-"@, e, '-');
}

/// Builds the `Range` header value for a chunk.
pub fn range_header_value(chunk: &Chunk) -> (r: String)
    ensures
        r@ == range_text(*chunk),
{
    let mut r = String::from_str("bytes=");
    r.append(decimal_text(chunk.start_byte).as_str());
    r.append("-");
    r.append(decimal_text(chunk.end_byte).as_str());
    r
}

/// Whether an HTTP status code means success (200 to 299).
pub fn is_success_status(status: u16) -> (ok: bool)
    ensures
        ok == (200 <= status < 300),
{
    200 <= status && status < 300
}

/// A file can be split among any number of tasks from 1 up to its size in
/// bytes; the size need not be a multiple of the number of tasks (the last
/// chunk then takes the remainder).
pub proof fn lemma_any_thread_count_up_to_size_splits(file_size: u64, num_threads: usize)
    requires
        1 <= num_threads,
        num_threads <= file_size,
    ensures
        can_split(file_size, num_threads),
        chunk_plan(file_size, num_threads).len() == num_threads,
        chunk_plan(file_size, num_threads)[num_threads - 1].end_byte == file_size - 1,
{
    lemma_plan_is_contiguous(file_size, num_threads);
}

/// When the first `content-length` header of a response holds the decimal
/// text of a number, that number is the announced size, whatever other
/// headers there are.
pub proof fn lemma_announced_size_is_the_number(entries: Seq<HeaderEntry>, n: u64)
    requires
        header_text(entries, "content-length"@) == Some(decimal(n as nat)),
    ensures
        announced_size(entries) == Some(n),
{
    lemma_decimal_parses_back(n);
}

/// A header is found wherever it stands: the first header called `name`
/// gives its text, whatever comes before it (under other names) and however
/// many headers follow it.
pub proof fn lemma_first_header_is_found(
    prefix: Seq<HeaderEntry>,
    entry: HeaderEntry,
    rest: Seq<HeaderEntry>,
    name: Seq<char>,
)
    requires
        forall|i: int| 0 <= i < prefix.len() ==> (#[trigger] prefix[i]).name@ != name,
        entry.name@ == name,
    ensures
        header_text(prefix + seq![entry] + rest, name) == opt_text(entry.value),
    decreases prefix.len(),
{
    let all = prefix + seq![entry] + rest;
    if prefix.len() == 0 {
        assert(all[0] == entry);
    } else {
        assert(all[0] == prefix[0]);
        assert(all.drop_first() =~= prefix.drop_first() + seq![entry] + rest);
        assert forall|i: int| 0 <= i < prefix.drop_first().len() implies (#[trigger] prefix.drop_first()[i]).name@ != name by {
            assert(prefix.drop_first()[i] == prefix[i + 1]);
        }
        lemma_first_header_is_found(prefix.drop_first(), entry, rest, name);
    }
}

/// A header that does not occur at all is not found.
pub proof fn lemma_missing_header_is_not_found(entries: Seq<HeaderEntry>, name: Seq<char>)
    requires
        forall|i: int| 0 <= i < entries.len() ==> (#[trigger] entries[i]).name@ != name,
    ensures
        header_text(entries, name) == None::<Seq<char>>,
    decreases entries.len(),
{
    if entries.len() > 0 {
        assert forall|i: int| 0 <= i < entries.drop_first().len() implies (#[trigger] entries.drop_first()[i]).name@ != name by {
            assert(entries.drop_first()[i] == entries[i + 1]);
        }
        lemma_missing_header_is_not_found(entries.drop_first(), name);
    }
}

/// A header whose first occurrence reads exactly `bytes` says `bytes`,
/// wherever it stands among the headers.
pub proof fn lemma_bytes_header_is_recognised(
    prefix: Seq<HeaderEntry>,
    entry: HeaderEntry,
    rest: Seq<HeaderEntry>,
    name: Seq<char>,
)
    requires
        forall|i: int| 0 <= i < prefix.len() ==> (#[trigger] prefix[i]).name@ != name,
        entry.name@ == name,
        entry.value matches Some(v) && v@ == seq!['b', 'y', 't', 'e', 's'],
    ensures
        header_says_bytes(prefix + seq![entry] + rest, name),
{
    reveal_strlit("bytes");
    lemma_first_header_is_found(prefix, entry, rest, name);
    assert("bytes"@ =~= seq!['b', 'y', 't', 'e', 's']);
}

} // verus!
